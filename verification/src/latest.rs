//! Finding the newest published version of a package: the commands and addresses
//! asked, and how their answers are read.

use vstd::prelude::*;
use crate::command::{texts, CommandOutcome, ManagerCommand, OutcomeV};
use crate::json::{
    get_at, get_key, json_document, parse_json, text_of, text_opt, text_view, then_key, Json, JsonV,
};
use crate::text::{
    chars_of, contains_chars, contains_seq, line_bounds, lines, split, split_bounds, string_of,
    trim, trim_chars, lemma_split_nonempty, lemma_split_join, lemma_trim_idempotent,
    lemma_trim_keeps_absence,
};

verus! {

fn command3(program: &str, a: &str, b: &str, c: &str) -> (r: ManagerCommand)
    ensures
        r@ == (program@, seq![a@, b@, c@]),
{
    let args = vec![a.to_owned(), b.to_owned(), c.to_owned()];
    assert(texts(args@) =~= seq![a@, b@, c@]);
    ManagerCommand { program: program.to_owned(), args }
}

/// `npm view <package> version`.
pub fn npm_view_command(package: &str) -> (r: ManagerCommand)
    ensures
        r@ == ("npm"@, seq!["view"@, package@, "version"@]),
{
    command3("npm", "view", package, "version")
}

/// What `npm view` answers: its trimmed output, where it succeeded and printed more
/// than whitespace.
pub open spec fn npm_view_latest(o: OutcomeV) -> Option<Seq<char>> {
    match o {
        OutcomeV::Finished { success, stdout, .. } => if success && trim(stdout).len() > 0 {
            Some(trim(stdout))
        } else {
            None
        },
        _ => None,
    }
}

/// The newest version that `npm view <package> version` reported.
pub fn npm_latest_version(outcome: &CommandOutcome) -> (r: Option<String>)
    ensures
        text_view(r) == npm_view_latest(outcome@),
{
    match outcome {
        CommandOutcome::Finished { success, stdout, .. } => {
            if !*success {
                return None;
            }
            let chars = chars_of(stdout.as_str());
            let v = trim_chars(&chars);
            if v.len() > 0 {
                Some(string_of(v))
            } else {
                None
            }
        },
        CommandOutcome::Failed(_) => None,
    }
}

/// `pip index versions <package>`.
pub fn pip_index_command(package: &str) -> (r: ManagerCommand)
    ensures
        r@ == ("pip"@, seq!["index"@, "versions"@, package@]),
{
    command3("pip", "index", "versions", package)
}

/// A line of `pip index versions`: on the line holding `AVAILABLE VERSIONS`, the
/// first of the comma-separated versions after its first colon, where there is one.
pub open spec fn pip_index_line(line: Seq<char>) -> Option<Seq<char>> {
    if contains_seq(line, "AVAILABLE VERSIONS"@) {
        let parts = split(line, ':');
        if parts.len() > 1 {
            let latest = trim(split(trim(parts[1]), ',')[0]);
            if latest.len() > 0 { Some(latest) } else { None }
        } else {
            None
        }
    } else {
        None
    }
}

/// The first line that `pip_index_line` reads a version from.
pub open spec fn pip_index_first(ls: Seq<Seq<char>>) -> Option<Seq<char>>
    decreases ls.len(),
{
    if ls.len() == 0 {
        None
    } else {
        match pip_index_line(ls[0]) {
            Some(v) => Some(v),
            None => pip_index_first(ls.drop_first()),
        }
    }
}

/// What `pip index versions` answers.
pub open spec fn pip_index_latest(o: OutcomeV) -> Option<Seq<char>> {
    match o {
        OutcomeV::Finished { success, stdout, .. } => if success {
            pip_index_first(lines(stdout))
        } else {
            None
        },
        _ => None,
    }
}

fn pip_index_line_exec(line: &[char], marker: &[char]) -> (r: Option<String>)
    requires
        marker@ == "AVAILABLE VERSIONS"@,
    ensures
        text_view(r) == pip_index_line(line@),
{
    if !contains_chars(line, marker) {
        return None;
    }
    let parts = split_bounds(line, ':');
    if parts.len() > 1 {
        let ghost ps = split(line@, ':');
        assert(line@.subrange(parts@[1].0 as int, parts@[1].1 as int) == ps[1]);
        let versions = trim_chars(&line[parts[1].0..parts[1].1]);
        let pieces = split_bounds(versions, ',');
        proof { lemma_split_nonempty(versions@, ','); }
        assert(versions@.subrange(pieces@[0].0 as int, pieces@[0].1 as int) == split(versions@, ',')[0]);
        let latest = trim_chars(&versions[pieces[0].0..pieces[0].1]);
        if latest.len() > 0 {
            Some(string_of(latest))
        } else {
            None
        }
    } else {
        None
    }
}

/// The newest version that `pip index versions <package>` reported.
pub fn pip_index_latest_version(outcome: &CommandOutcome) -> (r: Option<String>)
    ensures
        text_view(r) == pip_index_latest(outcome@),
{
    match outcome {
        CommandOutcome::Finished { success, stdout, .. } => {
            if !*success {
                return None;
            }
            let chars = chars_of(stdout.as_str());
            let marker = chars_of("AVAILABLE VERSIONS");
            let bounds = line_bounds(&chars);
            let ghost ls = lines(chars@);
            let mut k: usize = 0;
            assert(ls.skip(0) =~= ls);
            assert(pip_index_latest(outcome@) == pip_index_first(ls));
            while k < bounds.len()
                invariant
                    k <= bounds@.len() == ls.len(),
                    ls == lines(chars@),
                    marker@ == "AVAILABLE VERSIONS"@,
                    forall|j: int|
                        #![trigger bounds@[j]]
                        0 <= j < bounds@.len() ==> bounds@[j].0 <= bounds@[j].1 <= chars@.len()
                            && chars@.subrange(bounds@[j].0 as int, bounds@[j].1 as int) == ls[j],
                    pip_index_first(ls) == pip_index_first(ls.skip(k as int)),
                    pip_index_latest(outcome@) == pip_index_first(ls),
                decreases bounds@.len() - k,
            {
                let (a, b) = bounds[k];
                assert(chars@.subrange(a as int, b as int) == ls[k as int]);
                assert(ls.skip(k as int)[0] == ls[k as int]);
                assert(ls.skip(k as int).drop_first() =~= ls.skip(k + 1));
                let v = pip_index_line_exec(&chars[a..b], &marker);
                if v.is_some() {
                    return v;
                }
                k = k + 1;
            }
            assert(ls.skip(k as int).len() == 0);
            None
        },
        CommandOutcome::Failed(_) => None,
    }
}

/// `https://pypi.org/pypi/<package>/json`.
pub open spec fn pypi_url(package: Seq<char>) -> Seq<char> {
    "https://pypi.org/pypi/"@ + package + "/json"@
}

/// The address of the PyPI record of `package`.
pub fn pypi_json_url(package: &str) -> (r: String)
    ensures
        r@ == pypi_url(package@),
{
    "https://pypi.org/pypi/".to_owned().concat(package).concat("/json")
}

/// The next move of a pip lookup after `pip index versions`.
pub enum PipAnswer {
    /// The index named the newest version.
    Version(String),
    /// It did not: ask PyPI at this address.
    AskPyPI(String),
}

/// The newest version `pip index versions <package>` reported, or else the PyPI
/// address to ask.
pub fn pip_next_step(package: &str, outcome: &CommandOutcome) -> (r: PipAnswer)
    ensures
        match r {
            PipAnswer::Version(v) => pip_index_latest(outcome@) == Some(v@),
            PipAnswer::AskPyPI(url) => pip_index_latest(outcome@) is None && url@ == pypi_url(
                package@,
            ),
        },
{
    match pip_index_latest_version(outcome) {
        Some(v) => PipAnswer::Version(v),
        None => PipAnswer::AskPyPI(pypi_json_url(package)),
    }
}

/// The text at `info.version` of a PyPI record.
pub open spec fn pypi_latest(doc: JsonV) -> Option<Seq<char>> {
    text_of(then_key(get_key(doc, "info"@), "version"@))
}

/// The newest version in a PyPI record.
pub fn pypi_latest_version(doc: &Json) -> (r: Option<String>)
    ensures
        text_view(r) == pypi_latest(doc@),
{
    match doc.get("info") {
        Some(info) => text_opt(info.get("version")),
        None => None,
    }
}

/// `https://crates.io/api/v1/crates/<package>`.
pub open spec fn crates_url(package: Seq<char>) -> Seq<char> {
    "https://crates.io/api/v1/crates/"@ + package
}

/// The address of the crates.io record of `package`.
pub fn crates_io_url(package: &str) -> (r: String)
    ensures
        r@ == crates_url(package@),
{
    "https://crates.io/api/v1/crates/".to_owned().concat(package)
}

/// The text at `crate.newest_version` of a crates.io record.
pub open spec fn crates_newest(doc: JsonV) -> Option<Seq<char>> {
    text_of(then_key(get_key(doc, "crate"@), "newest_version"@))
}

/// The newest version in a crates.io record.
pub fn crates_newest_version(doc: &Json) -> (r: Option<String>)
    ensures
        text_view(r) == crates_newest(doc@),
{
    match doc.get("crate") {
        Some(c) => text_opt(c.get("newest_version")),
        None => None,
    }
}

/// `brew info <package> --json`.
pub fn brew_info_command(package: &str) -> (r: ManagerCommand)
    ensures
        r@ == ("brew"@, seq!["info"@, package@, "--json"@]),
{
    command3("brew", "info", package, "--json")
}

/// The text at `[0].versions.stable` of what `brew info --json` printed.
pub open spec fn brew_stable(doc: JsonV) -> Option<Seq<char>> {
    text_of(then_key(then_key(get_at(doc, 0), "versions"@), "stable"@))
}

/// What `brew info --json` answers: the stable version in the JSON document it
/// printed, where it succeeded and printed one.
pub open spec fn brew_info_latest(o: OutcomeV) -> Option<Seq<char>> {
    match o {
        OutcomeV::Finished { success: true, stdout, .. } => match json_document(stdout) {
            Some(d) => brew_stable(d),
            None => None,
        },
        _ => None,
    }
}

/// The newest version that `brew info <package> --json` reported.
pub fn brew_latest_version(outcome: &CommandOutcome) -> (r: Option<String>)
    ensures
        text_view(r) == brew_info_latest(outcome@),
{
    match outcome {
        CommandOutcome::Finished { success: true, stdout, .. } => match parse_json(stdout.as_str()) {
            Some(d) => match d.get_index(0) {
                Some(first) => match first.get("versions") {
                    Some(v) => text_opt(v.get("stable")),
                    None => None,
                },
                None => None,
            },
            None => None,
        },
        _ => None,
    }
}

/// A version `npm view` reports is never empty and has no surrounding whitespace.
pub proof fn lemma_npm_view_latest_trimmed(o: OutcomeV)
    ensures
        npm_view_latest(o) matches Some(v) ==> v.len() > 0 && trim(v) == v,
{
    if let OutcomeV::Finished { stdout, .. } = o {
        lemma_trim_idempotent(stdout);
    }
}

/// A version read from `pip index versions` is never empty, has no surrounding
/// whitespace, and holds no comma.
pub proof fn lemma_pip_index_latest_shape(o: OutcomeV)
    ensures
        pip_index_latest(o) matches Some(v) ==> v.len() > 0 && trim(v) == v && !v.contains(','),
{
    if let OutcomeV::Finished { stdout, .. } = o {
        lemma_pip_index_first_shape(lines(stdout));
    }
}

proof fn lemma_pip_index_first_shape(ls: Seq<Seq<char>>)
    ensures
        pip_index_first(ls) matches Some(v) ==> v.len() > 0 && trim(v) == v && !v.contains(','),
    decreases ls.len(),
{
    if ls.len() > 0 {
        let line = ls[0];
        if pip_index_line(line) is Some {
            let parts = split(line, ':');
            let versions = trim(parts[1]);
            lemma_split_nonempty(versions, ',');
            lemma_split_join(versions, ',');
            let first = split(versions, ',')[0];
            lemma_trim_keeps_absence(first, ',');
            lemma_trim_idempotent(first);
        } else {
            lemma_pip_index_first_shape(ls.drop_first());
        }
    }
}

} // verus!
