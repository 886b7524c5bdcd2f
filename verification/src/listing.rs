//! Reading the list of installed packages out of what each manager prints.

use vstd::prelude::*;
use crate::json::{
    get_key, json_wf, lemma_get_key_wf, lemma_fields_view, lemma_items_view, text_of, text_view, Json, JsonV,
};
use crate::text::{
    chars_of, find_char, first_index, lemma_first_index, lemma_split_join, split, split_bounds, split_once, string_of, trim, trim_chars,
};

verus! {

/// The `(name, version)` pairs, as texts.
pub open spec fn pairs_view(v: Seq<(String, String)>) -> Seq<(Seq<char>, Seq<char>)> {
    v.map_values(|p: (String, String)| (p.0@, p.1@))
}

/// The results of `f` that are present, in order (`Iterator::filter_map`).
pub open spec fn keep_some<A, B>(s: Seq<A>, f: spec_fn(A) -> Option<B>) -> Seq<B>
    decreases s.len(),
{
    if s.len() == 0 {
        Seq::empty()
    } else {
        let rest = keep_some(s.drop_last(), f);
        match f(s.last()) {
            Some(b) => rest.push(b),
            None => rest,
        }
    }
}

proof fn lemma_keep_some_step<A, B>(s: Seq<A>, k: int, f: spec_fn(A) -> Option<B>)
    requires
        0 <= k < s.len(),
    ensures
        keep_some(s.take(k + 1), f) == (match f(s[k]) {
            Some(b) => keep_some(s.take(k), f).push(b),
            None => keep_some(s.take(k), f),
        }),
{
    assert(s.take(k + 1).drop_last() =~= s.take(k));
}

/// Every element kept satisfies what every present result of `f` satisfies,
/// and no more elements are kept than there were.
pub proof fn lemma_keep_some_all<A, B>(s: Seq<A>, f: spec_fn(A) -> Option<B>, p: spec_fn(B) -> bool)
    requires
        forall|a: A| #[trigger] f(a) matches Some(b) ==> p(b),
    ensures
        forall|i: int| 0 <= i < keep_some(s, f).len() ==> p(#[trigger] keep_some(s, f)[i]),
        keep_some(s, f).len() <= s.len(),
    decreases s.len(),
{
    if s.len() > 0 {
        lemma_keep_some_all(s.drop_last(), f, p);
    }
}

/// `s` without one leading `v`.
pub open spec fn strip_v(s: Seq<char>) -> Seq<char> {
    if s.len() > 0 && s[0] == 'v' { s.drop_first() } else { s }
}

/// `s` without one trailing `:`.
pub open spec fn strip_colon(s: Seq<char>) -> Seq<char> {
    if s.len() > 0 && s.last() == ':' { s.drop_last() } else { s }
}

/// A line of `cargo install --list`: `name vX.Y.Z:` gives the name and `X.Y.Z`;
/// a line with no space, or that starts with a space, gives nothing.
pub open spec fn cargo_line(line: Seq<char>) -> Option<(Seq<char>, Seq<char>)> {
    let parts = split(line, ' ');
    if parts.len() >= 2 && parts[0].len() > 0 {
        Some((parts[0], strip_colon(strip_v(trim(parts[1])))))
    } else {
        None
    }
}

/// The packages that `cargo install --list` printed.
pub open spec fn cargo_entries(out: Seq<char>) -> Seq<(Seq<char>, Seq<char>)> {
    keep_some(split(out, '\n'), |l: Seq<char>| cargo_line(l))
}

/// A line of `brew list --versions`: the text before the first space is the name,
/// the text after it, cut at its first `_`, the version.
pub open spec fn brew_line(line: Seq<char>) -> Option<(Seq<char>, Seq<char>)> {
    match split_once(line, ' ') {
        Some((name, rest)) => Some(
            (
                name,
                match split_once(rest, '_') {
                    Some((base, _)) => base,
                    None => rest,
                },
            ),
        ),
        None => None,
    }
}

/// The packages that `brew list --versions` printed.
pub open spec fn brew_entries(out: Seq<char>) -> Seq<(Seq<char>, Seq<char>)> {
    keep_some(split(out, '\n'), |l: Seq<char>| brew_line(l))
}

fn cargo_line_exec(line: &[char]) -> (r: Option<(String, String)>)
    ensures
        match r {
            Some(p) => cargo_line(line@) == Some((p.0@, p.1@)),
            None => cargo_line(line@) is None,
        },
{
    let parts = split_bounds(line, ' ');
    if parts.len() >= 2 && parts[0].0 < parts[0].1 {
        let ghost ps = split(line@, ' ');
        assert(line@.subrange(parts@[0].0 as int, parts@[0].1 as int) == ps[0]);
        assert(line@.subrange(parts@[1].0 as int, parts@[1].1 as int) == ps[1]);
        let name = string_of(&line[parts[0].0..parts[0].1]);
        let mut v = trim_chars(&line[parts[1].0..parts[1].1]);
        if v.len() > 0 && v[0] == 'v' {
            v = &v[1..v.len()];
            assert(v@ =~= strip_v(trim(ps[1])));
        }
        assert(v@ == strip_v(trim(ps[1])));
        if v.len() > 0 && v[v.len() - 1] == ':' {
            v = &v[0..v.len() - 1];
        }
        assert(v@ =~= strip_colon(strip_v(trim(ps[1]))));
        Some((name, string_of(v)))
    } else {
        proof {
            if parts@.len() >= 2 {
                assert(line@.subrange(parts@[0].0 as int, parts@[0].1 as int) == split(line@, ' ')[0]);
            }
        }
        None
    }
}

/// The `(name, version)` pairs that `cargo install --list` printed, in order.
pub fn cargo_listing(stdout: &str) -> (r: Vec<(String, String)>)
    ensures
        pairs_view(r@) == cargo_entries(stdout@),
{
    let chars = chars_of(stdout);
    let bounds = split_bounds(&chars, '\n');
    let ghost lines = split(chars@, '\n');
    let ghost f = |l: Seq<char>| cargo_line(l);
    let mut out: Vec<(String, String)> = Vec::new();
    let mut k: usize = 0;
    assert(lines.take(0) =~= Seq::<Seq<char>>::empty());
    while k < bounds.len()
        invariant
            k <= bounds@.len() == lines.len(),
            lines == split(chars@, '\n'),
            f == (|l: Seq<char>| cargo_line(l)),
            forall|j: int|
                #![trigger bounds@[j]]
                0 <= j < bounds@.len() ==> bounds@[j].0 <= bounds@[j].1 <= chars@.len()
                    && chars@.subrange(bounds@[j].0 as int, bounds@[j].1 as int) == lines[j],
            pairs_view(out@) == keep_some(lines.take(k as int), f),
        decreases bounds@.len() - k,
    {
        let (a, b) = bounds[k];
        assert(chars@.subrange(a as int, b as int) == lines[k as int]);
        let e = cargo_line_exec(&chars[a..b]);
        proof { lemma_keep_some_step(lines, k as int, f); }
        let ghost before = out@;
        match e {
            Some(p) => {
                out.push(p);
                assert(pairs_view(out@) =~= pairs_view(before).push((p.0@, p.1@)));
            },
            None => {},
        }
        k = k + 1;
    }
    assert(lines.take(k as int) =~= lines);
    out
}

fn brew_line_exec(line: &[char]) -> (r: Option<(String, String)>)
    ensures
        match r {
            Some(p) => brew_line(line@) == Some((p.0@, p.1@)),
            None => brew_line(line@) is None,
        },
{
    proof { lemma_first_index(line@, ' '); }
    match find_char(line, ' ') {
        Some(i) => {
            assert(i < line@.len());
            let n = line.len();
            let name = string_of(&line[0..i]);
            let rest = &line[i + 1..n];
            assert(rest@ =~= line@.skip(i + 1));
            assert(line@.subrange(0, i as int) =~= line@.take(i as int));
            proof { lemma_first_index(rest@, '_'); }
            let version = match find_char(rest, '_') {
                Some(j) => {
                    assert(rest@.subrange(0, j as int) =~= rest@.take(j as int));
                    string_of(&rest[0..j])
                },
                None => string_of(rest),
            };
            Some((name, version))
        },
        None => None,
    }
}

/// The `(name, version)` pairs that `brew list --versions` printed, in order.
pub fn brew_listing(stdout: &str) -> (r: Vec<(String, String)>)
    ensures
        pairs_view(r@) == brew_entries(stdout@),
{
    let chars = chars_of(stdout);
    let bounds = split_bounds(&chars, '\n');
    let ghost lines = split(chars@, '\n');
    let ghost f = |l: Seq<char>| brew_line(l);
    let mut out: Vec<(String, String)> = Vec::new();
    let mut k: usize = 0;
    assert(lines.take(0) =~= Seq::<Seq<char>>::empty());
    while k < bounds.len()
        invariant
            k <= bounds@.len() == lines.len(),
            lines == split(chars@, '\n'),
            f == (|l: Seq<char>| brew_line(l)),
            forall|j: int|
                #![trigger bounds@[j]]
                0 <= j < bounds@.len() ==> bounds@[j].0 <= bounds@[j].1 <= chars@.len()
                    && chars@.subrange(bounds@[j].0 as int, bounds@[j].1 as int) == lines[j],
            pairs_view(out@) == keep_some(lines.take(k as int), f),
        decreases bounds@.len() - k,
    {
        let (a, b) = bounds[k];
        assert(chars@.subrange(a as int, b as int) == lines[k as int]);
        let e = brew_line_exec(&chars[a..b]);
        proof { lemma_keep_some_step(lines, k as int, f); }
        let ghost before = out@;
        match e {
            Some(p) => {
                out.push(p);
                assert(pairs_view(out@) =~= pairs_view(before).push((p.0@, p.1@)));
            },
            None => {},
        }
        k = k + 1;
    }
    assert(lines.take(k as int) =~= lines);
    out
}


/// Every package read from `cargo install --list` has a name that is not empty
/// and holds no space, and there are no more packages than lines.
pub proof fn lemma_cargo_entries_shape(out: Seq<char>)
    ensures
        forall|i: int|
            0 <= i < cargo_entries(out).len() ==> (#[trigger] cargo_entries(out)[i]).0.len() > 0
                && !cargo_entries(out)[i].0.contains(' '),
        cargo_entries(out).len() <= split(out, '\n').len(),
{
    let f = |l: Seq<char>| cargo_line(l);
    let p = |e: (Seq<char>, Seq<char>)| e.0.len() > 0 && !e.0.contains(' ');
    assert forall|l: Seq<char>| (#[trigger] f(l)) is Some implies p(f(l)->0) by {
        lemma_split_join(l, ' ');
    }
    lemma_keep_some_all(split(out, '\n'), f, p);
}

/// Every package read from `brew list --versions` has a name with no space and a
/// version with no `_`, and there are no more packages than lines.
pub proof fn lemma_brew_entries_shape(out: Seq<char>)
    ensures
        forall|i: int|
            0 <= i < brew_entries(out).len() ==> !(#[trigger] brew_entries(out)[i]).0.contains(' ')
                && !brew_entries(out)[i].1.contains('_'),
        brew_entries(out).len() <= split(out, '\n').len(),
{
    let f = |l: Seq<char>| brew_line(l);
    let p = |e: (Seq<char>, Seq<char>)| !e.0.contains(' ') && !e.1.contains('_');
    assert forall|l: Seq<char>| (#[trigger] f(l)) is Some implies p(f(l)->0) by {
        lemma_first_index(l, ' ');
        let i = first_index(l, ' ');
        let name = l.take(i);
        let rest = l.skip(i + 1);
        assert(!name.contains(' ')) by {
            if name.contains(' ') {
                let j = choose|j: int| 0 <= j < name.len() && name[j] == ' ';
                assert(l[j] == ' ');
            }
        }
        lemma_first_index(rest, '_');
        let k = first_index(rest, '_');
        if k < rest.len() {
            let base = rest.take(k);
            assert(!base.contains('_')) by {
                if base.contains('_') {
                    let j = choose|j: int| 0 <= j < base.len() && base[j] == '_';
                    assert(rest[j] == '_');
                }
            }
        }
    }
    lemma_keep_some_all(split(out, '\n'), f, p);
}

/// A text, or the empty text where there is none (`unwrap_or("")`).
pub open spec fn text_or_empty(t: Option<Seq<char>>) -> Seq<char> {
    match t {
        Some(s) => s,
        None => Seq::empty(),
    }
}

/// The text of the member `key` of `j`, or the empty text.
pub open spec fn member_text(j: JsonV, key: Seq<char>) -> Seq<char> {
    text_or_empty(text_of(get_key(j, key)))
}

/// The `dependencies` member of `npm list --json`.
pub open spec fn npm_dependencies(doc: JsonV) -> Option<JsonV> {
    get_key(doc, "dependencies"@)
}

/// Whether `npm list --json` printed a `dependencies` member that is no object,
/// where the listing gives up.
pub open spec fn npm_listing_fails(doc: JsonV) -> bool {
    npm_dependencies(doc) matches Some(d) && !(d is Object)
}

/// The packages of `npm list --json`: each member of `dependencies` with the text
/// of its `version` member, none where there is no `dependencies` member.
pub open spec fn npm_entries(doc: JsonV) -> Option<Seq<(Seq<char>, Seq<char>)>> {
    match npm_dependencies(doc) {
        Some(JsonV::Object(fields)) => Some(
            fields.map_values(|f: (Seq<char>, JsonV)| (f.0, member_text(f.1, "version"@))),
        ),
        _ => None,
    }
}

/// The packages of `pip list --format=json`: for each element of the array, the
/// texts of its `name` and `version` members; none where the document is no array.
pub open spec fn pip_entries(doc: JsonV) -> Option<Seq<(Seq<char>, Seq<char>)>> {
    match doc {
        JsonV::Array(items) => Some(
            items.map_values(|p: JsonV| (member_text(p, "name"@), member_text(p, "version"@))),
        ),
        _ => None,
    }
}

/// The optional `(name, version)` pairs, as texts.
pub open spec fn opt_pairs_view(v: Option<Vec<(String, String)>>) -> Option<Seq<(Seq<char>, Seq<char>)>> {
    match v {
        Some(v) => Some(pairs_view(v@)),
        None => None,
    }
}

fn member_text_exec(j: &Json, key: &str) -> (r: String)
    ensures
        r@ == member_text(j@, key@),
{
    match j.get(key) {
        Some(v) => match v.as_text() {
            Some(t) => t.to_owned(),
            None => String::new(),
        },
        None => String::new(),
    }
}

/// Whether the npm listing of `doc` gives up (see `npm_listing_fails`).
pub fn npm_listing_would_fail(doc: &Json) -> (r: bool)
    ensures
        r == npm_listing_fails(doc@),
{
    match doc.get("dependencies") {
        Some(Json::Object(_)) => false,
        Some(_) => true,
        None => false,
    }
}

/// In a well-formed `npm list --json` document, no package is listed twice.
pub proof fn lemma_npm_entries_distinct(doc: JsonV)
    requires
        json_wf(doc),
    ensures
        npm_entries(doc) matches Some(p) ==> forall|a: int, b: int|
            0 <= a < b < p.len() ==> p[a].0 != p[b].0,
{
    lemma_get_key_wf(doc, "dependencies"@);
    if let Some(JsonV::Object(fields)) = npm_dependencies(doc) {
        let p = npm_entries(doc).unwrap();
        assert forall|a: int, b: int| 0 <= a < b < p.len() implies p[a].0 != p[b].0 by {
            assert(p[a].0 == fields[a].0);
            assert(p[b].0 == fields[b].0);
        }
    }
}

/// The `(name, version)` pairs of `npm list -g --depth=0 --json`; in a
/// well-formed document, one pair per package name.
pub fn npm_listing(doc: &Json) -> (r: Option<Vec<(String, String)>>)
    requires
        !npm_listing_fails(doc@),
    ensures
        opt_pairs_view(r) == npm_entries(doc@),
        json_wf(doc@) ==> (r matches Some(v) ==> forall|a: int, b: int|
            0 <= a < b < v@.len() ==> pairs_view(v@)[a].0 != pairs_view(v@)[b].0),
{
    match doc.get("dependencies") {
        Some(Json::Object(fields)) => {
            proof { lemma_fields_view(fields@); }
            let mut out: Vec<(String, String)> = Vec::new();
            let mut i: usize = 0;
            while i < fields.len()
                invariant
                    i <= fields@.len(),
                    forall|k: int| 0 <= k < i ==> (#[trigger] out@[k]).0@ == fields@[k].0@
                        && out@[k].1@ == member_text(fields@[k].1@, "version"@),
                    out@.len() == i,
                decreases fields@.len() - i,
            {
                let name = fields[i].0.clone();
                let version = member_text_exec(&fields[i].1, "version");
                out.push((name, version));
                i = i + 1;
            }
            let ghost fv = crate::json::fields_view(fields@);
            assert(pairs_view(out@) =~= fv.map_values(
                |f: (Seq<char>, JsonV)| (f.0, member_text(f.1, "version"@)),
            ));
            proof {
                if json_wf(doc@) {
                    lemma_npm_entries_distinct(doc@);
                    let p = pairs_view(out@);
                    assert(npm_entries(doc@) == Some(p));
                    assert(npm_entries(doc@)->0 == p);
                    assert(forall|a: int, b: int| 0 <= a < b < p.len() ==> p[a].0 != p[b].0);
                }
            }
            Some(out)
        },
        _ => None,
    }
}

/// The `(name, version)` pairs of `pip list --format=json`.
pub fn pip_listing(doc: &Json) -> (r: Option<Vec<(String, String)>>)
    ensures
        opt_pairs_view(r) == pip_entries(doc@),
{
    match doc {
        Json::Array(items) => {
            proof { lemma_items_view(items@); }
            let mut out: Vec<(String, String)> = Vec::new();
            let mut i: usize = 0;
            while i < items.len()
                invariant
                    i <= items@.len(),
                    forall|k: int| 0 <= k < i ==> (#[trigger] out@[k]).0@ == member_text(
                        items@[k]@,
                        "name"@,
                    ) && out@[k].1@ == member_text(items@[k]@, "version"@),
                    out@.len() == i,
                decreases items@.len() - i,
            {
                let name = member_text_exec(&items[i], "name");
                let version = member_text_exec(&items[i], "version");
                out.push((name, version));
                i = i + 1;
            }
            let ghost iv = crate::json::items_view(items@);
            assert(pairs_view(out@) =~= iv.map_values(
                |p: JsonV| (member_text(p, "name"@), member_text(p, "version"@)),
            ));
            Some(out)
        },
        _ => None,
    }
}

/// A package: its name, its installed version and, where it was found, the newest version.
pub struct PackageEntry {
    pub name: String,
    pub version: String,
    pub latest_version: Option<String>,
}

impl View for PackageEntry {
    type V = (Seq<char>, Seq<char>, Option<Seq<char>>);

    open spec fn view(&self) -> (Seq<char>, Seq<char>, Option<Seq<char>>) {
        (self.name@, self.version@, text_view(self.latest_version))
    }
}

/// The contents of a list of packages.
pub open spec fn entries_view(v: Seq<PackageEntry>) -> Seq<(Seq<char>, Seq<char>, Option<Seq<char>>)> {
    v.map_values(|e: PackageEntry| e@)
}

/// The newest version found for the package at `i`, none where nothing was found
/// or the list of newest versions is shorter.
pub open spec fn latest_at(latest: Seq<Option<String>>, i: int) -> Option<Seq<char>> {
    if 0 <= i < latest.len() {
        text_view(latest[i])
    } else {
        None
    }
}

/// The packages `pairs` with the newest versions found for them attached by position.
pub open spec fn attach_latest(
    pairs: Seq<(Seq<char>, Seq<char>)>,
    latest: Seq<Option<String>>,
) -> Seq<(Seq<char>, Seq<char>, Option<Seq<char>>)> {
    Seq::new(pairs.len(), |i: int| (pairs[i].0, pairs[i].1, latest_at(latest, i)))
}

/// The packages `pairs`, each with the newest version at its position in `latest`.
pub fn with_latest(pairs: &Vec<(String, String)>, latest: &Vec<Option<String>>) -> (r: Vec<
    PackageEntry,
>)
    ensures
        entries_view(r@) == attach_latest(pairs_view(pairs@), latest@),
{
    let mut out: Vec<PackageEntry> = Vec::new();
    let mut i: usize = 0;
    while i < pairs.len()
        invariant
            i <= pairs@.len(),
            out@.len() == i,
            forall|k: int|
                0 <= k < i ==> (#[trigger] out@[k])@ == (
                    pairs@[k].0@,
                    pairs@[k].1@,
                    latest_at(latest@, k),
                ),
        decreases pairs@.len() - i,
    {
        let latest_version = if i < latest.len() {
            match &latest[i] {
                Some(v) => Some(v.clone()),
                None => None,
            }
        } else {
            None
        };
        out.push(
            PackageEntry { name: pairs[i].0.clone(), version: pairs[i].1.clone(), latest_version },
        );
        i = i + 1;
    }
    assert(entries_view(out@) =~= attach_latest(pairs_view(pairs@), latest@));
    out
}

} // verus!
