//! Facts about the machine: the versions of the installed tools, read out of their
//! `--version` output, and the program search path the dashboard runs with.

use vstd::prelude::*;
use crate::command::{texts, CommandOutcome, ManagerCommand, OutcomeV};
use crate::json::{text_view, Json};
use crate::text::same_text;
use crate::listing::text_or_empty;
use crate::text::{chars_of, contains_seq, join, join_strings, string_of, trim, trim_chars};

verus! {

/// The text that capture group `group` of the leftmost-first match of the regular
/// expression `pattern` covers in `text` (group 0 is the whole match); none where
/// the pattern does not compile, nothing matches, or the group takes no part.
pub uninterp spec fn regex_group(pattern: Seq<char>, text: Seq<char>, group: int) -> Option<Seq<char>>;

/// `regex::Regex::new(pattern)`, then `captures(text)`, then `get(group)` and
/// `Match::as_str`. Trusted to give `regex_group(pattern, text, group)`, and, as
/// `as_str` slices the haystack, a piece of `text`.
#[verifier::external_body]
fn capture_group(pattern: &str, text: &str, group: usize) -> (r: Option<String>)
    ensures
        text_view(r) == regex_group(pattern@, text@, group as int),
        r matches Some(m) ==> contains_seq(text@, m@),
{
    let re = regex::Regex::new(pattern).ok()?;
    let caps = re.captures(text)?;
    match caps.get(group) {
        Some(m) => Some(m.as_str().to_string()),
        None => None,
    }
}

/// The pattern whose first group is the version in a tool's `--version` output.
pub open spec fn version_pattern(tool: Seq<char>) -> Option<Seq<char>> {
    if tool == "pip"@ {
        Some("pip ([\\d.]+)"@)
    } else if tool == "python"@ {
        Some("Python ([\\d.]+)"@)
    } else if tool == "node"@ {
        Some("v?([\\d.]+)"@)
    } else if tool == "npm"@ {
        Some("([\\d.]+)"@)
    } else if tool == "cargo"@ {
        Some("cargo ([\\d.]+)"@)
    } else if tool == "rustc"@ {
        Some("rustc ([\\d.]+)"@)
    } else if tool == "brew"@ {
        Some("Homebrew ([\\d.]+)"@)
    } else if tool == "conda"@ {
        Some("conda ([\\d.]+)"@)
    } else {
        None
    }
}

/// Digits with at least one dot-separated group of digits after them.
pub open spec fn fallback_version_pattern() -> Seq<char> {
    "\\d+(\\.\\d+)+"@
}

/// The version named in the `--version` output of `tool`: the first group of the
/// tool's own pattern in the trimmed output, or else the first version-like text.
pub open spec fn version_in(tool: Seq<char>, output: Seq<char>) -> Option<Seq<char>> {
    let t = trim(output);
    let specific = match version_pattern(tool) {
        Some(p) => regex_group(p, t, 1),
        None => None,
    };
    match specific {
        Some(v) => Some(v),
        None => regex_group(fallback_version_pattern(), t, 0),
    }
}

/// The pattern for `tool`'s `--version` output.
pub fn version_pattern_for(tool: &str) -> (r: Option<&'static str>)
    ensures
        match r {
            Some(p) => version_pattern(tool@) == Some(p@),
            None => version_pattern(tool@) is None,
        },
{
    if same_text(tool, "pip") {
        Some("pip ([\\d.]+)")
    } else if same_text(tool, "python") {
        Some("Python ([\\d.]+)")
    } else if same_text(tool, "node") {
        Some("v?([\\d.]+)")
    } else if same_text(tool, "npm") {
        Some("([\\d.]+)")
    } else if same_text(tool, "cargo") {
        Some("cargo ([\\d.]+)")
    } else if same_text(tool, "rustc") {
        Some("rustc ([\\d.]+)")
    } else if same_text(tool, "brew") {
        Some("Homebrew ([\\d.]+)")
    } else if same_text(tool, "conda") {
        Some("conda ([\\d.]+)")
    } else {
        None
    }
}

/// The tool's own match where there is one, else the fallback match.
pub fn choose_version(specific: Option<String>, fallback: Option<String>) -> (r: Option<String>)
    ensures
        r == (match specific {
            Some(v) => Some(v),
            None => fallback,
        }),
{
    match specific {
        Some(v) => Some(v),
        None => fallback,
    }
}

/// The version named in the `--version` output of `tool` (see `version_in`); it is
/// always a piece of the trimmed output.
pub fn extract_version(tool: &str, output: &str) -> (r: Option<String>)
    ensures
        text_view(r) == version_in(tool@, output@),
        r matches Some(v) ==> contains_seq(trim(output@), v@),
{
    let chars = chars_of(output);
    let trimmed = string_of(trim_chars(&chars));
    let specific = match version_pattern_for(tool) {
        Some(p) => capture_group(p, trimmed.as_str(), 1),
        None => None,
    };
    let fallback = capture_group("\\d+(\\.\\d+)+", trimmed.as_str(), 0);
    choose_version(specific, fallback)
}

/// `<program> --version`.
pub fn version_probe_command(program: &str) -> (r: ManagerCommand)
    ensures
        r@ == (program@, seq!["--version"@]),
{
    let args = vec!["--version".to_owned()];
    assert(texts(args@) =~= seq!["--version"@]);
    ManagerCommand { program: program.to_owned(), args }
}

/// What a `--version` probe answers: its trimmed output, where it succeeded.
pub open spec fn probe_answer(o: OutcomeV) -> Option<Seq<char>> {
    match o {
        OutcomeV::Finished { success: true, stdout, .. } => Some(trim(stdout)),
        _ => None,
    }
}

/// The trimmed output of a `--version` probe that succeeded.
pub fn probe_output(outcome: &CommandOutcome) -> (r: Option<String>)
    ensures
        text_view(r) == probe_answer(outcome@),
{
    match outcome {
        CommandOutcome::Finished { success: true, stdout, .. } => {
            let chars = chars_of(stdout.as_str());
            Some(string_of(trim_chars(&chars)))
        },
        _ => None,
    }
}

/// The version of `tool` read from its probe answer, or the empty text.
pub open spec fn tool_version_text(tool: Seq<char>, answer: Option<Seq<char>>) -> Seq<char> {
    match answer {
        Some(o) => text_or_empty(version_in(tool, o)),
        None => Seq::empty(),
    }
}

/// The version of `tool` read from its probe answer, or the empty text where there
/// is no answer or it names no version.
pub fn tool_version(tool: &str, answer: &Option<String>) -> (r: String)
    ensures
        r@ == tool_version_text(tool@, text_view(*answer)),
{
    match answer {
        Some(o) => match extract_version(tool, o.as_str()) {
            Some(v) => v,
            None => String::new(),
        },
        None => String::new(),
    }
}

/// The first answer, or else the second (`Option::or`).
pub open spec fn first_answer(a: Option<Seq<char>>, b: Option<Seq<char>>) -> Option<Seq<char>> {
    match a {
        Some(x) => Some(x),
        None => b,
    }
}

/// The versions of the tools the dashboard reports.
pub struct ToolVersions {
    pub python: String,
    pub node: String,
    pub rustc: String,
    pub cargo: String,
    pub npm: String,
    pub pip: String,
    pub conda: String,
    pub brew: String,
}

fn either(a: Option<String>, b: Option<String>) -> (r: Option<String>)
    ensures
        text_view(r) == first_answer(text_view(a), text_view(b)),
{
    match a {
        Some(x) => Some(x),
        None => b,
    }
}

/// The tool versions read from the answers of the `--version` probes: python from
/// `python3`, or else `python`; pip from `pip`, or else `pip3`; each of the others
/// from its own program.
pub fn tool_versions(
    python3: Option<String>,
    python: Option<String>,
    node: Option<String>,
    rustc: Option<String>,
    cargo: Option<String>,
    npm: Option<String>,
    pip: Option<String>,
    pip3: Option<String>,
    conda: Option<String>,
    brew: Option<String>,
) -> (r: ToolVersions)
    ensures
        r.python@ == tool_version_text(
            "python"@,
            first_answer(text_view(python3), text_view(python)),
        ),
        r.node@ == tool_version_text("node"@, text_view(node)),
        r.rustc@ == tool_version_text("rustc"@, text_view(rustc)),
        r.cargo@ == tool_version_text("cargo"@, text_view(cargo)),
        r.npm@ == tool_version_text("npm"@, text_view(npm)),
        r.pip@ == tool_version_text("pip"@, first_answer(text_view(pip), text_view(pip3))),
        r.conda@ == tool_version_text("conda"@, text_view(conda)),
        r.brew@ == tool_version_text("brew"@, text_view(brew)),
{
    ToolVersions {
        python: tool_version("python", &either(python3, python)),
        node: tool_version("node", &node),
        rustc: tool_version("rustc", &rustc),
        cargo: tool_version("cargo", &cargo),
        npm: tool_version("npm", &npm),
        pip: tool_version("pip", &either(pip, pip3)),
        conda: tool_version("conda", &conda),
        brew: tool_version("brew", &brew),
    }
}

/// What the dashboard reports of the machine.
pub struct SystemReport {
    pub os: String,
    pub os_version: String,
    pub kernel_version: String,
    pub cpu_brand: String,
    pub cpu_cores: usize,
    pub total_memory: u64,
    pub used_memory: u64,
    pub total_swap: u64,
    pub used_swap: u64,
    pub disks: Vec<Json>,
    pub versions: ToolVersions,
    pub shell: Option<String>,
    pub env_vars: Vec<(String, String)>,
}

fn text_or_blank(t: Option<String>) -> (r: String)
    ensures
        r@ == text_or_empty(text_view(t)),
{
    match t {
        Some(s) => s,
        None => String::new(),
    }
}

/// The report of the machine: the system names (empty where unknown), the brand
/// of the first processor (empty where there is none) and the number of
/// processors, the memory and swap figures, no disks, the tool versions, the
/// shell, and the environment.
pub fn system_report(
    os: Option<String>,
    os_version: Option<String>,
    kernel_version: Option<String>,
    cpu_brands: &Vec<String>,
    total_memory: u64,
    used_memory: u64,
    total_swap: u64,
    used_swap: u64,
    versions: ToolVersions,
    shell: Option<String>,
    env_vars: Vec<(String, String)>,
) -> (r: SystemReport)
    ensures
        r.os@ == text_or_empty(text_view(os)),
        r.os_version@ == text_or_empty(text_view(os_version)),
        r.kernel_version@ == text_or_empty(text_view(kernel_version)),
        r.cpu_brand@ == (if cpu_brands@.len() > 0 {
            cpu_brands@[0]@
        } else {
            Seq::empty()
        }),
        r.cpu_cores == cpu_brands@.len(),
        r.total_memory == total_memory,
        r.used_memory == used_memory,
        r.total_swap == total_swap,
        r.used_swap == used_swap,
        r.disks@.len() == 0,
        r.versions == versions,
        r.shell == shell,
        r.env_vars == env_vars,
{
    let cpu_brand = if cpu_brands.len() > 0 {
        cpu_brands[0].clone()
    } else {
        String::new()
    };
    SystemReport {
        os: text_or_blank(os),
        os_version: text_or_blank(os_version),
        kernel_version: text_or_blank(kernel_version),
        cpu_brand,
        cpu_cores: cpu_brands.len(),
        total_memory,
        used_memory,
        total_swap,
        used_swap,
        disks: Vec::new(),
        versions,
        shell,
        env_vars,
    }
}

/// The entries of the search path: the usual binary directories, the user's cargo
/// binaries, then the inherited search path where there is one.
pub open spec fn path_entries(home: Seq<char>, existing: Option<Seq<char>>) -> Seq<Seq<char>> {
    let base = seq![
        "/usr/local/bin"@,
        "/opt/homebrew/bin"@,
        "/usr/bin"@,
        "/bin"@,
        "/usr/sbin"@,
        "/sbin"@,
        home + "/.cargo/bin"@,
    ];
    match existing {
        Some(e) => base.push(e),
        None => base,
    }
}

/// The search path to run managers with, given the home directory (empty where it
/// is unknown) and the inherited search path.
pub fn search_path(home: &str, existing: Option<&str>) -> (r: String)
    ensures
        r@ == join(
            path_entries(
                home@,
                match existing {
                    Some(e) => Some(e@),
                    None => None,
                },
            ),
            ':',
        ),
{
    let mut entries: Vec<String> = vec![
        "/usr/local/bin".to_owned(),
        "/opt/homebrew/bin".to_owned(),
        "/usr/bin".to_owned(),
        "/bin".to_owned(),
        "/usr/sbin".to_owned(),
        "/sbin".to_owned(),
        home.to_owned().concat("/.cargo/bin"),
    ];
    match existing {
        Some(e) => entries.push(e.to_owned()),
        None => {},
    }
    let ghost ex = match existing {
        Some(e) => Some(e@),
        None => None,
    };
    assert(entries@.map_values(|s: String| s@) =~= path_entries(home@, ex));
    join_strings(&entries, ':')
}

/// Where neither the home directory nor the inherited search path holds `:`, the
/// search path splits back at `:` into its entries.
pub proof fn lemma_search_path_entries(home: Seq<char>, existing: Option<Seq<char>>)
    requires
        !home.contains(':'),
        existing matches Some(e) ==> !e.contains(':'),
    ensures
        crate::text::split(join(path_entries(home, existing), ':'), ':') == path_entries(
            home,
            existing,
        ),
{
    reveal_strlit("/usr/local/bin");
    reveal_strlit("/opt/homebrew/bin");
    reveal_strlit("/usr/bin");
    reveal_strlit("/bin");
    reveal_strlit("/usr/sbin");
    reveal_strlit("/sbin");
    reveal_strlit("/.cargo/bin");
    let ps = path_entries(home, existing);
    assert forall|k: int| 0 <= k < ps.len() implies !(#[trigger] ps[k]).contains(':') by {
        if k == 6 {
            let c = home + "/.cargo/bin"@;
            if c.contains(':') {
                let j = choose|j: int| 0 <= j < c.len() && c[j] == ':';
                if j < home.len() {
                    assert(home[j] == ':');
                } else {
                    assert("/.cargo/bin"@[j - home.len()] == ':');
                }
            }
        }
    }
    crate::text::lemma_join_split(ps, ':');
}

} // verus!
