//! Scanning the package managers of the machine, one after another: which are
//! installed, what each lists, and the newest versions of what it lists. The
//! scan is a state machine; the caller performs each action it asks for and
//! hands back what came of it.

use vstd::prelude::*;
use crate::command::{texts, CommandOutcome, ManagerCommand, OutcomeV};
use crate::json::{json_document, parse_json, text_view, Json, JsonV};
use crate::listing::{
    attach_latest, latest_at, member_text, brew_entries, brew_listing, cargo_entries, cargo_listing, entries_view,
    npm_entries, npm_listing, npm_listing_fails, npm_listing_would_fail, pairs_view, pip_entries,
    pip_listing, with_latest, PackageEntry,
};

verus! {

/// The number of package managers a scan goes through.
pub open spec fn manager_count() -> nat {
    9
}

/// The package managers in scan order, each with the arguments that list what it installed.
pub open spec fn scan_table() -> Seq<(Seq<char>, Seq<Seq<char>>)> {
    seq![
        ("npm"@, seq!["list"@, "-g"@, "--depth=0"@, "--json"@]),
        ("pip"@, seq!["list"@, "--format=json"@]),
        ("pip3"@, seq!["list"@, "--format=json"@]),
        ("pipx"@, seq!["list"@, "--json"@]),
        ("conda"@, seq!["list"@, "--json"@]),
        ("pixi"@, seq!["list"@, "--json"@]),
        ("cargo"@, seq!["install"@, "--list"@]),
        ("brew"@, seq!["list"@, "--versions"@]),
        ("mas"@, seq!["list"@]),
    ]
}

/// The name, and program, of the manager at `i` in scan order.
pub open spec fn manager_name(i: int) -> Seq<char> {
    scan_table()[i].0
}

/// Where the newest version of a listed package is looked up.
#[derive(PartialEq, Eq, Structural, Clone, Copy)]
pub enum LatestSource {
    /// `npm view <package> version`.
    NpmView,
    /// `pip index versions <package>`, or else the PyPI record.
    PipIndex,
    /// The PyPI record.
    PyPI,
    /// The crates.io record.
    CratesIo,
    /// `brew info <package> --json`.
    BrewInfo,
}

/// Where the manager at `i` looks up newest versions, for the managers whose
/// listings are read package by package.
pub open spec fn latest_source(i: int) -> Option<LatestSource> {
    if i == 0 {
        Some(LatestSource::NpmView)
    } else if i == 1 {
        Some(LatestSource::PipIndex)
    } else if i == 2 {
        Some(LatestSource::PyPI)
    } else if i == 6 {
        Some(LatestSource::CratesIo)
    } else if i == 7 {
        Some(LatestSource::BrewInfo)
    } else {
        None
    }
}

/// What was read of a manager's packages.
pub enum Packages {
    /// The packages, one by one.
    Entries(Vec<PackageEntry>),
    /// The manager's output as it stands: the JSON document it printed, or its text.
    Document(Json),
}

/// The plain content of `Packages`.
pub enum PackagesV {
    Entries(Seq<(Seq<char>, Seq<char>, Option<Seq<char>>)>),
    Document(JsonV),
}

impl View for Packages {
    type V = PackagesV;

    open spec fn view(&self) -> PackagesV {
        match self {
            Packages::Entries(v) => PackagesV::Entries(entries_view(v@)),
            Packages::Document(j) => PackagesV::Document(j@),
        }
    }
}

/// The content of optional packages.
pub open spec fn packages_view(p: Option<Packages>) -> Option<PackagesV> {
    match p {
        Some(x) => Some(x@),
        None => None,
    }
}

/// What a scan found of one installed manager.
pub struct PackageManagerResult {
    pub name: String,
    pub detected: bool,
    pub error: Option<String>,
    pub packages: Option<Packages>,
}

/// The plain content of a `PackageManagerResult`.
pub struct ResultV {
    pub name: Seq<char>,
    pub detected: bool,
    pub error: Option<Seq<char>>,
    pub packages: Option<PackagesV>,
}

impl View for PackageManagerResult {
    type V = ResultV;

    open spec fn view(&self) -> ResultV {
        ResultV {
            name: self.name@,
            detected: self.detected,
            error: text_view(self.error),
            packages: packages_view(self.packages),
        }
    }
}

/// The contents of a list of results.
pub open spec fn results_view(v: Seq<PackageManagerResult>) -> Seq<ResultV> {
    v.map_values(|r: PackageManagerResult| r@)
}

/// Where a scan stands with the manager in progress.
pub enum ScanStage {
    /// Waiting to hear whether it is installed.
    Checking,
    /// Waiting for what its listing command printed.
    Listing,
    /// Waiting for the newest versions of these `(name, version)` packages.
    Fetching(Vec<(String, String)>),
    /// Every manager has been gone through.
    Finished,
}

/// The plain content of a `ScanStage`.
pub enum StageV {
    Checking,
    Listing,
    Fetching(Seq<(Seq<char>, Seq<char>)>),
    Finished,
}

/// A scan in progress.
pub struct Scanner {
    current: usize,
    stage: ScanStage,
    results: Vec<PackageManagerResult>,
}

/// The plain content of a `Scanner`.
pub struct ScanV {
    pub current: nat,
    pub stage: StageV,
    pub results: Seq<ResultV>,
}

impl View for Scanner {
    type V = ScanV;

    closed spec fn view(&self) -> ScanV {
        ScanV {
            current: self.current as nat,
            stage: match self.stage {
                ScanStage::Checking => StageV::Checking,
                ScanStage::Listing => StageV::Listing,
                ScanStage::Fetching(p) => StageV::Fetching(pairs_view(p@)),
                ScanStage::Finished => StageV::Finished,
            },
            results: results_view(self.results@),
        }
    }
}

/// What came of the last action a scan asked for.
pub enum ScanEvent {
    /// Whether the manager's program is installed.
    Installed(bool),
    /// What the listing command did.
    Listed(CommandOutcome),
    /// The newest versions found, position by position, for the packages asked about.
    LatestFound(Vec<Option<String>>),
}

/// The plain content of a `ScanEvent`.
pub enum EventV {
    Installed(bool),
    Listed(OutcomeV),
    LatestFound(Seq<Option<String>>),
}

impl View for ScanEvent {
    type V = EventV;

    open spec fn view(&self) -> EventV {
        match self {
            ScanEvent::Installed(b) => EventV::Installed(*b),
            ScanEvent::Listed(o) => EventV::Listed(o@),
            ScanEvent::LatestFound(v) => EventV::LatestFound(v@),
        }
    }
}

/// What a scan asks for next.
pub enum ScanAction {
    /// Find out whether this program is installed.
    CheckInstalled(String),
    /// Run this listing command.
    Run(ManagerCommand),
    /// Look up the newest versions of these packages.
    FetchLatest(LatestSource, Vec<String>),
    /// Nothing: the scan is over.
    Done,
}

/// The plain content of a `ScanAction`.
pub enum ActionV {
    CheckInstalled(Seq<char>),
    Run((Seq<char>, Seq<Seq<char>>)),
    FetchLatest(LatestSource, Seq<Seq<char>>),
    Done,
}

impl View for ScanAction {
    type V = ActionV;

    open spec fn view(&self) -> ActionV {
        match self {
            ScanAction::CheckInstalled(p) => ActionV::CheckInstalled(p@),
            ScanAction::Run(c) => ActionV::Run(c@),
            ScanAction::FetchLatest(src, names) => ActionV::FetchLatest(*src, texts(names@)),
            ScanAction::Done => ActionV::Done,
        }
    }
}

/// The names of `(name, version)` packages.
pub open spec fn pair_names(pairs: Seq<(Seq<char>, Seq<char>)>) -> Seq<Seq<char>> {
    pairs.map_values(|p: (Seq<char>, Seq<char>)| p.0)
}

/// How a listing is read: packages still waiting for their newest versions, or
/// what the result holds as it stands.
pub enum ListingV {
    Pending(Seq<(Seq<char>, Seq<char>)>),
    Ready(Option<PackagesV>),
}

/// How the successful output of the manager at `i` is read. npm and pip list
/// packages from their JSON (nothing where there is none to read); cargo and
/// brew from their text; the others keep their JSON document, or their text
/// where they printed no JSON.
pub open spec fn listing_of(i: int, stdout: Seq<char>, doc: Option<JsonV>) -> ListingV {
    if i == 0 {
        match doc {
            Some(d) => match npm_entries(d) {
                Some(p) => ListingV::Pending(p),
                None => ListingV::Ready(None),
            },
            None => ListingV::Ready(None),
        }
    } else if i == 1 || i == 2 {
        match doc {
            Some(d) => match pip_entries(d) {
                Some(p) => ListingV::Pending(p),
                None => ListingV::Ready(None),
            },
            None => ListingV::Ready(None),
        }
    } else if i == 6 {
        ListingV::Pending(cargo_entries(stdout))
    } else if i == 7 {
        ListingV::Pending(brew_entries(stdout))
    } else {
        ListingV::Ready(
            Some(
                PackagesV::Document(
                    match doc {
                        Some(d) => d,
                        None => JsonV::Str(stdout),
                    },
                ),
            ),
        )
    }
}

/// The action a scan waits on in state `s`.
pub open spec fn pending_action(s: ScanV) -> ActionV {
    match s.stage {
        StageV::Checking => ActionV::CheckInstalled(manager_name(s.current as int)),
        StageV::Listing => ActionV::Run(scan_table()[s.current as int]),
        StageV::Fetching(p) => ActionV::FetchLatest(
            latest_source(s.current as int)->0,
            pair_names(p),
        ),
        StageV::Finished => ActionV::Done,
    }
}

/// Done with the manager in progress, with results `results`: on to the next
/// manager, or the end of the scan after the last.
pub open spec fn advance(s: ScanV, results: Seq<ResultV>) -> (ScanV, ActionV) {
    if s.current + 1 < manager_count() {
        (
            ScanV { current: s.current + 1, stage: StageV::Checking, results },
            ActionV::CheckInstalled(manager_name(s.current + 1 as int)),
        )
    } else {
        (ScanV { current: s.current, stage: StageV::Finished, results }, ActionV::Done)
    }
}

/// The result for the manager in progress.
pub open spec fn result_for(s: ScanV, error: Option<Seq<char>>, packages: Option<PackagesV>) -> ResultV {
    ResultV { name: manager_name(s.current as int), detected: true, error, packages }
}

/// One step of a scan: the state after event `e` in state `s`, and the action asked
/// for next. A manager that is not installed is passed over; one whose listing
/// command fails gets a result with the failure; one whose listing succeeds gets
/// a result with what was read of it, after the lookup of newest versions where
/// its packages are read one by one. An event that is not what the scan waits
/// on changes nothing, and the scan asks again for what it waits on.
pub open spec fn scan_step(s: ScanV, e: EventV) -> (ScanV, ActionV) {
    match (s.stage, e) {
        (StageV::Checking, EventV::Installed(installed)) => if installed {
            (ScanV { stage: StageV::Listing, ..s }, ActionV::Run(scan_table()[s.current as int]))
        } else {
            advance(s, s.results)
        },
        (StageV::Listing, EventV::Listed(o)) => match o {
            OutcomeV::Failed(err) => advance(s, s.results.push(result_for(s, Some(err), None))),
            OutcomeV::Finished { success, stdout, stderr } => if !success {
                advance(s, s.results.push(result_for(s, Some(stderr), None)))
            } else {
                match listing_of(s.current as int, stdout, json_document(stdout)) {
                    ListingV::Pending(p) => (
                        ScanV { stage: StageV::Fetching(p), ..s },
                        ActionV::FetchLatest(latest_source(s.current as int)->0, pair_names(p)),
                    ),
                    ListingV::Ready(pk) => advance(s, s.results.push(result_for(s, None, pk))),
                }
            },
        },
        (StageV::Fetching(p), EventV::LatestFound(latest)) => advance(
            s,
            s.results.push(
                result_for(s, None, Some(PackagesV::Entries(attach_latest(p, latest)))),
            ),
        ),
        _ => (s, pending_action(s)),
    }
}

/// The one step the scan cannot take: npm printed JSON whose `dependencies` member
/// is no object.
pub open spec fn scan_step_fails(s: ScanV, e: EventV) -> bool {
    &&& s.stage is Listing
    &&& s.current == 0
    &&& e matches EventV::Listed(OutcomeV::Finished { success: true, stdout, .. })
    &&& json_document(stdout) matches Some(d)
    &&& npm_listing_fails(d)
}

/// The states a scan can be in: a manager in progress, at most one result per
/// manager gone through, each for an installed manager named in the table.
pub open spec fn scan_wf(s: ScanV) -> bool {
    let done = if s.stage is Finished { s.current + 1int } else { s.current as int };
    &&& s.current < manager_count()
    &&& s.results.len() <= done
    &&& forall|k: int|
        0 <= k < s.results.len() ==> (#[trigger] s.results[k]).detected && exists|i: int|
            0 <= i < done && s.results[k].name == manager_name(i)
}

/// Whether `e` is what a scan in state `s` waits on.
pub open spec fn scan_expects(s: ScanV, e: EventV) -> bool {
    match (s.stage, e) {
        (StageV::Checking, EventV::Installed(_)) => true,
        (StageV::Listing, EventV::Listed(_)) => true,
        (StageV::Fetching(_), EventV::LatestFound(_)) => true,
        _ => false,
    }
}

/// How far a scan is from its end, in steps.
pub open spec fn scan_remaining(s: ScanV) -> int {
    match s.stage {
        StageV::Finished => 0,
        StageV::Checking => 3 * (manager_count() - s.current),
        StageV::Listing => 3 * (manager_count() - s.current) - 1,
        StageV::Fetching(_) => 3 * (manager_count() - s.current) - 2,
    }
}

/// A scan starts in a valid state, waiting to hear whether npm is installed.
pub proof fn lemma_scan_start_wf()
    ensures
        scan_wf(ScanV { current: 0, stage: StageV::Checking, results: Seq::empty() }),
{
}

/// Every step keeps a scan in a valid state.
pub proof fn lemma_scan_step_wf(s: ScanV, e: EventV)
    requires
        scan_wf(s),
    ensures
        scan_wf(scan_step(s, e).0),
{
    let t = scan_step(s, e).0;
    let done = if t.stage is Finished { t.current + 1int } else { t.current as int };
    assert forall|k: int| 0 <= k < t.results.len() implies (#[trigger] t.results[k]).detected
        && exists|i: int| 0 <= i < done && t.results[k].name == manager_name(i) by {
        if k < s.results.len() {
            assert(t.results[k] == s.results[k]);
            let i = choose|i: int|
                0 <= i < (if s.stage is Finished { s.current + 1int } else { s.current as int })
                    && s.results[k].name == manager_name(i);
            assert(0 <= i < done && t.results[k].name == manager_name(i));
        } else {
            assert(t.results[k].name == manager_name(s.current as int));
        }
    }
}

/// A step adds at most one result, and only for the manager in progress, once it
/// is done with it; the results before stay as they were. A manager found not
/// installed gets none.
pub proof fn lemma_scan_step_results(s: ScanV, e: EventV)
    requires
        scan_wf(s),
    ensures
        ({
            let t = scan_step(s, e).0;
            ||| t.results == s.results
            ||| {
                &&& t.results == s.results.push(t.results.last())
                &&& t.results.last().name == manager_name(s.current as int)
                &&& t.results.last().detected
                &&& (t.current == s.current + 1 || t.stage is Finished)
            }
        }),
        s.stage is Checking && e == EventV::Installed(false) ==> scan_step(s, e).0.results
            == s.results,
{
}

/// An event the scan waits on brings it closer to its end; any other event changes
/// nothing and the scan asks again for what it waits on; a finished scan stays finished.
pub proof fn lemma_scan_progress(s: ScanV, e: EventV)
    requires
        scan_wf(s),
    ensures
        scan_expects(s, e) ==> 0 <= scan_remaining(scan_step(s, e).0) < scan_remaining(s),
        !scan_expects(s, e) ==> scan_step(s, e) == (s, pending_action(s)),
        s.stage is Finished ==> scan_step(s, e) == (s, ActionV::Done),
{
}

/// No two managers in the table share a name.
pub proof fn lemma_manager_names_distinct(a: int, b: int)
    requires
        0 <= a < b < manager_count(),
    ensures
        manager_name(a) != manager_name(b),
{
    reveal_strlit("npm");
    reveal_strlit("pip");
    reveal_strlit("pip3");
    reveal_strlit("pipx");
    reveal_strlit("conda");
    reveal_strlit("pixi");
    reveal_strlit("cargo");
    reveal_strlit("brew");
    reveal_strlit("mas");
    let x = manager_name(a);
    let y = manager_name(b);
    if x == y {
        assert(x.len() == y.len());
        assert(x[0] == y[0]);
        assert(x[x.len() - 1] == y[y.len() - 1]);
    }
}

/// Whether a command-line argument asks a manager for JSON output.
pub open spec fn asks_for_json(arg: Seq<char>) -> bool {
    arg == "--json"@ || arg == "--format=json"@
}

/// A manager whose packages are read out of a JSON document is asked to print
/// JSON: where some document makes a successful listing yield packages one by
/// one, while the same output read as no JSON would not, the manager's listing
/// command carries `--json` or `--format=json`. pip and pip3 in particular are
/// asked for exactly `list --format=json`.
pub proof fn lemma_json_listings_ask_for_json(i: int, stdout: Seq<char>, d: JsonV)
    requires
        0 <= i < manager_count(),
    ensures
        listing_of(i, stdout, Some(d)) is Pending && !(listing_of(i, stdout, None) is Pending)
            ==> exists|k: int|
            0 <= k < scan_table()[i].1.len() && asks_for_json(#[trigger] scan_table()[i].1[k]),
        manager_name(i) == "pip"@ || manager_name(i) == "pip3"@ ==> scan_table()[i].1 == seq![
            "list"@,
            "--format=json"@,
        ],
{
    if listing_of(i, stdout, Some(d)) is Pending && !(listing_of(i, stdout, None) is Pending) {
        if i == 0 {
            assert(asks_for_json(scan_table()[i].1[3]));
        } else {
            assert(i == 1 || i == 2);
            assert(asks_for_json(scan_table()[i].1[1]));
        }
    }
    if manager_name(i) == "pip"@ || manager_name(i) == "pip3"@ {
        lemma_pip_managers(i);
        assert(scan_table()[i].1 =~= seq!["list"@, "--format=json"@]);
    }
}

/// The managers named pip and pip3 are the second and third of the table.
proof fn lemma_pip_managers(i: int)
    requires
        0 <= i < manager_count(),
        manager_name(i) == "pip"@ || manager_name(i) == "pip3"@,
    ensures
        i == 1 || i == 2,
{
    if i != 1 && i != 2 {
        assert(manager_name(1) == "pip"@);
        assert(manager_name(2) == "pip3"@);
        if i < 1 {
            lemma_manager_names_distinct(i, 1);
            lemma_manager_names_distinct(i, 2);
        } else {
            lemma_manager_names_distinct(2, i);
            lemma_manager_names_distinct(1, i);
        }
    }
}

/// A successful pip or pip3 listing that prints a JSON array is read package by
/// package: the scan asks for the newest versions of the packages the array
/// names, element by element and from the manager's own source; and once they
/// are found the manager's result, added after the earlier ones, holds for each
/// element its `name` and `version` with the newest version found at its
/// position, and no error.
pub proof fn lemma_pip_listing_packages(
    s: ScanV,
    stdout: Seq<char>,
    stderr: Seq<char>,
    items: Seq<JsonV>,
    latest: Seq<Option<String>>,
)
    requires
        scan_wf(s),
        s.stage is Listing,
        manager_name(s.current as int) == "pip"@ || manager_name(s.current as int) == "pip3"@,
        json_document(stdout) == Some(JsonV::Array(items)),
    ensures
        ({
            let (t, a) = scan_step(
                s,
                EventV::Listed(OutcomeV::Finished { success: true, stdout, stderr }),
            );
            let u = scan_step(t, EventV::LatestFound(latest)).0;
            &&& a matches ActionV::FetchLatest(src, names)
            &&& Some(src) == latest_source(s.current as int)
            &&& names.len() == items.len()
            &&& forall|k: int| 0 <= k < items.len() ==> names[k] == member_text(#[trigger] items[k], "name"@)
            &&& u.results == s.results.push(
                ResultV {
                    name: manager_name(s.current as int),
                    detected: true,
                    error: None,
                    packages: Some(
                        PackagesV::Entries(
                            Seq::new(
                                items.len(),
                                |k: int|
                                    (
                                        member_text(items[k], "name"@),
                                        member_text(items[k], "version"@),
                                        latest_at(latest, k),
                                    ),
                            ),
                        ),
                    ),
                },
            )
        }),
{
    lemma_pip_managers(s.current as int);
    let p = pip_entries(JsonV::Array(items))->0;
    let (t, a) = scan_step(s, EventV::Listed(OutcomeV::Finished { success: true, stdout, stderr }));
    assert(t.stage == StageV::Fetching(p));
    assert(attach_latest(p, latest) =~= Seq::new(
        items.len(),
        |k: int|
            (member_text(items[k], "name"@), member_text(items[k], "version"@), latest_at(latest, k)),
    ));
}

/// The state a scan starts in.
pub open spec fn scan_start() -> ScanV {
    ScanV { current: 0, stage: StageV::Checking, results: Seq::empty() }
}

/// The state after the events `es`, taken one by one from state `s`.
pub open spec fn scan_run(s: ScanV, es: Seq<EventV>) -> ScanV
    decreases es.len(),
{
    if es.len() == 0 {
        s
    } else {
        scan_step(scan_run(s, es.drop_last()), es.last()).0
    }
}

/// The managers, by position in the table, that the events `es` from state `s`
/// reported installed while the scan was checking them.
pub open spec fn installed_trace(s: ScanV, es: Seq<EventV>) -> Seq<int>
    decreases es.len(),
{
    if es.len() == 0 {
        Seq::empty()
    } else {
        let before = scan_run(s, es.drop_last());
        let t = installed_trace(s, es.drop_last());
        if before.stage is Checking && es.last() == EventV::Installed(true) {
            t.push(before.current as int)
        } else {
            t
        }
    }
}

/// What came of the listing commands the scan ran, in order, under the events
/// `es` from state `s`.
pub open spec fn listing_trace(s: ScanV, es: Seq<EventV>) -> Seq<OutcomeV>
    decreases es.len(),
{
    if es.len() == 0 {
        Seq::empty()
    } else {
        let before = scan_run(s, es.drop_last());
        let t = listing_trace(s, es.drop_last());
        match es.last() {
            EventV::Listed(o) => if before.stage is Listing {
                t.push(o)
            } else {
                t
            },
            _ => t,
        }
    }
}

/// The error a result carries for a listing command with outcome `o`: the start
/// error, or the standard error of a failed run; none for a successful run.
pub open spec fn listing_error(o: OutcomeV) -> Option<Seq<char>> {
    match o {
        OutcomeV::Failed(e) => Some(e),
        OutcomeV::Finished { success, stderr, .. } => if success {
            None
        } else {
            Some(stderr)
        },
    }
}

/// How the results of a scan relate to the managers found installed and to the
/// listings run.
pub open spec fn run_inv(s: ScanV, inst: Seq<int>, lst: Seq<OutcomeV>) -> bool {
    &&& s.current < manager_count()
    &&& forall|a: int, b: int| 0 <= a < b < inst.len() ==> inst[a] < inst[b]
    &&& forall|a: int| 0 <= a < inst.len() ==> 0 <= #[trigger] inst[a] <= s.current
    &&& s.stage is Checking ==> forall|a: int| 0 <= a < inst.len() ==> #[trigger] inst[a] < s.current
    &&& (s.stage is Listing || s.stage is Fetching) ==> inst.len() > 0 && inst.last() == s.current
    &&& inst.len() == lst.len() + (if s.stage is Listing { 1int } else { 0int })
    &&& s.results.len() == lst.len() - (if s.stage is Fetching { 1int } else { 0int })
    &&& s.stage is Fetching ==> lst.len() > 0 && listing_error(lst.last()) is None
    &&& forall|k: int|
        0 <= k < s.results.len() ==> {
            &&& (#[trigger] s.results[k]).name == manager_name(inst[k])
            &&& s.results[k].detected
            &&& s.results[k].error == listing_error(lst[k])
        }
}

proof fn lemma_run_inv(es: Seq<EventV>)
    ensures
        run_inv(
            scan_run(scan_start(), es),
            installed_trace(scan_start(), es),
            listing_trace(scan_start(), es),
        ),
    decreases es.len(),
{
    if es.len() > 0 {
        let front = es.drop_last();
        lemma_run_inv(front);
        let s = scan_run(scan_start(), front);
        let inst = installed_trace(scan_start(), front);
        let lst = listing_trace(scan_start(), front);
        let e = es.last();
        let t = scan_step(s, e).0;
        let inst2 = installed_trace(scan_start(), es);
        let lst2 = listing_trace(scan_start(), es);
        assert(t == scan_run(scan_start(), es));
        assert forall|k: int| 0 <= k < t.results.len() implies {
            &&& (#[trigger] t.results[k]).name == manager_name(inst2[k])
            &&& t.results[k].detected
            &&& t.results[k].error == listing_error(lst2[k])
        } by {
            if k < s.results.len() {
                assert(t.results[k] == s.results[k]);
                assert(inst2[k] == inst[k]);
                assert(lst2[k] == lst[k]);
            } else {
                assert(inst2[k] == s.current);
                if s.stage is Fetching {
                    assert(lst2[k] == lst.last());
                } else {
                    assert(lst2[k] == lst2.last());
                }
            }
        }
    }
}

/// Over a whole scan, whatever the events: the managers found installed are
/// distinct and come in table order; each has exactly one result once its
/// listing is through (all of them when the scan is finished), named after it,
/// in that order; and a result carries an error exactly when its listing
/// command could not start or failed, the start error or the standard error.
pub proof fn lemma_scan_run(es: Seq<EventV>)
    ensures
        ({
            let t = scan_run(scan_start(), es);
            let inst = installed_trace(scan_start(), es);
            let lst = listing_trace(scan_start(), es);
            &&& forall|a: int, b: int| 0 <= a < b < inst.len() ==> inst[a] < inst[b]
            &&& forall|a: int| 0 <= a < inst.len() ==> 0 <= #[trigger] inst[a] < manager_count()
            &&& t.results.len() <= inst.len() <= t.results.len() + 1
            &&& t.stage is Finished ==> t.results.len() == inst.len()
            &&& forall|k: int|
                0 <= k < t.results.len() ==> {
                    &&& (#[trigger] t.results[k]).name == manager_name(inst[k])
                    &&& t.results[k].detected
                    &&& t.results[k].error == listing_error(lst[k])
                }
            &&& forall|a: int, b: int|
                0 <= a < b < t.results.len() ==> t.results[a].name != t.results[b].name
        }),
{
    lemma_run_inv(es);
    let t = scan_run(scan_start(), es);
    let inst = installed_trace(scan_start(), es);
    assert forall|a: int, b: int| 0 <= a < b < t.results.len() implies t.results[a].name
        != t.results[b].name by {
        assert(t.results[a].name == manager_name(inst[a]));
        assert(t.results[b].name == manager_name(inst[b]));
        lemma_manager_names_distinct(inst[a], inst[b]);
    }
}

fn command_of(program: &str, args: &[&str]) -> (r: ManagerCommand)
    ensures
        r@ == (program@, args@.map_values(|a: &str| a@)),
{
    let mut v: Vec<String> = Vec::new();
    let mut k: usize = 0;
    while k < args.len()
        invariant
            k <= args@.len(),
            v@.len() == k,
            forall|j: int| 0 <= j < k ==> (#[trigger] v@[j])@ == args@[j]@,
        decreases args@.len() - k,
    {
        v.push(args[k].to_owned());
        k = k + 1;
    }
    assert(texts(v@) =~= args@.map_values(|a: &str| a@));
    ManagerCommand { program: program.to_owned(), args: v }
}

/// The listing command of the manager at `i` in scan order.
pub fn scan_command(i: usize) -> (r: ManagerCommand)
    requires
        i < manager_count(),
    ensures
        r@ == scan_table()[i as int],
{
    let r = if i == 0 {
        command_of("npm", &["list", "-g", "--depth=0", "--json"])
    } else if i == 1 {
        command_of("pip", &["list", "--format=json"])
    } else if i == 2 {
        command_of("pip3", &["list", "--format=json"])
    } else if i == 3 {
        command_of("pipx", &["list", "--json"])
    } else if i == 4 {
        command_of("conda", &["list", "--json"])
    } else if i == 5 {
        command_of("pixi", &["list", "--json"])
    } else if i == 6 {
        command_of("cargo", &["install", "--list"])
    } else if i == 7 {
        command_of("brew", &["list", "--versions"])
    } else {
        command_of("mas", &["list"])
    };
    assert(r@ =~= scan_table()[i as int]);
    r
}

/// Where the manager at `i` looks up newest versions.
pub fn latest_source_of(i: usize) -> (r: Option<LatestSource>)
    ensures
        r == latest_source(i as int),
{
    if i == 0 {
        Some(LatestSource::NpmView)
    } else if i == 1 {
        Some(LatestSource::PipIndex)
    } else if i == 2 {
        Some(LatestSource::PyPI)
    } else if i == 6 {
        Some(LatestSource::CratesIo)
    } else if i == 7 {
        Some(LatestSource::BrewInfo)
    } else {
        None
    }
}

fn names_of(pairs: &Vec<(String, String)>) -> (r: Vec<String>)
    ensures
        texts(r@) == pair_names(pairs_view(pairs@)),
{
    let mut v: Vec<String> = Vec::new();
    let mut k: usize = 0;
    while k < pairs.len()
        invariant
            k <= pairs@.len(),
            v@.len() == k,
            forall|j: int| 0 <= j < k ==> (#[trigger] v@[j])@ == pairs@[j].0@,
        decreases pairs@.len() - k,
    {
        v.push(pairs[k].0.clone());
        k = k + 1;
    }
    assert(texts(v@) =~= pair_names(pairs_view(pairs@)));
    v
}

/// How a listing was read, before the result is made.
enum Listing {
    Pending(Vec<(String, String)>),
    Ready(Option<Packages>),
}

spec fn listing_view(l: Listing) -> ListingV {
    match l {
        Listing::Pending(p) => ListingV::Pending(pairs_view(p@)),
        Listing::Ready(pk) => ListingV::Ready(
            match pk {
                Some(p) => Some(p@),
                None => None,
            },
        ),
    }
}

/// How the successful output `stdout` of the manager at `i` is read; the output
/// is read as JSON for the managers whose listing is JSON.
fn read_listing(i: usize, stdout: String) -> (r: Listing)
    requires
        i < manager_count(),
        i == 0 ==> !(json_document(stdout@) matches Some(d) && npm_listing_fails(d)),
    ensures
        listing_view(r) == listing_of(i as int, stdout@, json_document(stdout@)),
{
    if i == 0 {
        match parse_json(stdout.as_str()) {
            Some(d) => match npm_listing(&d) {
                Some(p) => Listing::Pending(p),
                None => Listing::Ready(None),
            },
            None => Listing::Ready(None),
        }
    } else if i == 1 || i == 2 {
        match parse_json(stdout.as_str()) {
            Some(d) => match pip_listing(&d) {
                Some(p) => Listing::Pending(p),
                None => Listing::Ready(None),
            },
            None => Listing::Ready(None),
        }
    } else if i == 6 {
        Listing::Pending(cargo_listing(stdout.as_str()))
    } else if i == 7 {
        Listing::Pending(brew_listing(stdout.as_str()))
    } else {
        let d = match parse_json(stdout.as_str()) {
            Some(d) => d,
            None => Json::Str(stdout),
        };
        Listing::Ready(Some(Packages::Document(d)))
    }
}

fn scan_name(i: usize) -> (r: String)
    requires
        i < manager_count(),
    ensures
        r@ == manager_name(i as int),
{
    scan_command(i).program
}

fn make_result(i: usize, error: Option<String>, packages: Option<Packages>) -> (r:
    PackageManagerResult)
    requires
        i < manager_count(),
    ensures
        r@ == (ResultV {
            name: manager_name(i as int),
            detected: true,
            error: text_view(error),
            packages: packages_view(packages),
        }),
{
    PackageManagerResult { name: scan_name(i), detected: true, error, packages }
}

impl Scanner {
    /// A scan at its start, with the action it asks for first.
    pub fn start() -> (r: (Scanner, ScanAction))
        ensures
            r.0@ == (ScanV { current: 0, stage: StageV::Checking, results: Seq::empty() }),
            r.1@ == ActionV::CheckInstalled(manager_name(0)),
    {
        let s = Scanner { current: 0, stage: ScanStage::Checking, results: Vec::new() };
        assert(results_view(s.results@) =~= Seq::<ResultV>::empty());
        (s, ScanAction::CheckInstalled(scan_name(0)))
    }

    /// Whether the scan is over.
    pub fn is_finished(&self) -> (r: bool)
        ensures
            r == (self@.stage is Finished),
    {
        match self.stage {
            ScanStage::Finished => true,
            _ => false,
        }
    }

    /// The results so far.
    pub fn results(&self) -> (r: &Vec<PackageManagerResult>)
        ensures
            results_view(r@) == self@.results,
    {
        &self.results
    }

    /// The results, ending the scan.
    pub fn into_results(self) -> (r: Vec<PackageManagerResult>)
        ensures
            results_view(r@) == self@.results,
    {
        self.results
    }

    /// One step of the scan (see `scan_step`): takes in what came of the last
    /// action and gives the next action.
    pub fn step(&mut self, event: ScanEvent) -> (r: ScanAction)
        requires
            !scan_step_fails(old(self)@, event@),
        ensures
            (final(self)@, r@) == scan_step(old(self)@, event@),
    {
        proof { use_type_invariant(&*self); }
        let i = self.current;
        match event {
            ScanEvent::Installed(installed) => {
                if self.is_checking() {
                    if installed {
                        self.stage = ScanStage::Listing;
                        ScanAction::Run(scan_command(i))
                    } else {
                        self.finish_current(None)
                    }
                } else {
                    self.pending()
                }
            },
            ScanEvent::Listed(outcome) => {
                if self.is_listing() {
                    match outcome {
                        CommandOutcome::Failed(err) => self.finish_current(
                            Some(make_result(i, Some(err), None)),
                        ),
                        CommandOutcome::Finished { success, stdout, stderr } => {
                            if !success {
                                self.finish_current(Some(make_result(i, Some(stderr), None)))
                            } else {
                                match read_listing(i, stdout) {
                                    Listing::Pending(p) => {
                                        let names = names_of(&p);
                                        let src = latest_source_of(i).unwrap();
                                        self.stage = ScanStage::Fetching(p);
                                        ScanAction::FetchLatest(src, names)
                                    },
                                    Listing::Ready(pk) => self.finish_current(
                                        Some(make_result(i, None, pk)),
                                    ),
                                }
                            }
                        },
                    }
                } else {
                    self.pending()
                }
            },
            ScanEvent::LatestFound(latest) => {
                let entries = match &self.stage {
                    ScanStage::Fetching(p) => Some(with_latest(p, &latest)),
                    _ => None,
                };
                match entries {
                    Some(e) => self.finish_current(
                        Some(make_result(i, None, Some(Packages::Entries(e)))),
                    ),
                    None => self.pending(),
                }
            },
        }
    }

    fn is_checking(&self) -> (r: bool)
        ensures
            r == (self@.stage is Checking),
    {
        match self.stage {
            ScanStage::Checking => true,
            _ => false,
        }
    }

    fn is_listing(&self) -> (r: bool)
        ensures
            r == (self@.stage is Listing),
    {
        match self.stage {
            ScanStage::Listing => true,
            _ => false,
        }
    }

    /// Whether `event` is the one step the scan cannot take (see `scan_step_fails`).
    pub fn step_would_fail(&self, event: &ScanEvent) -> (r: bool)
        ensures
            r == scan_step_fails(self@, event@),
    {
        match (&self.stage, event) {
            (ScanStage::Listing, ScanEvent::Listed(CommandOutcome::Finished { success: true, stdout, .. })) => {
                if self.current != 0 {
                    return false;
                }
                match parse_json(stdout.as_str()) {
                    Some(d) => npm_listing_would_fail(&d),
                    None => false,
                }
            },
            _ => false,
        }
    }

    #[verifier::type_invariant]
    spec fn wf(&self) -> bool {
        &&& self.current < manager_count()
        &&& self.stage is Fetching ==> latest_source(self.current as int) is Some
    }

    fn pending(&self) -> (r: ScanAction)
        ensures
            r@ == pending_action(self@),
    {
        proof { use_type_invariant(self); }
        match &self.stage {
            ScanStage::Checking => ScanAction::CheckInstalled(scan_name(self.current)),
            ScanStage::Listing => ScanAction::Run(scan_command(self.current)),
            ScanStage::Fetching(p) => {
                let src = latest_source_of(self.current);
                ScanAction::FetchLatest(src.unwrap(), names_of(p))
            },
            ScanStage::Finished => ScanAction::Done,
        }
    }

    fn finish_current(&mut self, result: Option<PackageManagerResult>) -> (r: ScanAction)
        ensures
            (final(self)@, r@) == advance(
                old(self)@,
                match result {
                    Some(x) => old(self)@.results.push(x@),
                    None => old(self)@.results,
                },
            ),
    {
        proof { use_type_invariant(&*self); }
        let ghost before = self.results@;
        match result {
            Some(x) => {
                let mut results: Vec<PackageManagerResult> = Vec::new();
                std::mem::swap(&mut results, &mut self.results);
                results.push(x);
                self.results = results;
                assert(results_view(self.results@) =~= results_view(before).push(x@));
            },
            None => {},
        }
        if self.current + 1 < 9 {
            self.stage = ScanStage::Checking;
            self.current = self.current + 1;
            ScanAction::CheckInstalled(scan_name(self.current))
        } else {
            self.stage = ScanStage::Finished;
            ScanAction::Done
        }
    }
}

} // verus!
