//! Commands run against a package manager: installing, removing and upgrading a
//! package, running arbitrary arguments, and the names of streamed output events.

use vstd::prelude::*;
use crate::text::same_text;

verus! {

/// A program and its arguments.
pub struct ManagerCommand {
    pub program: String,
    pub args: Vec<String>,
}

/// The texts of a sequence of strings.
pub open spec fn texts(v: Seq<String>) -> Seq<Seq<char>> {
    v.map_values(|s: String| s@)
}

impl View for ManagerCommand {
    type V = (Seq<char>, Seq<Seq<char>>);

    open spec fn view(&self) -> (Seq<char>, Seq<Seq<char>>) {
        (self.program@, texts(self.args@))
    }
}

/// What came of starting a program.
pub enum CommandOutcome {
    /// It ran to its end: whether it exited successfully, and what it wrote (decoded as UTF-8).
    Finished { success: bool, stdout: String, stderr: String },
    /// It could not be started; the text of the error.
    Failed(String),
}

/// The plain content of a `CommandOutcome`.
pub enum OutcomeV {
    Finished { success: bool, stdout: Seq<char>, stderr: Seq<char> },
    Failed(Seq<char>),
}

impl View for CommandOutcome {
    type V = OutcomeV;

    open spec fn view(&self) -> OutcomeV {
        match self {
            CommandOutcome::Finished { success, stdout, stderr } => OutcomeV::Finished {
                success: *success,
                stdout: stdout@,
                stderr: stderr@,
            },
            CommandOutcome::Failed(e) => OutcomeV::Failed(e@),
        }
    }
}

/// The managers that take install, uninstall and update requests.
pub open spec fn is_action_manager(m: Seq<char>) -> bool {
    ||| m == "npm"@
    ||| m == "pip"@
    ||| m == "pipx"@
    ||| m == "conda"@
    ||| m == "pixi"@
    ||| m == "cargo"@
    ||| m == "brew"@
    ||| m == "mas"@
}

/// The actions a package can be put through.
pub open spec fn is_action(a: Seq<char>) -> bool {
    a == "install"@ || a == "uninstall"@ || a == "update"@
}

/// The arguments given to the manager's own program for an action on a package.
pub open spec fn action_args(m: Seq<char>, a: Seq<char>, p: Seq<char>) -> Option<Seq<Seq<char>>> {
    let ins = a == "install"@;
    let uni = a == "uninstall"@;
    let upd = a == "update"@;
    if m == "npm"@ {
        if ins { Some(seq!["install"@, "-g"@, p]) }
        else if uni { Some(seq!["uninstall"@, "-g"@, p]) }
        else if upd { Some(seq!["update"@, "-g"@, p]) }
        else { None }
    } else if m == "pip"@ {
        if ins { Some(seq!["install"@, p]) }
        else if uni { Some(seq!["uninstall"@, "-y"@, p]) }
        else if upd { Some(seq!["install"@, "--upgrade"@, p]) }
        else { None }
    } else if m == "pipx"@ {
        if ins { Some(seq!["install"@, p]) }
        else if uni { Some(seq!["uninstall"@, p]) }
        else if upd { Some(seq!["upgrade"@, p]) }
        else { None }
    } else if m == "conda"@ {
        if ins { Some(seq!["install"@, "-y"@, p]) }
        else if uni { Some(seq!["remove"@, "-y"@, p]) }
        else if upd { Some(seq!["update"@, "-y"@, p]) }
        else { None }
    } else if m == "pixi"@ {
        if ins { Some(seq!["add"@, p]) }
        else if uni { Some(seq!["remove"@, p]) }
        else if upd { Some(seq!["update"@, p]) }
        else { None }
    } else if m == "cargo"@ {
        if ins { Some(seq!["install"@, p]) }
        else if uni { Some(seq!["uninstall"@, p]) }
        else if upd { Some(seq!["install"@, "--force"@, p]) }
        else { None }
    } else if m == "brew"@ || m == "mas"@ {
        if ins { Some(seq!["install"@, p]) }
        else if uni { Some(seq!["uninstall"@, p]) }
        else if upd { Some(seq!["upgrade"@, p]) }
        else { None }
    } else {
        None
    }
}

/// The error text for a manager and action that go together in no command.
pub open spec fn unsupported_action_text() -> Seq<char> {
    "Unsupported manager/action combination"@
}

fn strings2(a: &str, b: &str) -> (r: Vec<String>)
    ensures
        texts(r@) == seq![a@, b@],
{
    let r = vec![a.to_owned(), b.to_owned()];
    assert(texts(r@) =~= seq![a@, b@]);
    r
}

fn strings3(a: &str, b: &str, c: &str) -> (r: Vec<String>)
    ensures
        texts(r@) == seq![a@, b@, c@],
{
    let r = vec![a.to_owned(), b.to_owned(), c.to_owned()];
    assert(texts(r@) =~= seq![a@, b@, c@]);
    r
}

/// The command that puts `package` through `action` with `manager`, or the
/// error text where the manager has no such command.
pub fn package_action_command(manager: &str, action: &str, package: &str) -> (r: Result<
    ManagerCommand,
    String,
>)
    ensures
        match r {
            Ok(c) => action_args(manager@, action@, package@) == Some(c@.1) && c@.0 == manager@,
            Err(e) => action_args(manager@, action@, package@) is None && e@
                == unsupported_action_text(),
        },
{
    let ins = same_text(action, "install");
    let uni = same_text(action, "uninstall");
    let upd = same_text(action, "update");
    let p = package;
    let args: Option<Vec<String>> = if same_text(manager, "npm") {
        if ins { Some(strings3("install", "-g", p)) }
        else if uni { Some(strings3("uninstall", "-g", p)) }
        else if upd { Some(strings3("update", "-g", p)) }
        else { None }
    } else if same_text(manager, "pip") {
        if ins { Some(strings2("install", p)) }
        else if uni { Some(strings3("uninstall", "-y", p)) }
        else if upd { Some(strings3("install", "--upgrade", p)) }
        else { None }
    } else if same_text(manager, "pipx") {
        if ins { Some(strings2("install", p)) }
        else if uni { Some(strings2("uninstall", p)) }
        else if upd { Some(strings2("upgrade", p)) }
        else { None }
    } else if same_text(manager, "conda") {
        if ins { Some(strings3("install", "-y", p)) }
        else if uni { Some(strings3("remove", "-y", p)) }
        else if upd { Some(strings3("update", "-y", p)) }
        else { None }
    } else if same_text(manager, "pixi") {
        if ins { Some(strings2("add", p)) }
        else if uni { Some(strings2("remove", p)) }
        else if upd { Some(strings2("update", p)) }
        else { None }
    } else if same_text(manager, "cargo") {
        if ins { Some(strings2("install", p)) }
        else if uni { Some(strings2("uninstall", p)) }
        else if upd { Some(strings3("install", "--force", p)) }
        else { None }
    } else if same_text(manager, "brew") || same_text(manager, "mas") {
        if ins { Some(strings2("install", p)) }
        else if uni { Some(strings2("uninstall", p)) }
        else if upd { Some(strings2("upgrade", p)) }
        else { None }
    } else {
        None
    };
    match args {
        Some(args) => Ok(ManagerCommand { program: manager.to_owned(), args }),
        None => Err("Unsupported manager/action combination".to_owned()),
    }
}


/// A manager runs a command for an action exactly when the manager is one of
/// npm, pip, pipx, conda, pixi, cargo, brew and mas and the action is install,
/// uninstall or update; the package is then the last argument.
pub proof fn lemma_action_command_shape(m: Seq<char>, a: Seq<char>, p: Seq<char>)
    ensures
        action_args(m, a, p) is Some <==> is_action_manager(m) && is_action(a),
        action_args(m, a, p) matches Some(args) ==> args.len() >= 2 && args.last() == p,
{
}

/// The verb by which a manager removes a package: `remove` for conda and pixi,
/// `uninstall` for the others.
pub open spec fn removal_verb(m: Seq<char>) -> Seq<char> {
    if m == "conda"@ || m == "pixi"@ {
        "remove"@
    } else {
        "uninstall"@
    }
}

/// The verb by which a manager adds a package: `add` for pixi, `install` for the others.
pub open spec fn adding_verb(m: Seq<char>) -> Seq<char> {
    if m == "pixi"@ {
        "add"@
    } else {
        "install"@
    }
}

/// Each action asks the manager for what it names. Uninstalling runs the
/// manager's removal verb on the package, and never a verb that installs,
/// adds, updates or upgrades; installing runs its adding verb; and the three
/// actions give three different commands, so that no action on a package does
/// what another one does.
pub proof fn lemma_actions_do_what_they_name(m: Seq<char>, p: Seq<char>)
    requires
        is_action_manager(m),
    ensures
        action_args(m, "uninstall"@, p) matches Some(args) && args[0] == removal_verb(m)
            && args.last() == p,
        action_args(m, "install"@, p) matches Some(args) && args[0] == adding_verb(m)
            && args.last() == p,
        action_args(m, "uninstall"@, p) matches Some(args) && args[0] != "install"@ && args[0]
            != "add"@ && args[0] != "update"@ && args[0] != "upgrade"@,
        action_args(m, "uninstall"@, p) != action_args(m, "install"@, p),
        action_args(m, "uninstall"@, p) != action_args(m, "update"@, p),
        action_args(m, "install"@, p) != action_args(m, "update"@, p),
{
    lemma_action_words_differ();
    let u = action_args(m, "uninstall"@, p)->0;
    let i = action_args(m, "install"@, p)->0;
    let d = action_args(m, "update"@, p)->0;
    if m == "npm"@ {
        assert(u =~= seq!["uninstall"@, "-g"@, p]);
    } else if m == "pip"@ {
        assert(u =~= seq!["uninstall"@, "-y"@, p]);
        assert(d =~= seq!["install"@, "--upgrade"@, p]);
        assert(i.len() != d.len());
    } else if m == "pipx"@ {
        assert(u =~= seq!["uninstall"@, p]);
    } else if m == "conda"@ {
        assert(u =~= seq!["remove"@, "-y"@, p]);
    } else if m == "pixi"@ {
        assert(u =~= seq!["remove"@, p]);
    } else if m == "cargo"@ {
        assert(u =~= seq!["uninstall"@, p]);
        assert(d =~= seq!["install"@, "--force"@, p]);
        assert(i.len() != d.len());
    } else {
        assert(u =~= seq!["uninstall"@, p]);
    }
    if u == i {
        assert(u[0] == i[0]);
    }
    if u == d {
        assert(u[0] == d[0]);
    }
    if i == d {
        assert(i[0] == d[0] && i.len() == d.len());
    }
}

/// The words of the actions and the names of the managers are told apart.
proof fn lemma_action_words_differ()
    ensures
        "install"@ != "uninstall"@,
        "install"@ != "update"@,
        "uninstall"@ != "update"@,
        "install"@ != "upgrade"@,
        "install"@ != "add"@,
        "install"@ != "remove"@,
        "uninstall"@ != "upgrade"@,
        "uninstall"@ != "add"@,
        "uninstall"@ != "remove"@,
        "update"@ != "upgrade"@,
        "update"@ != "remove"@,
        "update"@ != "add"@,
        "upgrade"@ != "remove"@,
        "add"@ != "remove"@,
        "npm"@ != "pip"@,
        "npm"@ != "pipx"@,
        "npm"@ != "conda"@,
        "npm"@ != "pixi"@,
        "npm"@ != "cargo"@,
        "npm"@ != "brew"@,
        "npm"@ != "mas"@,
        "pip"@ != "pipx"@,
        "pip"@ != "conda"@,
        "pip"@ != "pixi"@,
        "pip"@ != "cargo"@,
        "pip"@ != "brew"@,
        "pip"@ != "mas"@,
        "pipx"@ != "conda"@,
        "pipx"@ != "pixi"@,
        "pipx"@ != "cargo"@,
        "pipx"@ != "brew"@,
        "pipx"@ != "mas"@,
        "conda"@ != "pixi"@,
        "conda"@ != "cargo"@,
        "conda"@ != "brew"@,
        "conda"@ != "mas"@,
        "pixi"@ != "cargo"@,
        "pixi"@ != "brew"@,
        "pixi"@ != "mas"@,
        "cargo"@ != "brew"@,
        "cargo"@ != "mas"@,
        "brew"@ != "mas"@,
{
    reveal_strlit("install");
    reveal_strlit("uninstall");
    reveal_strlit("update");
    reveal_strlit("upgrade");
    reveal_strlit("remove");
    reveal_strlit("add");
    reveal_strlit("npm");
    reveal_strlit("pip");
    reveal_strlit("pipx");
    reveal_strlit("conda");
    reveal_strlit("pixi");
    reveal_strlit("cargo");
    reveal_strlit("brew");
    reveal_strlit("mas");
    assert("install"@[0] != "upgrade"@[0]);
    assert("install"@[0] != "uninstall"@[0]);
    assert("update"@[0] != "remove"@[0]);
    assert("uninstall"@[0] != "upgrade"@[2]);
    assert("npm"@[0] != "pip"@[0] && "npm"@[0] != "mas"@[0] && "pip"@[0] != "mas"@[0]);
    assert("pipx"@[2] != "pixi"@[2] && "pipx"@[0] != "brew"@[0] && "pixi"@[0] != "brew"@[0]);
    assert("conda"@[2] != "cargo"@[2]);
    assert("uninstall"@.len() != "update"@.len());
    assert("pip"@.len() != "pipx"@.len());
}

/// What came of putting a package through an action.
pub struct PackageActionResult {
    pub manager: String,
    pub action: String,
    pub package: String,
    pub success: bool,
    pub error: Option<String>,
    pub output: Option<String>,
}

/// The report of an action whose command had the given outcome: on a finished
/// command, its success, its standard error as the error where it failed, and
/// its standard output followed by its standard error as the output; on a
/// command that could not start, failure with the start error and no output.
pub fn package_action_result(
    manager: String,
    action: String,
    package: String,
    outcome: CommandOutcome,
) -> (r: PackageActionResult)
    ensures
        r.manager == manager,
        r.action == action,
        r.package == package,
        match outcome@ {
            OutcomeV::Finished { success, stdout, stderr } => {
                &&& r.success == success
                &&& (if success { r.error is None } else { r.error matches Some(e) && e@ == stderr })
                &&& r.output matches Some(o) && o@ == stdout + stderr
            },
            OutcomeV::Failed(e) => {
                &&& !r.success
                &&& r.error matches Some(m) && m@ == e
                &&& r.output is None
            },
        },
{
    match outcome {
        CommandOutcome::Finished { success, stdout, stderr } => {
            let error = if success { None } else { Some(stderr.clone()) };
            let output = stdout.concat(stderr.as_str());
            PackageActionResult { manager, action, package, success, error, output: Some(output) }
        },
        CommandOutcome::Failed(e) => PackageActionResult {
            manager,
            action,
            package,
            success: false,
            error: Some(e),
            output: None,
        },
    }
}

/// What came of running a manager with arguments.
pub struct ManagerCommandResult {
    pub manager: String,
    pub args: Vec<String>,
    pub success: bool,
    pub output: String,
    pub error: Option<String>,
}

/// The report of running `manager` with `args`: for a finished command, its
/// success, its standard output followed by its standard error, and its standard
/// error as the error where it failed; a command that could not start is an
/// error carrying the start error.
pub fn manager_command_result(manager: String, args: Vec<String>, outcome: CommandOutcome) -> (r:
    Result<ManagerCommandResult, String>)
    ensures
        match outcome@ {
            OutcomeV::Finished { success, stdout, stderr } => r matches Ok(c) && {
                &&& c.manager == manager
                &&& c.args == args
                &&& c.success == success
                &&& c.output@ == stdout + stderr
                &&& if success { c.error is None } else { c.error matches Some(e) && e@ == stderr }
            },
            OutcomeV::Failed(e) => r matches Err(m) && m@ == e,
        },
{
    match outcome {
        CommandOutcome::Finished { success, stdout, stderr } => {
            let output = stdout.concat(stderr.as_str());
            let error = if success { None } else { Some(stderr) };
            Ok(ManagerCommandResult { manager, args, success, output, error })
        },
        CommandOutcome::Failed(e) => Err(e),
    }
}

/// The event on which each line a streamed command writes is sent.
pub open spec fn stream_event(id: Seq<char>) -> Seq<char> {
    "cli://"@ + id
}

/// The event on which the end of a streamed command is sent.
pub open spec fn stream_done_event(id: Seq<char>) -> Seq<char> {
    "cli://"@ + id + ":done"@
}

/// The name of the event that carries the output lines of stream `event_id`.
pub fn stream_event_name(event_id: &str) -> (r: String)
    ensures
        r@ == stream_event(event_id@),
{
    let r = "cli://".to_owned();
    r.concat(event_id)
}

/// The name of the event that carries the exit code of stream `event_id`.
pub fn stream_done_event_name(event_id: &str) -> (r: String)
    ensures
        r@ == stream_done_event(event_id@),
{
    let r = stream_event_name(event_id);
    r.concat(":done")
}

/// The end of a stream is announced on the stream's own event name followed by `:done`.
pub proof fn lemma_done_event_extends_stream_event(id: Seq<char>)
    ensures
        stream_done_event(id) == stream_event(id) + ":done"@,
{
}

} // verus!
