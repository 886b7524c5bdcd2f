use pkg_manager::command::{
    manager_command_result, package_action_command, package_action_result, stream_done_event_name,
    stream_event_name, CommandOutcome,
};

fn args(m: &str, a: &str, p: &str) -> Option<Vec<String>> {
    package_action_command(m, a, p).ok().map(|c| {
        assert_eq!(c.program, m);
        c.args
    })
}

#[test]
fn action_commands_per_manager() {
    assert_eq!(args("npm", "install", "left-pad").unwrap(), vec!["install", "-g", "left-pad"]);
    assert_eq!(args("npm", "uninstall", "x").unwrap(), vec!["uninstall", "-g", "x"]);
    assert_eq!(args("npm", "update", "x").unwrap(), vec!["update", "-g", "x"]);
    assert_eq!(args("pip", "install", "x").unwrap(), vec!["install", "x"]);
    assert_eq!(args("pip", "uninstall", "x").unwrap(), vec!["uninstall", "-y", "x"]);
    assert_eq!(args("pip", "update", "x").unwrap(), vec!["install", "--upgrade", "x"]);
    assert_eq!(args("pipx", "update", "x").unwrap(), vec!["upgrade", "x"]);
    assert_eq!(args("conda", "uninstall", "x").unwrap(), vec!["remove", "-y", "x"]);
    assert_eq!(args("conda", "update", "x").unwrap(), vec!["update", "-y", "x"]);
    assert_eq!(args("pixi", "install", "x").unwrap(), vec!["add", "x"]);
    assert_eq!(args("pixi", "uninstall", "x").unwrap(), vec!["remove", "x"]);
    assert_eq!(args("cargo", "update", "x").unwrap(), vec!["install", "--force", "x"]);
    assert_eq!(args("cargo", "uninstall", "x").unwrap(), vec!["uninstall", "x"]);
    assert_eq!(args("brew", "update", "x").unwrap(), vec!["upgrade", "x"]);
    assert_eq!(args("mas", "install", "497799835").unwrap(), vec!["install", "497799835"]);
}

#[test]
fn unsupported_combination_is_an_error() {
    for (m, a) in [("pip3", "install"), ("npm", "remove"), ("apt", "install"), ("", "")] {
        match package_action_command(m, a, "x") {
            Err(e) => assert_eq!(e, "Unsupported manager/action combination"),
            Ok(_) => panic!("{} {} accepted", m, a),
        }
    }
}

#[test]
fn package_is_always_the_last_argument() {
    for m in ["npm", "pip", "pipx", "conda", "pixi", "cargo", "brew", "mas"] {
        for a in ["install", "uninstall", "update"] {
            let got = args(m, a, "the-package").unwrap();
            assert_eq!(got.last().unwrap(), "the-package");
        }
    }
}

#[test]
fn action_result_of_finished_commands() {
    let ok = package_action_result(
        "npm".into(),
        "install".into(),
        "x".into(),
        CommandOutcome::Finished { success: true, stdout: "out\n".into(), stderr: "warn\n".into() },
    );
    assert!(ok.success);
    assert_eq!(ok.error, None);
    assert_eq!(ok.output.as_deref(), Some("out\nwarn\n"));
    assert_eq!((ok.manager.as_str(), ok.action.as_str(), ok.package.as_str()), ("npm", "install", "x"));
    let bad = package_action_result(
        "pip".into(),
        "update".into(),
        "y".into(),
        CommandOutcome::Finished { success: false, stdout: "".into(), stderr: "boom".into() },
    );
    assert!(!bad.success);
    assert_eq!(bad.error.as_deref(), Some("boom"));
    assert_eq!(bad.output.as_deref(), Some("boom"));
}

#[test]
fn action_result_of_a_command_that_did_not_start() {
    let r = package_action_result(
        "brew".into(),
        "install".into(),
        "z".into(),
        CommandOutcome::Failed("No such file or directory".into()),
    );
    assert!(!r.success);
    assert_eq!(r.error.as_deref(), Some("No such file or directory"));
    assert_eq!(r.output, None);
}

#[test]
fn manager_command_results() {
    let r = manager_command_result(
        "npm".into(),
        vec!["outdated".into()],
        CommandOutcome::Finished { success: false, stdout: "a".into(), stderr: "b".into() },
    )
    .unwrap();
    assert_eq!(r.output, "ab");
    assert_eq!(r.error.as_deref(), Some("b"));
    assert_eq!(r.args, vec!["outdated"]);
    let ok = manager_command_result(
        "pip".into(),
        vec![],
        CommandOutcome::Finished { success: true, stdout: "a".into(), stderr: "".into() },
    )
    .unwrap();
    assert!(ok.success && ok.error.is_none());
    let e = manager_command_result("nope".into(), vec![], CommandOutcome::Failed("not found".into()));
    assert_eq!(e.err().as_deref(), Some("not found"));
}

#[test]
fn stream_event_names() {
    assert_eq!(stream_event_name("42"), "cli://42");
    assert_eq!(stream_done_event_name("42"), "cli://42:done");
    assert_eq!(stream_done_event_name("x"), format!("{}:done", stream_event_name("x")));
}
