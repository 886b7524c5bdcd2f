use pkg_manager::command::CommandOutcome;
use pkg_manager::json::Json;
use pkg_manager::latest::{
    brew_info_command, brew_latest_version, crates_io_url, crates_newest_version, npm_latest_version,
    npm_view_command, pip_index_command, pip_index_latest_version, pip_next_step, pypi_json_url,
    pypi_latest_version, PipAnswer,
};

fn obj(fields: Vec<(&str, Json)>) -> Json {
    Json::Object(fields.into_iter().map(|(k, v)| (k.to_string(), v)).collect())
}

fn s(t: &str) -> Json {
    Json::Str(t.to_string())
}

fn ok(out: &str) -> CommandOutcome {
    CommandOutcome::Finished { success: true, stdout: out.to_string(), stderr: String::new() }
}

#[test]
fn npm_view() {
    let c = npm_view_command("left-pad");
    assert_eq!(c.program, "npm");
    assert_eq!(c.args, vec!["view", "left-pad", "version"]);
    assert_eq!(npm_latest_version(&ok("  1.3.0\n")).as_deref(), Some("1.3.0"));
    assert_eq!(npm_latest_version(&ok(" \n")), None);
    let failed = CommandOutcome::Finished { success: false, stdout: "1.0".into(), stderr: "".into() };
    assert_eq!(npm_latest_version(&failed), None);
    assert_eq!(npm_latest_version(&CommandOutcome::Failed("x".into())), None);
}

#[test]
fn pip_index() {
    let c = pip_index_command("requests");
    assert_eq!((c.program.as_str(), c.args.clone()), ("pip", vec!["index".to_string(), "versions".into(), "requests".into()]));
    let out = "requests (2.31.0)\nAVAILABLE VERSIONS: 2.31.0, 2.30.0, 2.29.0\n  INSTALLED: 2.28.1\n";
    assert_eq!(pip_index_latest_version(&ok(out)).as_deref(), Some("2.31.0"));
    let lower = "requests (2.31.0)\nAvailable versions: 2.31.0, 2.30.0\n";
    assert_eq!(pip_index_latest_version(&ok(lower)), None);
    let empty_list = "AVAILABLE VERSIONS:  , 1.0\nAVAILABLE VERSIONS: 9.9\n";
    assert_eq!(pip_index_latest_version(&ok(empty_list)).as_deref(), Some("9.9"));
    assert_eq!(pip_index_latest_version(&ok("AVAILABLE VERSIONS 1.0")), None);
    let failed = CommandOutcome::Finished { success: false, stdout: out.into(), stderr: "".into() };
    assert_eq!(pip_index_latest_version(&failed), None);
}

#[test]
fn registry_addresses() {
    assert_eq!(pypi_json_url("requests"), "https://pypi.org/pypi/requests/json");
    assert_eq!(crates_io_url("serde"), "https://crates.io/api/v1/crates/serde");
    let c = brew_info_command("git");
    assert_eq!(c.program, "brew");
    assert_eq!(c.args, vec!["info", "git", "--json"]);
}

#[test]
fn registry_answers() {
    let pypi = obj(vec![("info", obj(vec![("version", s("2.31.0"))]))]);
    assert_eq!(pypi_latest_version(&pypi).as_deref(), Some("2.31.0"));
    assert_eq!(pypi_latest_version(&obj(vec![("info", obj(vec![]))])), None);
    let crates = obj(vec![("crate", obj(vec![("newest_version", s("1.0.197"))]))]);
    assert_eq!(crates_newest_version(&crates).as_deref(), Some("1.0.197"));
    assert_eq!(crates_newest_version(&pypi), None);
}

#[test]
fn brew_info_answer() {
    let out = r#"[{"name": "git", "versions": {"stable": "2.43.0", "head": "HEAD"}}]"#;
    assert_eq!(brew_latest_version(&ok(out)).as_deref(), Some("2.43.0"));
    assert_eq!(brew_latest_version(&ok("Error: not json")), None);
    let failed = CommandOutcome::Finished { success: false, stdout: out.into(), stderr: "".into() };
    assert_eq!(brew_latest_version(&failed), None);
    assert_eq!(brew_latest_version(&ok(r#"{"versions": {"stable": "1"}}"#)), None);
    assert_eq!(brew_latest_version(&CommandOutcome::Failed("x".into())), None);
}

#[test]
fn pip_lookup_falls_back_to_pypi() {
    match pip_next_step("flask", &ok("AVAILABLE VERSIONS: 3.0.0, 2.3.3")) {
        PipAnswer::Version(v) => assert_eq!(v, "3.0.0"),
        PipAnswer::AskPyPI(_) => panic!("index had a version"),
    }
    match pip_next_step("flask", &CommandOutcome::Failed("no pip".into())) {
        PipAnswer::AskPyPI(url) => assert_eq!(url, "https://pypi.org/pypi/flask/json"),
        PipAnswer::Version(_) => panic!("no version to find"),
    }
}
