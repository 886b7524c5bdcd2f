use pkg_manager::command::CommandOutcome;
use pkg_manager::json::Json;
use pkg_manager::scan::{latest_source_of, scan_command, LatestSource, Packages, ScanAction, ScanEvent, Scanner};

fn ok(out: &str) -> CommandOutcome {
    CommandOutcome::Finished { success: true, stdout: out.to_string(), stderr: String::new() }
}

fn expect_check(a: &ScanAction, program: &str) {
    match a {
        ScanAction::CheckInstalled(p) => assert_eq!(p, program),
        _ => panic!("expected a check of {}", program),
    }
}

fn expect_run(a: &ScanAction, program: &str, args: &[&str]) {
    match a {
        ScanAction::Run(c) => {
            assert_eq!(c.program, program);
            assert_eq!(c.args, args);
        },
        _ => panic!("expected running {}", program),
    }
}

fn expect_fetch(a: &ScanAction, source: LatestSource, names: &[&str]) {
    match a {
        ScanAction::FetchLatest(src, n) => {
            assert!(*src == source);
            assert_eq!(n, names);
        },
        _ => panic!("expected a lookup"),
    }
}

#[test]
fn scan_table_commands() {
    let c = scan_command(0);
    assert_eq!((c.program.as_str(), c.args.clone()), ("npm", vec!["list".to_string(), "-g".into(), "--depth=0".into(), "--json".into()]));
    assert_eq!(scan_command(6).args, vec!["install", "--list"]);
    assert_eq!(scan_command(8).program, "mas");
    assert!(latest_source_of(2) == Some(LatestSource::PyPI));
    assert!(latest_source_of(3).is_none());
}

#[test]
fn full_scan() {
    let (mut scan, a) = Scanner::start();
    expect_check(&a, "npm");
    // npm: installed, lists one package
    let a = scan.step(ScanEvent::Installed(true));
    expect_run(&a, "npm", &["list", "-g", "--depth=0", "--json"]);
    let ev = ScanEvent::Listed(ok(r#"{"dependencies": {"npm": {"version": "10.2.4"}}}"#));
    assert!(!scan.step_would_fail(&ev));
    let a = scan.step(ev);
    expect_fetch(&a, LatestSource::NpmView, &["npm"]);
    let a = scan.step(ScanEvent::LatestFound(vec![Some("10.5.0".into())]));
    expect_check(&a, "pip");
    // pip: not installed
    let a = scan.step(ScanEvent::Installed(false));
    expect_check(&a, "pip3");
    // pip3: listing fails
    let a = scan.step(ScanEvent::Installed(true));
    expect_run(&a, "pip3", &["list", "--format=json"]);
    let a = scan.step(ScanEvent::Listed(
        CommandOutcome::Finished { success: false, stdout: "".into(), stderr: "broken".into() },
    ));
    expect_check(&a, "pipx");
    // pipx: JSON kept as it stands
    scan.step(ScanEvent::Installed(true));
    let a = scan.step(ScanEvent::Listed(ok(r#"{"venvs": {}}"#)));
    expect_check(&a, "conda");
    // conda: cannot start
    scan.step(ScanEvent::Installed(true));
    let a = scan.step(ScanEvent::Listed(CommandOutcome::Failed("denied".into())));
    expect_check(&a, "pixi");
    let a = scan.step(ScanEvent::Installed(false));
    expect_check(&a, "cargo");
    // cargo: text listing
    scan.step(ScanEvent::Installed(true));
    let a = scan.step(ScanEvent::Listed(ok("ripgrep v13.0.0:\n    rg\n")));
    expect_fetch(&a, LatestSource::CratesIo, &["ripgrep"]);
    let a = scan.step(ScanEvent::LatestFound(vec![]));
    expect_check(&a, "brew");
    let a = scan.step(ScanEvent::Installed(false));
    expect_check(&a, "mas");
    // mas: plain text, kept as a string
    scan.step(ScanEvent::Installed(true));
    let a = scan.step(ScanEvent::Listed(ok("497799835 Xcode (15.0)\n")));
    assert!(matches!(a, ScanAction::Done));
    assert!(scan.is_finished());
    assert!(matches!(scan.step(ScanEvent::Installed(true)), ScanAction::Done));

    let results = scan.into_results();
    let names: Vec<&str> = results.iter().map(|r| r.name.as_str()).collect();
    assert_eq!(names, vec!["npm", "pip3", "pipx", "conda", "cargo", "mas"]);
    assert!(results.iter().all(|r| r.detected));
    match &results[0].packages {
        Some(Packages::Entries(e)) => {
            assert_eq!(e.len(), 1);
            assert_eq!(e[0].name, "npm");
            assert_eq!(e[0].version, "10.2.4");
            assert_eq!(e[0].latest_version.as_deref(), Some("10.5.0"));
        },
        _ => panic!("npm entries"),
    }
    assert_eq!(results[1].error.as_deref(), Some("broken"));
    assert!(results[1].packages.is_none());
    assert!(matches!(&results[2].packages, Some(Packages::Document(Json::Object(f))) if f.len() == 1 && f[0].0 == "venvs"));
    assert!(results[2].error.is_none());
    assert_eq!(results[3].error.as_deref(), Some("denied"));
    match &results[4].packages {
        Some(Packages::Entries(e)) => {
            assert_eq!(e.len(), 1);
            assert_eq!((e[0].name.as_str(), e[0].version.as_str()), ("ripgrep", "13.0.0"));
            assert_eq!(e[0].latest_version, None);
        },
        _ => panic!("cargo entries"),
    }
    assert!(matches!(&results[5].packages, Some(Packages::Document(Json::Str(t))) if t == "497799835 Xcode (15.0)\n"));
}

#[test]
fn unexpected_events_change_nothing() {
    let (mut scan, _) = Scanner::start();
    let a = scan.step(ScanEvent::LatestFound(vec![]));
    expect_check(&a, "npm");
    scan.step(ScanEvent::Installed(true));
    let a = scan.step(ScanEvent::Installed(false));
    expect_run(&a, "npm", &["list", "-g", "--depth=0", "--json"]);
    assert!(scan.results().is_empty());
}

#[test]
fn npm_without_json_or_dependencies_has_no_packages() {
    let (mut scan, _) = Scanner::start();
    scan.step(ScanEvent::Installed(true));
    let a = scan.step(ScanEvent::Listed(ok("not json")));
    expect_check(&a, "pip");
    scan.step(ScanEvent::Installed(true));
    let a = scan.step(ScanEvent::Listed(ok("{}")));
    expect_check(&a, "pip3");
    let r = scan.results();
    assert_eq!(r.len(), 2);
    assert!(r[0].packages.is_none() && r[0].error.is_none());
    assert!(r[1].packages.is_none());
}

#[test]
fn npm_dependencies_that_are_not_an_object_stop_the_scan() {
    let (mut scan, _) = Scanner::start();
    scan.step(ScanEvent::Installed(true));
    let ev = ScanEvent::Listed(ok(r#"{"dependencies": []}"#));
    assert!(scan.step_would_fail(&ev));
}

#[test]
fn pip_and_brew_listings_ask_for_newest_versions() {
    let (mut scan, _) = Scanner::start();
    scan.step(ScanEvent::Installed(false));
    scan.step(ScanEvent::Installed(true));
    let a = scan.step(ScanEvent::Listed(ok(r#"[{"name": "flask", "version": "2.0.0"}]"#)));
    expect_fetch(&a, LatestSource::PipIndex, &["flask"]);
    let a = scan.step(ScanEvent::LatestFound(vec![Some("3.0.0".into()), Some("extra".into())]));
    expect_check(&a, "pip3");
    for _ in 0..5 {
        scan.step(ScanEvent::Installed(false));
    }
    let a = scan.step(ScanEvent::Installed(true));
    expect_run(&a, "brew", &["list", "--versions"]);
    let a = scan.step(ScanEvent::Listed(ok("git 2.43.0\nwget 1.21_1\n")));
    expect_fetch(&a, LatestSource::BrewInfo, &["git", "wget"]);
    let a = scan.step(ScanEvent::LatestFound(vec![None, Some("1.22".into())]));
    expect_check(&a, "mas");
    let a = scan.step(ScanEvent::Installed(false));
    assert!(matches!(a, ScanAction::Done));
    let r = scan.into_results();
    assert_eq!(r.len(), 2);
    match (&r[0].packages, &r[1].packages) {
        (Some(Packages::Entries(p)), Some(Packages::Entries(b))) => {
            assert_eq!(p[0].latest_version.as_deref(), Some("3.0.0"));
            assert_eq!(b[1].version, "1.21");
            assert_eq!(b[1].latest_version.as_deref(), Some("1.22"));
            assert_eq!(b[0].latest_version, None);
        },
        _ => panic!("entries expected"),
    }
}
