use pkg_manager::command::CommandOutcome;
use pkg_manager::system::{
    choose_version, extract_version, probe_output, search_path, system_report, tool_version,
    tool_versions,
    version_pattern_for, version_probe_command,
};

#[test]
fn versions_from_tool_output() {
    let cases = [
        ("python", "Python 3.11.4\n", Some("3.11.4")),
        ("node", "v20.10.0", Some("20.10.0")),
        ("npm", "10.2.4\n", Some("10.2.4")),
        ("rustc", "rustc 1.75.0 (82e1608df 2023-12-21)", Some("1.75.0")),
        ("cargo", "cargo 1.75.0 (1d8b05cdd 2023-11-20)", Some("1.75.0")),
        ("pip", "pip 23.3.1 from /usr/lib/python3/dist-packages/pip (python 3.12)", Some("23.3.1")),
        ("conda", "conda 23.7.4", Some("23.7.4")),
        ("brew", "Homebrew 4.2.0\nHomebrew/homebrew-core (git revision 1)", Some("4.2.0")),
        ("zsh", "zsh 5.9 (x86_64-apple-darwin23.0)", Some("5.9")),
        ("python", "version 3.9 here", Some("3.9")),
        ("python", "version 7", None),
        ("unknown", "", None),
    ];
    for (tool, out, want) in cases {
        let got = extract_version(tool, out);
        assert_eq!(got.as_deref(), want, "{} {:?}", tool, out);
        if let Some(v) = got {
            assert!(out.trim().contains(v.as_str()));
        }
    }
}

#[test]
fn version_patterns() {
    assert_eq!(version_pattern_for("python"), Some(r"Python ([\d.]+)"));
    assert_eq!(version_pattern_for("node"), Some(r"v?([\d.]+)"));
    assert_eq!(version_pattern_for("bash"), None);
    assert_eq!(choose_version(Some("1".into()), Some("2".into())).as_deref(), Some("1"));
    assert_eq!(choose_version(None, Some("2".into())).as_deref(), Some("2"));
    assert_eq!(choose_version(None, None), None);
}

#[test]
fn probes() {
    let c = version_probe_command("node");
    assert_eq!(c.program, "node");
    assert_eq!(c.args, vec!["--version"]);
    let ok = CommandOutcome::Finished { success: true, stdout: " v1.0\n".into(), stderr: "".into() };
    assert_eq!(probe_output(&ok).as_deref(), Some("v1.0"));
    let bad = CommandOutcome::Finished { success: false, stdout: "v1.0".into(), stderr: "".into() };
    assert_eq!(probe_output(&bad), None);
    assert_eq!(probe_output(&CommandOutcome::Failed("x".into())), None);
    assert_eq!(tool_version("node", &Some("v18.2.0".into())), "18.2.0");
    assert_eq!(tool_version("node", &None), "");
    assert_eq!(tool_version("node", &Some("none".into())), "");
}

#[test]
fn tool_versions_prefer_python3_and_pip() {
    let v = tool_versions(
        None,
        Some("Python 2.7.18".into()),
        Some("v20.1.0".into()),
        None,
        Some("cargo 1.70.0 (ec8a8a0ca 2023-04-25)".into()),
        Some("9.6.6".into()),
        None,
        Some("pip 22.0 from /x (python 3.10)".into()),
        Some("conda 4.12.0".into()),
        None,
    );
    assert_eq!(v.python, "2.7.18");
    assert_eq!(v.node, "20.1.0");
    assert_eq!(v.rustc, "");
    assert_eq!(v.cargo, "1.70.0");
    assert_eq!(v.npm, "9.6.6");
    assert_eq!(v.pip, "22.0");
    assert_eq!(v.conda, "4.12.0");
    assert_eq!(v.brew, "");
    let both = tool_versions(
        Some("Python 3.12.0".into()), Some("Python 2.7.18".into()), None, None, None, None, None,
        None, None, None,
    );
    assert_eq!(both.python, "3.12.0");
}

#[test]
fn search_path_entries() {
    assert_eq!(
        search_path("/home/u", Some("/x:/y")),
        "/usr/local/bin:/opt/homebrew/bin:/usr/bin:/bin:/usr/sbin:/sbin:/home/u/.cargo/bin:/x:/y"
    );
    assert_eq!(
        search_path("", None),
        "/usr/local/bin:/opt/homebrew/bin:/usr/bin:/bin:/usr/sbin:/sbin:/.cargo/bin"
    );
    let p = search_path("/h", Some("/z"));
    let back: Vec<&str> = p.split(':').collect();
    assert_eq!(back.len(), 8);
    assert_eq!(back[6], "/h/.cargo/bin");
    assert_eq!(back[7], "/z");
}

#[test]
fn system_report_fields() {
    let v = tool_versions(None, None, None, None, None, None, None, None, None, None);
    let r = system_report(
        Some("Darwin".into()),
        None,
        Some("23.1.0".into()),
        &vec!["Apple M2".to_string(), "Apple M2".to_string()],
        16,
        8,
        4,
        1,
        v,
        Some("/bin/zsh".into()),
        vec![("HOME".into(), "/Users/u".into())],
    );
    assert_eq!(r.os, "Darwin");
    assert_eq!(r.os_version, "");
    assert_eq!(r.kernel_version, "23.1.0");
    assert_eq!(r.cpu_brand, "Apple M2");
    assert_eq!(r.cpu_cores, 2);
    assert_eq!((r.total_memory, r.used_memory, r.total_swap, r.used_swap), (16, 8, 4, 1));
    assert!(r.disks.is_empty());
    assert_eq!(r.shell.as_deref(), Some("/bin/zsh"));
    assert_eq!(r.env_vars, vec![("HOME".to_string(), "/Users/u".to_string())]);
    let none = system_report(None, None, None, &vec![], 0, 0, 0, 0,
        tool_versions(None, None, None, None, None, None, None, None, None, None), None, vec![]);
    assert_eq!(none.cpu_brand, "");
    assert_eq!(none.cpu_cores, 0);
}
