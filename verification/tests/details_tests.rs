use pkg_manager::command::CommandOutcome;
use pkg_manager::details::{
    brew_details_document, details_source, package_details, DetailsFormat, DetailsSource,
};
use pkg_manager::json::Json;

fn obj(fields: Vec<(&str, Json)>) -> Json {
    Json::Object(fields.into_iter().map(|(k, v)| (k.to_string(), v)).collect())
}

fn s(t: &str) -> Json {
    Json::Str(t.to_string())
}

fn web(manager: &str, package: &str) -> (String, DetailsFormat) {
    match details_source(manager, package) {
        Ok(DetailsSource::Web { url, format }) => (url, format),
        _ => panic!("no web source for {}", manager),
    }
}

#[test]
fn where_records_come_from() {
    assert!(web("npm", "react") == ("https://registry.npmjs.org/react".to_string(), DetailsFormat::Npm));
    assert!(web("pip", "flask") == ("https://pypi.org/pypi/flask/json".to_string(), DetailsFormat::PyPI));
    assert!(web("pip3", "flask").1 == DetailsFormat::PyPI);
    assert!(web("cargo", "serde") == ("https://crates.io/api/v1/crates/serde".to_string(), DetailsFormat::Crates));
    match details_source("brew", "git") {
        Ok(DetailsSource::Command(c)) => {
            assert_eq!(c.program, "brew");
            assert_eq!(c.args, vec!["info", "git", "--json"]);
        },
        _ => panic!("brew"),
    }
    for m in ["pipx", "mas", "conda"] {
        assert_eq!(details_source(m, "x").err().as_deref(), Some("Manager not supported yet"));
    }
}

#[test]
fn brew_document_or_error() {
    let ok = CommandOutcome::Finished { success: true, stdout: r#"[{"desc": "d"}]"#.into(), stderr: "".into() };
    match brew_details_document(ok) {
        Ok(doc) => {
            let d = package_details(DetailsFormat::Brew, "x".into(), &doc);
            assert_eq!(d.description.as_deref(), Some("d"));
        },
        Err(e) => panic!("{}", e),
    }
    let not_json = CommandOutcome::Finished { success: true, stdout: "Warning: x".into(), stderr: "".into() };
    let want = serde_json::from_str::<serde_json::Value>("Warning: x").unwrap_err().to_string();
    assert_eq!(brew_details_document(not_json).err(), Some(want));
    let bad = CommandOutcome::Finished { success: false, stdout: "".into(), stderr: "Error: No available formula".into() };
    assert_eq!(brew_details_document(bad).err().as_deref(), Some("Error: No available formula"));
    assert_eq!(brew_details_document(CommandOutcome::Failed("gone".into())).err().as_deref(), Some("gone"));
}

#[test]
fn npm_record() {
    let doc = obj(vec![
        ("dist-tags", obj(vec![("latest", s("2.0.0"))])),
        (
            "versions",
            obj(vec![
                ("1.0.0", obj(vec![("description", s("old"))])),
                (
                    "2.0.0",
                    obj(vec![
                        ("description", s("A library")),
                        ("homepage", s("https://example.org")),
                        ("repository", obj(vec![("type", s("git")), ("url", s("git+https://example.org/r.git"))])),
                        ("license", s("MIT")),
                        ("author", obj(vec![("name", s("Ann"))])),
                        ("dependencies", obj(vec![("dep", s("^1"))])),
                    ]),
                ),
            ]),
        ),
    ]);
    let d = package_details(DetailsFormat::Npm, "lib".into(), &doc);
    assert_eq!(d.name, "lib");
    assert_eq!(d.description.as_deref(), Some("A library"));
    assert_eq!(d.homepage.as_deref(), Some("https://example.org"));
    assert_eq!(d.changelog, None);
    assert_eq!(d.repository.as_deref(), Some("git+https://example.org/r.git"));
    assert_eq!(d.license.as_deref(), Some("MIT"));
    assert_eq!(d.author.as_deref(), Some("Ann"));
    assert!(matches!(d.dependencies, Some(Json::Object(ref f)) if f.len() == 1 && f[0].0 == "dep"));
    assert!(matches!(d.raw, Some(Json::Object(ref f)) if f.len() == 6));
    let no_tag = obj(vec![("versions", obj(vec![("", obj(vec![("license", s("ISC"))]))]))]);
    let d2 = package_details(DetailsFormat::Npm, "x".into(), &no_tag);
    assert_eq!(d2.license.as_deref(), Some("ISC"));
}

#[test]
fn pypi_record() {
    let doc = obj(vec![(
        "info",
        obj(vec![
            ("summary", s("HTTP for humans")),
            ("home_page", s("https://requests.readthedocs.io")),
            ("project_urls", obj(vec![("Changelog", s("https://c")), ("Source", s("https://s"))])),
            ("license", s("Apache 2.0")),
            ("author", s("Kenneth")),
            ("requires_dist", Json::Array(vec![s("idna")])),
        ]),
    )]);
    let d = package_details(DetailsFormat::PyPI, "requests".into(), &doc);
    assert_eq!(d.description.as_deref(), Some("HTTP for humans"));
    assert_eq!(d.homepage.as_deref(), Some("https://requests.readthedocs.io"));
    assert_eq!(d.changelog.as_deref(), Some("https://c"));
    assert_eq!(d.repository.as_deref(), Some("https://s"));
    assert_eq!(d.license.as_deref(), Some("Apache 2.0"));
    assert_eq!(d.author.as_deref(), Some("Kenneth"));
    assert!(matches!(d.dependencies, Some(Json::Array(ref v)) if v.len() == 1));
    assert!(d.raw.is_some());
}

#[test]
fn crates_record() {
    let doc = obj(vec![
        (
            "crate",
            obj(vec![
                ("description", s("serialization")),
                ("homepage", s("https://serde.rs")),
                ("repository", s("https://github.com/serde-rs/serde")),
                ("license", s("MIT OR Apache-2.0")),
            ]),
        ),
        ("versions", Json::Array(vec![obj(vec![("dependencies", Json::Array(vec![]))])])),
    ]);
    let d = package_details(DetailsFormat::Crates, "serde".into(), &doc);
    assert_eq!(d.description.as_deref(), Some("serialization"));
    assert_eq!(d.repository.as_deref(), Some("https://github.com/serde-rs/serde"));
    assert_eq!(d.changelog, None);
    assert_eq!(d.author, None);
    assert!(matches!(d.dependencies, Some(Json::Array(ref v)) if v.is_empty()));
    assert!(matches!(d.raw, Some(Json::Object(ref f)) if f.len() == 4));
}

#[test]
fn brew_record() {
    let doc = Json::Array(vec![obj(vec![
        ("desc", s("Distributed revision control")),
        ("homepage", s("https://git-scm.com")),
        ("urls", obj(vec![("stable", obj(vec![("url", s("https://x"))]))])),
        ("license", s("GPL-2.0-only")),
        ("dependencies", Json::Array(vec![s("gettext"), s("pcre2")])),
    ])]);
    let d = package_details(DetailsFormat::Brew, "git".into(), &doc);
    assert_eq!(d.description.as_deref(), Some("Distributed revision control"));
    assert_eq!(d.repository, None);
    assert_eq!(d.changelog, None);
    assert_eq!(d.license.as_deref(), Some("GPL-2.0-only"));
    assert!(matches!(d.dependencies, Some(Json::Array(ref v)) if v.len() == 2));
    let empty = package_details(DetailsFormat::Brew, "none".into(), &Json::Array(vec![]));
    assert!(empty.raw.is_none() && empty.description.is_none());
}
