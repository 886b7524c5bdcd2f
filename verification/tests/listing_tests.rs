use pkg_manager::json::Json;
use pkg_manager::listing::{
    brew_listing, cargo_listing, npm_listing, npm_listing_would_fail, pip_listing, with_latest,
};

fn obj(fields: Vec<(&str, Json)>) -> Json {
    Json::Object(fields.into_iter().map(|(k, v)| (k.to_string(), v)).collect())
}

fn s(t: &str) -> Json {
    Json::Str(t.to_string())
}

fn pairs(v: &[(&str, &str)]) -> Vec<(String, String)> {
    v.iter().map(|(a, b)| (a.to_string(), b.to_string())).collect()
}

#[test]
fn cargo_install_list() {
    let out = "ripgrep v13.0.0:\n    rg\nbat v0.24.0:\n    bat\ncargo-edit v0.12.2 (/home/u/src):\n";
    assert_eq!(
        cargo_listing(out),
        pairs(&[("ripgrep", "13.0.0"), ("bat", "0.24.0"), ("cargo-edit", "0.12.2")])
    );
    assert_eq!(cargo_listing(""), pairs(&[]));
    assert_eq!(cargo_listing("lonely\n"), pairs(&[]));
    assert_eq!(cargo_listing("tool  v1:"), pairs(&[("tool", "")]));
    assert_eq!(cargo_listing("x vv2::"), pairs(&[("x", "v2:")]));
}

#[test]
fn brew_list_versions() {
    let out = "git 2.43.0\nopenssl@3 3.2.0_1\npython@3.12 3.12.1_1 3.12.0\nnoversion\n";
    assert_eq!(
        brew_listing(out),
        pairs(&[("git", "2.43.0"), ("openssl@3", "3.2.0"), ("python@3.12", "3.12.1")])
    );
    assert_eq!(brew_listing(" lead 1"), pairs(&[("", "lead 1")]));
}

#[test]
fn npm_list_json() {
    let doc = obj(vec![(
        "dependencies",
        obj(vec![
            ("corepack", obj(vec![("version", s("0.24.0"))])),
            ("npm", obj(vec![("version", s("10.2.4")), ("overridden", Json::Bool(false))])),
            ("odd", obj(vec![("version", Json::Number("3".to_string()))])),
        ]),
    )]);
    assert!(!npm_listing_would_fail(&doc));
    assert_eq!(
        npm_listing(&doc),
        Some(pairs(&[("corepack", "0.24.0"), ("npm", "10.2.4"), ("odd", "")]))
    );
    let none = obj(vec![("name", s("lib"))]);
    assert_eq!(npm_listing(&none), None);
    assert!(npm_listing_would_fail(&obj(vec![("dependencies", Json::Array(vec![]))])));
}

#[test]
fn pip_list_json() {
    let doc = Json::Array(vec![
        obj(vec![("name", s("requests")), ("version", s("2.31.0"))]),
        obj(vec![("name", s("urllib3"))]),
        Json::Null,
    ]);
    assert_eq!(
        pip_listing(&doc),
        Some(pairs(&[("requests", "2.31.0"), ("urllib3", ""), ("", "")]))
    );
    assert_eq!(pip_listing(&obj(vec![])), None);
}

#[test]
fn latest_versions_attach_by_position() {
    let p = pairs(&[("a", "1"), ("b", "2"), ("c", "3")]);
    let latest = vec![Some("1.1".to_string()), None];
    let e = with_latest(&p, &latest);
    assert_eq!(e.len(), 3);
    assert_eq!((e[0].name.as_str(), e[0].version.as_str()), ("a", "1"));
    assert_eq!(e[0].latest_version.as_deref(), Some("1.1"));
    assert_eq!(e[1].latest_version, None);
    assert_eq!(e[2].latest_version, None);
}

#[test]
fn listed_names_and_versions_have_no_separators() {
    let brew = brew_listing("a 1_2\nb c_d_e f\nsolo\n");
    assert!(brew.len() <= 4);
    for (name, version) in &brew {
        assert!(!name.contains(' '));
        assert!(!version.contains('_'));
    }
    let cargo = cargo_listing("x v1:\n y v2:\nz  \n");
    assert!(cargo.len() <= 4);
    for (name, _) in &cargo {
        assert!(!name.is_empty() && !name.contains(' '));
    }
}
