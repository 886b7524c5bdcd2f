use pkg_manager::json::{clone_opt, json_well_formed, parse_json, text_opt, Json};

fn obj(fields: Vec<(&str, Json)>) -> Json {
    Json::Object(fields.into_iter().map(|(k, v)| (k.to_string(), v)).collect())
}

fn s(t: &str) -> Json {
    Json::Str(t.to_string())
}

#[test]
fn get_finds_first_member_with_the_name() {
    let doc = obj(vec![("a", s("1")), ("b", s("2")), ("a", s("3"))]);
    assert_eq!(doc.get("a").and_then(|v| v.as_text()), Some("1"));
    assert_eq!(doc.get("b").and_then(|v| v.as_text()), Some("2"));
    assert!(doc.get("c").is_none());
    assert!(s("x").get("a").is_none());
}

#[test]
fn get_index_reads_arrays_only() {
    let arr = Json::Array(vec![s("x"), Json::Null]);
    assert_eq!(arr.get_index(0).and_then(|v| v.as_text()), Some("x"));
    assert!(matches!(arr.get_index(1), Some(Json::Null)));
    assert!(arr.get_index(2).is_none());
    assert!(obj(vec![]).get_index(0).is_none());
}

#[test]
fn deep_clone_copies_nested_values() {
    let doc = obj(vec![
        ("list", Json::Array(vec![Json::Number("1.5".to_string()), Json::Bool(true)])),
        ("name", s("pkg")),
    ]);
    let copy = doc.deep_clone();
    match copy {
        Json::Object(fields) => {
            assert_eq!(fields.len(), 2);
            assert_eq!(fields[0].0, "list");
            match &fields[0].1 {
                Json::Array(items) => {
                    assert!(matches!(&items[0], Json::Number(n) if n == "1.5"));
                    assert!(matches!(&items[1], Json::Bool(true)));
                },
                _ => panic!("not an array"),
            }
            assert!(matches!(&fields[1].1, Json::Str(t) if t == "pkg"));
        },
        _ => panic!("not an object"),
    }
    assert!(clone_opt(None).is_none());
    assert_eq!(text_opt(Some(&s("v"))), Some("v".to_string()));
    assert_eq!(text_opt(Some(&Json::Null)), None);
}

#[test]
fn well_formed_documents_have_distinct_member_names() {
    let good = obj(vec![("a", Json::Array(vec![obj(vec![("x", s("1")), ("y", s("2"))])])), ("b", Json::Null)]);
    assert!(json_well_formed(&good));
    assert!(!json_well_formed(&obj(vec![("a", s("1")), ("a", s("2"))])));
    let nested = Json::Array(vec![Json::Null, obj(vec![("k", obj(vec![("z", s("")), ("z", s(""))]))])]);
    assert!(!json_well_formed(&nested));
    assert!(json_well_formed(&s("plain")));
}

#[test]
fn parsing_reads_documents_as_serde_json_does() {
    let doc = parse_json(r#"{"b": 1, "a": [true, null, "x", 2.5], "b": -3}"#).unwrap();
    assert!(json_well_formed(&doc));
    match &doc {
        Json::Object(f) => {
            assert_eq!(f.len(), 2);
            assert_eq!(f[0].0, "a");
            assert!(matches!(&f[0].1, Json::Array(v) if v.len() == 4
                && matches!(&v[0], Json::Bool(true))
                && matches!(&v[1], Json::Null)
                && matches!(&v[2], Json::Str(t) if t == "x")
                && matches!(&v[3], Json::Number(n) if n == "2.5")));
            assert_eq!(f[1].0, "b");
            assert!(matches!(&f[1].1, Json::Number(n) if n == "-3"));
        },
        _ => panic!("not an object"),
    }
    assert!(parse_json("not json").is_none());
    assert!(parse_json("").is_none());
    assert!(matches!(parse_json(" \"s\" "), Some(Json::Str(t)) if t == "s"));
}
