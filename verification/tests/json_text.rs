use vintage_story_mod_loader::json::{find_member, parse_json, read_all_text, Json};

#[test]
fn parses_object_with_text_member() {
    let doc = parse_json("{\"modid\": \"testmod\"}").expect("valid JSON");
    match doc.field("modid") {
        Some(Json::Text(s)) => assert_eq!(s, "testmod"),
        other => panic!("unexpected member: {:?}", other),
    }
    assert!(doc.field("name").is_none());
}

#[test]
fn parses_every_kind_of_value() {
    let doc = parse_json("[null, true, 12, 1.5, \"t\", [], {}]").expect("valid JSON");
    let items = doc.as_items().expect("an array");
    assert_eq!(items.len(), 7);
    assert!(matches!(items[0], Json::Null));
    assert!(matches!(items[1], Json::Bool(true)));
    match &items[2] {
        Json::Number(n) => assert_eq!(n, "12"),
        other => panic!("unexpected: {:?}", other),
    }
    match &items[3] {
        Json::Number(n) => assert_eq!(n, "1.5"),
        other => panic!("unexpected: {:?}", other),
    }
    assert_eq!(items[4].as_text(), Some(&"t".to_string()));
    assert!(matches!(&items[5], Json::Array(a) if a.is_empty()));
    assert!(matches!(&items[6], Json::Object(m) if m.is_empty()));
}

#[test]
fn refuses_what_is_not_json() {
    assert!(parse_json("{ not json").is_none());
    assert!(parse_json("").is_none());
}

#[test]
fn members_are_found_by_name() {
    let members = vec![
        ("a".to_string(), Json::Bool(false)),
        ("b".to_string(), Json::Text("x".to_string())),
        ("a".to_string(), Json::Bool(true)),
    ];
    assert!(matches!(find_member(&members, "a"), Some(Json::Bool(false))));
    assert!(matches!(find_member(&members, "b"), Some(Json::Text(_))));
    assert!(find_member(&members, "c").is_none());
}

#[test]
fn copies_stand_for_the_same_document() {
    let doc = parse_json("{\"k\": [1, {\"n\": null}], \"s\": \"v\"}").unwrap();
    let copy = doc.duplicate();
    assert_eq!(format!("{:?}", doc), format!("{:?}", copy));
    assert_eq!(format!("{:?}", doc.clone()), format!("{:?}", doc));
}

#[test]
fn lists_of_strings() {
    let texts = vec![Json::Text("a".to_string()), Json::Text("b".to_string())];
    assert_eq!(read_all_text(&texts), Some(vec!["a".to_string(), "b".to_string()]));
    let mixed = vec![Json::Text("a".to_string()), Json::Null];
    assert_eq!(read_all_text(&mixed), None);
    assert_eq!(read_all_text(&vec![]), Some(vec![]));
}
