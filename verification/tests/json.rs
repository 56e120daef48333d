use wotto::json::{get, Json};

#[test]
fn documents_are_read_value_by_value() {
    let json = Json::parse("{\"b\": [1, -2.5, true, null, \"x\"], \"a\": {\"k\": false}}").unwrap();
    let expected = Json::Object(vec![
        (
            "a".to_string(),
            Json::Object(vec![("k".to_string(), Json::Bool(false))]),
        ),
        (
            "b".to_string(),
            Json::Array(vec![
                Json::Number("1".to_string()),
                Json::Number("-2.5".to_string()),
                Json::Bool(true),
                Json::Null,
                Json::Str("x".to_string()),
            ]),
        ),
    ]);
    assert_eq!(json, expected);
    assert_eq!(Json::parse("\"\\u00e9\""), Some(Json::Str("\u{e9}".to_string())));
    assert_eq!(Json::parse("{"), None);
    assert_eq!(Json::parse(""), None);
    assert_eq!(Json::parse("{} x"), None);
}

#[test]
fn values_are_asked_for_what_they_are() {
    let json = Json::parse("{\"s\": \"text\", \"t\": true, \"n\": null}").unwrap();
    let members = json.as_object().unwrap();
    assert_eq!(get(members, "s").unwrap().as_str(), Some("text"));
    assert_eq!(get(members, "s").unwrap().as_bool(), None);
    assert_eq!(get(members, "t").unwrap().as_bool(), Some(true));
    assert_eq!(get(members, "t").unwrap().as_str(), None);
    assert!(get(members, "n").unwrap().as_object().is_none());
    assert!(get(members, "missing").is_none());
    assert!(Json::Null.as_object().is_none());
    let twice = vec![
        ("k".to_string(), Json::Bool(true)),
        ("k".to_string(), Json::Bool(false)),
    ];
    assert_eq!(get(&twice, "k"), Some(&Json::Bool(true)));
}
