use serde_json::Value;
use ergodox_display::json::{get_member, get_path, request_body, Json};

#[test]
fn request_body_text() {
    let expected = [
        "{\"operationName\":\"getLayout\",\"query\":\"query getLayout($hashId: String!, $geometry: String, $revisionId: String!) { layout(hashId: $hashId, geometry: $geometry, revisionId: $revisionId) { title geometry revision { hashId title layers { hashId title position keys } } } }\",",
        "\"variables\":{\"geometry\":\"ergodox-ez\",\"hashId\":\"AbC12\",\"revisionId\":\"latest\"}}",
    ]
    .join("");
    assert_eq!(request_body("AbC12", "latest"), expected);
}

#[test]
fn request_body_escapes_strings() {
    let body = request_body("a\"b\\c", "r\n\t\u{1}\u{7f}é");
    assert!(body.ends_with(
        "\"hashId\":\"a\\\"b\\\\c\",\"revisionId\":\"r\\n\\t\\u0001\u{7f}é\"}}"
    ));
}

#[test]
fn request_body_matches_serde_json() {
    let body = request_body("h1", "r/2");
    let value: serde_json::Value = serde_json::from_str(&body).unwrap();
    assert_eq!(value["variables"]["hashId"], "h1");
    assert_eq!(value["variables"]["revisionId"], "r/2");
    assert_eq!(value["variables"]["geometry"], "ergodox-ez");
    assert_eq!(value["operationName"], "getLayout");
}

#[test]
fn member_lookup() {
    let doc = Json::Object(vec![
        ("a".to_string(), Json::Object(vec![("b".to_string(), Json::Bool(true))])),
        ("c".to_string(), Json::Null),
    ]);
    assert_eq!(get_member(&doc, "c"), Some(&Json::Null));
    assert_eq!(get_member(&doc, "x"), None);
    assert_eq!(get_path(&doc, "a", "b"), Some(&Json::Bool(true)));
    assert_eq!(get_path(&doc, "a", "x"), None);
    assert_eq!(get_path(&doc, "c", "b"), None);
    assert_eq!(get_member(&Json::Array(vec![]), "a"), None);
}

#[test]
fn request_body_is_serde_json_text() {
    let query = "query getLayout($hashId: String!, $geometry: String, $revisionId: String!) { layout(hashId: $hashId, geometry: $geometry, revisionId: $revisionId) { title geometry revision { hashId title layers { hashId title position keys } } } }";
    for (hash, revision) in [("AbC12", "latest"), ("h\"q", "r\n\u{1}é/"), ("", "")] {
        let mut variables = serde_json::Map::new();
        variables.insert("hashId".to_string(), Value::String(hash.to_string()));
        variables.insert("revisionId".to_string(), Value::String(revision.to_string()));
        variables.insert("geometry".to_string(), Value::String("ergodox-ez".to_string()));
        let mut body = serde_json::Map::new();
        body.insert("operationName".to_string(), Value::String("getLayout".to_string()));
        body.insert("variables".to_string(), Value::Object(variables));
        body.insert("query".to_string(), Value::String(query.to_string()));
        assert_eq!(request_body(hash, revision), Value::Object(body).to_string());
    }
}
