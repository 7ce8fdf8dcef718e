use ergodox_display::json::Json;
use ergodox_display::layoutstore::{import_meta, parse_source, validate, LayoutMeta};

fn ok(source: &str) -> (String, String) {
    parse_source(source).expect("source should parse")
}

fn err(source: &str) -> String {
    parse_source(source).expect_err("source should be refused")
}

#[test]
fn parse_full_url() {
    assert_eq!(
        ok("https://configure.zsa.io/ergodox-ez/layouts/AbC12/xYz9/0"),
        ("AbC12".to_string(), "xYz9".to_string())
    );
}

#[test]
fn parse_hash_revision_pair() {
    assert_eq!(ok("AbC12/xYz9"), ("AbC12".to_string(), "xYz9".to_string()));
}

#[test]
fn parse_bare_hash_is_latest() {
    assert_eq!(ok("AbC12"), ("AbC12".to_string(), "latest".to_string()));
}

#[test]
fn parse_trims_space_and_quotes() {
    assert_eq!(ok("  \"AbC12/rev1\"\n"), ("AbC12".to_string(), "rev1".to_string()));
}

#[test]
fn parse_revision_without_alphanumerics_is_latest() {
    assert_eq!(ok("AbC12/--"), ("AbC12".to_string(), "latest".to_string()));
    assert_eq!(ok("AbC12//"), ("AbC12".to_string(), "latest".to_string()));
}

#[test]
fn parse_skips_empty_segments() {
    assert_eq!(ok("//AbC12///r2/0"), ("AbC12".to_string(), "r2".to_string()));
}

#[test]
fn parse_url_uses_first_layouts_marker() {
    assert_eq!(
        ok("x/layouts/h1/layouts/r1"),
        ("h1".to_string(), "layouts".to_string())
    );
}

#[test]
fn parse_empty_inputs() {
    assert_eq!(err(""), "enter an Oryx layout URL or id");
    assert_eq!(err("   "), "enter an Oryx layout URL or id");
    assert_eq!(err(" \"\" "), "enter an Oryx layout URL or id");
}

#[test]
fn parse_only_slashes() {
    assert_eq!(err("///"), "no layout id found");
    assert_eq!(err("a/layouts/"), "no layout id found");
}

#[test]
fn parse_bad_hash() {
    assert_eq!(err("ab-cd/r1"), "'ab-cd' does not look like an Oryx layout id");
    assert_eq!(
        err("https://configure.zsa.io/ergodox-ez/x"),
        "'https:' does not look like an Oryx layout id"
    );
}

#[test]
fn parse_unicode_hash() {
    assert_eq!(ok("héllo/r"), ("héllo".to_string(), "r".to_string()));
}

fn s(text: &str) -> Json {
    Json::Str(text.to_string())
}

fn obj(members: Vec<(&str, Json)>) -> Json {
    Json::Object(members.into_iter().map(|(k, v)| (k.to_string(), v)).collect())
}

fn layer(title: Option<&str>, keys: usize) -> Json {
    let mut members = vec![("keys", Json::Array((0..keys).map(|i| Json::Number(i.to_string())).collect()))];
    if let Some(t) = title {
        members.push(("title", s(t)));
    }
    obj(members)
}

fn doc(layout: Json) -> Json {
    obj(vec![("data", obj(vec![("layout", layout)]))])
}

fn layout(geometry: &str, layers: Vec<Json>) -> Json {
    obj(vec![
        ("title", s("My layout")),
        ("geometry", s(geometry)),
        (
            "revision",
            obj(vec![("hashId", s("rev42")), ("layers", Json::Array(layers))]),
        ),
    ])
}

fn meta(m: &LayoutMeta) -> (String, String, String, usize) {
    (m.title.clone(), m.hash_id.clone(), m.revision.clone(), m.layers)
}

#[test]
fn validate_accepts_ergodox_layout() {
    let d = doc(layout("ergodox-ez", vec![layer(Some("Base"), 76), layer(None, 76)]));
    let m = validate(&d).unwrap();
    assert_eq!(meta(&m), ("My layout".to_string(), String::new(), "rev42".to_string(), 2));
}

#[test]
fn validate_defaults_for_missing_title_and_revision() {
    let l = obj(vec![
        ("geometry", s("ergodox")),
        ("revision", obj(vec![("layers", Json::Array(vec![layer(None, 76)]))])),
    ]);
    let m = validate(&doc(l)).unwrap();
    assert_eq!(meta(&m), ("untitled".to_string(), String::new(), "?".to_string(), 1));
}

#[test]
fn validate_missing_layout() {
    let e = "layout not found on Oryx — check the id/revision";
    assert_eq!(validate(&obj(vec![])).unwrap_err(), e);
    assert_eq!(validate(&doc(Json::Null)).unwrap_err(), e);
    assert_eq!(validate(&Json::Array(vec![])).unwrap_err(), e);
}

#[test]
fn validate_wrong_geometry() {
    let d = doc(layout("moonlander", vec![layer(None, 76)]));
    assert_eq!(
        validate(&d).unwrap_err(),
        "layout is for 'moonlander', only ergodox-ez layouts can be displayed"
    );
    let no_geometry = doc(obj(vec![("title", s("t"))]));
    assert_eq!(
        validate(&no_geometry).unwrap_err(),
        "layout is for '', only ergodox-ez layouts can be displayed"
    );
}

#[test]
fn validate_no_layers() {
    assert_eq!(validate(&doc(layout("ergodox-ez", vec![]))).unwrap_err(), "layout has no layers");
    let l = obj(vec![("geometry", s("ergodox-ez")), ("revision", obj(vec![("layers", s("x"))]))]);
    assert_eq!(validate(&doc(l)).unwrap_err(), "layout has no layers");
}

#[test]
fn validate_wrong_key_count() {
    let d = doc(layout("ergodox-ez", vec![layer(Some("Base"), 76), layer(Some("Sym"), 70), layer(Some("X"), 1)]));
    assert_eq!(validate(&d).unwrap_err(), "layer 'Sym' has 70 keys, expected 76");
    let d = doc(layout("ergodox-ez", vec![obj(vec![])]));
    assert_eq!(validate(&d).unwrap_err(), "layer '?' has 0 keys, expected 76");
    let d = doc(layout("ergodox-ez", vec![layer(None, 123)]));
    assert_eq!(validate(&d).unwrap_err(), "layer '?' has 123 keys, expected 76");
}

#[test]
fn import_fills_layout_id() {
    let d = doc(layout("ergodox-ez", vec![layer(None, 76)]));
    let m = import_meta(&d, "AbC12".to_string()).unwrap();
    assert_eq!(meta(&m), ("My layout".to_string(), "AbC12".to_string(), "rev42".to_string(), 1));
}

#[test]
fn read_response_parses_json() {
    let d = ergodox_display::layoutstore::read_response(
        "{\"data\":{\"layout\":{\"title\":\"T\",\"geometry\":\"ergodox-ez\",\"revision\":{\"hashId\":\"r\",\"layers\":[{\"keys\":[1,2.5,\"x\",null,true]}]}}}}",
    )
    .unwrap();
    let layers = ergodox_display::json::get_path(
        ergodox_display::json::get_path(&d, "data", "layout").unwrap(),
        "revision",
        "layers",
    )
    .unwrap();
    assert_eq!(
        *layers,
        Json::Array(vec![obj(vec![(
            "keys",
            Json::Array(vec![
                Json::Number("1".to_string()),
                Json::Number("2.5".to_string()),
                s("x"),
                Json::Null,
                Json::Bool(true)
            ])
        )])])
    );
    assert_eq!(validate(&d).unwrap_err(), "layer '?' has 5 keys, expected 76");
}

#[test]
fn read_response_refuses_non_json() {
    let e = ergodox_display::layoutstore::read_response("<html>").unwrap_err();
    let serde_error = serde_json::from_str::<serde_json::Value>("<html>").unwrap_err().to_string();
    assert_eq!(e, format!("Oryx response is not JSON: {serde_error}"));
    assert!(e.starts_with("Oryx response is not JSON: expected value"));
}

#[test]
fn read_stored_layouts() {
    assert_eq!(ergodox_display::layoutstore::read_stored("[]"), Some(Json::Array(vec![])));
    assert_eq!(ergodox_display::layoutstore::read_stored("{\"a\":\"b\"}"), Some(obj(vec![("a", s("b"))])));
    assert_eq!(ergodox_display::layoutstore::read_stored("{"), None);
    assert_eq!(ergodox_display::layoutstore::read_stored(""), None);
}

#[test]
fn parse_trims_unicode_white_space() {
    assert_eq!(ok("\u{3000}\u{a0}AbC12/r\u{85}"), ("AbC12".to_string(), "r".to_string()));
}

#[test]
fn parse_round_trip_keeps_inner_characters() {
    let (h, r) = ok("x/layouts/AbC12/re v\"1/0");
    assert_eq!((h.as_str(), r.as_str()), ("AbC12", "re v\"1"));
    assert_eq!(ok(&format!("{h}/{r}")), (h, r));
}

#[test]
fn parse_url_prefix_does_not_change_reading() {
    for p in ["AbC12", "AbC12/rev", "AbC12//", "ab-c", "///"] {
        let url = format!("https://configure.zsa.io/ergodox-ez/layouts/{p}");
        assert_eq!(parse_source(&url), parse_source(p));
    }
}

#[test]
fn parse_trim_does_not_change_reading() {
    for p in ["AbC12/rev", "\"AbC12\"", "", "a b"] {
        let wrapped = format!("  \"{p}\"\t");
        assert_eq!(parse_source(&wrapped), parse_source(p));
    }
}
