use uriel::gemini_api::{error_value, first_candidate_text, generate_content_url, text_request};
use uriel::json::{object2, Json};

fn s(t: &str) -> Json {
    Json::Str(t.to_string())
}

fn obj(entries: Vec<(&str, Json)>) -> Json {
    Json::Object(entries.into_iter().map(|(k, v)| (k.to_string(), v)).collect())
}

#[test]
fn field_takes_last_entry_with_key() {
    let v = obj(vec![("a", s("1")), ("b", s("2")), ("a", s("3"))]);
    assert_eq!(v.field("a"), Some(&s("3")));
    assert_eq!(v.field("b"), Some(&s("2")));
    assert_eq!(v.field("c"), None);
    assert_eq!(s("x").field("a"), None);
}

#[test]
fn set_field_then_read_back() {
    let mut v = obj(vec![("a", s("1"))]);
    v.set_field("b", s("2"));
    v.set_field("a", s("9"));
    assert_eq!(v.field("a"), Some(&s("9")));
    assert_eq!(v.field("b"), Some(&s("2")));
    let mut n = Json::Null;
    n.set_field("k", Json::Bool(true));
    assert_eq!(n, obj(vec![("k", Json::Bool(true))]));
}

#[test]
fn at_and_as_str() {
    let a = Json::Array(vec![s("x"), Json::Number("1.5".to_string())]);
    assert_eq!(a.at(0), Some(&s("x")));
    assert_eq!(a.at(2), None);
    assert_eq!(a.at(1).unwrap().as_str(), None);
    assert_eq!(a.at(0).unwrap().as_str(), Some("x"));
    assert_eq!(obj(vec![]).at(0), None);
}

#[test]
fn duplicate_is_equal() {
    let v = obj(vec![("a", Json::Array(vec![s("x"), Json::Null, Json::Bool(false)])), ("n", Json::Number("2".to_string()))]);
    assert_eq!(v.duplicate(), v);
}

#[test]
fn object2_keeps_order() {
    assert_eq!(object2("x", s("1"), "y", s("2")), obj(vec![("x", s("1")), ("y", s("2"))]));
}

#[test]
fn first_candidate_text_walks_reply() {
    let reply = obj(vec![(
        "candidates",
        Json::Array(vec![
            obj(vec![("content", obj(vec![("parts", Json::Array(vec![obj(vec![("text", s("first"))]), obj(vec![("text", s("second"))])]))]))]),
            obj(vec![("content", obj(vec![("parts", Json::Array(vec![obj(vec![("text", s("other"))])]))]))]),
        ]),
    )]);
    assert_eq!(first_candidate_text(&reply), Some("first".to_string()));
    assert_eq!(first_candidate_text(&obj(vec![("candidates", Json::Array(vec![]))])), None);
    let not_text = obj(vec![(
        "candidates",
        Json::Array(vec![obj(vec![("content", obj(vec![("parts", Json::Array(vec![obj(vec![("text", Json::Bool(true))])]))]))])]),
    )]);
    assert_eq!(first_candidate_text(&not_text), None);
}

#[test]
fn request_shapes() {
    assert_eq!(
        generate_content_url("m", "k"),
        "https://generativelanguage.googleapis.com/v1beta/models/m:generateContent?key=k"
    );
    assert_eq!(
        text_request("hi"),
        obj(vec![("contents", Json::Array(vec![obj(vec![("parts", Json::Array(vec![obj(vec![("text", s("hi"))])]))])]))])
    );
    assert_eq!(error_value("bad"), obj(vec![("error", s("bad"))]));
}
