use stagbin::request::UploadRequest;

#[test]
fn body_with_expire() {
    let req = UploadRequest::new("hi".to_string(), None, Some(86400));
    assert_eq!(req.body(), "{\"data\":\"hi\",\"is_encrypted\":false,\"expire\":86400}");
}

#[test]
fn body_with_id_and_expire() {
    let req = UploadRequest::new("hi".to_string(), Some("abc".to_string()), Some(604800));
    assert_eq!(
        req.body(),
        "{\"data\":\"hi\",\"id\":\"abc\",\"is_encrypted\":false,\"expire\":604800}"
    );
}

#[test]
fn body_without_expire() {
    let req = UploadRequest::new("hi".to_string(), None, None);
    assert_eq!(req.body(), "{\"data\":\"hi\",\"is_encrypted\":false}");
}

#[test]
fn body_with_zero_expire() {
    let req = UploadRequest::new("x".to_string(), None, Some(0));
    assert_eq!(req.body(), "{\"data\":\"x\",\"is_encrypted\":false,\"expire\":0}");
}

#[test]
fn new_is_never_encrypted() {
    let req = UploadRequest::new("payload".to_string(), Some("k".to_string()), None);
    assert!(!req.is_encrypted);
}

#[test]
fn body_escapes_special_characters() {
    let req = UploadRequest::new("a\"b\\c\nd\te\rf\u{8}g\u{c}h".to_string(), None, None);
    assert_eq!(
        req.body(),
        "{\"data\":\"a\\\"b\\\\c\\nd\\te\\rf\\bg\\fh\",\"is_encrypted\":false}"
    );
}

#[test]
fn body_escapes_control_characters_as_hex() {
    let req = UploadRequest::new("\u{1}\u{1f}".to_string(), None, None);
    assert_eq!(req.body(), "{\"data\":\"\\u0001\\u001f\",\"is_encrypted\":false}");
}

#[test]
fn body_keeps_non_ascii_text() {
    let req = UploadRequest::new("héllo ☃".to_string(), None, None);
    assert_eq!(req.body(), "{\"data\":\"héllo ☃\",\"is_encrypted\":false}");
}

#[test]
fn body_round_trips_through_serde_json() {
    let req = UploadRequest::new(
        "line1\nline2 \"quoted\" \\ \u{3}".to_string(),
        Some("my-id".to_string()),
        Some(1209600),
    );
    let body = req.body();
    let value: serde_json::Value = serde_json::from_str(&body).expect("body must be valid JSON");
    assert_eq!(value.get("data").unwrap().as_str().unwrap(), "line1\nline2 \"quoted\" \\ \u{3}");
    assert_eq!(value.get("id").unwrap().as_str().unwrap(), "my-id");
    assert_eq!(value.get("is_encrypted").unwrap().as_bool().unwrap(), false);
    assert_eq!(value.get("expire").unwrap().as_u64().unwrap(), 1209600);
}

#[test]
fn body_matches_serde_json_encoding() {
    let text = "tab\there \"q\" \\ \u{1b} snow☃".to_string();
    let req = UploadRequest::new(text.clone(), None, None);
    let expected_data = serde_json::to_string(&serde_json::Value::String(text)).unwrap();
    let expected = format!("{{\"data\":{},\"is_encrypted\":false}}", expected_data);
    assert_eq!(req.body(), expected);
}
