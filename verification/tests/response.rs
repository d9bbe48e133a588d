use stagbin::response::{find_first, retrieve_outcome, upload_outcome, ClientError, StoredItem};

#[test]
fn upload_success_returns_server_id() {
    assert_eq!(upload_outcome(200, "{\"id\":\"abc123\"}"), Ok("abc123".to_string()));
}

#[test]
fn upload_response_missing_id() {
    assert_eq!(upload_outcome(200, "{\"url\":true}"), Err(ClientError::MissingId));
}

#[test]
fn upload_response_id_not_a_string() {
    assert_eq!(upload_outcome(200, "{\"id\":5}"), Err(ClientError::IdNotString));
}

#[test]
fn upload_response_not_json() {
    assert_eq!(upload_outcome(201, "no json here"), Err(ClientError::InvalidJson));
}

#[test]
fn upload_non_success_status() {
    assert_eq!(upload_outcome(404, "{\"id\":\"abc\"}"), Err(ClientError::Status(404)));
    assert_eq!(upload_outcome(500, ""), Err(ClientError::Status(500)));
}

#[test]
fn retrieve_finds_requested_item() {
    let body = "[{\"id\":\"x\",\"data\":\"hello\"}]";
    assert_eq!(retrieve_outcome(body, "x"), Ok("hello".to_string()));
}

#[test]
fn retrieve_missing_item_is_not_found() {
    let body = "[{\"id\":\"x\",\"data\":\"hello\"}]";
    assert_eq!(retrieve_outcome(body, "y"), Err(ClientError::NotFound));
}

#[test]
fn retrieve_empty_array_is_not_found() {
    assert_eq!(retrieve_outcome("[]", "x"), Err(ClientError::NotFound));
}

#[test]
fn retrieve_first_match_wins() {
    let body = "[{\"id\":\"x\",\"data\":\"first\"},{\"id\":\"x\",\"data\":\"second\"}]";
    assert_eq!(retrieve_outcome(body, "x"), Ok("first".to_string()));
}

#[test]
fn retrieve_skips_other_items() {
    let body = "[{\"id\":\"a\",\"data\":\"one\"},{\"id\":\"b\",\"data\":\"two\"}]";
    assert_eq!(retrieve_outcome(body, "b"), Ok("two".to_string()));
}

#[test]
fn retrieve_reads_optional_fields() {
    let body = "[{\"id\":\"x\",\"data\":\"d\",\"ttl\":100,\"url\":true}]";
    assert_eq!(retrieve_outcome(body, "x"), Ok("d".to_string()));
}

#[test]
fn retrieve_accepts_null_optional_fields() {
    let body = "[{\"id\":\"x\",\"data\":\"d\",\"ttl\":null,\"url\":null}]";
    assert_eq!(retrieve_outcome(body, "x"), Ok("d".to_string()));
}

#[test]
fn retrieve_item_without_data_is_malformed() {
    assert_eq!(retrieve_outcome("[{\"id\":\"x\"}]", "x"), Err(ClientError::InvalidJson));
}

#[test]
fn retrieve_item_with_non_string_id_is_malformed() {
    let body = "[{\"id\":1,\"data\":\"d\"}]";
    assert_eq!(retrieve_outcome(body, "x"), Err(ClientError::InvalidJson));
}

#[test]
fn retrieve_item_with_wrongly_typed_ttl_is_malformed() {
    let body = "[{\"id\":\"x\",\"data\":\"d\",\"ttl\":\"soon\"}]";
    assert_eq!(retrieve_outcome(body, "x"), Err(ClientError::InvalidJson));
}

#[test]
fn retrieve_non_array_response_is_malformed() {
    assert_eq!(retrieve_outcome("{\"id\":\"x\"}", "x"), Err(ClientError::InvalidJson));
    assert_eq!(retrieve_outcome("[", "x"), Err(ClientError::InvalidJson));
}

#[test]
fn find_first_picks_earliest_match() {
    let items = vec![
        StoredItem {
            id: "a".to_string(),
            data: "one".to_string(),
            ttl: None,
            url: None,
        },
        StoredItem {
            id: "b".to_string(),
            data: "two".to_string(),
            ttl: Some(9),
            url: Some(false),
        },
        StoredItem {
            id: "b".to_string(),
            data: "three".to_string(),
            ttl: None,
            url: None,
        },
    ];
    assert_eq!(find_first(&items, "b"), Some("two".to_string()));
    assert_eq!(find_first(&items, "a"), Some("one".to_string()));
    assert_eq!(find_first(&items, "c"), None);
}
