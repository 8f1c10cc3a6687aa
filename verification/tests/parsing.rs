use kotoba_server::parse_query_string;
use kotoba_server::BadRequest;

#[test]
fn get_simple_query() {
    let r = parse_query_string(b"query=%7Bapp%7D").unwrap();
    assert_eq!(r.query, "{app}");
    assert!(r.operation_name.is_none());
    assert!(r.variables.is_none());
}

#[test]
fn get_empty_string_is_missing_query() {
    assert_eq!(parse_query_string(b"").unwrap_err(), BadRequest::MissingQuery);
}

#[test]
fn get_other_keys_only_is_missing_query() {
    let r = parse_query_string(b"operationName=Foo&variables=%7B%7D");
    assert_eq!(r.unwrap_err(), BadRequest::MissingQuery);
}

#[test]
fn get_plus_decodes_to_space() {
    let r = parse_query_string(b"query=a+b%21").unwrap();
    assert_eq!(r.query, "a b!");
}

#[test]
fn get_all_three_parameters() {
    let r = parse_query_string(b"query=%7Bapp%7D&operationName=Op&variables=%7B%22x%22%3A1%7D")
        .unwrap();
    assert_eq!(r.query, "{app}");
    assert_eq!(r.operation_name.as_deref(), Some("Op"));
    assert_eq!(r.variables.as_deref(), Some("{\"x\":1}"));
}

#[test]
fn get_bad_hex_escape_is_rejected() {
    let r = parse_query_string(b"query=%G1");
    assert_eq!(r.unwrap_err(), BadRequest::InvalidEscape);
}

#[test]
fn get_truncated_escape_is_rejected() {
    let r = parse_query_string(b"query=%2");
    assert_eq!(r.unwrap_err(), BadRequest::InvalidEscape);
}

#[test]
fn get_invalid_utf8_is_rejected() {
    let r = parse_query_string(b"query=%FF");
    assert_eq!(r.unwrap_err(), BadRequest::InvalidUtf8);
}

#[test]
fn get_bad_optional_parameter_is_rejected() {
    let r = parse_query_string(b"query=x&variables=%");
    assert_eq!(r.unwrap_err(), BadRequest::InvalidEscape);
}

#[test]
fn get_first_occurrence_of_a_key_wins() {
    let r = parse_query_string(b"query=a&query=b").unwrap();
    assert_eq!(r.query, "a");
}

#[test]
fn get_key_may_itself_be_encoded() {
    let r = parse_query_string(b"qu%65ry=x").unwrap();
    assert_eq!(r.query, "x");
}

#[test]
fn get_key_without_equals_has_empty_value() {
    let r = parse_query_string(b"query").unwrap();
    assert_eq!(r.query, "");
}

#[test]
fn get_multibyte_utf8_decodes() {
    let r = parse_query_string(b"query=%E3%81%82").unwrap();
    assert_eq!(r.query, "\u{3042}");
}

#[test]
fn get_lowercase_hex_decodes() {
    let r = parse_query_string(b"query=%7bapp%7d").unwrap();
    assert_eq!(r.query, "{app}");
}
