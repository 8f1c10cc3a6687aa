use kotoba_server::dispatch_get;
use kotoba_server::dispatch_post;
use kotoba_server::status_code;
use kotoba_server::BadRequest;
use kotoba_server::Dispatch;
use kotoba_server::GraphQlRequest;
use kotoba_server::MAX_BODY_BYTES;

/// What the HTTP layer does with a POST body: read it as a JSON object
/// and pull out the three request fields, handing the library `None`
/// where the body does not parse.
fn read_post_body(body: &[u8]) -> Option<GraphQlRequest> {
    let value: serde_json::Value = match serde_json::from_slice::<serde_json::Value>(body) {
        Ok(v) => v,
        Err(_) => return None,
    };
    let object: &serde_json::Map<String, serde_json::Value> = match value.as_object() {
        Some(o) => o,
        None => return None,
    };
    let query: String = match object.get("query").and_then(|v| v.as_str()) {
        Some(s) => s.to_string(),
        None => return None,
    };
    let operation_name: Option<String> = match object.get("operationName") {
        Some(v) => match v.as_str() {
            Some(s) => Some(s.to_string()),
            None => return None,
        },
        None => None,
    };
    let variables: Option<String> = object.get("variables").map(|v| v.to_string());
    Some(GraphQlRequest { query, operation_name, variables })
}

#[test]
fn get_well_formed_query_is_executed_with_200() {
    let d = dispatch_get(b"query=%7Bapp%7D");
    match &d {
        Dispatch::Execute(req) => assert_eq!(req.query, "{app}"),
        Dispatch::Reject(_) => panic!("well-formed query was rejected"),
    }
    assert_eq!(status_code(&d), 200);
}

#[test]
fn get_without_query_parameter_is_400() {
    let d = dispatch_get(b"operationName=Foo");
    match &d {
        Dispatch::Reject(e) => assert_eq!(*e, BadRequest::MissingQuery),
        Dispatch::Execute(_) => panic!("request without query was executed"),
    }
    assert_eq!(status_code(&d), 400);
}

#[test]
fn get_undecodable_query_is_400() {
    let d = dispatch_get(b"query=%zz");
    assert_eq!(status_code(&d), 400);
}

#[test]
fn post_mutation_body_is_executed_with_200() {
    let body = "{\"query\":\"mutation { noOp }\"}";
    let parsed = read_post_body(body.as_bytes());
    let d = dispatch_post(body.len(), parsed);
    match &d {
        Dispatch::Execute(req) => {
            assert_eq!(req.query, "mutation { noOp }");
            assert!(req.operation_name.is_none());
            assert!(req.variables.is_none());
        },
        Dispatch::Reject(_) => panic!("well-formed body was rejected"),
    }
    assert_eq!(status_code(&d), 200);
}

#[test]
fn post_body_with_all_fields_is_executed() {
    let body = "{\"query\":\"{app}\",\"operationName\":\"Op\",\"variables\":{\"x\":1}}";
    let parsed = read_post_body(body.as_bytes()).unwrap();
    assert_eq!(parsed.query, "{app}");
    assert_eq!(parsed.operation_name.as_deref(), Some("Op"));
    assert_eq!(parsed.variables.as_deref(), Some("{\"x\":1}"));
    let d = dispatch_post(body.len(), Some(parsed));
    assert_eq!(status_code(&d), 200);
}

#[test]
fn post_unparsable_json_is_400() {
    let body = "{not json";
    let parsed = read_post_body(body.as_bytes());
    assert!(parsed.is_none());
    let d = dispatch_post(body.len(), parsed);
    match &d {
        Dispatch::Reject(e) => assert_eq!(*e, BadRequest::InvalidJson),
        Dispatch::Execute(_) => panic!("unparsable body was executed"),
    }
    assert_eq!(status_code(&d), 400);
}

#[test]
fn post_oversized_body_is_400() {
    let d = dispatch_post(MAX_BODY_BYTES + 1, None);
    match &d {
        Dispatch::Reject(e) => assert_eq!(*e, BadRequest::BodyTooLarge),
        Dispatch::Execute(_) => panic!("oversized body was executed"),
    }
    assert_eq!(status_code(&d), 400);
}

#[test]
fn post_raw_graphql_document_is_executed_with_200() {
    let d = kotoba_server::dispatch_post_raw(b"{app}");
    match &d {
        Dispatch::Execute(req) => {
            assert_eq!(req.query, "{app}");
            assert!(req.operation_name.is_none());
            assert!(req.variables.is_none());
        },
        Dispatch::Reject(_) => panic!("raw document was rejected"),
    }
    assert_eq!(status_code(&d), 200);
}

#[test]
fn post_raw_invalid_utf8_is_400() {
    let d = kotoba_server::dispatch_post_raw(b"\xff\xfe");
    match &d {
        Dispatch::Reject(e) => assert_eq!(*e, BadRequest::InvalidUtf8),
        Dispatch::Execute(_) => panic!("invalid UTF-8 body was executed"),
    }
    assert_eq!(status_code(&d), 400);
}

#[test]
fn post_raw_oversized_body_is_400() {
    let body = vec![b'a'; MAX_BODY_BYTES + 1];
    let d = kotoba_server::dispatch_post_raw(&body);
    match &d {
        Dispatch::Reject(e) => assert_eq!(*e, BadRequest::BodyTooLarge),
        Dispatch::Execute(_) => panic!("oversized raw body was executed"),
    }
}

#[test]
fn post_body_at_the_limit_is_not_oversized() {
    let d = dispatch_post(MAX_BODY_BYTES, None);
    match &d {
        Dispatch::Reject(e) => assert_eq!(*e, BadRequest::InvalidJson),
        Dispatch::Execute(_) => panic!("empty parse outcome was executed"),
    }
}
