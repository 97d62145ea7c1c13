use spit::config::{MockConfig, MockState};
use spit::json::JsonValue;
use spit::request::{handle_request, HttpRequestData};
use spit::routes::process_swagger_paths;
use spit::swagger::build_components;

fn s(x: &str) -> String {
    x.to_owned()
}

fn jstr(x: &str) -> JsonValue {
    JsonValue::Str(s(x))
}

fn jnum(units: i64) -> JsonValue {
    JsonValue::Num(units * 100)
}

fn jobj(pairs: Vec<(&str, JsonValue)>) -> JsonValue {
    JsonValue::Obj(pairs.into_iter().map(|(k, v)| (s(k), v)).collect())
}

fn jarr(items: Vec<JsonValue>) -> JsonValue {
    JsonValue::Arr(items)
}

fn field<'a>(v: &'a JsonValue, key: &str) -> Option<&'a JsonValue> {
    v.get(key)
}

fn demo_doc() -> JsonValue {
    let body_schema = jobj(vec![
        ("type", jstr("object")),
        (
            "properties",
            jobj(vec![("name", jobj(vec![("type", jstr("string")), ("minLength", jnum(2))]))]),
        ),
        ("required", jarr(vec![jstr("name")])),
    ]);
    let response_schema = jobj(vec![
        ("type", jstr("object")),
        ("properties", jobj(vec![("ok", jobj(vec![("type", jstr("boolean"))]))])),
        ("required", jarr(vec![jstr("ok")])),
    ]);
    let post_op = jobj(vec![
        (
            "parameters",
            jarr(vec![jobj(vec![
                ("in", jstr("header")),
                ("required", JsonValue::Bool(true)),
                ("name", jstr("X-Token")),
            ])]),
        ),
        (
            "requestBody",
            jobj(vec![
                ("required", JsonValue::Bool(true)),
                (
                    "content",
                    jobj(vec![(
                        "application/json",
                        jobj(vec![("schema", body_schema)]),
                    )]),
                ),
            ]),
        ),
        (
            "responses",
            jobj(vec![(
                "200",
                jobj(vec![(
                    "content",
                    jobj(vec![(
                        "application/json",
                        jobj(vec![("schema", response_schema)]),
                    )]),
                )]),
            )]),
        ),
    ]);
    jobj(vec![(
        "paths",
        jobj(vec![("/users/{id}", jobj(vec![("post", post_op)]))]),
    )])
}

fn fresh_state(doc: &JsonValue) -> MockState {
    MockState {
        routes: process_swagger_paths(doc),
        config: MockConfig { delay: Some(5), status_code: None, headers: None, fields: None },
        request_log: Vec::new(),
    }
}

fn request(
    method: &str,
    path: &str,
    headers: Vec<(&str, &str)>,
    body: Option<Result<JsonValue, String>>,
) -> HttpRequestData {
    HttpRequestData {
        method: s(method),
        path: s(path),
        headers: headers.into_iter().map(|(k, v)| (s(k), s(v))).collect(),
        body,
    }
}

fn error_text(body: &JsonValue) -> String {
    match field(body, "error") {
        Some(JsonValue::Str(text)) => text.clone(),
        _ => panic!("expected an error body, got {:?}", body),
    }
}

#[test]
fn unknown_path_is_not_found() {
    let doc = demo_doc();
    let mut state = fresh_state(&doc);
    let swagger = build_components(&doc);
    let req = request("GET", "/nothing/here", vec![], None);
    let r = handle_request(&mut state, &swagger, &req, 8);
    assert_eq!(r.status, 404);
    assert_eq!(error_text(&r.body), s("Route not found"));
    assert_eq!(field(&r.body, "requested_path"), Some(&jstr("/nothing/here")));
    assert_eq!(field(&r.body, "method"), Some(&jstr("GET")));
    assert_eq!(r.delay_ms, None);
    assert_eq!(state.request_log.len(), 1);
    assert_eq!(state.request_log[0].response_status, 404);
    assert_eq!(state.request_log[0].path, s("/nothing/here"));
}

#[test]
fn undeclared_method_is_not_allowed() {
    let doc = demo_doc();
    let mut state = fresh_state(&doc);
    let swagger = build_components(&doc);
    let req = request("GET", "/users/42", vec![], None);
    let r = handle_request(&mut state, &swagger, &req, 8);
    assert_eq!(r.status, 405);
    assert_eq!(error_text(&r.body), s("Method not allowed"));
    assert_eq!(field(&r.body, "allowed_methods"), Some(&jarr(vec![jstr("POST")])));
}

#[test]
fn method_lookup_is_case_insensitive() {
    let doc = demo_doc();
    let mut state = fresh_state(&doc);
    let swagger = build_components(&doc);
    let req = request("post", "/users/42", vec![], None);
    let r = handle_request(&mut state, &swagger, &req, 8);
    assert_ne!(r.status, 405);
}

#[test]
fn missing_required_header_is_reported() {
    let doc = demo_doc();
    let mut state = fresh_state(&doc);
    let swagger = build_components(&doc);
    let req = request("POST", "/users/42", vec![], None);
    let r = handle_request(&mut state, &swagger, &req, 8);
    assert_eq!(r.status, 400);
    assert_eq!(error_text(&r.body), s("Missing required headers"));
    assert_eq!(field(&r.body, "missing_headers"), Some(&jarr(vec![jstr("X-Token")])));
}

#[test]
fn missing_required_body_is_reported() {
    let doc = demo_doc();
    let mut state = fresh_state(&doc);
    let swagger = build_components(&doc);
    let req = request("POST", "/users/42", vec![("x-token", "t")], None);
    let r = handle_request(&mut state, &swagger, &req, 8);
    assert_eq!(r.status, 400);
    assert_eq!(error_text(&r.body), s("Missing required request body"));
}

#[test]
fn malformed_body_reports_the_parser_message() {
    let doc = demo_doc();
    let mut state = fresh_state(&doc);
    let swagger = build_components(&doc);
    let req = request(
        "POST",
        "/users/42",
        vec![("x-token", "t")],
        Some(Err(s("expected value at line 1"))),
    );
    let r = handle_request(&mut state, &swagger, &req, 8);
    assert_eq!(r.status, 400);
    assert_eq!(error_text(&r.body), s("Invalid JSON in request body"));
    assert_eq!(field(&r.body, "details"), Some(&jstr("expected value at line 1")));
}

#[test]
fn invalid_body_reports_the_violated_constraint() {
    let doc = demo_doc();
    let mut state = fresh_state(&doc);
    let swagger = build_components(&doc);
    let bad = jobj(vec![("name", jstr("x"))]);
    let req = request("POST", "/users/42", vec![("x-token", "t")], Some(Ok(bad)));
    let r = handle_request(&mut state, &swagger, &req, 8);
    assert_eq!(r.status, 400);
    assert_eq!(error_text(&r.body), s("String too short"));
}

#[test]
fn valid_request_gets_a_generated_body_and_the_delay() {
    let doc = demo_doc();
    let mut state = fresh_state(&doc);
    let swagger = build_components(&doc);
    let good = jobj(vec![("name", jstr("Alice"))]);
    let req = request("POST", "/users/42", vec![("x-token", "t")], Some(Ok(good)));
    let r = handle_request(&mut state, &swagger, &req, 8);
    assert_eq!(r.status, 200);
    assert_eq!(r.delay_ms, Some(5));
    match field(&r.body, "ok") {
        Some(JsonValue::Bool(_)) => {}
        other => panic!("expected a generated boolean field, got {:?}", other),
    }
    assert_eq!(state.request_log.len(), 1);
    assert_eq!(state.request_log[0].response_status, 200);
    assert_eq!(state.request_log[0].method, s("POST"));
}

#[test]
fn missing_response_schema_yields_the_flagged_fallback() {
    let doc = jobj(vec![(
        "paths",
        jobj(vec![("/ping", jobj(vec![("get", jobj(vec![]))]))]),
    )]);
    let mut state = fresh_state(&doc);
    let swagger = build_components(&doc);
    let req = request("GET", "/ping", vec![], None);
    let r = handle_request(&mut state, &swagger, &req, 8);
    assert_eq!(r.status, 200);
    assert_eq!(field(&r.body, "success"), Some(&JsonValue::Bool(false)));
    assert_eq!(field(&r.body, "message"), Some(&jstr("Schema not found")));
    assert_eq!(field(&r.body, "data"), Some(&JsonValue::Null));
}

#[test]
fn configured_status_and_headers_are_applied() {
    let doc = jobj(vec![(
        "paths",
        jobj(vec![("/ping", jobj(vec![("get", jobj(vec![]))]))]),
    )]);
    let mut state = MockState {
        routes: process_swagger_paths(&doc),
        config: MockConfig {
            delay: None,
            status_code: Some(201),
            headers: Some(vec![(s("x-served-by"), s("mock"))]),
            fields: None,
        },
        request_log: Vec::new(),
    };
    let swagger = build_components(&doc);
    let req = request("GET", "/ping", vec![], None);
    let r = handle_request(&mut state, &swagger, &req, 8);
    assert_eq!(r.status, 201);
    assert_eq!(r.headers, vec![(s("x-served-by"), s("mock"))]);
}
