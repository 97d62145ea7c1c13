use spit::config::{MockConfig, MockFieldConfig, MockPattern, MockState};
use spit::generate::generate_mock_value;
use spit::json::JsonValue;
use spit::routes::{process_swagger_paths, validate_path_params};
use spit::swagger::{build_components, SwaggerState};
use spit::validate::{validate_against_schema, ValidationFailure};

fn s(x: &str) -> String {
    x.to_owned()
}

fn jstr(x: &str) -> JsonValue {
    JsonValue::Str(s(x))
}

fn jnum(units: i64) -> JsonValue {
    JsonValue::Num(units * 100)
}

fn jobj(pairs: Vec<(&str, JsonValue)>) -> JsonValue {
    JsonValue::Obj(pairs.into_iter().map(|(k, v)| (s(k), v)).collect())
}

fn jarr(items: Vec<JsonValue>) -> JsonValue {
    JsonValue::Arr(items)
}

fn empty_registry() -> SwaggerState {
    SwaggerState { components: Vec::new() }
}

fn string_schema(min: Option<i64>, max: Option<i64>) -> JsonValue {
    let mut pairs = vec![("type", jstr("string"))];
    if let Some(m) = min {
        pairs.push(("minLength", jnum(m)));
    }
    if let Some(m) = max {
        pairs.push(("maxLength", jnum(m)));
    }
    jobj(pairs)
}

#[test]
fn route_template_matches_concrete_path() {
    assert!(validate_path_params("/users/{id}/posts", "/users/42/posts"));
    assert!(!validate_path_params("/users/{id}/posts", "/users/42/posts/1"));
    assert!(!validate_path_params("/users/{id}/posts", "/users/posts"));
}

#[test]
fn route_matching_ignores_slashes_and_is_case_sensitive() {
    assert!(validate_path_params("/users/", "/users"));
    assert!(validate_path_params("users", "/users/"));
    assert!(!validate_path_params("/Users", "/users"));
    assert!(validate_path_params("/", "//"));
}

#[test]
fn resolve_ref_finds_stored_fragment() {
    let st = SwaggerState {
        components: vec![(s("User"), jobj(vec![("type", jstr("object"))]))],
    };
    let got = st.resolve_ref("#/components/schemas/User");
    assert_eq!(got, Some(&jobj(vec![("type", jstr("object"))])));
    assert_eq!(st.resolve_ref("#/components/schemas/Missing"), None);
    assert_eq!(st.resolve_ref("User"), None);
    assert_eq!(st.resolve_ref("#/definitions/User"), None);
}

#[test]
fn unresolved_ref_accepts_any_value_and_yields_empty_object() {
    let st = empty_registry();
    let schema = jobj(vec![("$ref", jstr("#/components/schemas/Missing"))]);
    let v = jnum(7);
    assert!(validate_against_schema(&v, &schema, &st, 8).is_ok());
    let generated = generate_mock_value(&schema, None, None, &st, 8).unwrap();
    assert_eq!(generated, jobj(vec![]));
}

#[test]
fn string_bounds_are_enforced() {
    let st = empty_registry();
    let schema = string_schema(Some(3), Some(5));
    let too_short = validate_against_schema(&jstr("ab"), &schema, &st, 8);
    assert_eq!(
        too_short,
        Err(ValidationFailure::StringTooShort { min_length: 3, actual: 2 })
    );
    let too_long = validate_against_schema(&jstr("abcdef"), &schema, &st, 8);
    assert_eq!(
        too_long,
        Err(ValidationFailure::StringTooLong { max_length: 5, actual: 6 })
    );
    assert!(validate_against_schema(&jstr("abc"), &schema, &st, 8).is_ok());
    assert!(validate_against_schema(&jstr("abcd"), &schema, &st, 8).is_ok());
    assert!(validate_against_schema(&jstr("abcde"), &schema, &st, 8).is_ok());
}

#[test]
fn string_length_bounds_count_bytes_not_characters() {
    let st = empty_registry();
    let schema = string_schema(None, Some(3));
    // two characters, four UTF-8 bytes
    let r = validate_against_schema(&jstr("éé"), &schema, &st, 8);
    assert_eq!(r, Err(ValidationFailure::StringTooLong { max_length: 3, actual: 4 }));
}

#[test]
fn pattern_is_checked_and_bad_pattern_is_the_servers_fault() {
    let st = empty_registry();
    let schema = jobj(vec![("type", jstr("string")), ("pattern", jstr("^a+$"))]);
    assert!(validate_against_schema(&jstr("aaa"), &schema, &st, 8).is_ok());
    assert_eq!(
        validate_against_schema(&jstr("bbb"), &schema, &st, 8),
        Err(ValidationFailure::PatternMismatch { pattern: s("^a+$") })
    );
    let bad = jobj(vec![("type", jstr("string")), ("pattern", jstr("(unclosed"))]);
    assert_eq!(
        validate_against_schema(&jstr("x"), &bad, &st, 8),
        Err(ValidationFailure::InvalidPattern { pattern: s("(unclosed") })
    );
}

#[test]
fn wrong_type_failures_name_the_expected_type() {
    let st = empty_registry();
    let cases = vec![
        (jobj(vec![("type", jstr("object"))]), jnum(1), ValidationFailure::NotAnObject),
        (jobj(vec![("type", jstr("array"))]), jnum(1), ValidationFailure::NotAnArray),
        (jobj(vec![("type", jstr("string"))]), jnum(1), ValidationFailure::NotAString),
        (jobj(vec![("type", jstr("number"))]), jstr("x"), ValidationFailure::NotANumber),
        (jobj(vec![("type", jstr("integer"))]), jstr("x"), ValidationFailure::NotANumber),
        (jobj(vec![("type", jstr("boolean"))]), jnum(1), ValidationFailure::NotABoolean),
    ];
    for (schema, value, expected) in cases {
        assert_eq!(validate_against_schema(&value, &schema, &st, 8), Err(expected));
    }
}

#[test]
fn unknown_or_absent_type_accepts_anything() {
    let st = empty_registry();
    assert!(validate_against_schema(&jnum(5), &jobj(vec![]), &st, 8).is_ok());
    let odd = jobj(vec![("type", jstr("mystery"))]);
    assert!(validate_against_schema(&jstr("anything"), &odd, &st, 8).is_ok());
}

#[test]
fn numeric_bounds_are_enforced() {
    let st = empty_registry();
    let schema = jobj(vec![
        ("type", jstr("number")),
        ("minimum", jnum(2)),
        ("maximum", jnum(10)),
    ]);
    assert_eq!(
        validate_against_schema(&jnum(1), &schema, &st, 8),
        Err(ValidationFailure::NumberTooSmall { minimum: 200, actual: 100 })
    );
    assert_eq!(
        validate_against_schema(&jnum(11), &schema, &st, 8),
        Err(ValidationFailure::NumberTooLarge { maximum: 1000, actual: 1100 })
    );
    assert!(validate_against_schema(&jnum(2), &schema, &st, 8).is_ok());
    assert!(validate_against_schema(&jnum(10), &schema, &st, 8).is_ok());
}

#[test]
fn array_bounds_and_items_are_enforced() {
    let st = empty_registry();
    let schema = jobj(vec![
        ("type", jstr("array")),
        ("minItems", jnum(2)),
        ("maxItems", jnum(3)),
        ("items", jobj(vec![("type", jstr("boolean"))])),
    ]);
    assert_eq!(
        validate_against_schema(&jarr(vec![JsonValue::Bool(true)]), &schema, &st, 8),
        Err(ValidationFailure::ArrayTooShort { min_items: 2, actual: 1 })
    );
    let four = jarr(vec![
        JsonValue::Bool(true),
        JsonValue::Bool(false),
        JsonValue::Bool(true),
        JsonValue::Bool(false),
    ]);
    assert_eq!(
        validate_against_schema(&four, &schema, &st, 8),
        Err(ValidationFailure::ArrayTooLong { max_items: 3, actual: 4 })
    );
    let mixed = jarr(vec![JsonValue::Bool(true), jnum(1)]);
    assert_eq!(
        validate_against_schema(&mixed, &schema, &st, 8),
        Err(ValidationFailure::NotABoolean)
    );
    let fine = jarr(vec![JsonValue::Bool(true), JsonValue::Bool(false)]);
    assert!(validate_against_schema(&fine, &schema, &st, 8).is_ok());
}

#[test]
fn missing_required_fields_are_reported_together() {
    let st = empty_registry();
    let schema = jobj(vec![
        ("type", jstr("object")),
        ("required", jarr(vec![jstr("a"), jstr("b"), jstr("c")])),
    ]);
    let value = jobj(vec![("b", jnum(1))]);
    assert_eq!(
        validate_against_schema(&value, &schema, &st, 8),
        Err(ValidationFailure::MissingFields { fields: vec![s("a"), s("c")] })
    );
}

#[test]
fn extra_fields_are_ignored() {
    let st = empty_registry();
    let schema = jobj(vec![
        ("type", jstr("object")),
        ("properties", jobj(vec![("a", jobj(vec![("type", jstr("boolean"))]))])),
    ]);
    let value = jobj(vec![("a", JsonValue::Bool(true)), ("extra", jstr("ok"))]);
    assert!(validate_against_schema(&value, &schema, &st, 8).is_ok());
}

#[test]
fn cyclic_reference_fails_past_the_depth_guard() {
    let st = SwaggerState {
        components: vec![(
            s("Loop"),
            jobj(vec![("$ref", jstr("#/components/schemas/Loop"))]),
        )],
    };
    let schema = jobj(vec![("$ref", jstr("#/components/schemas/Loop"))]);
    assert_eq!(
        validate_against_schema(&jnum(1), &schema, &st, 4),
        Err(ValidationFailure::DepthExceeded)
    );
    let gen = generate_mock_value(&schema, None, None, &st, 4);
    assert!(gen.is_err());
}

#[test]
fn required_field_asymmetry_in_generation() {
    let st = empty_registry();
    let props = jobj(vec![
        ("a", jobj(vec![("type", jstr("boolean"))])),
        ("b", jobj(vec![("type", jstr("boolean"))])),
    ]);
    let with_required = jobj(vec![
        ("type", jstr("object")),
        ("properties", props),
        ("required", jarr(vec![jstr("a")])),
    ]);
    let v = generate_mock_value(&with_required, None, None, &st, 8).unwrap();
    match v {
        JsonValue::Obj(fields) => {
            assert_eq!(fields.len(), 1);
            assert_eq!(fields[0].0, s("a"));
        }
        _ => panic!("expected an object"),
    }
    let props2 = jobj(vec![
        ("a", jobj(vec![("type", jstr("boolean"))])),
        ("b", jobj(vec![("type", jstr("boolean"))])),
    ]);
    let without_required = jobj(vec![
        ("type", jstr("object")),
        ("properties", props2),
        ("required", jarr(vec![])),
    ]);
    let v = generate_mock_value(&without_required, None, None, &st, 8).unwrap();
    match v {
        JsonValue::Obj(fields) => {
            assert_eq!(fields.len(), 2);
            assert_eq!(fields[0].0, s("a"));
            assert_eq!(fields[1].0, s("b"));
        }
        _ => panic!("expected an object"),
    }
}

#[test]
fn array_generation_respects_exact_bounds() {
    let st = empty_registry();
    let schema = jobj(vec![
        ("type", jstr("array")),
        ("minItems", jnum(2)),
        ("maxItems", jnum(2)),
        ("items", jobj(vec![("type", jstr("boolean"))])),
    ]);
    for _ in 0..10 {
        let v = generate_mock_value(&schema, None, None, &st, 8).unwrap();
        match &v {
            JsonValue::Arr(items) => {
                assert_eq!(items.len(), 2);
                for item in items {
                    assert!(matches!(item, JsonValue::Bool(_)));
                }
            }
            _ => panic!("expected an array"),
        }
    }
}

#[test]
fn array_without_items_generates_empty() {
    let st = empty_registry();
    let schema = jobj(vec![("type", jstr("array"))]);
    let v = generate_mock_value(&schema, None, None, &st, 8).unwrap();
    assert_eq!(v, jarr(vec![]));
}

#[test]
fn field_override_wins_over_the_schema_type() {
    let st = empty_registry();
    let fields = MockFieldConfig {
        patterns: vec![(s("id"), MockPattern::Enum { values: vec![s("x"), s("y")] })],
    };
    let schema = jobj(vec![("type", jstr("integer"))]);
    for _ in 0..10 {
        let v = generate_mock_value(&schema, Some(&fields), Some("id"), &st, 8).unwrap();
        assert!(v == jstr("x") || v == jstr("y"));
    }
}

#[test]
fn integer_generation_stays_whole_and_in_range() {
    let st = empty_registry();
    let schema = jobj(vec![
        ("type", jstr("integer")),
        ("minimum", jnum(3)),
        ("maximum", jnum(7)),
    ]);
    for _ in 0..20 {
        let v = generate_mock_value(&schema, None, None, &st, 8).unwrap();
        match v {
            JsonValue::Num(h) => {
                assert!(h % 100 == 0);
                assert!((300..=700).contains(&h));
            }
            _ => panic!("expected a number"),
        }
    }
}

#[test]
fn string_generation_follows_formats_and_enums() {
    let st = empty_registry();
    let uuid_schema = jobj(vec![("type", jstr("string")), ("format", jstr("uuid"))]);
    match generate_mock_value(&uuid_schema, None, None, &st, 8).unwrap() {
        JsonValue::Str(text) => assert_eq!(text.len(), 36),
        _ => panic!("expected a string"),
    }
    let enum_schema = jobj(vec![
        ("type", jstr("string")),
        ("enum", jarr(vec![jstr("red"), jstr("green")])),
    ]);
    for _ in 0..10 {
        let v = generate_mock_value(&enum_schema, None, None, &st, 8).unwrap();
        assert!(v == jstr("red") || v == jstr("green"));
    }
    let plain = jobj(vec![("type", jstr("string"))]);
    assert!(matches!(
        generate_mock_value(&plain, None, None, &st, 8).unwrap(),
        JsonValue::Str(_)
    ));
}

#[test]
fn generated_values_validate_against_their_schema() {
    let registry_doc = jobj(vec![(
        "components",
        jobj(vec![(
            "schemas",
            jobj(vec![(
                "Pet",
                jobj(vec![
                    ("type", jstr("object")),
                    (
                        "properties",
                        jobj(vec![("sold", jobj(vec![("type", jstr("boolean"))]))]),
                    ),
                ]),
            )]),
        )]),
    )]);
    let st = build_components(&registry_doc);
    let schema = jobj(vec![
        ("type", jstr("object")),
        (
            "properties",
            jobj(vec![
                ("count", jobj(vec![("type", jstr("integer")), ("minimum", jnum(1)), ("maximum", jnum(9))])),
                ("score", jobj(vec![("type", jstr("number"))])),
                ("tags", jobj(vec![
                    ("type", jstr("array")),
                    ("minItems", jnum(1)),
                    ("maxItems", jnum(3)),
                    ("items", jobj(vec![("type", jstr("boolean"))])),
                ])),
                ("pet", jobj(vec![("$ref", jstr("#/components/schemas/Pet"))])),
                ("open", jobj(vec![("type", jstr("boolean"))])),
            ]),
        ),
        ("required", jarr(vec![jstr("count"), jstr("tags"), jstr("pet")])),
    ]);
    for _ in 0..10 {
        let v = generate_mock_value(&schema, None, None, &st, 8).unwrap();
        assert!(validate_against_schema(&v, &schema, &st, 8).is_ok());
    }
}

#[test]
fn pattern_providers_produce_shaped_values() {
    let card = MockPattern::CreditCard { length: 10 };
    match card.generate_value() {
        JsonValue::Str(text) => {
            assert_eq!(text.len(), 10);
            assert!(text.chars().all(|c| c.is_ascii_digit()));
        }
        _ => panic!("expected a string"),
    }
    let number = MockPattern::Number { min: Some(100), max: Some(300), decimals: Some(1) };
    for _ in 0..10 {
        match number.generate_value() {
            JsonValue::Num(h) => {
                assert!((100..=300).contains(&h));
                assert_eq!(h % 10, 0);
            }
            _ => panic!("expected a number"),
        }
    }
    let stamp = MockPattern::DateTime { format: None };
    assert!(matches!(stamp.generate_value(), JsonValue::Str(_)));
    let custom = MockPattern::DateTime { format: Some(s("%Y")) };
    match custom.generate_value() {
        JsonValue::Str(text) => assert_eq!(text.len(), 4),
        _ => panic!("expected a string"),
    }
    let pick = MockPattern::Enum { values: vec![s("only")] };
    assert_eq!(pick.generate_value(), jstr("only"));
}

#[test]
fn default_card_length_is_sixteen() {
    assert_eq!(spit::config::default_card_length(), 16);
}

#[test]
fn swagger_paths_become_routes_in_order() {
    let doc = jobj(vec![(
        "paths",
        jobj(vec![
            (
                "/users/{id}",
                jobj(vec![("get", jobj(vec![])), ("post", jobj(vec![]))]),
            ),
            ("/health", jobj(vec![("get", jobj(vec![]))])),
        ]),
    )]);
    let routes = process_swagger_paths(&doc);
    assert_eq!(routes.len(), 2);
    assert_eq!(routes[0].template, s("/users/{id}"));
    assert_eq!(routes[0].handlers.len(), 2);
    assert_eq!(routes[0].handlers[0].0, s("GET"));
    assert_eq!(routes[0].handlers[1].0, s("POST"));
    assert_eq!(routes[1].template, s("/health"));
}

#[test]
fn decimal_rendering_of_status_codes() {
    assert_eq!(spit::text::u16_to_string(200), s("200"));
    assert_eq!(spit::text::u16_to_string(0), s("0"));
    assert_eq!(spit::text::u16_to_string(65535), s("65535"));
}

#[test]
fn state_can_hold_routes_config_and_log() {
    let state = MockState {
        routes: Vec::new(),
        config: MockConfig { delay: None, status_code: None, headers: None, fields: None },
        request_log: Vec::new(),
    };
    assert_eq!(state.routes.len(), 0);
    assert_eq!(state.request_log.len(), 0);
}

#[test]
fn validation_recurses_through_references() {
    let doc = jobj(vec![(
        "components",
        jobj(vec![(
            "schemas",
            jobj(vec![(
                "User",
                jobj(vec![
                    ("type", jstr("object")),
                    ("required", jarr(vec![jstr("id")])),
                ]),
            )]),
        )]),
    )]);
    let st = build_components(&doc);
    let schema = jobj(vec![("$ref", jstr("#/components/schemas/User"))]);
    let value = jobj(vec![("other", jnum(1))]);
    assert_eq!(
        validate_against_schema(&value, &schema, &st, 8),
        Err(ValidationFailure::MissingFields { fields: vec![s("id")] })
    );
    let fine = jobj(vec![("id", jnum(1))]);
    assert!(validate_against_schema(&fine, &schema, &st, 8).is_ok());
}
