use vstd::prelude::*;

use crate::config::{MockConfig, MockState, RequestLog};
use crate::generate::{
    gen_output, gen_total, generate_mock_value, pats_m, pats_wf, schema_wf, GenFailure,
};
use crate::json::{get_bool, get_str, jv_get, obj_lookup, obj_m, JsonV, JsonValue};
use crate::outside::{lower_of, now_rfc3339, to_lowercase, to_uppercase, upper_of};
use crate::routes::{find_matching_route, path_matches, Route};
use crate::swagger::SwaggerState;
use crate::text::{dec_rep, str_eq, str_views, u16_to_string};
use crate::validate::{check, validate_against_schema, Reason, ValidationFailure};

verus! {

broadcast use {
    crate::json::lemma_arr_m_len,
    crate::json::lemma_arr_m_index,
    crate::json::lemma_obj_m_len,
    crate::json::lemma_obj_m_index,
};

/// One inbound request, as the transport hands it over: the body is
/// what the transport read and parsed, or the message its JSON parser
/// gave, or nothing when the request carried no body.
#[derive(Debug)]
pub struct HttpRequestData {
    pub method: String,
    pub path: String,
    pub headers: Vec<(String, String)>,
    pub body: Option<Result<JsonValue, String>>,
}

/// What the transport sends back: the status, extra headers, the JSON
/// body, and the artificial delay to apply before responding, set only
/// when validation succeeded.
#[derive(Debug)]
pub struct MockResponse {
    pub status: u16,
    pub headers: Vec<(String, String)>,
    pub body: JsonValue,
    pub delay_ms: Option<u64>,
}

/// The models of a header list.
pub open spec fn hdrs_m(h: Seq<(String, String)>) -> Seq<(Seq<char>, Seq<char>)> {
    h.map_values(|p: (String, String)| (p.0@, p.1@))
}

/// The model of a request body slot.
pub open spec fn body_m(b: Option<Result<JsonValue, String>>) -> Option<Result<JsonV, Seq<char>>> {
    match b {
        None => None,
        Some(Ok(v)) => Some(Ok(v.m())),
        Some(Err(msg)) => Some(Err(msg@)),
    }
}

/// The override table a configuration supplies.
pub open spec fn config_pats(c: MockConfig) -> Option<Seq<(Seq<char>, crate::config::MockPattern)>> {
    match c.fields {
        Some(f) => Some(pats_m(f.patterns@)),
        None => None,
    }
}

/// The fixed headers a configuration supplies.
pub open spec fn config_headers_m(c: MockConfig) -> Seq<(Seq<char>, Seq<char>)> {
    match c.headers {
        Some(h) => hdrs_m(h@),
        None => Seq::empty(),
    }
}

/// The effective status code: the configured one, or 200.
pub open spec fn effective_status(c: MockConfig) -> int {
    match c.status_code {
        Some(s) => s as int,
        None => 200,
    }
}

/// The header names the operation requires: parameters declared `in:
/// header` with `required: true` and a string name, in order.
pub open spec fn hdr_names(params: Seq<JsonV>) -> Seq<Seq<char>>
    decreases params.len(),
{
    if params.len() == 0 {
        Seq::empty()
    } else {
        let rest = hdr_names(params.drop_first());
        if get_str(params[0], "in"@) == Some("header"@) && get_bool(params[0], "required"@)
            == Some(true) && get_str(params[0], "name"@) is Some {
            seq![get_str(params[0], "name"@)->Some_0] + rest
        } else {
            rest
        }
    }
}

/// The operation's required header names.
pub open spec fn required_header_names(op: JsonV) -> Seq<Seq<char>> {
    match jv_get(op, "parameters"@) {
        Some(JsonV::Arr(params)) => hdr_names(params),
        _ => Seq::empty(),
    }
}

/// Whether the request carries a header with that (lower-case) name.
pub open spec fn has_header(headers: Seq<(Seq<char>, Seq<char>)>, name: Seq<char>) -> bool {
    exists|i: int| 0 <= i < headers.len() && (#[trigger] headers[i]).0 == name
}

/// The required names whose lower-case form is not among the request's
/// header names, which the transport supplies lower-case.
pub open spec fn missing_hdrs(
    names: Seq<Seq<char>>,
    headers: Seq<(Seq<char>, Seq<char>)>,
) -> Seq<Seq<char>>
    decreases names.len(),
{
    if names.len() == 0 {
        Seq::empty()
    } else {
        let rest = missing_hdrs(names.drop_first(), headers);
        if !has_header(headers, lower_of(names[0])) {
            seq![names[0]] + rest
        } else {
            rest
        }
    }
}

/// The request-body schema the operation declares, if any.
pub open spec fn body_schema_of(op: JsonV) -> Option<JsonV> {
    match jv_get(op, "requestBody"@) {
        Some(rb) => match jv_get(rb, "content"@) {
            Some(c) => match jv_get(c, "application/json"@) {
                Some(j) => jv_get(j, "schema"@),
                None => None,
            },
            None => None,
        },
        None => None,
    }
}

/// Whether the operation marks its request body required.
pub open spec fn body_required_of(op: JsonV) -> bool {
    match jv_get(op, "requestBody"@) {
        Some(rb) => get_bool(rb, "required"@) == Some(true),
        None => false,
    }
}

/// The response schema declared for a status key, if any.
pub open spec fn response_schema_of(op: JsonV, status_key: Seq<char>) -> Option<JsonV> {
    match jv_get(op, "responses"@) {
        Some(rs) => match jv_get(rs, status_key) {
            Some(resp) => match jv_get(resp, "content"@) {
                Some(c) => match jv_get(c, "application/json"@) {
                    Some(j) => jv_get(j, "schema"@),
                    None => None,
                },
                None => None,
            },
            None => None,
        },
        None => None,
    }
}

/// Why a request body is rejected before its content is validated, or by
/// validation.
#[derive(Debug, PartialEq)]
pub enum BodyFailure {
    MissingBody,
    BadJson { message: String },
    Invalid { failure: ValidationFailure },
}

/// The model of a body rejection.
pub open spec fn body_failure_m(b: BodyFailure) -> BodyReason {
    match b {
        BodyFailure::MissingBody => BodyReason::MissingBody,
        BodyFailure::BadJson { message } => BodyReason::BadJson(message@),
        BodyFailure::Invalid { failure } => BodyReason::Invalid(failure.m()),
    }
}

/// A body rejection at the model level.
pub enum BodyReason {
    MissingBody,
    BadJson(Seq<char>),
    Invalid(Reason),
}

/// What checking the request body against the operation yields: no
/// declared body schema accepts anything; a declared one demands the body
/// when marked required, then parses and validates it.
pub open spec fn body_check(
    body: Option<Result<JsonV, Seq<char>>>,
    op: JsonV,
    comps: Seq<(Seq<char>, JsonV)>,
    fuel: nat,
) -> Result<(), BodyReason> {
    match body_schema_of(op) {
        None => Ok(()),
        Some(schema) => {
            if body is None && body_required_of(op) {
                Err(BodyReason::MissingBody)
            } else {
                match body {
                    None => Ok(()),
                    Some(Err(msg)) => Err(BodyReason::BadJson(msg)),
                    Some(Ok(v)) => match check(v, schema, comps, fuel) {
                        Ok(()) => Ok(()),
                        Err(e) => Err(BodyReason::Invalid(e)),
                    },
                }
            }
        },
    }
}

/// The status a validation failure maps to: a defective specification —
/// an invalid pattern or an exhausted recursion guard — is the server's
/// fault, everything else the client's.
pub open spec fn reason_status(e: Reason) -> int {
    match e {
        Reason::InvalidPattern(_) => 500,
        Reason::DepthExceeded => 500,
        _ => 400,
    }
}

// The exact response bodies, at the model level.

pub open spec fn not_found_body_m(path: Seq<char>, method: Seq<char>) -> JsonV {
    JsonV::Obj(
        seq![
            ("error"@, JsonV::Str("Route not found"@)),
            ("requested_path"@, JsonV::Str(path)),
            ("method"@, JsonV::Str(method)),
        ],
    )
}

pub open spec fn method_not_allowed_body_m(allowed: Seq<Seq<char>>) -> JsonV {
    JsonV::Obj(
        seq![
            ("error"@, JsonV::Str("Method not allowed"@)),
            ("allowed_methods"@, JsonV::Arr(allowed.map_values(|s: Seq<char>| JsonV::Str(s)))),
        ],
    )
}

pub open spec fn missing_headers_body_m(missing: Seq<Seq<char>>) -> JsonV {
    JsonV::Obj(
        seq![
            ("error"@, JsonV::Str("Missing required headers"@)),
            ("missing_headers"@, JsonV::Arr(missing.map_values(|s: Seq<char>| JsonV::Str(s)))),
        ],
    )
}

pub open spec fn missing_body_m() -> JsonV {
    JsonV::Obj(seq![("error"@, JsonV::Str("Missing required request body"@))])
}

pub open spec fn bad_json_body_m(msg: Seq<char>) -> JsonV {
    JsonV::Obj(
        seq![
            ("error"@, JsonV::Str("Invalid JSON in request body"@)),
            ("details"@, JsonV::Str(msg)),
        ],
    )
}

/// The body reporting a validation failure: the violated constraint and,
/// where one applies, the offending names, bound or pattern.
pub open spec fn failure_body_m(e: Reason) -> JsonV {
    match e {
        Reason::NotAnObject => JsonV::Obj(seq![("error"@, JsonV::Str("Expected object type"@))]),
        Reason::MissingFields(fields) => JsonV::Obj(
            seq![
                ("error"@, JsonV::Str("Missing required fields"@)),
                ("fields"@, JsonV::Arr(fields.map_values(|s: Seq<char>| JsonV::Str(s)))),
            ],
        ),
        Reason::NotAnArray => JsonV::Obj(seq![("error"@, JsonV::Str("Expected array type"@))]),
        Reason::ArrayTooShort { min_items, actual } => JsonV::Obj(
            seq![
                ("error"@, JsonV::Str("Array too short"@)),
                ("minItems"@, JsonV::Num(sat_hundredths(min_items))),
                ("actual"@, JsonV::Num(sat_hundredths(actual))),
            ],
        ),
        Reason::ArrayTooLong { max_items, actual } => JsonV::Obj(
            seq![
                ("error"@, JsonV::Str("Array too long"@)),
                ("maxItems"@, JsonV::Num(sat_hundredths(max_items))),
                ("actual"@, JsonV::Num(sat_hundredths(actual))),
            ],
        ),
        Reason::NotAString => JsonV::Obj(seq![("error"@, JsonV::Str("Expected string type"@))]),
        Reason::StringTooShort { min_length, actual } => JsonV::Obj(
            seq![
                ("error"@, JsonV::Str("String too short"@)),
                ("minLength"@, JsonV::Num(sat_hundredths(min_length))),
                ("actual"@, JsonV::Num(sat_hundredths(actual))),
            ],
        ),
        Reason::StringTooLong { max_length, actual } => JsonV::Obj(
            seq![
                ("error"@, JsonV::Str("String too long"@)),
                ("maxLength"@, JsonV::Num(sat_hundredths(max_length))),
                ("actual"@, JsonV::Num(sat_hundredths(actual))),
            ],
        ),
        Reason::InvalidPattern(_) => JsonV::Obj(
            seq![("error"@, JsonV::Str("Invalid pattern in schema"@))],
        ),
        Reason::PatternMismatch(pattern) => JsonV::Obj(
            seq![
                ("error"@, JsonV::Str("String does not match pattern"@)),
                ("pattern"@, JsonV::Str(pattern)),
            ],
        ),
        Reason::NotANumber => JsonV::Obj(seq![("error"@, JsonV::Str("Expected numeric type"@))]),
        Reason::NumberTooSmall { minimum, actual } => JsonV::Obj(
            seq![
                ("error"@, JsonV::Str("Number too small"@)),
                ("minimum"@, JsonV::Num(minimum)),
                ("actual"@, JsonV::Num(actual)),
            ],
        ),
        Reason::NumberTooLarge { maximum, actual } => JsonV::Obj(
            seq![
                ("error"@, JsonV::Str("Number too large"@)),
                ("maximum"@, JsonV::Num(maximum)),
                ("actual"@, JsonV::Num(actual)),
            ],
        ),
        Reason::NotABoolean => JsonV::Obj(seq![("error"@, JsonV::Str("Expected boolean type"@))]),
        Reason::DepthExceeded => JsonV::Obj(
            seq![("error"@, JsonV::Str("Schema recursion limit exceeded"@))],
        ),
    }
}

pub open spec fn fallback_body_m() -> JsonV {
    JsonV::Obj(
        seq![
            ("success"@, JsonV::Bool(false)),
            ("message"@, JsonV::Str("Schema not found"@)),
            ("data"@, JsonV::Null),
        ],
    )
}

/// A whole count scaled to hundredths, capped at the numeric model's top.
pub open spec fn sat_hundredths(x: int) -> int {
    if 100 * x <= i64::MAX {
        100 * x
    } else {
        i64::MAX as int
    }
}

/// The status a body rejection maps to.
pub open spec fn body_reason_status(e: BodyReason) -> int {
    match e {
        BodyReason::MissingBody => 400,
        BodyReason::BadJson(_) => 400,
        BodyReason::Invalid(r) => reason_status(r),
    }
}

/// The body a body rejection is reported with.
pub open spec fn body_reason_body(e: BodyReason) -> JsonV {
    match e {
        BodyReason::MissingBody => missing_body_m(),
        BodyReason::BadJson(m) => bad_json_body_m(m),
        BodyReason::Invalid(r) => failure_body_m(r),
    }
}

/// The method names a route declares, upper-case, in order.
pub open spec fn handler_methods(route: Route) -> Seq<Seq<char>> {
    obj_m(route.handlers@).map_values(|p: (Seq<char>, JsonV)| p.0)
}

/// How a response relates to a matched operation: missing headers are
/// rejected first, then the body; on success the configured status,
/// headers and delay apply, and the body comes from the declared response
/// schema — or the flagged fallback when none is declared, or the
/// recursion-guard report when generation ran out of fuel.
pub open spec fn op_response(
    op: JsonV,
    config: MockConfig,
    req_headers: Seq<(Seq<char>, Seq<char>)>,
    req_body: Option<Result<JsonV, Seq<char>>>,
    comps: Seq<(Seq<char>, JsonV)>,
    fuel: nat,
    r: MockResponse,
) -> bool {
    let missing = missing_hdrs(required_header_names(op), req_headers);
    if missing.len() > 0 {
        &&& r.status == 400
        &&& r.body.m() == missing_headers_body_m(missing)
        &&& r.delay_ms is None
        &&& r.headers@.len() == 0
    } else {
        match body_check(req_body, op, comps, fuel) {
            Err(e) => {
                &&& r.status == body_reason_status(e)
                &&& r.body.m() == body_reason_body(e)
                &&& r.delay_ms is None
                &&& r.headers@.len() == 0
            },
            Ok(()) => {
                &&& r.delay_ms == config.delay
                &&& hdrs_m(r.headers@) == config_headers_m(config)
                &&& match response_schema_of(op, dec_rep(effective_status(config))) {
                    None => r.status == effective_status(config) && r.body.m() == fallback_body_m(),
                    Some(s) => {
                        &&& (r.status == effective_status(config) && gen_output(
                            r.body.m(),
                            s,
                            config_pats(config),
                            None,
                            comps,
                            fuel,
                        )) || (r.status == 500 && r.body.m() == failure_body_m(
                            Reason::DepthExceeded,
                        ))
                        &&& gen_total(s, comps, fuel) ==> r.status == effective_status(config)
                    },
                }
            },
        }
    }
}

/// How a response relates to a matched route: an undeclared method is
/// answered with the declared ones, a declared one by its operation.
pub open spec fn route_response(
    route: Route,
    config: MockConfig,
    req_method: Seq<char>,
    req_headers: Seq<(Seq<char>, Seq<char>)>,
    req_body: Option<Result<JsonV, Seq<char>>>,
    comps: Seq<(Seq<char>, JsonV)>,
    fuel: nat,
    r: MockResponse,
) -> bool {
    match obj_lookup(obj_m(route.handlers@), upper_of(req_method)) {
        None => {
            &&& r.status == 405
            &&& r.body.m() == method_not_allowed_body_m(handler_methods(route))
            &&& r.delay_ms is None
            &&& r.headers@.len() == 0
        },
        Some(op) => op_response(op, config, req_headers, req_body, comps, fuel, r),
    }
}

/// What the generator's preconditions ask of a route table: every
/// operation's effective response schema can be generated from, and every
/// configured override pattern can produce a value.
pub open spec fn state_wf(state: MockState, comps: Seq<(Seq<char>, JsonV)>, fuel: nat) -> bool {
    &&& pats_wf(config_pats(state.config))
    &&& forall|i: int, j: int|
        0 <= i < state.routes@.len() && 0 <= j < obj_m(state.routes@[i].handlers@).len()
            ==> match response_schema_of(
            (#[trigger] obj_m(state.routes@[i].handlers@)[j]).1,
            dec_rep(effective_status(state.config)),
        ) {
            Some(s) => schema_wf(s, comps, fuel),
            None => true,
        }
}

/// A count scaled to hundredths, capped at the numeric model's top.
fn sat_h(x: u64) -> (r: i64)
    ensures
        r as int == sat_hundredths(x as int),
{
    if x <= (i64::MAX / 100) as u64 {
        (x as i64) * 100
    } else {
        i64::MAX
    }
}

/// An owned copy of a header list.
fn clone_pairs(v: &Vec<(String, String)>) -> (r: Vec<(String, String)>)
    ensures
        hdrs_m(r@) == hdrs_m(v@),
{
    let n = v.len();
    let mut r: Vec<(String, String)> = Vec::new();
    let mut i: usize = 0;
    while i < n
        invariant
            n == v.len(),
            0 <= i <= n,
            r@.len() == i,
            forall|k: int|
                0 <= k < i ==> (#[trigger] r@[k]).0@ == v@[k].0@ && r@[k].1@ == v@[k].1@,
        decreases n - i,
    {
        r.push((v[i].0.clone(), v[i].1.clone()));
        i = i + 1;
    }
    proof {
        assert(hdrs_m(r@) =~= hdrs_m(v@));
    }
    r
}

/// A JSON array of strings, from owned names.
fn strs_to_json(v: Vec<String>) -> (r: JsonValue)
    ensures
        r.m() == JsonV::Arr(str_views(v@).map_values(|s: Seq<char>| JsonV::Str(s))),
{
    let n = v.len();
    let mut items: Vec<JsonValue> = Vec::new();
    let mut i: usize = 0;
    while i < n
        invariant
            n == v.len(),
            0 <= i <= n,
            items@.len() == i,
            forall|k: int| 0 <= k < i ==> (#[trigger] items@[k]).m() == JsonV::Str(v@[k]@),
        decreases n - i,
    {
        items.push(JsonValue::Str(v[i].clone()));
        i = i + 1;
    }
    let r = JsonValue::Arr(items);
    proof {
        assert(crate::json::arr_m(items@) =~= str_views(v@).map_values(
            |s: Seq<char>| JsonV::Str(s),
        ));
    }
    r
}

/// An object with one field.
fn obj1(k1: &str, v1: JsonValue) -> (r: JsonValue)
    ensures
        r.m() == JsonV::Obj(seq![(k1@, v1.m())]),
{
    let ghost m1 = v1.m();
    let mut fields: Vec<(String, JsonValue)> = Vec::new();
    fields.push((k1.to_owned(), v1));
    proof {
        assert(obj_m(fields@) =~= seq![(k1@, m1)]);
    }
    let r = JsonValue::Obj(fields);
    proof {
        assert(r.m()->Obj_0 =~= seq![(k1@, m1)]);
    }
    r
}

/// An object with two fields.
fn obj2(k1: &str, v1: JsonValue, k2: &str, v2: JsonValue) -> (r: JsonValue)
    ensures
        r.m() == JsonV::Obj(seq![(k1@, v1.m()), (k2@, v2.m())]),
{
    let ghost m1 = v1.m();
    let ghost m2 = v2.m();
    let mut fields: Vec<(String, JsonValue)> = Vec::new();
    fields.push((k1.to_owned(), v1));
    fields.push((k2.to_owned(), v2));
    proof {
        assert(obj_m(fields@) =~= seq![(k1@, m1), (k2@, m2)]);
    }
    let r = JsonValue::Obj(fields);
    proof {
        assert(r.m()->Obj_0 =~= seq![(k1@, m1), (k2@, m2)]);
    }
    r
}

/// An object with three fields.
fn obj3(k1: &str, v1: JsonValue, k2: &str, v2: JsonValue, k3: &str, v3: JsonValue) -> (r:
    JsonValue)
    ensures
        r.m() == JsonV::Obj(seq![(k1@, v1.m()), (k2@, v2.m()), (k3@, v3.m())]),
{
    let ghost m1 = v1.m();
    let ghost m2 = v2.m();
    let ghost m3 = v3.m();
    let mut fields: Vec<(String, JsonValue)> = Vec::new();
    fields.push((k1.to_owned(), v1));
    fields.push((k2.to_owned(), v2));
    fields.push((k3.to_owned(), v3));
    proof {
        assert(obj_m(fields@) =~= seq![(k1@, m1), (k2@, m2), (k3@, m3)]);
    }
    let r = JsonValue::Obj(fields);
    proof {
        assert(r.m()->Obj_0 =~= seq![(k1@, m1), (k2@, m2), (k3@, m3)]);
    }
    r
}

fn str_json(s: &str) -> (r: JsonValue)
    ensures
        r.m() == JsonV::Str(s@),
{
    JsonValue::Str(s.to_owned())
}

/// Whether the request carries a header of that name.
fn has_header_exec(headers: &Vec<(String, String)>, name: &str) -> (r: bool)
    ensures
        r == has_header(hdrs_m(headers@), name@),
{
    let n = headers.len();
    let mut i: usize = 0;
    while i < n
        invariant
            n == headers.len(),
            0 <= i <= n,
            forall|k: int| 0 <= k < i ==> (#[trigger] hdrs_m(headers@)[k]).0 != name@,
        decreases n - i,
    {
        proof {
            assert(hdrs_m(headers@)[i as int] == (headers@[i as int].0@, headers@[i as int].1@));
        }
        if str_eq(headers[i].0.as_str(), name) {
            return true;
        }
        i = i + 1;
    }
    proof {
        assert(!has_header(hdrs_m(headers@), name@));
    }
    false
}

/// Checks the request's headers against the operation's required ones:
/// every missing name is reported, in declaration order.
pub fn validate_headers(op: &JsonValue, headers: &Vec<(String, String)>) -> (r: Result<
    (),
    Vec<String>,
>)
    ensures
        match r {
            Ok(()) => missing_hdrs(required_header_names(op.m()), hdrs_m(headers@)).len() == 0,
            Err(v) => str_views(v@) == missing_hdrs(
                required_header_names(op.m()),
                hdrs_m(headers@),
            ) && v@.len() > 0,
        },
{
    let paramsv = match op.get("parameters") {
        Some(p) => p,
        None => {
            return Ok(());
        },
    };
    let params = match paramsv {
        JsonValue::Arr(p) => p,
        _ => {
            return Ok(());
        },
    };
    let ghost pm = crate::json::arr_m(params@);
    let ghost names = hdr_names(pm);
    let ghost hm = hdrs_m(headers@);
    let n = params.len();
    let mut missing: Vec<String> = Vec::new();
    let mut k: usize = 0;
    proof {
        assert(pm.subrange(0, n as int) =~= pm);
        assert(missing_hdrs(hdr_names(pm), hm) == str_views(missing@) + missing_hdrs(
            hdr_names(pm.subrange(0, n as int)),
            hm,
        ));
    }
    while k < n
        invariant
            *paramsv is Arr,
            (*paramsv)->Arr_0 == *params,
            pm == crate::json::arr_m(params@),
            pm.len() == n,
            n == params.len(),
            0 <= k <= n,
            hm == hdrs_m(headers@),
            required_header_names(op.m()) == hdr_names(pm),
            missing_hdrs(hdr_names(pm), hm) == str_views(missing@) + missing_hdrs(
                hdr_names(pm.subrange(k as int, n as int)),
                hm,
            ),
        decreases n - k,
    {
        proof {
            assert(pm.subrange(k as int, n as int)[0] == pm[k as int]);
            assert(pm[k as int] == params@[k as int].m());
            assert(pm.subrange(k as int, n as int).drop_first() =~= pm.subrange(
                k as int + 1,
                n as int,
            ));
        }
        let p = &params[k];
        let is_hdr = match p.get_field_str("in") {
            Some(loc) => str_eq(loc.as_str(), "header"),
            None => false,
        };
        let is_req = match p.get_field_bool("required") {
            Some(b) => b,
            None => false,
        };
        if is_hdr && is_req {
            if let Some(name) = p.get_field_str("name") {
                proof {
                    assert(hdr_names(pm.subrange(k as int, n as int)) == seq![name@] + hdr_names(
                        pm.subrange(k as int + 1, n as int),
                    ));
                    assert((seq![name@] + hdr_names(pm.subrange(k as int + 1, n as int)))[0]
                        == name@);
                    assert((seq![name@] + hdr_names(
                        pm.subrange(k as int + 1, n as int),
                    )).drop_first() =~= hdr_names(pm.subrange(k as int + 1, n as int)));
                }
                let low = to_lowercase(name.as_str());
                if !has_header_exec(headers, low.as_str()) {
                    let ghost old_missing = missing@;
                    missing.push(name.clone());
                    proof {
                        assert(str_views(missing@) =~= str_views(old_missing).push(name@));
                        assert(str_views(missing@) + missing_hdrs(
                            hdr_names(pm.subrange(k as int + 1, n as int)),
                            hm,
                        ) =~= str_views(old_missing) + missing_hdrs(
                            hdr_names(pm.subrange(k as int, n as int)),
                            hm,
                        ));
                    }
                }
            }
        }
        k = k + 1;
    }
    proof {
        assert(pm.subrange(n as int, n as int).len() == 0);
        assert(missing_hdrs(hdr_names(pm), hm) =~= str_views(missing@));
    }
    if missing.len() > 0 {
        Err(missing)
    } else {
        Ok(())
    }
}

/// Checks the request body against the operation's declared body schema,
/// as the transport read and parsed it.
pub fn validate_request_body(
    body: &Option<Result<JsonValue, String>>,
    op: &JsonValue,
    swagger: &SwaggerState,
    fuel: u32,
) -> (r: Result<(), BodyFailure>)
    ensures
        match r {
            Ok(()) => body_check(body_m(*body), op.m(), swagger.m(), fuel as nat) is Ok,
            Err(e) => body_check(body_m(*body), op.m(), swagger.m(), fuel as nat) == Err::<
                (),
                BodyReason,
            >(body_failure_m(e)),
        },
{
    let rb = match op.get("requestBody") {
        Some(rb) => rb,
        None => {
            return Ok(());
        },
    };
    let schema = match rb.get("content") {
        Some(c) => match c.get("application/json") {
            Some(j) => match j.get("schema") {
                Some(s) => s,
                None => {
                    return Ok(());
                },
            },
            None => {
                return Ok(());
            },
        },
        None => {
            return Ok(());
        },
    };
    let required = match rb.get_field_bool("required") {
        Some(b) => b,
        None => false,
    };
    match body {
        None => {
            if required {
                Err(BodyFailure::MissingBody)
            } else {
                Ok(())
            }
        },
        Some(Err(msg)) => Err(BodyFailure::BadJson { message: msg.clone() }),
        Some(Ok(v)) => match validate_against_schema(v, schema, swagger, fuel) {
            Ok(()) => Ok(()),
            Err(e) => Err(BodyFailure::Invalid { failure: e }),
        },
    }
}

/// The status a validation failure maps to.
fn failure_status(f: &ValidationFailure) -> (s: u16)
    ensures
        s as int == reason_status(f.m()),
{
    match f {
        ValidationFailure::InvalidPattern { .. } => 500,
        ValidationFailure::DepthExceeded => 500,
        _ => 400,
    }
}

/// The body reporting a validation failure.
fn failure_body(f: ValidationFailure) -> (r: JsonValue)
    ensures
        r.m() == failure_body_m(f.m()),
{
    match f {
        ValidationFailure::NotAnObject => obj1("error", str_json("Expected object type")),
        ValidationFailure::MissingFields { fields } => {
            let ghost fm = str_views(fields@);
            let arr = strs_to_json(fields);
            obj2("error", str_json("Missing required fields"), "fields", arr)
        },
        ValidationFailure::NotAnArray => obj1("error", str_json("Expected array type")),
        ValidationFailure::ArrayTooShort { min_items, actual } => obj3(
            "error",
            str_json("Array too short"),
            "minItems",
            JsonValue::Num(sat_h(min_items)),
            "actual",
            JsonValue::Num(sat_h(actual as u64)),
        ),
        ValidationFailure::ArrayTooLong { max_items, actual } => obj3(
            "error",
            str_json("Array too long"),
            "maxItems",
            JsonValue::Num(sat_h(max_items)),
            "actual",
            JsonValue::Num(sat_h(actual as u64)),
        ),
        ValidationFailure::NotAString => obj1("error", str_json("Expected string type")),
        ValidationFailure::StringTooShort { min_length, actual } => obj3(
            "error",
            str_json("String too short"),
            "minLength",
            JsonValue::Num(sat_h(min_length)),
            "actual",
            JsonValue::Num(sat_h(actual as u64)),
        ),
        ValidationFailure::StringTooLong { max_length, actual } => obj3(
            "error",
            str_json("String too long"),
            "maxLength",
            JsonValue::Num(sat_h(max_length)),
            "actual",
            JsonValue::Num(sat_h(actual as u64)),
        ),
        ValidationFailure::InvalidPattern { .. } => obj1(
            "error",
            str_json("Invalid pattern in schema"),
        ),
        ValidationFailure::PatternMismatch { pattern } => obj2(
            "error",
            str_json("String does not match pattern"),
            "pattern",
            JsonValue::Str(pattern),
        ),
        ValidationFailure::NotANumber => obj1("error", str_json("Expected numeric type")),
        ValidationFailure::NumberTooSmall { minimum, actual } => obj3(
            "error",
            str_json("Number too small"),
            "minimum",
            JsonValue::Num(minimum),
            "actual",
            JsonValue::Num(actual),
        ),
        ValidationFailure::NumberTooLarge { maximum, actual } => obj3(
            "error",
            str_json("Number too large"),
            "maximum",
            JsonValue::Num(maximum),
            "actual",
            JsonValue::Num(actual),
        ),
        ValidationFailure::NotABoolean => obj1("error", str_json("Expected boolean type")),
        ValidationFailure::DepthExceeded => obj1(
            "error",
            str_json("Schema recursion limit exceeded"),
        ),
    }
}

/// Builds the success response for a matched, validated operation: the
/// configured status and headers, and a body generated from the response
/// schema declared for that status.
pub fn generate_response(
    op: &JsonValue,
    config: &MockConfig,
    swagger: &SwaggerState,
    fuel: u32,
) -> (r: MockResponse)
    requires
        pats_wf(config_pats(*config)),
        match response_schema_of(op.m(), dec_rep(effective_status(*config))) {
            Some(s) => schema_wf(s, swagger.m(), fuel as nat),
            None => true,
        },
    ensures
        r.delay_ms == config.delay,
        hdrs_m(r.headers@) == config_headers_m(*config),
        match response_schema_of(op.m(), dec_rep(effective_status(*config))) {
            None => r.status == effective_status(*config) && r.body.m() == fallback_body_m(),
            Some(s) => {
                &&& (r.status == effective_status(*config) && gen_output(
                    r.body.m(),
                    s,
                    config_pats(*config),
                    None,
                    swagger.m(),
                    fuel as nat,
                )) || (r.status == 500 && r.body.m() == failure_body_m(Reason::DepthExceeded))
                &&& gen_total(s, swagger.m(), fuel as nat) ==> r.status == effective_status(
                    *config,
                )
            },
        },
{
    let status: u16 = match config.status_code {
        Some(s) => s,
        None => 200,
    };
    let headers: Vec<(String, String)> = match &config.headers {
        Some(h) => clone_pairs(h),
        None => Vec::new(),
    };
    proof {
        if config.headers is None {
            assert(hdrs_m(Seq::<(String, String)>::empty()) =~= Seq::<(
                Seq<char>,
                Seq<char>,
            )>::empty());
        }
    }
    let skey = u16_to_string(status);
    let schema = match op.get("responses") {
        Some(rs) => match rs.get(skey.as_str()) {
            Some(resp) => match resp.get("content") {
                Some(c) => match c.get("application/json") {
                    Some(j) => match j.get("schema") {
                        Some(s) => Some(s),
                        None => None,
                    },
                    None => None,
                },
                None => None,
            },
            None => None,
        },
        None => None,
    };
    match schema {
        Some(s) => {
            match generate_mock_value(s, config.fields.as_ref(), None, swagger, fuel) {
                Ok(body) => MockResponse { status, headers, body, delay_ms: config.delay },
                Err(GenFailure::DepthExceeded) => MockResponse {
                    status: 500,
                    headers,
                    body: obj1("error", str_json("Schema recursion limit exceeded")),
                    delay_ms: config.delay,
                },
            }
        },
        None => MockResponse {
            status,
            headers,
            body: obj3(
                "success",
                JsonValue::Bool(false),
                "message",
                str_json("Schema not found"),
                "data",
                JsonValue::Null,
            ),
            delay_ms: config.delay,
        },
    }
}

/// Handles a route whose template matched: required headers, then the
/// body, then the artificial delay and the generated response.
pub fn handle_matched_route(
    op: &JsonValue,
    req: &HttpRequestData,
    config: &MockConfig,
    swagger: &SwaggerState,
    fuel: u32,
) -> (r: MockResponse)
    requires
        pats_wf(config_pats(*config)),
        match response_schema_of(op.m(), dec_rep(effective_status(*config))) {
            Some(s) => schema_wf(s, swagger.m(), fuel as nat),
            None => true,
        },
    ensures
        op_response(
            op.m(),
            *config,
            hdrs_m(req.headers@),
            body_m(req.body),
            swagger.m(),
            fuel as nat,
            r,
        ),
{
    match validate_headers(op, &req.headers) {
        Ok(()) => {},
        Err(missing) => {
            let ghost mm = str_views(missing@);
            let arr = strs_to_json(missing);
            return MockResponse {
                status: 400,
                headers: Vec::new(),
                body: obj2("error", str_json("Missing required headers"), "missing_headers", arr),
                delay_ms: None,
            };
        },
    }
    match validate_request_body(&req.body, op, swagger, fuel) {
        Ok(()) => {},
        Err(BodyFailure::MissingBody) => {
            return MockResponse {
                status: 400,
                headers: Vec::new(),
                body: obj1("error", str_json("Missing required request body")),
                delay_ms: None,
            };
        },
        Err(BodyFailure::BadJson { message }) => {
            return MockResponse {
                status: 400,
                headers: Vec::new(),
                body: obj2(
                    "error",
                    str_json("Invalid JSON in request body"),
                    "details",
                    JsonValue::Str(message),
                ),
                delay_ms: None,
            };
        },
        Err(BodyFailure::Invalid { failure }) => {
            let status = failure_status(&failure);
            return MockResponse {
                status,
                headers: Vec::new(),
                body: failure_body(failure),
                delay_ms: None,
            };
        },
    }
    generate_response(op, config, swagger, fuel)
}

/// Dispatches on the request's method within a matched route: an
/// undeclared method is answered with the declared ones.
pub fn process_route(
    route: &Route,
    req: &HttpRequestData,
    config: &MockConfig,
    swagger: &SwaggerState,
    fuel: u32,
) -> (r: MockResponse)
    requires
        pats_wf(config_pats(*config)),
        forall|j: int|
            0 <= j < obj_m(route.handlers@).len() ==> match response_schema_of(
                (#[trigger] obj_m(route.handlers@)[j]).1,
                dec_rep(effective_status(*config)),
            ) {
                Some(s) => schema_wf(s, swagger.m(), fuel as nat),
                None => true,
            },
    ensures
        route_response(
            *route,
            *config,
            req.method@,
            hdrs_m(req.headers@),
            body_m(req.body),
            swagger.m(),
            fuel as nat,
            r,
        ),
{
    let mu = to_uppercase(req.method.as_str());
    let ghost hm = obj_m(route.handlers@);
    let n = route.handlers.len();
    let mut i: usize = 0;
    proof {
        assert(hm.subrange(0, n as int) =~= hm);
    }
    while i < n
        invariant
            hm == obj_m(route.handlers@),
            hm.len() == n,
            n == route.handlers.len(),
            0 <= i <= n,
            mu@ == upper_of(req.method@),
            obj_lookup(hm, mu@) == obj_lookup(hm.subrange(i as int, n as int), mu@),
            pats_wf(config_pats(*config)),
            forall|j: int|
                0 <= j < hm.len() ==> match response_schema_of(
                    (#[trigger] hm[j]).1,
                    dec_rep(effective_status(*config)),
                ) {
                    Some(s) => schema_wf(s, swagger.m(), fuel as nat),
                    None => true,
                },
        decreases n - i,
    {
        proof {
            assert(hm.subrange(i as int, n as int)[0] == hm[i as int]);
            assert(hm[i as int] == (route.handlers@[i as int].0@, route.handlers@[i as int].1.m()));
            assert(hm.subrange(i as int, n as int).drop_first() =~= hm.subrange(
                i as int + 1,
                n as int,
            ));
        }
        if str_eq(route.handlers[i].0.as_str(), mu.as_str()) {
            proof {
                assert(obj_lookup(hm, mu@) == Some(hm[i as int].1));
            }
            return handle_matched_route(&route.handlers[i].1, req, config, swagger, fuel);
        }
        i = i + 1;
    }
    proof {
        assert(hm.subrange(n as int, n as int).len() == 0);
    }
    let mut allowed: Vec<String> = Vec::new();
    let mut k: usize = 0;
    while k < n
        invariant
            hm == obj_m(route.handlers@),
            hm.len() == n,
            n == route.handlers.len(),
            0 <= k <= n,
            allowed@.len() == k,
            forall|j: int| 0 <= j < k ==> (#[trigger] allowed@[j])@ == hm[j].0,
        decreases n - k,
    {
        allowed.push(route.handlers[k].0.clone());
        k = k + 1;
    }
    let ghost am = str_views(allowed@);
    let arr = strs_to_json(allowed);
    proof {
        assert(am =~= handler_methods(*route));
    }
    MockResponse {
        status: 405,
        headers: Vec::new(),
        body: obj2("error", str_json("Method not allowed"), "allowed_methods", arr),
        delay_ms: None,
    }
}

/// Appends one record of a handled request to the log; nothing else of
/// the state changes.
pub fn log_request(state: &mut MockState, req: &HttpRequestData, status: u16)
    ensures
        final(state).routes == old(state).routes,
        final(state).config == old(state).config,
        final(state).request_log@.len() == old(state).request_log@.len() + 1,
        final(state).request_log@.subrange(0, old(state).request_log@.len() as int) == old(
            state,
        ).request_log@,
        ({
            let entry = final(state).request_log@.last();
            &&& entry.method@ == req.method@
            &&& entry.path@ == req.path@
            &&& hdrs_m(entry.headers@) == hdrs_m(req.headers@)
            &&& entry.response_status == status
        }),
{
    let entry = RequestLog {
        timestamp: now_rfc3339(),
        method: req.method.clone(),
        path: req.path.clone(),
        headers: clone_pairs(&req.headers),
        response_status: status,
    };
    let ghost old_log = state.request_log@;
    state.request_log.push(entry);
    proof {
        assert(final(state).request_log@.subrange(0, old_log.len() as int) =~= old_log);
    }
}

/// The single entry point the transport invokes per request: matches the
/// route, dispatches the method, validates, generates, and logs the
/// outcome — the artificial delay is handed back for the transport to
/// apply before responding.
pub fn handle_request(
    state: &mut MockState,
    swagger: &SwaggerState,
    req: &HttpRequestData,
    fuel: u32,
) -> (r: MockResponse)
    requires
        state_wf(*old(state), swagger.m(), fuel as nat),
    ensures
        final(state).routes == old(state).routes,
        final(state).config == old(state).config,
        final(state).request_log@.len() == old(state).request_log@.len() + 1,
        final(state).request_log@.subrange(0, old(state).request_log@.len() as int) == old(
            state,
        ).request_log@,
        ({
            let entry = final(state).request_log@.last();
            &&& entry.method@ == req.method@
            &&& entry.path@ == req.path@
            &&& hdrs_m(entry.headers@) == hdrs_m(req.headers@)
            &&& entry.response_status == r.status
        }),
        (forall|j: int|
            0 <= j < old(state).routes@.len() ==> !path_matches(
                (#[trigger] old(state).routes@[j]).template@,
                req.path@,
            )) ==> r.status == 404 && r.body.m() == not_found_body_m(req.path@, req.method@)
            && r.delay_ms is None,
        (exists|j: int|
            0 <= j < old(state).routes@.len() && path_matches(
                (#[trigger] old(state).routes@[j]).template@,
                req.path@,
            )) ==> exists|i: int|
            {
                &&& 0 <= i < old(state).routes@.len()
                &&& path_matches((#[trigger] old(state).routes@[i]).template@, req.path@)
                &&& (forall|j: int|
                    0 <= j < i ==> !path_matches(
                        (#[trigger] old(state).routes@[j]).template@,
                        req.path@,
                    ))
                &&& route_response(
                    old(state).routes@[i],
                    old(state).config,
                    req.method@,
                    hdrs_m(req.headers@),
                    body_m(req.body),
                    swagger.m(),
                    fuel as nat,
                    r,
                )
            },
{
    let r = match find_matching_route(&state.routes, req.path.as_str()) {
        Some(route) => process_route(route, req, &state.config, swagger, fuel),
        None => MockResponse {
            status: 404,
            headers: Vec::new(),
            body: obj3(
                "error",
                str_json("Route not found"),
                "requested_path",
                JsonValue::Str(req.path.clone()),
                "method",
                JsonValue::Str(req.method.clone()),
            ),
            delay_ms: None,
        },
    };
    log_request(state, req, r.status);
    r
}

} // verus!
