use vstd::prelude::*;

use crate::json::{
    arr_m, get_bool, get_num, get_str, get_whole, jv_get, lemma_jv_get_decreases, obj_lookup,
    obj_m, JsonV, JsonValue,
};
use crate::outside::{regex_is_match, regex_match, regex_valid};
use crate::swagger::{resolve_spec, SwaggerState};
use crate::text::{byte_len, str_eq, str_views};

verus! {

broadcast use {
    crate::json::lemma_arr_m_len,
    crate::json::lemma_arr_m_index,
    crate::json::lemma_obj_m_len,
    crate::json::lemma_obj_m_index,
};

/// Why a value fails against a schema, at the model level.
#[verifier::ext_equal]
pub enum Reason {
    NotAnObject,
    MissingFields(Seq<Seq<char>>),
    NotAnArray,
    ArrayTooShort { min_items: int, actual: int },
    ArrayTooLong { max_items: int, actual: int },
    NotAString,
    StringTooShort { min_length: int, actual: int },
    StringTooLong { max_length: int, actual: int },
    InvalidPattern(Seq<char>),
    PatternMismatch(Seq<char>),
    NotANumber,
    NumberTooSmall { minimum: int, actual: int },
    NumberTooLarge { maximum: int, actual: int },
    NotABoolean,
    DepthExceeded,
}

/// Why a value fails against a schema: the kind of constraint violated and
/// the bound or names involved.
#[derive(Debug, PartialEq)]
pub enum ValidationFailure {
    NotAnObject,
    MissingFields { fields: Vec<String> },
    NotAnArray,
    ArrayTooShort { min_items: u64, actual: usize },
    ArrayTooLong { max_items: u64, actual: usize },
    NotAString,
    StringTooShort { min_length: u64, actual: usize },
    StringTooLong { max_length: u64, actual: usize },
    InvalidPattern { pattern: String },
    PatternMismatch { pattern: String },
    NotANumber,
    NumberTooSmall { minimum: i64, actual: i64 },
    NumberTooLarge { maximum: i64, actual: i64 },
    NotABoolean,
    DepthExceeded,
}

impl ValidationFailure {
    /// The model of this failure.
    pub open spec fn m(&self) -> Reason {
        match self {
            ValidationFailure::NotAnObject => Reason::NotAnObject,
            ValidationFailure::MissingFields { fields } => Reason::MissingFields(
                str_views(fields@),
            ),
            ValidationFailure::NotAnArray => Reason::NotAnArray,
            ValidationFailure::ArrayTooShort { min_items, actual } => Reason::ArrayTooShort {
                min_items: *min_items as int,
                actual: *actual as int,
            },
            ValidationFailure::ArrayTooLong { max_items, actual } => Reason::ArrayTooLong {
                max_items: *max_items as int,
                actual: *actual as int,
            },
            ValidationFailure::NotAString => Reason::NotAString,
            ValidationFailure::StringTooShort { min_length, actual } => Reason::StringTooShort {
                min_length: *min_length as int,
                actual: *actual as int,
            },
            ValidationFailure::StringTooLong { max_length, actual } => Reason::StringTooLong {
                max_length: *max_length as int,
                actual: *actual as int,
            },
            ValidationFailure::InvalidPattern { pattern } => Reason::InvalidPattern(pattern@),
            ValidationFailure::PatternMismatch { pattern } => Reason::PatternMismatch(pattern@),
            ValidationFailure::NotANumber => Reason::NotANumber,
            ValidationFailure::NumberTooSmall { minimum, actual } => Reason::NumberTooSmall {
                minimum: *minimum as int,
                actual: *actual as int,
            },
            ValidationFailure::NumberTooLarge { maximum, actual } => Reason::NumberTooLarge {
                maximum: *maximum as int,
                actual: *actual as int,
            },
            ValidationFailure::NotABoolean => Reason::NotABoolean,
            ValidationFailure::DepthExceeded => Reason::DepthExceeded,
        }
    }
}

/// The model of a validation outcome.
pub open spec fn res_m(r: Result<(), ValidationFailure>) -> Result<(), Reason> {
    match r {
        Ok(()) => Ok(()),
        Err(f) => Err(f.m()),
    }
}

/// The entries of the schema's `required` list, as the validator reads
/// them: anything but a list counts as no requirement.
pub open spec fn required_of(schema: JsonV) -> Seq<JsonV> {
    match jv_get(schema, "required"@) {
        Some(JsonV::Arr(items)) => items,
        _ => Seq::empty(),
    }
}

/// The declared properties of the schema: anything but an object counts as
/// none.
pub open spec fn props_of(schema: JsonV) -> Seq<(Seq<char>, JsonV)> {
    match jv_get(schema, "properties"@) {
        Some(JsonV::Obj(fields)) => fields,
        _ => Seq::empty(),
    }
}

/// The names of the required entries that are strings and missing from the
/// value's fields, in declaration order.
pub open spec fn missing_from(req: Seq<JsonV>, vfields: Seq<(Seq<char>, JsonV)>) -> Seq<Seq<char>>
    decreases req.len(),
{
    if req.len() == 0 {
        Seq::empty()
    } else {
        let rest = missing_from(req.drop_first(), vfields);
        match req[0] {
            JsonV::Str(name) => if obj_lookup(vfields, name) is None {
                seq![name] + rest
            } else {
                rest
            },
            _ => rest,
        }
    }
}

/// What validating a string value against the schema's string constraints
/// yields: byte-length bounds first, then the pattern, whose failure to
/// compile is the specification's defect, not the value's.
pub open spec fn check_string(v: JsonV, schema: JsonV) -> Result<(), Reason> {
    match v {
        JsonV::Str(s) => {
            let bl = byte_len(s);
            let mn = get_whole(schema, "minLength"@);
            let mx = get_whole(schema, "maxLength"@);
            if mn is Some && bl < mn->Some_0 {
                Err(Reason::StringTooShort { min_length: mn->Some_0, actual: bl })
            } else if mx is Some && bl > mx->Some_0 {
                Err(Reason::StringTooLong { max_length: mx->Some_0, actual: bl })
            } else {
                match get_str(schema, "pattern"@) {
                    Some(p) => if !regex_valid(p) {
                        Err(Reason::InvalidPattern(p))
                    } else if !regex_match(p, s) {
                        Err(Reason::PatternMismatch(p))
                    } else {
                        Ok(())
                    },
                    None => Ok(()),
                }
            }
        },
        _ => Err(Reason::NotAString),
    }
}

/// What validating a numeric value against the schema's bounds yields; the
/// same check serves `number` and `integer`.
pub open spec fn check_number(v: JsonV, schema: JsonV) -> Result<(), Reason> {
    match v {
        JsonV::Num(h) => {
            let mn = get_num(schema, "minimum"@);
            let mx = get_num(schema, "maximum"@);
            if mn is Some && h < mn->Some_0 {
                Err(Reason::NumberTooSmall { minimum: mn->Some_0, actual: h })
            } else if mx is Some && h > mx->Some_0 {
                Err(Reason::NumberTooLarge { maximum: mx->Some_0, actual: h })
            } else {
                Ok(())
            }
        },
        _ => Err(Reason::NotANumber),
    }
}

/// What validating a boolean value yields: only the type is checked.
pub open spec fn check_boolean(v: JsonV) -> Result<(), Reason> {
    match v {
        JsonV::Bool(_) => Ok(()),
        _ => Err(Reason::NotABoolean),
    }
}

/// What validating a value against a schema fragment yields.
///
/// A fragment whose `$ref` resolves stands for the resolved fragment, and
/// each such step burns one unit of fuel, so that a cyclic reference fails
/// past the limit instead of recursing forever. An unresolved `$ref` falls
/// through to the fragment's own `type`; an absent or unrecognized `type`
/// constrains nothing.
pub open spec fn check(v: JsonV, schema: JsonV, comps: Seq<(Seq<char>, JsonV)>, fuel: nat) -> Result<
    (),
    Reason,
>
    decreases fuel, schema, 2int,
{
    if get_str(schema, "$ref"@) is Some && resolve_spec(comps, get_str(schema, "$ref"@)->Some_0)
        is Some {
        if fuel == 0 {
            Err(Reason::DepthExceeded)
        } else {
            check(v, resolve_spec(comps, get_str(schema, "$ref"@)->Some_0)->Some_0, comps, (fuel
                - 1) as nat)
        }
    } else {
        match get_str(schema, "type"@) {
            Some(t) => if t == "object"@ {
                check_object(v, schema, comps, fuel)
            } else if t == "array"@ {
                check_array(v, schema, comps, fuel)
            } else if t == "string"@ {
                check_string(v, schema)
            } else if t == "number"@ || t == "integer"@ {
                check_number(v, schema)
            } else if t == "boolean"@ {
                check_boolean(v)
            } else {
                Ok(())
            },
            None => Ok(()),
        }
    }
}

/// What validating an object value yields: every required name must be a
/// field of the value — all missing names are reported at once — and each
/// declared property present in the value is checked against its schema,
/// in declaration order; fields with no declared property are ignored.
pub open spec fn check_object(
    v: JsonV,
    schema: JsonV,
    comps: Seq<(Seq<char>, JsonV)>,
    fuel: nat,
) -> Result<(), Reason>
    decreases fuel, schema, 1int,
{
    match v {
        JsonV::Obj(vfields) => {
            let missing = missing_from(required_of(schema), vfields);
            if missing.len() > 0 {
                Err(Reason::MissingFields(missing))
            } else {
                match jv_get(schema, "properties"@) {
                    Some(pv) => match pv {
                        JsonV::Obj(props) => {
                            proof {
                                lemma_jv_get_decreases(schema, "properties"@);
                                assert(decreases_to!(pv => pv->Obj_0));
                            }
                            check_props(vfields, props, comps, fuel)
                        },
                        _ => Ok(()),
                    },
                    None => Ok(()),
                }
            }
        },
        _ => Err(Reason::NotAnObject),
    }
}

/// What checking the declared properties yields, one at a time and
/// stopping at the first failure.
pub open spec fn check_props(
    vfields: Seq<(Seq<char>, JsonV)>,
    props: Seq<(Seq<char>, JsonV)>,
    comps: Seq<(Seq<char>, JsonV)>,
    fuel: nat,
) -> Result<(), Reason>
    decreases fuel, props, 0int,
{
    if props.len() == 0 {
        Ok(())
    } else {
        let head = match obj_lookup(vfields, props[0].0) {
            Some(pv) => check(pv, props[0].1, comps, fuel),
            None => Ok(()),
        };
        match head {
            Ok(()) => check_props(vfields, props.drop_first(), comps, fuel),
            Err(e) => Err(e),
        }
    }
}

/// What validating an array value yields: the length bounds are checked
/// one after the other, then every element against `items` when present.
pub open spec fn check_array(
    v: JsonV,
    schema: JsonV,
    comps: Seq<(Seq<char>, JsonV)>,
    fuel: nat,
) -> Result<(), Reason>
    decreases fuel, schema, 1int,
{
    match v {
        JsonV::Arr(elems) => {
            let mn = get_whole(schema, "minItems"@);
            let mx = get_whole(schema, "maxItems"@);
            if mn is Some && elems.len() < mn->Some_0 {
                Err(Reason::ArrayTooShort { min_items: mn->Some_0, actual: elems.len() as int })
            } else if mx is Some && elems.len() > mx->Some_0 {
                Err(Reason::ArrayTooLong { max_items: mx->Some_0, actual: elems.len() as int })
            } else {
                match jv_get(schema, "items"@) {
                    Some(item) => {
                        proof {
                            lemma_jv_get_decreases(schema, "items"@);
                        }
                        check_elems(elems, item, comps, fuel)
                    },
                    None => Ok(()),
                }
            }
        },
        _ => Err(Reason::NotAnArray),
    }
}

/// What checking every element of an array against the item schema yields,
/// left to right and stopping at the first failure.
pub open spec fn check_elems(
    elems: Seq<JsonV>,
    item: JsonV,
    comps: Seq<(Seq<char>, JsonV)>,
    fuel: nat,
) -> Result<(), Reason>
    decreases fuel, item, elems.len() + 3,
{
    if elems.len() == 0 {
        Ok(())
    } else {
        match check(elems[0], item, comps, fuel) {
            Ok(()) => check_elems(elems.drop_first(), item, comps, fuel),
            Err(e) => Err(e),
        }
    }
}

/// Validates a value against a schema fragment, resolving `$ref` through
/// the registry, with `fuel` bounding how many references may be followed.
pub fn validate_against_schema(
    v: &JsonValue,
    schema: &JsonValue,
    swagger: &SwaggerState,
    fuel: u32,
) -> (r: Result<(), ValidationFailure>)
    ensures
        res_m(r) == check(v.m(), schema.m(), swagger.m(), fuel as nat),
    decreases fuel, *schema, 2int,
{
    if let Some(rs) = schema.get_field_str("$ref") {
        if let Some(target) = swagger.resolve_ref(rs.as_str()) {
            if fuel == 0 {
                return Err(ValidationFailure::DepthExceeded);
            }
            return validate_against_schema(v, target, swagger, fuel - 1);
        }
    }
    match schema.get_field_str("type") {
        Some(t) => {
            if str_eq(t.as_str(), "object") {
                validate_object(v, schema, swagger, fuel)
            } else if str_eq(t.as_str(), "array") {
                validate_array(v, schema, swagger, fuel)
            } else if str_eq(t.as_str(), "string") {
                validate_string(v, schema)
            } else if str_eq(t.as_str(), "number") || str_eq(t.as_str(), "integer") {
                validate_number(v, schema)
            } else if str_eq(t.as_str(), "boolean") {
                validate_boolean(v)
            } else {
                Ok(())
            }
        },
        None => Ok(()),
    }
}

/// Validates an object value: required names first, then each declared
/// property present in the value.
pub fn validate_object(
    v: &JsonValue,
    schema: &JsonValue,
    swagger: &SwaggerState,
    fuel: u32,
) -> (r: Result<(), ValidationFailure>)
    ensures
        res_m(r) == check_object(v.m(), schema.m(), swagger.m(), fuel as nat),
    decreases fuel, *schema, 1int,
{
    let vfields = match v {
        JsonValue::Obj(f) => f,
        _ => {
            return Err(ValidationFailure::NotAnObject);
        },
    };
    let ghost vm = obj_m(vfields@);
    let mut missing: Vec<String> = Vec::new();
    if let Some(reqv) = schema.get("required") {
        if let JsonValue::Arr(req_items) = reqv {
            let ghost rm = arr_m(req_items@);
            let n = req_items.len();
            let mut k: usize = 0;
            proof {
                assert(rm.subrange(0, n as int) =~= rm);
                assert(missing_from(rm, vm) == str_views(missing@) + missing_from(
                    rm.subrange(0, n as int),
                    vm,
                ));
            }
            while k < n
                invariant
                    *v is Obj,
                    (*v)->Obj_0 == *vfields,
                    vm == obj_m(vfields@),
                    *reqv is Arr,
                    (*reqv)->Arr_0 == *req_items,
                    rm == arr_m(req_items@),
                    rm.len() == n,
                    n == req_items.len(),
                    0 <= k <= n,
                    required_of(schema.m()) == rm,
                    missing_from(rm, vm) == str_views(missing@) + missing_from(
                        rm.subrange(k as int, n as int),
                        vm,
                    ),
                decreases n - k,
            {
                proof {
                    assert(rm.subrange(k as int, n as int)[0] == rm[k as int]);
                    assert(rm[k as int] == req_items@[k as int].m());
                    assert(rm.subrange(k as int, n as int).drop_first() =~= rm.subrange(
                        k as int + 1,
                        n as int,
                    ));
                }
                match &req_items[k] {
                    JsonValue::Str(name) => {
                        if v.get(name.as_str()).is_none() {
                            let ghost old_missing = missing@;
                            missing.push(name.clone());
                            proof {
                                assert(str_views(missing@) =~= str_views(old_missing).push(name@));
                                assert(str_views(missing@) + missing_from(
                                    rm.subrange(k as int + 1, n as int),
                                    vm,
                                ) =~= str_views(old_missing) + missing_from(
                                    rm.subrange(k as int, n as int),
                                    vm,
                                ));
                            }
                        }
                    },
                    _ => {},
                }
                k = k + 1;
            }
            proof {
                assert(rm.subrange(n as int, n as int).len() == 0);
                assert(missing_from(rm, vm) =~= str_views(missing@));
            }
        }
    }
    proof {
        if missing@.len() == 0 {
            assert(missing_from(required_of(schema.m()), vm) =~= str_views(missing@));
        }
    }
    if missing.len() > 0 {
        return Err(ValidationFailure::MissingFields { fields: missing });
    }
    if let Some(propsv) = schema.get("properties") {
        if let JsonValue::Obj(props) = propsv {
            let ghost pm = obj_m(props@);
            let n = props.len();
            let mut k: usize = 0;
            proof {
                assert(pm.subrange(0, n as int) =~= pm);
                assert(check_object(v.m(), schema.m(), swagger.m(), fuel as nat) == check_props(
                    vm,
                    pm,
                    swagger.m(),
                    fuel as nat,
                ));
            }
            while k < n
                invariant
                    *v is Obj,
                    (*v)->Obj_0 == *vfields,
                    vm == obj_m(vfields@),
                    *propsv is Obj,
                    (*propsv)->Obj_0 == *props,
                    decreases_to!(*schema => *propsv),
                    pm == obj_m(props@),
                    pm.len() == n,
                    n == props.len(),
                    0 <= k <= n,
                    check_object(v.m(), schema.m(), swagger.m(), fuel as nat) == check_props(
                        vm,
                        pm,
                        swagger.m(),
                        fuel as nat,
                    ),
                    check_props(vm, pm, swagger.m(), fuel as nat) == check_props(
                        vm,
                        pm.subrange(k as int, n as int),
                        swagger.m(),
                        fuel as nat,
                    ),
                decreases n - k,
            {
                proof {
                    assert(pm.subrange(k as int, n as int)[0] == pm[k as int]);
                    assert(pm[k as int] == (props@[k as int].0@, props@[k as int].1.m()));
                    assert(pm.subrange(k as int, n as int).drop_first() =~= pm.subrange(
                        k as int + 1,
                        n as int,
                    ));
                    assert(decreases_to!(*propsv => (*propsv)->Obj_0));
                    assert(decreases_to!(*props => props@));
                    assert(decreases_to!(props@ => props@[k as int]));
                    assert(decreases_to!(props@[k as int] => props@[k as int].1));
                }
                let name = &props[k].0;
                match v.get(name.as_str()) {
                    Some(pv) => {
                        match validate_against_schema(pv, &props[k].1, swagger, fuel) {
                            Ok(()) => {},
                            Err(e) => {
                                proof {
                                    assert(check_props(
                                        vm,
                                        pm.subrange(k as int, n as int),
                                        swagger.m(),
                                        fuel as nat,
                                    ) == Err::<(), Reason>(e.m()));
                                    assert(check_object(
                                        v.m(),
                                        schema.m(),
                                        swagger.m(),
                                        fuel as nat,
                                    ) == Err::<(), Reason>(e.m()));
                                }
                                return Err(e);
                            },
                        }
                    },
                    None => {},
                }
                k = k + 1;
            }
            proof {
                assert(pm.subrange(n as int, n as int).len() == 0);
            }
            return Ok(());
        }
    }
    proof {
        assert(props_of(schema.m()) =~= Seq::<(Seq<char>, JsonV)>::empty());
    }
    Ok(())
}

/// Validates an array value: length bounds, then every element.
pub fn validate_array(
    v: &JsonValue,
    schema: &JsonValue,
    swagger: &SwaggerState,
    fuel: u32,
) -> (r: Result<(), ValidationFailure>)
    ensures
        res_m(r) == check_array(v.m(), schema.m(), swagger.m(), fuel as nat),
    decreases fuel, *schema, 1int,
{
    let elems = match v {
        JsonValue::Arr(e) => e,
        _ => {
            return Err(ValidationFailure::NotAnArray);
        },
    };
    if let Some(mn) = schema.get_field_whole("minItems") {
        if (elems.len() as u64) < mn {
            proof {
                assert(v.m() is Arr);
                assert(v.m()->Arr_0 == arr_m(elems@));
                assert(arr_m(elems@).len() == elems@.len());
                assert(get_whole(schema.m(), "minItems"@) == Some(mn as int));
                assert(check_array(v.m(), schema.m(), swagger.m(), fuel as nat) == Err::<
                    (),
                    Reason,
                >(
                    Reason::ArrayTooShort {
                        min_items: mn as int,
                        actual: elems@.len() as int,
                    },
                ));
            }
            return Err(ValidationFailure::ArrayTooShort { min_items: mn, actual: elems.len() });
        }
    }
    if let Some(mx) = schema.get_field_whole("maxItems") {
        if (elems.len() as u64) > mx {
            proof {
                assert(arr_m(elems@).len() == elems@.len());
                assert(check_array(v.m(), schema.m(), swagger.m(), fuel as nat) == Err::<
                    (),
                    Reason,
                >(Reason::ArrayTooLong { max_items: mx as int, actual: elems@.len() as int }));
            }
            return Err(ValidationFailure::ArrayTooLong { max_items: mx, actual: elems.len() });
        }
    }
    if let Some(itemv) = schema.get("items") {
        let ghost em = arr_m(elems@);
        let ghost im = itemv.m();
        let n = elems.len();
        let mut k: usize = 0;
        proof {
            assert(em.subrange(0, n as int) =~= em);
            assert(check_array(v.m(), schema.m(), swagger.m(), fuel as nat) == check_elems(
                em,
                im,
                swagger.m(),
                fuel as nat,
            ));
        }
        while k < n
            invariant
                *v is Arr,
                (*v)->Arr_0 == *elems,
                em == arr_m(elems@),
                em.len() == n,
                n == elems.len(),
                0 <= k <= n,
                decreases_to!(*schema => *itemv),
                im == itemv.m(),
                check_array(v.m(), schema.m(), swagger.m(), fuel as nat) == check_elems(
                    em,
                    im,
                    swagger.m(),
                    fuel as nat,
                ),
                check_elems(em, im, swagger.m(), fuel as nat) == check_elems(
                    em.subrange(k as int, n as int),
                    im,
                    swagger.m(),
                    fuel as nat,
                ),
            decreases n - k,
        {
            proof {
                assert(em.subrange(k as int, n as int)[0] == em[k as int]);
                assert(em[k as int] == elems@[k as int].m());
                assert(em.subrange(k as int, n as int).drop_first() =~= em.subrange(
                    k as int + 1,
                    n as int,
                ));
            }
            match validate_against_schema(&elems[k], itemv, swagger, fuel) {
                Ok(()) => {},
                Err(e) => {
                    proof {
                        assert(check_elems(
                            em.subrange(k as int, n as int),
                            im,
                            swagger.m(),
                            fuel as nat,
                        ) == Err::<(), Reason>(e.m()));
                        assert(check_array(v.m(), schema.m(), swagger.m(), fuel as nat) == Err::<
                            (),
                            Reason,
                        >(e.m()));
                    }
                    return Err(e);
                },
            }
            k = k + 1;
        }
        proof {
            assert(em.subrange(n as int, n as int).len() == 0);
        }
        return Ok(());
    }
    proof {
        assert(arr_m(elems@).len() == elems@.len());
    }
    Ok(())
}

/// Validates a string value: byte-length bounds, then the pattern.
pub fn validate_string(v: &JsonValue, schema: &JsonValue) -> (r: Result<(), ValidationFailure>)
    ensures
        res_m(r) == check_string(v.m(), schema.m()),
{
    let s = match v {
        JsonValue::Str(s) => s,
        _ => {
            return Err(ValidationFailure::NotAString);
        },
    };
    let bl = s.as_str().len();
    if let Some(mn) = schema.get_field_whole("minLength") {
        if (bl as u64) < mn {
            return Err(ValidationFailure::StringTooShort { min_length: mn, actual: bl });
        }
    }
    if let Some(mx) = schema.get_field_whole("maxLength") {
        if (bl as u64) > mx {
            return Err(ValidationFailure::StringTooLong { max_length: mx, actual: bl });
        }
    }
    if let Some(p) = schema.get_field_str("pattern") {
        match regex_is_match(p.as_str(), s.as_str()) {
            None => {
                return Err(ValidationFailure::InvalidPattern { pattern: p.clone() });
            },
            Some(false) => {
                return Err(ValidationFailure::PatternMismatch { pattern: p.clone() });
            },
            Some(true) => {},
        }
    }
    Ok(())
}

/// Validates a numeric value against its bounds; `number` and `integer`
/// are checked alike.
pub fn validate_number(v: &JsonValue, schema: &JsonValue) -> (r: Result<(), ValidationFailure>)
    ensures
        res_m(r) == check_number(v.m(), schema.m()),
{
    let h = match v {
        JsonValue::Num(h) => *h,
        _ => {
            return Err(ValidationFailure::NotANumber);
        },
    };
    if let Some(mn) = schema.get_field_num("minimum") {
        if h < mn {
            return Err(ValidationFailure::NumberTooSmall { minimum: mn, actual: h });
        }
    }
    if let Some(mx) = schema.get_field_num("maximum") {
        if h > mx {
            return Err(ValidationFailure::NumberTooLarge { maximum: mx, actual: h });
        }
    }
    Ok(())
}

/// Validates a boolean value: only the type is checked.
pub fn validate_boolean(v: &JsonValue) -> (r: Result<(), ValidationFailure>)
    ensures
        res_m(r) == check_boolean(v.m()),
{
    match v {
        JsonValue::Bool(_) => Ok(()),
        _ => Err(ValidationFailure::NotABoolean),
    }
}

} // verus!
