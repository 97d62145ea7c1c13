use vstd::prelude::*;

use crate::config::{pattern_output, pattern_wf, MockFieldConfig, MockPattern};
use crate::json::{arr_m, clone_value, get_num, get_str, get_whole, jv_get, lemma_jv_get_decreases,
    obj_m, JsonV, JsonValue};
use crate::num::{ceil_div, floor_div, lemma_multiple_in_range};
use crate::outside::{fake_company, fake_email, fake_name, fake_sentence, fake_username,
    new_uuid_string, now_rfc3339, rand_bool, rand_i64_between, rand_u64_between,
    rand_usize_between};
use crate::swagger::{resolve_spec, SwaggerState};
use crate::text::{str_eq, str_views};

verus! {

broadcast use {
    crate::json::lemma_arr_m_len,
    crate::json::lemma_arr_m_index,
    crate::json::lemma_obj_m_len,
    crate::json::lemma_obj_m_index,
    vstd::string::group_string_axioms,
};

/// Why generation gave up: the only failure it knows is running out of
/// fuel on a chain of references, the guard against cyclic schemas.
#[derive(Debug, PartialEq)]
pub enum GenFailure {
    DepthExceeded,
}

/// The model of an override table.
pub open spec fn pats_m(ps: Seq<(String, MockPattern)>) -> Seq<(Seq<char>, MockPattern)> {
    ps.map_values(|p: (String, MockPattern)| (p.0@, p.1))
}

/// The pattern bound to a field name: the first entry with that name.
pub open spec fn pat_lookup(ps: Seq<(Seq<char>, MockPattern)>, name: Seq<char>) -> Option<
    MockPattern,
>
    decreases ps.len(),
{
    if ps.len() == 0 {
        None
    } else if ps[0].0 == name {
        Some(ps[0].1)
    } else {
        pat_lookup(ps.drop_first(), name)
    }
}

/// The model of an optional override table.
pub open spec fn opt_pats(fc: Option<&MockFieldConfig>) -> Option<Seq<(Seq<char>, MockPattern)>> {
    match fc {
        Some(c) => Some(pats_m(c.patterns@)),
        None => None,
    }
}

/// The model of an optional field name.
pub open spec fn opt_name(n: Option<&str>) -> Option<Seq<char>> {
    match n {
        Some(s) => Some(s@),
        None => None,
    }
}

/// The override that applies: only when a table and a field name are both
/// at hand and the table binds that name.
pub open spec fn override_pat(
    pats: Option<Seq<(Seq<char>, MockPattern)>>,
    name: Option<Seq<char>>,
) -> Option<MockPattern> {
    match (pats, name) {
        (Some(ps), Some(nm)) => pat_lookup(ps, nm),
        _ => None,
    }
}

/// Every pattern of the table can produce a value.
pub open spec fn pats_seq_wf(ps: Seq<(Seq<char>, MockPattern)>) -> bool {
    forall|i: int| 0 <= i < ps.len() ==> pattern_wf((#[trigger] ps[i]).1)
}

/// Every pattern of an optional table can produce a value.
pub open spec fn pats_wf(pats: Option<Seq<(Seq<char>, MockPattern)>>) -> bool {
    match pats {
        Some(ps) => pats_seq_wf(ps),
        None => true,
    }
}

/// A bound pattern is one of the table's entries.
pub proof fn lemma_pat_lookup_wf(ps: Seq<(Seq<char>, MockPattern)>, name: Seq<char>)
    requires
        pat_lookup(ps, name) is Some,
        pats_seq_wf(ps),
    ensures
        pattern_wf(pat_lookup(ps, name)->Some_0),
    decreases ps.len(),
{
    if ps.len() > 0 && ps[0].0 != name {
        assert forall|i: int|
            0 <= i < ps.drop_first().len() implies pattern_wf(
            (#[trigger] ps.drop_first()[i]).1,
        ) by {
            assert(ps.drop_first()[i] == ps[i + 1]);
            assert(pattern_wf(ps[i + 1].1));
        }
        assert(pats_seq_wf(ps.drop_first()));
        lemma_pat_lookup_wf(ps.drop_first(), name);
    } else if ps.len() > 0 {
        assert(pattern_wf(ps[0].1));
    }
}

/// The `required` entries that are strings, in order: the names an object
/// generator emits when the list is not empty.
pub open spec fn req_strs_of(items: Seq<JsonV>) -> Seq<Seq<char>>
    decreases items.len(),
{
    if items.len() == 0 {
        Seq::empty()
    } else {
        let rest = req_strs_of(items.drop_first());
        match items[0] {
            JsonV::Str(s) => seq![s] + rest,
            _ => rest,
        }
    }
}

/// The string entries of the schema's `required` list.
pub open spec fn required_strs(schema: JsonV) -> Seq<Seq<char>> {
    match jv_get(schema, "required"@) {
        Some(JsonV::Arr(items)) => req_strs_of(items),
        _ => Seq::empty(),
    }
}

/// What a generated string looks like: a format always yields a string —
/// a UUID one of 36 characters — and with no format an enumeration with
/// entries yields one of them, anything else a random sentence.
pub open spec fn string_output(v: JsonV, schema: JsonV) -> bool {
    match get_str(schema, "format"@) {
        Some(f) => v is Str && (f == "uuid"@ ==> v->Str_0.len() == 36),
        None => match jv_get(schema, "enum"@) {
            Some(JsonV::Arr(evs)) => if evs.len() > 0 {
                exists|i: int| 0 <= i < evs.len() && v == #[trigger] evs[i]
            } else {
                v is Str
            },
            _ => v is Str,
        },
    }
}

/// What a generated number looks like: within the schema's bounds, whole
/// hundredths for `integer`, hundredths for `number`, with 0 and 100 as
/// the default bounds.
pub open spec fn number_output(v: JsonV, schema: JsonV, integer: bool) -> bool {
    let lo = num_bound(schema, "minimum"@, 0);
    let hi = num_bound(schema, "maximum"@, 10000);
    &&& v is Num
    &&& lo <= v->Num_0 <= hi
    &&& (integer ==> exists|k: int| v->Num_0 == #[trigger] (k * 100))
}

/// A numeric bound of the schema, with its default in hundredths.
pub open spec fn num_bound(schema: JsonV, key: Seq<char>, dflt: int) -> int {
    match get_num(schema, key) {
        Some(x) => x,
        None => dflt,
    }
}

/// An item-count bound of the schema, with its default.
pub open spec fn count_bound(schema: JsonV, key: Seq<char>, dflt: int) -> int {
    match get_whole(schema, key) {
        Some(x) => x,
        None => dflt,
    }
}

/// What a generated value looks like, for every random draw: the
/// override's output when one applies, else a value shaped by the schema
/// fragment, references resolved through the registry for as long as the
/// fuel lasts.
pub open spec fn gen_output(
    v: JsonV,
    schema: JsonV,
    pats: Option<Seq<(Seq<char>, MockPattern)>>,
    name: Option<Seq<char>>,
    comps: Seq<(Seq<char>, JsonV)>,
    fuel: nat,
) -> bool
    decreases fuel, schema, 2int,
{
    if override_pat(pats, name) is Some {
        pattern_output(override_pat(pats, name)->Some_0, v)
    } else {
        match schema {
            JsonV::Obj(_) => {
                if get_str(schema, "$ref"@) is Some && resolve_spec(
                    comps,
                    get_str(schema, "$ref"@)->Some_0,
                ) is Some {
                    fuel > 0 && gen_output(
                        v,
                        resolve_spec(comps, get_str(schema, "$ref"@)->Some_0)->Some_0,
                        pats,
                        name,
                        comps,
                        (fuel - 1) as nat,
                    )
                } else {
                    let ty = get_str(schema, "type"@);
                    if ty is None || ty->Some_0 == "object"@ {
                        object_output(v, schema, pats, comps, fuel)
                    } else if ty->Some_0 == "string"@ {
                        string_output(v, schema)
                    } else if ty->Some_0 == "integer"@ {
                        number_output(v, schema, true)
                    } else if ty->Some_0 == "number"@ {
                        number_output(v, schema, false)
                    } else if ty->Some_0 == "boolean"@ {
                        v is Bool
                    } else if ty->Some_0 == "array"@ {
                        array_output(v, schema, pats, name, comps, fuel)
                    } else {
                        v == JsonV::Null
                    }
                }
            },
            _ => v == JsonV::Null,
        }
    }
}

/// What a generated object looks like: one field per declared property
/// that is emitted — all of them when `required` lists no names, only the
/// required ones otherwise — in declaration order, each generated with its
/// own name as the override context.
pub open spec fn object_output(
    v: JsonV,
    schema: JsonV,
    pats: Option<Seq<(Seq<char>, MockPattern)>>,
    comps: Seq<(Seq<char>, JsonV)>,
    fuel: nat,
) -> bool
    decreases fuel, schema, 1int,
{
    match jv_get(schema, "properties"@) {
        Some(pv) => match pv {
            JsonV::Obj(props) => {
                proof {
                    lemma_jv_get_decreases(schema, "properties"@);
                    assert(decreases_to!(pv => pv->Obj_0));
                }
                v matches JsonV::Obj(out) && gen_props(
                    out,
                    props,
                    required_strs(schema),
                    pats,
                    comps,
                    fuel,
                )
            },
            _ => v == JsonV::Obj(Seq::empty()),
        },
        None => v == JsonV::Obj(Seq::empty()),
    }
}

/// What the generated fields of an object look like, one declared
/// property at a time.
pub open spec fn gen_props(
    out: Seq<(Seq<char>, JsonV)>,
    props: Seq<(Seq<char>, JsonV)>,
    req: Seq<Seq<char>>,
    pats: Option<Seq<(Seq<char>, MockPattern)>>,
    comps: Seq<(Seq<char>, JsonV)>,
    fuel: nat,
) -> bool
    decreases fuel, props, 0int,
{
    if props.len() == 0 {
        out.len() == 0
    } else {
        let emit = req.len() == 0 || req.contains(props[0].0);
        if emit {
            &&& out.len() > 0
            &&& out[0].0 == props[0].0
            &&& gen_output(out[0].1, props[0].1, pats, Some(props[0].0), comps, fuel)
            &&& gen_props(out.drop_first(), props.drop_first(), req, pats, comps, fuel)
        } else {
            gen_props(out, props.drop_first(), req, pats, comps, fuel)
        }
    }
}

/// What a generated array looks like: with an `items` fragment, between 1
/// and 5 elements unless the schema narrows the count, each generated from
/// that fragment; without one, empty.
pub open spec fn array_output(
    v: JsonV,
    schema: JsonV,
    pats: Option<Seq<(Seq<char>, MockPattern)>>,
    name: Option<Seq<char>>,
    comps: Seq<(Seq<char>, JsonV)>,
    fuel: nat,
) -> bool
    decreases fuel, schema, 1int,
{
    match jv_get(schema, "items"@) {
        Some(item) => {
            proof {
                lemma_jv_get_decreases(schema, "items"@);
            }
            &&& v is Arr
            &&& count_bound(schema, "minItems"@, 1) <= v->Arr_0.len() <= count_bound(
                schema,
                "maxItems"@,
                5,
            )
            &&& gen_elems(v->Arr_0, item, pats, name, comps, fuel)
        },
        None => v == JsonV::Arr(Seq::empty()),
    }
}

/// Every element of a generated array comes from the item fragment.
pub open spec fn gen_elems(
    elems: Seq<JsonV>,
    item: JsonV,
    pats: Option<Seq<(Seq<char>, MockPattern)>>,
    name: Option<Seq<char>>,
    comps: Seq<(Seq<char>, JsonV)>,
    fuel: nat,
) -> bool
    decreases fuel, item, elems.len() + 3,
{
    if elems.len() == 0 {
        true
    } else {
        gen_output(elems[0], item, pats, name, comps, fuel) && gen_elems(
            elems.drop_first(),
            item,
            pats,
            name,
            comps,
            fuel,
        )
    }
}

/// The inputs on which the generator can produce a value at all: every
/// numeric range it may be asked to draw from holds a value, and every
/// array count range is non-empty, through references and emitted
/// properties alike.
pub open spec fn schema_wf(schema: JsonV, comps: Seq<(Seq<char>, JsonV)>, fuel: nat) -> bool
    decreases fuel, schema, 2int,
{
    match schema {
        JsonV::Obj(_) => {
            if get_str(schema, "$ref"@) is Some && resolve_spec(
                comps,
                get_str(schema, "$ref"@)->Some_0,
            ) is Some {
                fuel == 0 || schema_wf(
                    resolve_spec(comps, get_str(schema, "$ref"@)->Some_0)->Some_0,
                    comps,
                    (fuel - 1) as nat,
                )
            } else {
                let ty = get_str(schema, "type"@);
                if ty is None || ty->Some_0 == "object"@ {
                    match jv_get(schema, "properties"@) {
                        Some(pv) => match pv {
                            JsonV::Obj(props) => {
                                proof {
                                    lemma_jv_get_decreases(schema, "properties"@);
                                    assert(decreases_to!(pv => pv->Obj_0));
                                }
                                wf_props(props, required_strs(schema), comps, fuel)
                            },
                            _ => true,
                        },
                        None => true,
                    }
                } else if ty->Some_0 == "integer"@ {
                    exists|k: int|
                        num_bound(schema, "minimum"@, 0) <= #[trigger] (k * 100) <= num_bound(
                            schema,
                            "maximum"@,
                            10000,
                        )
                } else if ty->Some_0 == "number"@ {
                    num_bound(schema, "minimum"@, 0) <= num_bound(schema, "maximum"@, 10000)
                } else if ty->Some_0 == "array"@ {
                    &&& count_bound(schema, "minItems"@, 1) <= count_bound(schema, "maxItems"@, 5)
                    &&& match jv_get(schema, "items"@) {
                        Some(item) => {
                            proof {
                                lemma_jv_get_decreases(schema, "items"@);
                            }
                            schema_wf(item, comps, fuel)
                        },
                        None => true,
                    }
                } else {
                    true
                }
            }
        },
        _ => true,
    }
}

/// Whether each emitted property's fragment can produce a value.
pub open spec fn wf_props(
    props: Seq<(Seq<char>, JsonV)>,
    req: Seq<Seq<char>>,
    comps: Seq<(Seq<char>, JsonV)>,
    fuel: nat,
) -> bool
    decreases fuel, props, 0int,
{
    if props.len() == 0 {
        true
    } else {
        let emit = req.len() == 0 || req.contains(props[0].0);
        (emit ==> schema_wf(props[0].1, comps, fuel)) && wf_props(
            props.drop_first(),
            req,
            comps,
            fuel,
        )
    }
}

/// The fragments on which generation is owed a value: enough fuel for
/// every reference on the way, through declared properties and array
/// items alike.
pub open spec fn gen_total(schema: JsonV, comps: Seq<(Seq<char>, JsonV)>, fuel: nat) -> bool
    decreases fuel, schema, 2int,
{
    match schema {
        JsonV::Obj(_) => {
            if get_str(schema, "$ref"@) is Some && resolve_spec(
                comps,
                get_str(schema, "$ref"@)->Some_0,
            ) is Some {
                fuel > 0 && gen_total(
                    resolve_spec(comps, get_str(schema, "$ref"@)->Some_0)->Some_0,
                    comps,
                    (fuel - 1) as nat,
                )
            } else {
                let ty = get_str(schema, "type"@);
                if ty is None || ty->Some_0 == "object"@ {
                    match jv_get(schema, "properties"@) {
                        Some(pv) => match pv {
                            JsonV::Obj(props) => {
                                proof {
                                    lemma_jv_get_decreases(schema, "properties"@);
                                    assert(decreases_to!(pv => pv->Obj_0));
                                }
                                total_props(props, comps, fuel)
                            },
                            _ => true,
                        },
                        None => true,
                    }
                } else if ty->Some_0 == "array"@ {
                    match jv_get(schema, "items"@) {
                        Some(item) => {
                            proof {
                                lemma_jv_get_decreases(schema, "items"@);
                            }
                            gen_total(item, comps, fuel)
                        },
                        None => true,
                    }
                } else {
                    true
                }
            }
        },
        _ => true,
    }
}

/// Whether every declared property's fragment has enough fuel.
pub open spec fn total_props(
    props: Seq<(Seq<char>, JsonV)>,
    comps: Seq<(Seq<char>, JsonV)>,
    fuel: nat,
) -> bool
    decreases fuel, props, 0int,
{
    if props.len() == 0 {
        true
    } else {
        gen_total(props[0].1, comps, fuel) && total_props(props.drop_first(), comps, fuel)
    }
}

/// A list that satisfies the element predicate still does after one more
/// satisfying element.
proof fn lemma_gen_elems_snoc(
    elems: Seq<JsonV>,
    x: JsonV,
    item: JsonV,
    pats: Option<Seq<(Seq<char>, MockPattern)>>,
    name: Option<Seq<char>>,
    comps: Seq<(Seq<char>, JsonV)>,
    fuel: nat,
)
    requires
        gen_elems(elems, item, pats, name, comps, fuel),
        gen_output(x, item, pats, name, comps, fuel),
    ensures
        gen_elems(elems.push(x), item, pats, name, comps, fuel),
    decreases elems.len(),
{
    if elems.len() == 0 {
        assert(elems.push(x)[0] == x);
        assert(elems.push(x).drop_first() =~= Seq::<JsonV>::empty());
        assert(gen_elems(Seq::<JsonV>::empty(), item, pats, name, comps, fuel));
        assert(elems.push(x).len() == 1);
    } else {
        lemma_gen_elems_snoc(elems.drop_first(), x, item, pats, name, comps, fuel);
        assert(elems.push(x)[0] == elems[0]);
        assert(elems.push(x).drop_first() =~= elems.drop_first().push(x));
        assert(gen_elems(elems.push(x).drop_first(), item, pats, name, comps, fuel) == gen_elems(
            elems.drop_first().push(x),
            item,
            pats,
            name,
            comps,
            fuel,
        ));
    }
}

/// The first pattern bound to a field name, if the table binds it.
fn lookup_pattern<'a>(c: &'a MockFieldConfig, name: &str) -> (r: Option<&'a MockPattern>)
    ensures
        match r {
            Some(p) => pat_lookup(pats_m(c.patterns@), name@) == Some(*p),
            None => pat_lookup(pats_m(c.patterns@), name@) is None,
        },
{
    let ghost ps = pats_m(c.patterns@);
    let n = c.patterns.len();
    let mut i: usize = 0;
    proof {
        assert(ps.subrange(0, n as int) =~= ps);
    }
    while i < n
        invariant
            n == c.patterns.len(),
            ps == pats_m(c.patterns@),
            ps.len() == n,
            0 <= i <= n,
            pat_lookup(ps, name@) == pat_lookup(ps.subrange(i as int, n as int), name@),
        decreases n - i,
    {
        proof {
            assert(ps.subrange(i as int, n as int)[0] == ps[i as int]);
            assert(ps[i as int] == (c.patterns@[i as int].0@, c.patterns@[i as int].1));
        }
        if str_eq(c.patterns[i].0.as_str(), name) {
            return Some(&c.patterns[i].1);
        }
        proof {
            assert(ps.subrange(i as int, n as int).drop_first() =~= ps.subrange(
                i as int + 1,
                n as int,
            ));
        }
        i = i + 1;
    }
    proof {
        assert(ps.subrange(n as int, n as int).len() == 0);
    }
    None
}

/// Synthesizes one value conforming to the schema fragment: overrides win
/// over the schema, references resolve through the registry, and the fuel
/// bounds how many references a single walk may follow.
#[verifier::rlimit(50)]
pub fn generate_mock_value(
    schema: &JsonValue,
    field_config: Option<&MockFieldConfig>,
    field_name: Option<&str>,
    swagger: &SwaggerState,
    fuel: u32,
) -> (r: Result<JsonValue, GenFailure>)
    requires
        pats_wf(opt_pats(field_config)),
        schema_wf(schema.m(), swagger.m(), fuel as nat),
    ensures
        r matches Ok(v) ==> gen_output(
            v.m(),
            schema.m(),
            opt_pats(field_config),
            opt_name(field_name),
            swagger.m(),
            fuel as nat,
        ),
        gen_total(schema.m(), swagger.m(), fuel as nat) ==> r is Ok,
    decreases fuel, *schema, 2int,
{
    if let Some(fc) = field_config {
        if let Some(nm) = field_name {
            if let Some(pat) = lookup_pattern(fc, nm) {
                proof {
                    assert(opt_pats(field_config) == Some(pats_m(fc.patterns@)));
                    assert(pats_seq_wf(pats_m(fc.patterns@)));
                    lemma_pat_lookup_wf(pats_m(fc.patterns@), nm@);
                }
                return Ok(pat.generate_value());
            }
        }
    }
    match schema {
        JsonValue::Obj(_) => {
            if let Some(rs) = schema.get_field_str("$ref") {
                if let Some(target) = swagger.resolve_ref(rs.as_str()) {
                    if fuel == 0 {
                        return Err(GenFailure::DepthExceeded);
                    }
                    return generate_mock_value(target, field_config, field_name, swagger, fuel
                        - 1);
                }
            }
            proof {
                reveal_strlit("object");
                reveal_strlit("string");
                reveal_strlit("integer");
                reveal_strlit("number");
                reveal_strlit("boolean");
                reveal_strlit("array");
                assert("object"@.len() == 6);
                assert("string"@.len() == 6);
                assert("integer"@.len() == 7);
                assert("number"@.len() == 6);
                assert("boolean"@.len() == 7);
                assert("array"@.len() == 5);
                assert("string"@[0] == 's');
                assert("number"@[0] == 'n');
                assert("object"@[0] == 'o');
                assert("string"@ != "object"@);
                assert("integer"@ != "object"@);
                assert("number"@ != "object"@);
                assert("boolean"@ != "object"@);
                assert("array"@ != "object"@);
            }
            match schema.get_field_str("type") {
                Some(t) => {
                    if str_eq(t.as_str(), "string") {
                        Ok(generate_mock_string(schema))
                    } else if str_eq(t.as_str(), "integer") {
                        Ok(generate_mock_number(schema, true))
                    } else if str_eq(t.as_str(), "number") {
                        Ok(generate_mock_number(schema, false))
                    } else if str_eq(t.as_str(), "boolean") {
                        Ok(JsonValue::Bool(rand_bool()))
                    } else if str_eq(t.as_str(), "array") {
                        generate_mock_array(schema, field_config, field_name, swagger, fuel)
                    } else if str_eq(t.as_str(), "object") {
                        generate_mock_object(schema, field_config, swagger, fuel)
                    } else {
                        Ok(JsonValue::Null)
                    }
                },
                None => generate_mock_object(schema, field_config, swagger, fuel),
            }
        },
        _ => Ok(JsonValue::Null),
    }
}

/// Synthesizes a string: by declared format, else by enumeration pick,
/// else a random sentence.
#[verifier::rlimit(50)]
pub fn generate_mock_string(schema: &JsonValue) -> (v: JsonValue)
    ensures
        string_output(v.m(), schema.m()),
{
    proof {
        reveal_strlit("date-time");
        reveal_strlit("email");
        reveal_strlit("uuid");
        reveal_strlit("name");
        reveal_strlit("username");
        reveal_strlit("company");
        assert("date-time"@.len() == 9);
        assert("email"@.len() == 5);
        assert("uuid"@.len() == 4);
        assert("name"@.len() == 4);
        assert("username"@.len() == 8);
        assert("company"@.len() == 7);
        assert("name"@[0] == 'n');
        assert("uuid"@[0] == 'u');
        assert("date-time"@ != "uuid"@);
        assert("email"@ != "uuid"@);
        assert("name"@ != "uuid"@);
        assert("username"@ != "uuid"@);
        assert("company"@ != "uuid"@);
    }
    if let Some(f) = schema.get_field_str("format") {
        if str_eq(f.as_str(), "date-time") {
            JsonValue::Str(now_rfc3339())
        } else if str_eq(f.as_str(), "email") {
            JsonValue::Str(fake_email())
        } else if str_eq(f.as_str(), "uuid") {
            JsonValue::Str(new_uuid_string())
        } else if str_eq(f.as_str(), "name") {
            JsonValue::Str(fake_name())
        } else if str_eq(f.as_str(), "username") {
            JsonValue::Str(fake_username())
        } else if str_eq(f.as_str(), "company") {
            JsonValue::Str(fake_company())
        } else {
            JsonValue::Str(fake_sentence())
        }
    } else {
        if let Some(ev) = schema.get("enum") {
            if let JsonValue::Arr(evs) = ev {
                if evs.len() > 0 {
                    let idx = rand_usize_between(0, evs.len() - 1);
                    let picked = clone_value(&evs[idx]);
                    proof {
                        assert(arr_m(evs@)[idx as int] == evs@[idx as int].m());
                    }
                    return picked;
                }
            }
        }
        JsonValue::Str(fake_sentence())
    }
}

/// Synthesizes a number within the schema's bounds: a whole number for
/// `integer`, hundredths for `number`, defaults 0 and 100.
pub fn generate_mock_number(schema: &JsonValue, integer: bool) -> (v: JsonValue)
    requires
        integer ==> exists|k: int|
            num_bound(schema.m(), "minimum"@, 0) <= #[trigger] (k * 100) <= num_bound(
                schema.m(),
                "maximum"@,
                10000,
            ),
        !integer ==> num_bound(schema.m(), "minimum"@, 0) <= num_bound(
            schema.m(),
            "maximum"@,
            10000,
        ),
    ensures
        number_output(v.m(), schema.m(), integer),
{
    let lo: i64 = match schema.get_field_num("minimum") {
        Some(x) => x,
        None => 0,
    };
    let hi: i64 = match schema.get_field_num("maximum") {
        Some(x) => x,
        None => 10000,
    };
    if integer {
        let klo = ceil_div(lo, 100);
        let khi = floor_div(hi, 100);
        proof {
            lemma_multiple_in_range(lo as int, hi as int, 100, klo as int, khi as int);
        }
        let k = rand_i64_between(klo, khi);
        proof {
            assert(lo as int <= (k as int) * 100 <= hi as int) by (nonlinear_arith)
                requires
                    klo as int <= k as int <= khi as int,
                    (klo as int) * 100 >= lo as int,
                    (khi as int) * 100 <= hi as int,
            ;
        }
        JsonValue::Num(k * 100)
    } else {
        JsonValue::Num(rand_i64_between(lo, hi))
    }
}

/// Synthesizes an array: a random count within the schema's bounds,
/// defaults 1 and 5, each element from the `items` fragment; no `items`
/// yields an empty array.
pub fn generate_mock_array(
    schema: &JsonValue,
    field_config: Option<&MockFieldConfig>,
    field_name: Option<&str>,
    swagger: &SwaggerState,
    fuel: u32,
) -> (r: Result<JsonValue, GenFailure>)
    requires
        pats_wf(opt_pats(field_config)),
        count_bound(schema.m(), "minItems"@, 1) <= count_bound(schema.m(), "maxItems"@, 5),
        match jv_get(schema.m(), "items"@) {
            Some(item) => schema_wf(item, swagger.m(), fuel as nat),
            None => true,
        },
    ensures
        r matches Ok(v) ==> array_output(
            v.m(),
            schema.m(),
            opt_pats(field_config),
            opt_name(field_name),
            swagger.m(),
            fuel as nat,
        ),
        (match jv_get(schema.m(), "items"@) {
            Some(item) => gen_total(item, swagger.m(), fuel as nat),
            None => true,
        }) ==> r is Ok,
    decreases fuel, *schema, 1int,
{
    let lo: u64 = match schema.get_field_whole("minItems") {
        Some(x) => x,
        None => 1,
    };
    let hi: u64 = match schema.get_field_whole("maxItems") {
        Some(x) => x,
        None => 5,
    };
    let count = rand_u64_between(lo, hi);
    if let Some(itemv) = schema.get("items") {
        let ghost im = itemv.m();
        let mut out: Vec<JsonValue> = Vec::new();
        let mut i: u64 = 0;
        while i < count
            invariant
                pats_wf(opt_pats(field_config)),
                im == itemv.m(),
                decreases_to!(*schema => *itemv),
                jv_get(schema.m(), "items"@) == Some(im),
                count_bound(schema.m(), "minItems"@, 1) == lo as int,
                count_bound(schema.m(), "maxItems"@, 5) == hi as int,
                lo <= count <= hi,
                schema_wf(im, swagger.m(), fuel as nat),
                0 <= i <= count,
                out@.len() == i,
                gen_elems(
                    arr_m(out@),
                    im,
                    opt_pats(field_config),
                    opt_name(field_name),
                    swagger.m(),
                    fuel as nat,
                ),
            decreases count - i,
        {
            match generate_mock_value(itemv, field_config, field_name, swagger, fuel) {
                Ok(elem) => {
                    let ghost old_out = out@;
                    out.push(elem);
                    proof {
                        assert(arr_m(out@) =~= arr_m(old_out).push(elem.m()));
                        lemma_gen_elems_snoc(
                            arr_m(old_out),
                            elem.m(),
                            im,
                            opt_pats(field_config),
                            opt_name(field_name),
                            swagger.m(),
                            fuel as nat,
                        );
                    }
                },
                Err(e) => {
                    return Err(e);
                },
            }
            i = i + 1;
        }
        Ok(JsonValue::Arr(out))
    } else {
        Ok(JsonValue::Arr(Vec::new()))
    }
}

/// Synthesizes an object: every declared property when `required` lists
/// no names, only the required ones otherwise, each generated with its own
/// name as the override context.
pub fn generate_mock_object(
    schema: &JsonValue,
    field_config: Option<&MockFieldConfig>,
    swagger: &SwaggerState,
    fuel: u32,
) -> (r: Result<JsonValue, GenFailure>)
    requires
        pats_wf(opt_pats(field_config)),
        match jv_get(schema.m(), "properties"@) {
            Some(pv) => match pv {
                JsonV::Obj(props) => wf_props(
                    props,
                    required_strs(schema.m()),
                    swagger.m(),
                    fuel as nat,
                ),
                _ => true,
            },
            None => true,
        },
    ensures
        r matches Ok(v) ==> object_output(
            v.m(),
            schema.m(),
            opt_pats(field_config),
            swagger.m(),
            fuel as nat,
        ),
        (match jv_get(schema.m(), "properties"@) {
            Some(pv) => match pv {
                JsonV::Obj(props) => total_props(props, swagger.m(), fuel as nat),
                _ => true,
            },
            None => true,
        }) ==> r is Ok,
    decreases fuel, *schema, 1int,
{
    let propsv = match schema.get("properties") {
        Some(p) => p,
        None => {
            return Ok(JsonValue::Obj(Vec::new()));
        },
    };
    let props = match propsv {
        JsonValue::Obj(f) => f,
        _ => {
            return Ok(JsonValue::Obj(Vec::new()));
        },
    };
    let req = required_names(schema);
    proof {
        assert(obj_m(props@).subrange(0, props@.len() as int) =~= obj_m(props@));
    }
    let out = gen_props_from(propsv, 0, &req, field_config, swagger, fuel)?;
    Ok(JsonValue::Obj(out))
}

/// The string entries of the schema's `required` list, as owned names.
fn required_names(schema: &JsonValue) -> (req: Vec<String>)
    ensures
        str_views(req@) == required_strs(schema.m()),
{
    let mut req: Vec<String> = Vec::new();
    let reqv = match schema.get("required") {
        Some(rv) => rv,
        None => {
            proof {
                assert(str_views(req@) =~= required_strs(schema.m()));
            }
            return req;
        },
    };
    match reqv {
        JsonValue::Arr(items) => {
            let ghost rm = arr_m(items@);
            let n = items.len();
            let mut k: usize = 0;
            proof {
                assert(rm.subrange(0, n as int) =~= rm);
            }
            while k < n
                invariant
                    *reqv is Arr,
                    (*reqv)->Arr_0 == *items,
                    rm == arr_m(items@),
                    rm.len() == n,
                    n == items.len(),
                    0 <= k <= n,
                    req_strs_of(rm) == str_views(req@) + req_strs_of(
                        rm.subrange(k as int, n as int),
                    ),
                decreases n - k,
            {
                proof {
                    assert(rm.subrange(k as int, n as int)[0] == rm[k as int]);
                    assert(rm[k as int] == items@[k as int].m());
                    assert(rm.subrange(k as int, n as int).drop_first() =~= rm.subrange(
                        k as int + 1,
                        n as int,
                    ));
                }
                match &items[k] {
                    JsonValue::Str(s) => {
                        let ghost old_req = req@;
                        req.push(s.clone());
                        proof {
                            assert(str_views(req@) =~= str_views(old_req).push(s@));
                            assert(str_views(req@) + req_strs_of(
                                rm.subrange(k as int + 1, n as int),
                            ) =~= str_views(old_req) + req_strs_of(
                                rm.subrange(k as int, n as int),
                            ));
                        }
                    },
                    _ => {},
                }
                k = k + 1;
            }
            proof {
                assert(rm.subrange(n as int, n as int).len() == 0);
                assert(str_views(req@) =~= req_strs_of(rm));
            }
            req
        },
        _ => {
            proof {
                assert(str_views(req@) =~= required_strs(schema.m()));
            }
            req
        },
    }
}

/// Whether a list of names holds one with exactly these characters.
fn contains_name(names: &Vec<String>, s: &str) -> (r: bool)
    ensures
        r == str_views(names@).contains(s@),
{
    let n = names.len();
    let mut i: usize = 0;
    while i < n
        invariant
            n == names.len(),
            0 <= i <= n,
            forall|j: int| 0 <= j < i ==> str_views(names@)[j] != s@,
        decreases n - i,
    {
        proof {
            assert(str_views(names@)[i as int] == names@[i as int]@);
        }
        if str_eq(names[i].as_str(), s) {
            proof {
                assert(str_views(names@)[i as int] == s@);
            }
            return true;
        }
        i = i + 1;
    }
    proof {
        assert(forall|j: int| 0 <= j < str_views(names@).len() ==> str_views(names@)[j] != s@);
    }
    false
}

/// Generates the fields for the declared properties from position `k` on.
fn gen_props_from(
    propsv: &JsonValue,
    k: usize,
    req: &Vec<String>,
    field_config: Option<&MockFieldConfig>,
    swagger: &SwaggerState,
    fuel: u32,
) -> (r: Result<Vec<(String, JsonValue)>, GenFailure>)
    requires
        pats_wf(opt_pats(field_config)),
        *propsv is Obj,
        k <= (*propsv)->Obj_0@.len(),
        wf_props(
            obj_m((*propsv)->Obj_0@).subrange(k as int, (*propsv)->Obj_0@.len() as int),
            str_views(req@),
            swagger.m(),
            fuel as nat,
        ),
    ensures
        r matches Ok(out) ==> gen_props(
            obj_m(out@),
            obj_m((*propsv)->Obj_0@).subrange(k as int, (*propsv)->Obj_0@.len() as int),
            str_views(req@),
            opt_pats(field_config),
            swagger.m(),
            fuel as nat,
        ),
        total_props(
            obj_m((*propsv)->Obj_0@).subrange(k as int, (*propsv)->Obj_0@.len() as int),
            swagger.m(),
            fuel as nat,
        ) ==> r is Ok,
    decreases fuel, *propsv, (*propsv)->Obj_0@.len() - k,
{
    let props = match propsv {
        JsonValue::Obj(f) => f,
        _ => {
            return Ok(Vec::new());
        },
    };
    let n = props.len();
    if k >= n {
        let out: Vec<(String, JsonValue)> = Vec::new();
        proof {
            assert(obj_m(out@).len() == 0);
            assert(obj_m(props@).subrange(k as int, n as int).len() == 0);
        }
        return Ok(out);
    }
    let ghost pm = obj_m(props@);
    let ghost suffix = pm.subrange(k as int, n as int);
    proof {
        assert(suffix[0] == pm[k as int]);
        assert(pm[k as int] == (props@[k as int].0@, props@[k as int].1.m()));
        assert(suffix.drop_first() =~= pm.subrange(k as int + 1, n as int));
        assert(decreases_to!(*propsv => (*propsv)->Obj_0));
        assert(decreases_to!(*props => props@));
        assert(decreases_to!(props@ => props@[k as int]));
        assert(decreases_to!(props@[k as int] => props@[k as int].1));
    }
    let emit = req.len() == 0 || contains_name(req, props[k].0.as_str());
    proof {
        assert(str_views(req@).len() == req@.len());
    }
    if emit {
        match generate_mock_value(
            &props[k].1,
            field_config,
            Some(props[k].0.as_str()),
            swagger,
            fuel,
        ) {
            Ok(val) => {
                match gen_props_from(propsv, k + 1, req, field_config, swagger, fuel) {
                    Ok(rest) => {
                        let ghost old_rest = rest@;
                        let mut rest = rest;
                        let name = props[k].0.clone();
                        rest.insert(0, (name, val));
                        proof {
                            assert(obj_m(rest@).len() == old_rest.len() + 1);
                            assert(obj_m(rest@)[0] == (props@[k as int].0@, val.m()));
                            assert(obj_m(rest@).drop_first() =~= obj_m(old_rest));
                        }
                        Ok(rest)
                    },
                    Err(e) => Err(e),
                }
            },
            Err(e) => Err(e),
        }
    } else {
        gen_props_from(propsv, k + 1, req, field_config, swagger, fuel)
    }
}

} // verus!
