use vstd::prelude::*;

use crate::generate::{gen_elems, gen_output, gen_props, required_strs};
use crate::json::{get_str, get_whole, jv_get, lemma_jv_get_decreases, obj_lookup, JsonV};
use crate::swagger::resolve_spec;
use crate::validate::{
    check, check_array, check_boolean, check_elems, check_number, check_object, check_props,
    check_string, missing_from, required_of,
};

verus! {

/// The schemas whose generated values are sure to validate: no string
/// constraints — generated strings are free text — only string members in
/// an enumeration, distinct property names, every required name among the
/// declared properties, and arrays that declare `items` whenever a
/// minimum count demands elements.
pub open spec fn gen_safe(schema: JsonV, comps: Seq<(Seq<char>, JsonV)>, fuel: nat) -> bool
    decreases fuel, schema, 2int,
{
    match schema {
        JsonV::Obj(_) => {
            if get_str(schema, "$ref"@) is Some && resolve_spec(
                comps,
                get_str(schema, "$ref"@)->Some_0,
            ) is Some {
                fuel == 0 || gen_safe(
                    resolve_spec(comps, get_str(schema, "$ref"@)->Some_0)->Some_0,
                    comps,
                    (fuel - 1) as nat,
                )
            } else {
                let ty = get_str(schema, "type"@);
                if ty is None || ty->Some_0 == "object"@ {
                    match jv_get(schema, "properties"@) {
                        Some(pv) => match pv {
                            JsonV::Obj(props) => {
                                proof {
                                    lemma_jv_get_decreases(schema, "properties"@);
                                    assert(decreases_to!(pv => pv->Obj_0));
                                }
                                &&& (forall|i: int, j: int|
                                    0 <= i < j < props.len() ==> (#[trigger] props[i]).0 != (
                                    #[trigger] props[j]).0)
                                &&& (forall|k: int|
                                    0 <= k < required_strs(schema).len() ==> exists|i: int|
                                        0 <= i < props.len() && (#[trigger] props[i]).0 == (
                                        #[trigger] required_strs(schema)[k]))
                                &&& safe_props(props, required_strs(schema), comps, fuel)
                            },
                            _ => required_strs(schema).len() == 0,
                        },
                        None => required_strs(schema).len() == 0,
                    }
                } else if ty->Some_0 == "string"@ {
                    &&& get_whole(schema, "minLength"@) is None
                    &&& get_whole(schema, "maxLength"@) is None
                    &&& get_str(schema, "pattern"@) is None
                    &&& match jv_get(schema, "enum"@) {
                        Some(JsonV::Arr(evs)) => get_str(schema, "format"@) is None && evs.len()
                            > 0 ==> forall|i: int| 0 <= i < evs.len() ==> (#[trigger] evs[i]) is Str,
                        _ => true,
                    }
                } else if ty->Some_0 == "array"@ {
                    match jv_get(schema, "items"@) {
                        Some(item) => {
                            proof {
                                lemma_jv_get_decreases(schema, "items"@);
                            }
                            gen_safe(item, comps, fuel)
                        },
                        None => get_whole(schema, "minItems"@) is None || get_whole(
                            schema,
                            "minItems"@,
                        ) == Some(0int),
                    }
                } else {
                    true
                }
            }
        },
        _ => true,
    }
}

/// Whether every emitted property's fragment is safe.
pub open spec fn safe_props(
    props: Seq<(Seq<char>, JsonV)>,
    req: Seq<Seq<char>>,
    comps: Seq<(Seq<char>, JsonV)>,
    fuel: nat,
) -> bool
    decreases fuel, props, 0int,
{
    if props.len() == 0 {
        true
    } else {
        let emit = req.len() == 0 || req.contains(props[0].0);
        (emit ==> gen_safe(props[0].1, comps, fuel)) && safe_props(
            props.drop_first(),
            req,
            comps,
            fuel,
        )
    }
}

/// The six type keywords are pairwise distinct strings.
proof fn lemma_type_literals()
    ensures
        "object"@ != "string"@,
        "object"@ != "integer"@,
        "object"@ != "number"@,
        "object"@ != "boolean"@,
        "object"@ != "array"@,
        "string"@ != "integer"@,
        "string"@ != "number"@,
        "string"@ != "boolean"@,
        "string"@ != "array"@,
        "integer"@ != "number"@,
        "integer"@ != "boolean"@,
        "integer"@ != "array"@,
        "number"@ != "boolean"@,
        "number"@ != "array"@,
        "boolean"@ != "array"@,
{
    reveal_strlit("object");
    reveal_strlit("string");
    reveal_strlit("integer");
    reveal_strlit("number");
    reveal_strlit("boolean");
    reveal_strlit("array");
    assert("object"@.len() == 6);
    assert("string"@.len() == 6);
    assert("integer"@.len() == 7);
    assert("number"@.len() == 6);
    assert("boolean"@.len() == 7);
    assert("array"@.len() == 5);
    assert("object"@[0] == 'o');
    assert("string"@[0] == 's');
    assert("integer"@[0] == 'i');
    assert("number"@[0] == 'n');
    assert("boolean"@[0] == 'b');
    assert("array"@[0] == 'a');
}

/// A generated object holds no field for a name no declared property has.
proof fn lemma_gen_props_absent(
    out: Seq<(Seq<char>, JsonV)>,
    props: Seq<(Seq<char>, JsonV)>,
    req: Seq<Seq<char>>,
    pats: Option<Seq<(Seq<char>, crate::config::MockPattern)>>,
    comps: Seq<(Seq<char>, JsonV)>,
    fuel: nat,
    n: Seq<char>,
)
    requires
        gen_props(out, props, req, pats, comps, fuel),
        forall|i: int| 0 <= i < props.len() ==> (#[trigger] props[i]).0 != n,
    ensures
        obj_lookup(out, n) is None,
    decreases props.len(),
{
    if props.len() > 0 {
        let emit = req.len() == 0 || req.contains(props[0].0);
        if emit {
            lemma_gen_props_absent(out.drop_first(), props.drop_first(), req, pats, comps, fuel, n);
        } else {
            lemma_gen_props_absent(out, props.drop_first(), req, pats, comps, fuel, n);
        }
    }
}

/// A required name among the declared properties has a generated field.
proof fn lemma_gen_props_found(
    out: Seq<(Seq<char>, JsonV)>,
    props: Seq<(Seq<char>, JsonV)>,
    req: Seq<Seq<char>>,
    pats: Option<Seq<(Seq<char>, crate::config::MockPattern)>>,
    comps: Seq<(Seq<char>, JsonV)>,
    fuel: nat,
    n: Seq<char>,
)
    requires
        gen_props(out, props, req, pats, comps, fuel),
        req.contains(n),
        exists|i: int| 0 <= i < props.len() && (#[trigger] props[i]).0 == n,
    ensures
        obj_lookup(out, n) is Some,
    decreases props.len(),
{
    let emit = req.len() == 0 || req.contains(props[0].0);
    if props[0].0 == n {
        assert(emit);
        assert(out[0].0 == n);
    } else {
        let i = choose|i: int| 0 <= i < props.len() && (#[trigger] props[i]).0 == n;
        assert(props.drop_first()[i - 1] == props[i]);
        if emit {
            lemma_gen_props_found(out.drop_first(), props.drop_first(), req, pats, comps, fuel, n);
            assert(out[0].0 == props[0].0);
        } else {
            lemma_gen_props_found(out, props.drop_first(), req, pats, comps, fuel, n);
        }
    }
}

/// A string entry of the `required` list is one of its string names.
proof fn lemma_req_strs_member(items: Seq<JsonV>, i: int)
    requires
        0 <= i < items.len(),
        items[i] is Str,
    ensures
        crate::generate::req_strs_of(items).contains(items[i]->Str_0),
    decreases items.len(),
{
    if i == 0 {
        assert(crate::generate::req_strs_of(items)[0] == items[0]->Str_0);
    } else {
        lemma_req_strs_member(items.drop_first(), i - 1);
        assert(items.drop_first()[i - 1] == items[i]);
        let rest = crate::generate::req_strs_of(items.drop_first());
        let j = choose|j: int| 0 <= j < rest.len() && rest[j] == items[i]->Str_0;
        match items[0] {
            JsonV::Str(s) => {
                assert(crate::generate::req_strs_of(items)[j + 1] == rest[j]);
            },
            _ => {},
        }
    }
}

/// When every required string names a present field, nothing is missing.
proof fn lemma_missing_empty(items: Seq<JsonV>, vfields: Seq<(Seq<char>, JsonV)>)
    requires
        forall|i: int|
            0 <= i < items.len() && (#[trigger] items[i]) is Str ==> obj_lookup(
                vfields,
                items[i]->Str_0,
            ) is Some,
    ensures
        missing_from(items, vfields).len() == 0,
    decreases items.len(),
{
    if items.len() > 0 {
        assert forall|i: int|
            0 <= i < items.drop_first().len() && (#[trigger] items.drop_first()[i]) is Str implies obj_lookup(
            vfields,
            items.drop_first()[i]->Str_0,
        ) is Some by {
            assert(items.drop_first()[i] == items[i + 1]);
        }
        lemma_missing_empty(items.drop_first(), vfields);
    }
}

/// The round trip: a value freshly generated from a schema — with no
/// field overrides — validates against that same schema, whenever the
/// schema lies in the safe subset `gen_safe` describes.
pub proof fn lemma_round_trip(
    v: JsonV,
    schema: JsonV,
    comps: Seq<(Seq<char>, JsonV)>,
    name: Option<Seq<char>>,
    fuel: nat,
)
    requires
        gen_output(v, schema, None, name, comps, fuel),
        gen_safe(schema, comps, fuel),
    ensures
        check(v, schema, comps, fuel) is Ok,
    decreases fuel, schema, 2int,
{
    lemma_type_literals();
    match schema {
        JsonV::Obj(_) => {
            if get_str(schema, "$ref"@) is Some && resolve_spec(
                comps,
                get_str(schema, "$ref"@)->Some_0,
            ) is Some {
                let target = resolve_spec(comps, get_str(schema, "$ref"@)->Some_0)->Some_0;
                lemma_round_trip(v, target, comps, name, (fuel - 1) as nat);
            } else {
                let ty = get_str(schema, "type"@);
                if ty is None || ty->Some_0 == "object"@ {
                    assert(crate::generate::object_output(v, schema, None, comps, fuel));
                    match jv_get(schema, "properties"@) {
                        Some(pv) => match pv {
                            JsonV::Obj(props) => {
                                proof_object(v, schema, props, comps, name, fuel);
                            },
                            _ => {
                                lemma_missing_empty_trivial(v, schema, comps, fuel);
                            },
                        },
                        None => {
                            lemma_missing_empty_trivial(v, schema, comps, fuel);
                        },
                    }
                } else if ty->Some_0 == "string"@ {
                    assert(check_string(v, schema) is Ok);
                } else if ty->Some_0 == "array"@ {
                    assert(crate::generate::array_output(v, schema, None, name, comps, fuel));
                    match jv_get(schema, "items"@) {
                        Some(item) => {
                            lemma_jv_get_decreases(schema, "items"@);
                            let elems = v->Arr_0;
                            lemma_round_trip_elems(elems, item, comps, name, fuel);
                            assert(check_array(v, schema, comps, fuel) is Ok);
                        },
                        None => {
                            assert(v->Arr_0.len() == 0);
                            assert(check_array(v, schema, comps, fuel) is Ok);
                        },
                    }
                } else if ty->Some_0 == "integer"@ || ty->Some_0 == "number"@ {
                    assert(check_number(v, schema) is Ok);
                } else if ty->Some_0 == "boolean"@ {
                    assert(check_boolean(v) is Ok);
                } else {
                }
            }
        },
        _ => {},
    }
}

/// The object case when no properties are declared: the generated value
/// is an empty object, and the safe subset lets nothing be required.
proof fn lemma_missing_empty_trivial(
    v: JsonV,
    schema: JsonV,
    comps: Seq<(Seq<char>, JsonV)>,
    fuel: nat,
)
    requires
        v == JsonV::Obj(Seq::<(Seq<char>, JsonV)>::empty()),
        required_strs(schema).len() == 0,
        !(get_str(schema, "$ref"@) is Some && resolve_spec(
            comps,
            get_str(schema, "$ref"@)->Some_0,
        ) is Some),
        get_str(schema, "type"@) is None || get_str(schema, "type"@)->Some_0 == "object"@,
        match jv_get(schema, "properties"@) {
            Some(pv) => !(pv is Obj),
            None => true,
        },
    ensures
        check(v, schema, comps, fuel) is Ok,
{
    match jv_get(schema, "required"@) {
        Some(JsonV::Arr(items)) => {
            assert forall|i: int|
                0 <= i < items.len() && (#[trigger] items[i]) is Str implies obj_lookup(
                Seq::<(Seq<char>, JsonV)>::empty(),
                items[i]->Str_0,
            ) is Some by {
                lemma_req_strs_member(items, i);
                assert(required_strs(schema).contains(items[i]->Str_0));
            }
            lemma_missing_empty(items, Seq::<(Seq<char>, JsonV)>::empty());
        },
        _ => {},
    }
    assert(missing_from(required_of(schema), Seq::<(Seq<char>, JsonV)>::empty()).len() == 0);
    if get_str(schema, "type"@) is None {
        assert(check(v, schema, comps, fuel) is Ok);
    } else {
        assert(check_object(v, schema, comps, fuel) is Ok);
    }
}

/// The object case with declared properties.
proof fn proof_object(
    v: JsonV,
    schema: JsonV,
    props: Seq<(Seq<char>, JsonV)>,
    comps: Seq<(Seq<char>, JsonV)>,
    name: Option<Seq<char>>,
    fuel: nat,
)
    requires
        gen_output(v, schema, None, name, comps, fuel),
        gen_safe(schema, comps, fuel),
        !(get_str(schema, "$ref"@) is Some && resolve_spec(
            comps,
            get_str(schema, "$ref"@)->Some_0,
        ) is Some),
        get_str(schema, "type"@) is None || get_str(schema, "type"@)->Some_0 == "object"@,
        jv_get(schema, "properties"@) == Some(JsonV::Obj(props)),
    ensures
        check(v, schema, comps, fuel) is Ok,
    decreases fuel, schema, 1int,
{
    lemma_jv_get_decreases(schema, "properties"@);
    assert(decreases_to!(JsonV::Obj(props) => props));
    let req = required_strs(schema);
    assert(crate::generate::object_output(v, schema, None, comps, fuel));
    let out = v->Obj_0;
    assert(gen_props(out, props, req, None, comps, fuel));
    // every required string entry has a generated field
    match jv_get(schema, "required"@) {
        Some(JsonV::Arr(items)) => {
            assert forall|i: int|
                0 <= i < items.len() && (#[trigger] items[i]) is Str implies obj_lookup(
                out,
                items[i]->Str_0,
            ) is Some by {
                lemma_req_strs_member(items, i);
                let rn = items[i]->Str_0;
                assert(req.contains(rn));
                lemma_gen_props_found(out, props, req, None, comps, fuel, rn);
            }
            lemma_missing_empty(items, out);
        },
        _ => {},
    }
    assert(missing_from(required_of(schema), out).len() == 0);
    lemma_round_trip_props(out, out, props, req, comps, fuel);
    assert(check_props(out, props, comps, fuel) is Ok);
    assert(check_object(v, schema, comps, fuel) is Ok);
    if get_str(schema, "type"@) is None {
        assert(check(v, schema, comps, fuel) is Ok);
    }
}

/// Checking the declared properties of a generated object succeeds: each
/// emitted field validates by induction, and each dropped property has no
/// field to check.
proof fn lemma_round_trip_props(
    vfields: Seq<(Seq<char>, JsonV)>,
    out: Seq<(Seq<char>, JsonV)>,
    props: Seq<(Seq<char>, JsonV)>,
    req: Seq<Seq<char>>,
    comps: Seq<(Seq<char>, JsonV)>,
    fuel: nat,
)
    requires
        gen_props(out, props, req, None, comps, fuel),
        safe_props(props, req, comps, fuel),
        forall|i: int, j: int|
            0 <= i < j < props.len() ==> (#[trigger] props[i]).0 != (#[trigger] props[j]).0,
        forall|i: int|
            0 <= i < props.len() ==> obj_lookup(vfields, (#[trigger] props[i]).0) == obj_lookup(
                out,
                props[i].0,
            ),
    ensures
        check_props(vfields, props, comps, fuel) is Ok,
    decreases fuel, props, 0int,
{
    if props.len() > 0 {
        let p0 = props[0].0;
        let emit = req.len() == 0 || req.contains(p0);
        assert(forall|i: int|
            0 <= i < props.drop_first().len() ==> (#[trigger] props.drop_first()[i]) == props[i
                + 1]);
        if emit {
            let v0 = out[0].1;
            assert(obj_lookup(out, p0) == Some(v0));
            lemma_round_trip(v0, props[0].1, comps, Some(p0), fuel);
            assert forall|i: int|
                0 <= i < props.drop_first().len() implies obj_lookup(
                vfields,
                (#[trigger] props.drop_first()[i]).0,
            ) == obj_lookup(out.drop_first(), props.drop_first()[i].0) by {
                let n = props.drop_first()[i].0;
                assert(props[i + 1].0 == n);
                assert(n != p0);
                assert(obj_lookup(out, n) == obj_lookup(out.drop_first(), n));
            }
            lemma_round_trip_props(vfields, out.drop_first(), props.drop_first(), req, comps, fuel);
        } else {
            assert forall|i: int|
                0 <= i < props.drop_first().len() implies (#[trigger] props.drop_first()[i]).0
                != p0 by {
                assert(props.drop_first()[i] == props[i + 1]);
            }
            lemma_gen_props_absent(out, props.drop_first(), req, None, comps, fuel, p0);
            assert(obj_lookup(vfields, p0) is None);
            lemma_round_trip_props(vfields, out, props.drop_first(), req, comps, fuel);
        }
    }
}

/// Every element of a generated array validates against the item schema.
proof fn lemma_round_trip_elems(
    elems: Seq<JsonV>,
    item: JsonV,
    comps: Seq<(Seq<char>, JsonV)>,
    name: Option<Seq<char>>,
    fuel: nat,
)
    requires
        gen_elems(elems, item, None, name, comps, fuel),
        gen_safe(item, comps, fuel),
    ensures
        check_elems(elems, item, comps, fuel) is Ok,
    decreases fuel, item, elems.len() + 3,
{
    if elems.len() > 0 {
        lemma_round_trip(elems[0], item, comps, name, fuel);
        lemma_round_trip_elems(elems.drop_first(), item, comps, name, fuel);
    }
}

} // verus!
