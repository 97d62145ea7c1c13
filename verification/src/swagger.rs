use vstd::prelude::*;

use crate::json::{clone_value, jv_get, obj_lookup, obj_m, JsonV, JsonValue};
use crate::text::{spec_starts_with, str_eq, str_starts_with};
use vstd::string::StrSliceExecFns;

verus! {

/// The component name a reference points at: what follows the literal
/// prefix `#/components/schemas/`, or nothing when the reference is formed
/// differently.
pub open spec fn ref_target(r: Seq<char>) -> Option<Seq<char>> {
    if spec_starts_with(r, "#/components/schemas/"@) {
        Some(r.subrange("#/components/schemas/"@.len() as int, r.len() as int))
    } else {
        None
    }
}

/// What a reference resolves to against a component table: the fragment
/// stored under the name the reference points at.
pub open spec fn resolve_spec(comps: Seq<(Seq<char>, JsonV)>, r: Seq<char>) -> Option<JsonV> {
    match ref_target(r) {
        Some(name) => obj_lookup(comps, name),
        None => None,
    }
}

/// The named schema fragments of the specification's component section,
/// shared read-only by the validator and the generator.
pub struct SwaggerState {
    pub components: Vec<(String, JsonValue)>,
}

impl SwaggerState {
    /// The model of the component table.
    pub open spec fn m(&self) -> Seq<(Seq<char>, JsonV)> {
        obj_m(self.components@)
    }

    /// Strips the literal prefix `#/components/schemas/` and looks the
    /// remaining name up; a missing prefix or an unknown name yields
    /// nothing, never an error.
    pub fn resolve_ref<'a>(&'a self, ref_path: &str) -> (r: Option<&'a JsonValue>)
        ensures
            match r {
                Some(x) => resolve_spec(self.m(), ref_path@) == Some(x.m()),
                None => resolve_spec(self.m(), ref_path@) is None,
            },
    {
        let prefix: &str = "#/components/schemas/";
        if !str_starts_with(ref_path, prefix) {
            return None;
        }
        let name: &str = ref_path.substring_char(prefix.unicode_len(), ref_path.unicode_len());
        let ghost comps = self.m();
        let n = self.components.len();
        let mut i: usize = 0;
        proof {
            broadcast use {crate::json::lemma_obj_m_len, crate::json::lemma_obj_m_index};

            assert(comps.subrange(0, n as int) =~= comps);
        }
        while i < n
            invariant
                n == self.components.len(),
                comps == self.m(),
                comps.len() == n,
                0 <= i <= n,
                ref_target(ref_path@) is Some,
                name@ == ref_target(ref_path@)->Some_0,
                obj_lookup(comps, name@) == obj_lookup(comps.subrange(i as int, n as int), name@),
            decreases n - i,
        {
            proof {
                broadcast use {crate::json::lemma_obj_m_len, crate::json::lemma_obj_m_index};

                assert(comps.subrange(i as int, n as int)[0] == comps[i as int]);
                assert(comps[i as int] == (
                    self.components@[i as int].0@,
                    self.components@[i as int].1.m(),
                ));
            }
            if str_eq(self.components[i].0.as_str(), name) {
                proof {
                    assert(obj_lookup(comps.subrange(i as int, n as int), name@) == Some(
                        comps[i as int].1,
                    ));
                }
                return Some(&self.components[i].1);
            }
            proof {
                assert(comps.subrange(i as int, n as int).drop_first() =~= comps.subrange(
                    i as int + 1,
                    n as int,
                ));
            }
            i = i + 1;
        }
        proof {
            assert(comps.subrange(n as int, n as int).len() == 0);
        }
        None
    }
}

/// Resolution strips exactly the fixed prefix: a reference formed of the
/// prefix and a name resolves to what the table stores under that name —
/// and to nothing when the table stores nothing there. A reference formed
/// differently resolves to nothing; the validator then constrains nothing
/// and the generator falls back to the fragment itself.
pub proof fn lemma_ref_resolution(comps: Seq<(Seq<char>, JsonV)>, name: Seq<char>)
    ensures
        resolve_spec(comps, "#/components/schemas/"@ + name) == obj_lookup(comps, name),
        forall|r: Seq<char>|
            !spec_starts_with(r, "#/components/schemas/"@) ==> resolve_spec(comps, r) is None,
{
    let p = "#/components/schemas/"@;
    let r = p + name;
    assert(r.subrange(0, p.len() as int) =~= p);
    assert(r.subrange(p.len() as int, r.len() as int) =~= name);
}

/// The component table the specification document carries under
/// `components` / `schemas`; anything differently shaped yields an empty
/// table.
pub open spec fn components_of(doc: JsonV) -> Seq<(Seq<char>, JsonV)> {
    match jv_get(doc, "components"@) {
        Some(c) => match jv_get(c, "schemas"@) {
            Some(JsonV::Obj(fields)) => fields,
            _ => Seq::empty(),
        },
        None => Seq::empty(),
    }
}

/// Builds the component registry from a parsed specification document.
pub fn build_components(doc: &JsonValue) -> (st: SwaggerState)
    ensures
        st.m() == components_of(doc.m()),
{
    let schemas = match doc.get("components") {
        Some(c) => match c.get("schemas") {
            Some(s) => s,
            None => {
                return SwaggerState { components: Vec::new() };
            },
        },
        None => {
            return SwaggerState { components: Vec::new() };
        },
    };
    match schemas {
        JsonValue::Obj(fields) => {
            let n = fields.len();
            let mut out: Vec<(String, JsonValue)> = Vec::new();
            let mut i: usize = 0;
            while i < n
                invariant
                    n == fields.len(),
                    0 <= i <= n,
                    out@.len() == i,
                    forall|k: int|
                        0 <= k < i ==> #[trigger] out@[k].0@ == fields@[k].0@ && out@[k].1.m()
                            == fields@[k].1.m(),
                decreases n - i,
            {
                let name = fields[i].0.clone();
                let val = clone_value(&fields[i].1);
                out.push((name, val));
                i = i + 1;
            }
            let st = SwaggerState { components: out };
            proof {
                broadcast use {crate::json::lemma_obj_m_len, crate::json::lemma_obj_m_index};

                assert(st.m() =~= obj_m(fields@));
            }
            st
        },
        _ => SwaggerState { components: Vec::new() },
    }
}

} // verus!
