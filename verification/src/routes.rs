use vstd::prelude::*;

use crate::json::{clone_value, jv_get, obj_m, JsonV, JsonValue};
use crate::outside::{to_uppercase, upper_of};
use crate::text::{segments, split_segments, str_eq};
use vstd::string::StrSliceExecFns;

verus! {

/// A template segment written as `{name}` matches any single concrete
/// segment.
pub open spec fn placeholder(seg: Seq<char>) -> bool {
    seg.len() > 0 && seg[0] == '{'
}

/// Whether a split template matches a split path: equal segment counts,
/// and at every position either a placeholder or byte-identical segments.
pub open spec fn segs_match(t: Seq<Seq<char>>, p: Seq<Seq<char>>) -> bool {
    t.len() == p.len() && forall|i: int|
        0 <= i < t.len() ==> placeholder(#[trigger] t[i]) || t[i] == p[i]
}

/// Whether a path template matches a concrete request path, after both are
/// split on `/` with empty segments discarded.
pub open spec fn path_matches(template: Seq<char>, path: Seq<char>) -> bool {
    segs_match(segments(template), segments(path))
}

/// Whether a template matches a request path: case-sensitive, one segment
/// to one segment, no wildcards beyond the single-segment placeholder.
pub fn validate_path_params(path: &str, req_path: &str) -> (r: bool)
    ensures
        r == path_matches(path@, req_path@),
{
    let ts = split_segments(path);
    let ps = split_segments(req_path);
    let n = ts.len();
    if n != ps.len() {
        return false;
    }
    let ghost tm = segments(path@);
    let ghost pm = segments(req_path@);
    let mut i: usize = 0;
    while i < n
        invariant
            n == ts.len(),
            n == ps.len(),
            tm == crate::text::str_views(ts@),
            pm == crate::text::str_views(ps@),
            tm == segments(path@),
            pm == segments(req_path@),
            tm.len() == n,
            pm.len() == n,
            0 <= i <= n,
            forall|k: int| 0 <= k < i ==> placeholder(#[trigger] tm[k]) || tm[k] == pm[k],
        decreases n - i,
    {
        proof {
            assert(tm[i as int] == ts@[i as int]@);
            assert(pm[i as int] == ps@[i as int]@);
        }
        let t = &ts[i];
        let is_ph = t.as_str().unicode_len() > 0 && t.as_str().get_char(0) == '{';
        if !is_ph {
            if !str_eq(t.as_str(), ps[i].as_str()) {
                proof {
                    assert(!placeholder(tm[i as int]) && tm[i as int] != pm[i as int]);
                    assert(!segs_match(tm, pm));
                }
                return false;
            }
        }
        i = i + 1;
    }
    proof {
        assert(segs_match(tm, pm));
    }
    true
}

/// For templates and paths with equal segment counts, a match holds
/// exactly when every non-placeholder segment of the template equals the
/// corresponding path segment; for unequal counts a match never holds.
pub proof fn lemma_route_matching(template: Seq<char>, path: Seq<char>)
    ensures
        segments(template).len() != segments(path).len() ==> !path_matches(template, path),
        segments(template).len() == segments(path).len() ==> (path_matches(template, path)
            <==> (forall|i: int|
            0 <= i < segments(template).len() && !placeholder(#[trigger] segments(template)[i])
                ==> segments(template)[i] == segments(path)[i])),
{
    let t = segments(template);
    let p = segments(path);
    if t.len() == p.len() {
        if forall|i: int|
            0 <= i < t.len() && !placeholder(#[trigger] t[i]) ==> t[i] == p[i] {
            assert forall|i: int| 0 <= i < t.len() implies placeholder(#[trigger] t[i]) || t[i]
                == p[i] by {}
        }
    }
}

/// A declared route: a path template and its method table, each method
/// name stored upper-case beside its operation fragment.
#[derive(Debug)]
pub struct Route {
    pub template: String,
    pub handlers: Vec<(String, JsonValue)>,
}

impl Route {
    /// The model of this route.
    pub open spec fn m(&self) -> (Seq<char>, Seq<(Seq<char>, JsonV)>) {
        (self.template@, obj_m(self.handlers@))
    }
}

/// The models of a route table.
pub open spec fn routes_m(rs: Seq<Route>) -> Seq<(Seq<char>, Seq<(Seq<char>, JsonV)>)> {
    rs.map_values(|r: Route| r.m())
}

/// The first declared route whose template matches the request path; the
/// table keeps declaration order, so the choice is deterministic.
pub fn find_matching_route<'a>(routes: &'a Vec<Route>, path: &str) -> (r: Option<&'a Route>)
    ensures
        match r {
            Some(rt) => exists|i: int|
                0 <= i < routes@.len() && routes@[i] == *rt && path_matches(
                    #[trigger] routes@[i].template@,
                    path@,
                ) && forall|j: int| 0 <= j < i ==> !path_matches(#[trigger] routes@[j].template@, path@),
            None => forall|j: int|
                0 <= j < routes@.len() ==> !path_matches(#[trigger] routes@[j].template@, path@),
        },
{
    let n = routes.len();
    let mut i: usize = 0;
    while i < n
        invariant
            n == routes@.len(),
            0 <= i <= n,
            forall|j: int| 0 <= j < i ==> !path_matches(#[trigger] routes@[j].template@, path@),
        decreases n - i,
    {
        if validate_path_params(routes[i].template.as_str(), path) {
            return Some(&routes[i]);
        }
        i = i + 1;
    }
    None
}

/// The path table the specification document carries under `paths`;
/// anything differently shaped yields an empty table.
pub open spec fn paths_of(doc: JsonV) -> Seq<(Seq<char>, JsonV)> {
    match jv_get(doc, "paths"@) {
        Some(JsonV::Obj(fields)) => fields,
        _ => Seq::empty(),
    }
}

/// A method table's model: each method name upper-cased beside its
/// operation fragment.
pub open spec fn methods_m(mm: Seq<(Seq<char>, JsonV)>) -> Seq<(Seq<char>, JsonV)> {
    mm.map_values(|p: (Seq<char>, JsonV)| (upper_of(p.0), p.1))
}

/// The route table a specification document describes, one route per
/// `paths` entry whose value is an object, in declaration order.
pub open spec fn build_routes(paths: Seq<(Seq<char>, JsonV)>) -> Seq<
    (Seq<char>, Seq<(Seq<char>, JsonV)>),
>
    decreases paths.len(),
{
    if paths.len() == 0 {
        Seq::empty()
    } else {
        let rest = build_routes(paths.drop_first());
        match paths[0].1 {
            JsonV::Obj(mm) => seq![(paths[0].0, methods_m(mm))] + rest,
            _ => rest,
        }
    }
}

/// Builds the route table from a parsed specification document, keeping
/// the document's declaration order. An entry whose template repeats an
/// earlier one stays in the table; matching takes the earlier one, so the
/// outcome is deterministic.
pub fn process_swagger_paths(doc: &JsonValue) -> (routes: Vec<Route>)
    ensures
        routes_m(routes@) == build_routes(paths_of(doc.m())),
{
    let mut routes: Vec<Route> = Vec::new();
    let pathsv = match doc.get("paths") {
        Some(p) => p,
        None => {
            proof {
                assert(routes_m(routes@) =~= build_routes(paths_of(doc.m())));
            }
            return routes;
        },
    };
    match pathsv {
        JsonValue::Obj(pfields) => {
            let ghost pm = obj_m(pfields@);
            let n = pfields.len();
            let mut k: usize = 0;
            proof {
                broadcast use {crate::json::lemma_obj_m_len, crate::json::lemma_obj_m_index};

                assert(pm.subrange(0, n as int) =~= pm);
            }
            while k < n
                invariant
                    *pathsv is Obj,
                    (*pathsv)->Obj_0 == *pfields,
                    pm == obj_m(pfields@),
                    pm.len() == n,
                    n == pfields.len(),
                    0 <= k <= n,
                    paths_of(doc.m()) == pm,
                    build_routes(pm) == routes_m(routes@) + build_routes(
                        pm.subrange(k as int, n as int),
                    ),
                decreases n - k,
            {
                proof {
                    broadcast use {crate::json::lemma_obj_m_len, crate::json::lemma_obj_m_index};

                    assert(pm.subrange(k as int, n as int)[0] == pm[k as int]);
                    assert(pm[k as int] == (pfields@[k as int].0@, pfields@[k as int].1.m()));
                    assert(pm.subrange(k as int, n as int).drop_first() =~= pm.subrange(
                        k as int + 1,
                        n as int,
                    ));
                }
                match &pfields[k].1 {
                    JsonValue::Obj(mfields) => {
                        let ghost mm = obj_m(mfields@);
                        let mcount = mfields.len();
                        let mut handlers: Vec<(String, JsonValue)> = Vec::new();
                        let mut j: usize = 0;
                        while j < mcount
                            invariant
                                pfields@[k as int].1 is Obj,
                                pfields@[k as int].1->Obj_0 == *mfields,
                                mm == obj_m(mfields@),
                                mm.len() == mcount,
                                mcount == mfields.len(),
                                0 <= j <= mcount,
                                handlers@.len() == j,
                                forall|x: int|
                                    0 <= x < j ==> (#[trigger] handlers@[x]).0@ == upper_of(
                                        mfields@[x].0@,
                                    ) && handlers@[x].1.m() == mfields@[x].1.m(),
                            decreases mcount - j,
                        {
                            let mname = to_uppercase(mfields[j].0.as_str());
                            let mval = clone_value(&mfields[j].1);
                            handlers.push((mname, mval));
                            proof {
                                assert(handlers@[j as int].0@ == upper_of(
                                    mfields@[j as int].0@,
                                ));
                                assert(handlers@[j as int].1.m() == mfields@[j as int].1.m());
                            }
                            j = j + 1;
                        }
                        let rt = Route { template: pfields[k].0.clone(), handlers };
                        proof {
                            broadcast use {
                                crate::json::lemma_obj_m_len,
                                crate::json::lemma_obj_m_index,
                            };

                            assert(obj_m(rt.handlers@) =~= methods_m(mm));
                        }
                        let ghost old_routes = routes@;
                        routes.push(rt);
                        proof {
                            assert(routes_m(routes@) =~= routes_m(old_routes).push(
                                (pm[k as int].0, methods_m(mm)),
                            ));
                            assert(routes_m(routes@) + build_routes(
                                pm.subrange(k as int + 1, n as int),
                            ) =~= routes_m(old_routes) + build_routes(
                                pm.subrange(k as int, n as int),
                            ));
                        }
                    },
                    _ => {},
                }
                k = k + 1;
            }
            proof {
                assert(pm.subrange(n as int, n as int).len() == 0);
                assert(build_routes(pm) =~= routes_m(routes@));
            }
            routes
        },
        _ => {
            proof {
                assert(routes_m(routes@) =~= build_routes(paths_of(doc.m())));
            }
            routes
        },
    }
}

} // verus!
