//! The route table: pattern registration, path splitting, and resolution
//! of a method and path to the first matching route, binding its path
//! parameters.
//!
//! Resolution is first-match-wins in registration order: a parameter
//! segment matches anything, so a route registered earlier shadows a more
//! literal one registered later. The table is generic over the handler
//! payload it stores; the engine never inspects it.

use vstd::prelude::*;
use crate::meta::Method;
use crate::parse::{scan, strs_view, scan_char};
use crate::strmap::StrMap;
use crate::text::str_eq;

verus! {

/// The mathematical shape of a route segment.
pub ghost enum SegView {
    /// A literal segment, matched by equality.
    Lit(Seq<char>),
    /// A named parameter segment, matching any one segment.
    Par(Seq<char>),
}

/// One segment of a registered route pattern.
#[derive(Debug)]
pub enum RouteSegment {
    Static(String),
    Param(String),
}

impl View for RouteSegment {
    type V = SegView;

    open spec fn view(&self) -> SegView {
        match self {
            RouteSegment::Static(s) => SegView::Lit(s@),
            RouteSegment::Param(s) => SegView::Par(s@),
        }
    }
}

/// The segment views of a segment vector.
pub open spec fn segs_view(v: Seq<RouteSegment>) -> Seq<SegView> {
    Seq::new(v.len(), |i: int| v[i]@)
}

/// One registered route: its pattern and the handler payload it carries.
pub struct Route<H> {
    pub segments: Vec<RouteSegment>,
    pub handler: H,
}

/// Whether one pattern segment accepts one path segment.
pub open spec fn seg_matches(seg: SegView, part: Seq<char>) -> bool {
    match seg {
        SegView::Lit(s) => s == part,
        SegView::Par(_) => true,
    }
}

/// A request path matches a pattern exactly when the segment counts are
/// equal and every literal segment equals the path segment in its
/// position; parameter segments always accept.
pub open spec fn segs_match(segs: Seq<SegView>, parts: Seq<Seq<char>>) -> bool {
    segs.len() == parts.len() && (forall|i: int|
        0 <= i < segs.len() ==> seg_matches(segs[i], parts[i]))
}

/// The parameter bindings a match makes: each parameter segment binds the
/// path segment in its position to its name, left to right, so a later
/// parameter with the same name wins.
pub open spec fn bind_params(segs: Seq<SegView>, parts: Seq<Seq<char>>) -> Map<
    Seq<char>,
    Seq<char>,
>
    decreases segs.len(),
{
    if segs.len() == 0 || parts.len() == 0 {
        Map::empty()
    } else {
        let m = bind_params(segs.drop_last(), parts.drop_last());
        match segs.last() {
            SegView::Par(name) => m.insert(name, parts.last()),
            SegView::Lit(_) => m,
        }
    }
}

/// The characters of a path once every leading slash is removed.
pub open spec fn skip_slashes(p: Seq<char>) -> Seq<char>
    decreases p.len(),
{
    if p.len() > 0 && p[0] == '/' {
        skip_slashes(p.drop_first())
    } else {
        p
    }
}

/// A sequence split on `/`; an empty sequence yields one empty segment.
pub open spec fn spec_split_slash(s: Seq<char>) -> Seq<Seq<char>>
    decreases s.len(),
{
    let a = scan(s, 0, |x: char| x == '/');
    if 0 <= a && a < s.len() {
        seq![s.take(a)] + spec_split_slash(s.skip(a + 1))
    } else {
        seq![s]
    }
}

/// The segments of a request path: leading slashes dropped, the rest
/// split on `/`.
pub open spec fn spec_path_parts(p: Seq<char>) -> Seq<Seq<char>> {
    spec_split_slash(skip_slashes(p))
}

proof fn lemma_skip_slashes(p: Seq<char>, i: int)
    requires
        0 <= i <= p.len(),
        forall|j: int| 0 <= j < i ==> p[j] == '/',
        i < p.len() ==> p[i] != '/',
    ensures
        skip_slashes(p) == p.skip(i),
    decreases i,
{
    if i == 0 {
        assert(p.skip(0) =~= p);
    } else {
        assert(p[0] == '/');
        lemma_skip_slashes(p.drop_first(), i - 1);
        assert(p.drop_first().skip(i - 1) =~= p.skip(i));
    }
}

/// Splits on `/`.
fn split_slash(s: &str) -> (r: Vec<String>)
    ensures
        strs_view(r@) == spec_split_slash(s@),
        r@.len() >= 1,
    decreases s@.len(),
{
    let n = s.unicode_len();
    let a = scan_char(s, 0, '/');
    if a >= n {
        let mut v: Vec<String> = Vec::new();
        v.push(s.to_owned());
        assert(strs_view(v@) =~= seq![s@]);
        v
    } else {
        let first = s.substring_char(0, a).to_owned();
        assert(first@ =~= s@.take(a as int));
        let rest = s.substring_char(a + 1, n);
        assert(rest@ =~= s@.skip(a + 1));
        let mut v = split_slash(rest);
        v.insert(0, first);
        assert(strs_view(v@) =~= seq![s@.take(a as int)] + spec_split_slash(s@.skip(a + 1)));
        v
    }
}

/// Splits a request path into its segments.
#[verifier::loop_isolation(false)]
pub fn split_path(p: &str) -> (r: Vec<String>)
    ensures
        strs_view(r@) == spec_path_parts(p@),
        r@.len() >= 1,
{
    let n = p.unicode_len();
    let mut i: usize = 0;
    while i < n && p.get_char(i) == '/'
        invariant
            0 <= i <= n,
            forall|j: int| 0 <= j < i ==> p@[j] == '/',
        decreases n - i,
    {
        i += 1;
    }
    proof {
        lemma_skip_slashes(p@, i as int);
    }
    let rest = p.substring_char(i, n);
    assert(rest@ =~= p@.skip(i as int));
    split_slash(rest)
}

/// What one pattern piece registers as: `{name}` a parameter, anything
/// else a literal.
pub open spec fn spec_segment(part: Seq<char>) -> SegView {
    if part.len() >= 2 && part[0] == '{' && part.last() == '}' {
        SegView::Par(part.subrange(1, part.len() - 1))
    } else {
        SegView::Lit(part)
    }
}

/// Decomposes a route pattern into segments: leading slashes dropped,
/// split on `/`, and each `{name}` piece made a parameter.
#[verifier::loop_isolation(false)]
pub fn parse_pattern(path: &str) -> (r: Vec<RouteSegment>)
    ensures
        r@.len() == spec_path_parts(path@).len(),
        forall|i: int| 0 <= i < r@.len() ==> r@[i]@ == spec_segment(spec_path_parts(path@)[i]),
{
    let parts = split_path(path);
    let n = parts.len();
    let mut segs: Vec<RouteSegment> = Vec::new();
    let mut i: usize = 0;
    while i < n
        invariant
            0 <= i <= n,
            segs@.len() == i,
            forall|j: int| 0 <= j < i ==> segs@[j]@ == spec_segment(spec_path_parts(path@)[j]),
        decreases n - i,
    {
        let part: &str = parts[i].as_str();
        let pl = part.unicode_len();
        let seg: RouteSegment = if pl >= 2 && part.get_char(0) == '{' && part.get_char(pl - 1)
            == '}' {
            let name = part.substring_char(1, pl - 1).to_owned();
            assert(name@ =~= part@.subrange(1, part@.len() - 1));
            RouteSegment::Param(name)
        } else {
            RouteSegment::Static(part.to_owned())
        };
        assert(seg@ == spec_segment(strs_view(parts@)[i as int]));
        segs.push(seg);
        i += 1;
    }
    segs
}

/// Whether a table entry accepts a request's method and path segments.
pub open spec fn entry_matches<H>(e: (Method, Route<H>), m: Method, parts: Seq<Seq<char>>) -> bool {
    e.0 == m && segs_match(segs_view(e.1.segments@), parts)
}

/// The index of the first table entry that accepts the method and path
/// segments, or -1 when none does: first-match-wins.
pub open spec fn spec_resolve<H>(
    rs: Seq<(Method, Route<H>)>,
    m: Method,
    parts: Seq<Seq<char>>,
) -> int
    decreases rs.len(),
{
    if rs.len() == 0 {
        -1
    } else if entry_matches(rs[0], m, parts) {
        0
    } else {
        let r = spec_resolve(rs.drop_first(), m, parts);
        if r < 0 {
            -1
        } else {
            r + 1
        }
    }
}

pub proof fn lemma_spec_resolve<H>(rs: Seq<(Method, Route<H>)>, m: Method, parts: Seq<Seq<char>>)
    ensures
        ({
            let r = spec_resolve(rs, m, parts);
            &&& -1 <= r < rs.len()
            &&& r >= 0 ==> entry_matches(rs[r], m, parts) && (forall|j: int|
                0 <= j < r ==> !entry_matches(rs[j], m, parts))
            &&& r < 0 ==> forall|j: int| 0 <= j < rs.len() ==> !entry_matches(rs[j], m, parts)
        }),
    decreases rs.len(),
{
    if rs.len() > 0 && !entry_matches(rs[0], m, parts) {
        lemma_spec_resolve(rs.drop_first(), m, parts);
        let r = spec_resolve(rs, m, parts);
        if r >= 0 {
            assert forall|j: int| 0 <= j < r implies !entry_matches(rs[j], m, parts) by {
                if j > 0 {
                    assert(rs[j] == rs.drop_first()[j - 1]);
                }
            }
        } else {
            assert forall|j: int| 0 <= j < rs.len() implies !entry_matches(rs[j], m, parts) by {
                if j > 0 {
                    assert(rs[j] == rs.drop_first()[j - 1]);
                }
            }
        }
    }
}

/// Matches a pattern against path segments, binding parameters; fails at
/// the first literal mismatch or on a segment-count mismatch.
#[verifier::loop_isolation(false)]
pub fn match_segments(segs: &Vec<RouteSegment>, parts: &Vec<String>) -> (r: Option<StrMap>)
    ensures
        match r {
            Some(p) => segs_match(segs_view(segs@), strs_view(parts@)) && p.as_map()
                == bind_params(segs_view(segs@), strs_view(parts@)),
            None => !segs_match(segs_view(segs@), strs_view(parts@)),
        },
{
    let n = segs.len();
    if n != parts.len() {
        return None;
    }
    let ghost sv = segs_view(segs@);
    let ghost pv = strs_view(parts@);
    let mut params = StrMap::new();
    let mut i: usize = 0;
    proof {
        assert(bind_params(sv.take(0), pv.take(0)) =~= Map::<Seq<char>, Seq<char>>::empty());
    }
    while i < n
        invariant
            0 <= i <= n,
            forall|j: int| 0 <= j < i ==> seg_matches(sv[j], pv[j]),
            params.as_map() == bind_params(sv.take(i as int), pv.take(i as int)),
        decreases n - i,
    {
        proof {
            assert(sv.take(i + 1).drop_last() =~= sv.take(i as int));
            assert(pv.take(i + 1).drop_last() =~= pv.take(i as int));
            assert(sv.take(i + 1).last() == sv[i as int]);
            assert(pv.take(i + 1).last() == pv[i as int]);
        }
        match &segs[i] {
            RouteSegment::Static(s) => {
                if !str_eq(s.as_str(), parts[i].as_str()) {
                    assert(!seg_matches(sv[i as int], pv[i as int]));
                    return None;
                }
            },
            RouteSegment::Param(name) => {
                params.insert(name.clone(), parts[i].clone());
            },
        }
        i += 1;
    }
    proof {
        assert(sv.take(n as int) =~= sv);
        assert(pv.take(n as int) =~= pv);
    }
    Some(params)
}

/// The table of registered routes, in registration order.
pub struct RouteTable<H> {
    pub routes: Vec<(Method, Route<H>)>,
}

impl<H> RouteTable<H> {
    /// An empty table.
    pub fn new() -> (r: RouteTable<H>)
        ensures
            r.routes@.len() == 0,
    {
        RouteTable { routes: Vec::new() }
    }

    /// The number of registered routes.
    pub fn len(&self) -> (r: usize)
        ensures
            r == self.routes@.len(),
    {
        self.routes.len()
    }

    /// Registers a route for a method under a pattern. Routes registered
    /// earlier win over later ones wherever both match.
    pub fn add_route(&mut self, method: Method, path: &str, handler: H)
        ensures
            final(self).routes@.len() == old(self).routes@.len() + 1,
            forall|j: int|
                0 <= j < old(self).routes@.len() ==> final(self).routes@[j] == old(
                    self,
                ).routes@[j],
            final(self).routes@.last().0 == method,
            ({
                let segs = final(self).routes@.last().1.segments@;
                &&& segs.len() == spec_path_parts(path@).len()
                &&& forall|i: int|
                    0 <= i < segs.len() ==> segs[i]@ == spec_segment(spec_path_parts(path@)[i])
            }),
    {
        let segments = parse_pattern(path);
        self.routes.push((method, Route { segments, handler }));
    }

    /// Resolves a method and split path to the first matching route, in
    /// registration order, with its parameter bindings; yields nothing
    /// exactly when no registered route matches.
    #[verifier::loop_isolation(false)]
    pub fn resolve(&self, method: Method, parts: &Vec<String>) -> (r: Option<(usize, StrMap)>)
        ensures
            match r {
                Some(p) => {
                    &&& p.0 < self.routes@.len()
                    &&& entry_matches(self.routes@[p.0 as int], method, strs_view(parts@))
                    &&& forall|j: int|
                        0 <= j < p.0 ==> !entry_matches(
                            self.routes@[j],
                            method,
                            strs_view(parts@),
                        )
                    &&& p.1.as_map() == bind_params(
                        segs_view(self.routes@[p.0 as int].1.segments@),
                        strs_view(parts@),
                    )
                },
                None => forall|j: int|
                    0 <= j < self.routes@.len() ==> !entry_matches(
                        self.routes@[j],
                        method,
                        strs_view(parts@),
                    ),
            },
    {
        let n = self.routes.len();
        let mut i: usize = 0;
        while i < n
            invariant
                0 <= i <= n,
                forall|j: int|
                    0 <= j < i ==> !entry_matches(self.routes@[j], method, strs_view(parts@)),
            decreases n - i,
        {
            let entry = &self.routes[i];
            if entry.0 == method {
                match match_segments(&entry.1.segments, parts) {
                    Some(params) => {
                        return Some((i, params));
                    },
                    None => {
                        assert(!entry_matches(self.routes@[i as int], method, strs_view(parts@)));
                    },
                }
            } else {
                assert(!entry_matches(self.routes@[i as int], method, strs_view(parts@)));
            }
            i += 1;
        }
        None
    }

    /// The handler payload of the route at an index.
    pub fn handler_at(&self, i: usize) -> (r: &H)
        requires
            i < self.routes@.len(),
        ensures
            r == &self.routes@[i as int].1.handler,
    {
        &self.routes[i].1.handler
    }
}

} // verus!
