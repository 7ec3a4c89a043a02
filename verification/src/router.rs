use vstd::prelude::*;

verus! {

/// The HTTP methods the dispatch table distinguishes. Method comparison in
/// dispatch is an exact match.
#[derive(Clone, Copy, Debug, PartialEq, Eq, Structural)]
pub enum Method {
    Get,
    Post,
}

/// A path split at every `/`, keeping empty segments, so that `"/users"`
/// becomes `["", "users"]` and `"/"` becomes `["", ""]`. Patterns and request
/// paths are split the same way, so their segments align one for one.
pub open spec fn split_path_spec(s: Seq<char>) -> Seq<Seq<char>>
    decreases s.len(),
{
    if s.len() == 0 {
        seq![Seq::<char>::empty()]
    } else if s[0] == '/' {
        seq![Seq::<char>::empty()] + split_path_spec(s.drop_first())
    } else {
        let rest = split_path_spec(s.drop_first());
        seq![seq![s[0]] + rest[0]] + rest.drop_first()
    }
}

pub proof fn lemma_split_path_len(s: Seq<char>)
    ensures
        split_path_spec(s).len() >= 1,
    decreases s.len(),
{
    if s.len() > 0 {
        lemma_split_path_len(s.drop_first());
    }
}

/// A string without `/` is one single segment.
pub proof fn lemma_split_no_slash(s: Seq<char>)
    requires
        forall|i: int| 0 <= i < s.len() ==> s[i] != '/',
    ensures
        split_path_spec(s) == seq![s],
    decreases s.len(),
{
    if s.len() == 0 {
        assert(split_path_spec(s) =~~= seq![s]);
    } else {
        let t = s.drop_first();
        assert forall|i: int| 0 <= i < t.len() implies t[i] != '/' by {
            assert(t[i] == s[i + 1]);
        }
        lemma_split_no_slash(t);
        assert(seq![s[0]] + t =~= s);
        assert(split_path_spec(s) =~~= seq![s]);
    }
}

/// Appending `/` and then a slash-free part appends exactly one segment to
/// the split.
pub proof fn lemma_split_append_part(a: Seq<char>, b: Seq<char>)
    requires
        forall|i: int| 0 <= i < b.len() ==> b[i] != '/',
    ensures
        split_path_spec(a + seq!['/'] + b) == split_path_spec(a).push(b),
    decreases a.len(),
{
    let s = a + seq!['/'] + b;
    if a.len() == 0 {
        assert(s[0] == '/');
        assert(s.drop_first() =~= b);
        lemma_split_no_slash(b);
        assert(split_path_spec(s) =~~= split_path_spec(a).push(b));
    } else {
        let t = a.drop_first();
        assert(s[0] == a[0]);
        assert(s.drop_first() =~= t + seq!['/'] + b);
        lemma_split_append_part(t, b);
        lemma_split_path_len(t);
        let r = split_path_spec(t + seq!['/'] + b);
        let rt = split_path_spec(t);
        assert(r == rt.push(b));
        if a[0] == '/' {
            assert(split_path_spec(s) =~~= split_path_spec(a).push(b));
        } else {
            assert(r[0] == rt[0]);
            assert(r.drop_first() =~= rt.drop_first().push(b));
            assert(split_path_spec(s) =~~= split_path_spec(a).push(b));
        }
    }
}

/// Splits `s[from..]` at every `/`, following `split_path_spec` step by step.
fn split_path_from(s: &str, from: usize, len: usize) -> (r: Vec<String>)
    requires
        from <= len,
        len == s@.len(),
    ensures
        r.deep_view() == split_path_spec(s@.skip(from as int)),
        r.len() >= 1,
    decreases len - from,
{
    let ghost tail = s@.skip(from as int);
    if from == len {
        assert(tail.len() == 0);
        let r: Vec<String> = vec![String::new()];
        assert(r.deep_view() =~~= split_path_spec(tail));
        r
    } else {
        let c = s.get_char(from);
        assert(tail[0] == c);
        assert(tail.drop_first() =~= s@.skip(from as int + 1));
        let mut rest = split_path_from(s, from + 1, len);
        if c == '/' {
            rest.insert(0, String::new());
            assert(rest.deep_view() =~~= split_path_spec(tail));
            rest
        } else {
            let mut head = String::new();
            push_char(&mut head, c);
            head.append(rest[0].as_str());
            rest.set(0, head);
            assert(rest.deep_view() =~~= split_path_spec(tail));
            rest
        }
    }
}

/// Relies on `String::push` of std: appends the one character to the end of
/// the string.
#[verifier::external_body]
fn push_char(s: &mut String, c: char)
    ensures
        final(s)@ == old(s)@ + seq![c],
{
    s.push(c)
}

/// Splits a path (or a pattern) into its `/`-separated segments.
pub fn split_path(s: &str) -> (r: Vec<String>)
    ensures
        r.deep_view() == split_path_spec(s@),
        r.len() >= 1,
{
    assert(s@.skip(0) =~= s@);
    split_path_from(s, 0, s.unicode_len())
}

/// One segment of a route pattern: a literal that must match exactly, a
/// named placeholder that binds one non-empty path segment, or a named
/// catch-all that binds every remaining segment.
#[derive(Debug)]
pub enum PatSeg {
    Literal(String),
    Param(String),
    CatchAll(String),
}

/// The mathematical shape of a pattern segment.
#[verifier::ext_equal]
pub enum PatSegV {
    Literal(Seq<char>),
    Param(Seq<char>),
    CatchAll(Seq<char>),
}

impl View for PatSeg {
    type V = PatSegV;

    open spec fn view(&self) -> PatSegV {
        match self {
            PatSeg::Literal(s) => PatSegV::Literal(s@),
            PatSeg::Param(s) => PatSegV::Param(s@),
            PatSeg::CatchAll(s) => PatSegV::CatchAll(s@),
        }
    }
}

/// How one pattern segment is read: a leading `:` names a placeholder, a
/// leading `*` names a catch-all, anything else is a literal.
pub open spec fn parse_seg_spec(s: Seq<char>) -> PatSegV {
    if s.len() > 0 && s[0] == ':' {
        PatSegV::Param(s.drop_first())
    } else if s.len() > 0 && s[0] == '*' {
        PatSegV::CatchAll(s.drop_first())
    } else {
        PatSegV::Literal(s)
    }
}

pub open spec fn parse_pattern_spec(s: Seq<char>) -> Seq<PatSegV> {
    split_path_spec(s).map_values(|t: Seq<char>| parse_seg_spec(t))
}

/// A pattern is well formed when a catch-all, if present, is its last segment.
pub open spec fn segs_wf(pat: Seq<PatSegV>) -> bool {
    forall|i: int| 0 <= i < pat.len() - 1 ==> !(pat[i] is CatchAll)
}

/// Whether a pattern string is accepted by `Router::register`.
pub open spec fn pattern_ok(s: Seq<char>) -> bool {
    segs_wf(parse_pattern_spec(s))
}

/// A parsed route pattern.
#[derive(Debug)]
pub struct Pattern {
    segs: Vec<PatSeg>,
}

impl View for Pattern {
    type V = Seq<PatSegV>;

    closed spec fn view(&self) -> Seq<PatSegV> {
        self.segs.deep_view()
    }
}

impl DeepView for PatSeg {
    type V = PatSegV;

    open spec fn deep_view(&self) -> PatSegV {
        self.view()
    }
}

fn parse_seg(s: String) -> (r: PatSeg)
    ensures
        r@ == parse_seg_spec(s@),
{
    let n = s.as_str().unicode_len();
    if n > 0 {
        let c = s.as_str().get_char(0);
        if c == ':' || c == '*' {
            let rest = s.as_str().substring_char(1, n);
            let name = String::from_str(rest);
            assert(name@ =~= s@.drop_first());
            if c == ':' {
                return PatSeg::Param(name);
            }
            return PatSeg::CatchAll(name);
        }
    }
    PatSeg::Literal(s)
}

impl Pattern {
    /// Parses a pattern string; rejects it when a catch-all segment is not
    /// the last one.
    pub fn parse(pattern: &str) -> (r: Option<Pattern>)
        ensures
            r is Some <==> pattern_ok(pattern@),
            r matches Some(p) ==> p@ == parse_pattern_spec(pattern@),
    {
        let raw = split_path(pattern);
        let n = raw.len();
        let mut segs: Vec<PatSeg> = Vec::new();
        let mut idx: usize = 0;
        while idx < n
            invariant
                n == raw.len(),
                idx <= n,
                segs.deep_view() =~= parse_pattern_spec(pattern@).take(idx as int),
                raw.deep_view() == split_path_spec(pattern@),
            decreases n - idx,
        {
            let seg = parse_seg(raw[idx].clone());
            assert(raw.deep_view()[idx as int] == raw@[idx as int]@);
            assert(seg@ == parse_seg_spec(split_path_spec(pattern@)[idx as int]));
            let ghost prev = segs.deep_view();
            proof {
                let pre = parse_pattern_spec(pattern@);
                assert(pre.len() == n);
                assert(prev.len() == idx);
            }
            segs.push(seg);
            proof {
                let pre = parse_pattern_spec(pattern@);
                assert(segs.deep_view().len() == idx + 1);
                assert(pre[idx as int] == parse_seg_spec(split_path_spec(pattern@)[idx as int]));
                assert(segs.deep_view()[idx as int] == segs@[idx as int]@);
                assert forall|j: int| 0 <= j < idx implies segs.deep_view()[j] == pre.take(
                    idx as int + 1,
                )[j] by {
                    assert(segs.deep_view()[j] == prev[j]);
                    assert(prev[j] == pre.take(idx as int)[j]);
                }
                assert(segs.deep_view() =~= pre.take(idx as int + 1));
            }
            idx = idx + 1;
        }
        assert(segs.deep_view() =~= parse_pattern_spec(pattern@));
        // a catch-all anywhere but last makes the pattern invalid
        let last = n - 1;
        let mut i: usize = 0;
        while i < last
            invariant
                n == segs.len(),
                last == n - 1,
                i <= last,
                segs.deep_view() == parse_pattern_spec(pattern@),
                forall|j: int| 0 <= j < i ==> !(#[trigger] segs.deep_view()[j] is CatchAll),
            decreases last - i,
        {
            if matches!(&segs[i], PatSeg::CatchAll(_)) {
                proof {
                    assert(segs.deep_view()[i as int] == segs[i as int]@);
                    assert(parse_pattern_spec(pattern@)[i as int] is CatchAll);
                    assert(!segs_wf(parse_pattern_spec(pattern@)));
                }
                return None;
            }
            i = i + 1;
        }
        assert(segs_wf(segs.deep_view()));
        Some(Pattern { segs })
    }
}

/// Whether one non-catch-all pattern segment accepts one path segment: a
/// literal must be equal, a placeholder takes any non-empty segment.
pub open spec fn seg_matches(p: PatSegV, s: Seq<char>) -> bool {
    match p {
        PatSegV::Literal(l) => l == s,
        PatSegV::Param(_) => s.len() > 0,
        PatSegV::CatchAll(_) => true,
    }
}

/// Whether a pattern accepts a split path. Segments are consumed one for
/// one; a catch-all accepts every remaining segment but only in last
/// position; the path must be fully consumed.
pub open spec fn pattern_matches(pat: Seq<PatSegV>, segs: Seq<Seq<char>>) -> bool
    decreases pat.len(),
{
    if pat.len() == 0 {
        segs.len() == 0
    } else if pat[0] is CatchAll {
        pat.len() == 1
    } else if segs.len() == 0 {
        false
    } else {
        seg_matches(pat[0], segs[0]) && pattern_matches(pat.drop_first(), segs.drop_first())
    }
}

/// The remaining path segments glued back together with `/`, as a catch-all
/// binds them.
pub open spec fn join_segs(segs: Seq<Seq<char>>) -> Seq<char>
    decreases segs.len(),
{
    if segs.len() == 0 {
        Seq::empty()
    } else if segs.len() == 1 {
        segs[0]
    } else {
        segs[0] + seq!['/'] + join_segs(segs.drop_first())
    }
}

/// The parameters a matching pattern extracts, in pattern order: one pair
/// per placeholder, and one pair for a trailing catch-all.
pub open spec fn bindings_spec(pat: Seq<PatSegV>, segs: Seq<Seq<char>>) -> Seq<
    (Seq<char>, Seq<char>),
>
    decreases pat.len(),
{
    if pat.len() == 0 {
        Seq::empty()
    } else {
        match pat[0] {
            PatSegV::CatchAll(name) => seq![(name, join_segs(segs))],
            PatSegV::Param(name) => {
                if segs.len() == 0 {
                    Seq::empty()
                } else {
                    seq![(name, segs[0])] + bindings_spec(pat.drop_first(), segs.drop_first())
                }
            },
            PatSegV::Literal(_) => {
                if segs.len() == 0 {
                    Seq::empty()
                } else {
                    bindings_spec(pat.drop_first(), segs.drop_first())
                }
            },
        }
    }
}

/// The view of an extracted parameter list.
pub open spec fn pairs_view(v: Seq<(String, String)>) -> Seq<(Seq<char>, Seq<char>)> {
    v.map_values(|p: (String, String)| (p.0@, p.1@))
}

/// Glues the segments from `from` on back together with `/` between them.
fn join_from(segs: &Vec<String>, from: usize) -> (r: String)
    requires
        from <= segs.len(),
    ensures
        r@ == join_segs(segs.deep_view().skip(from as int)),
    decreases segs.len() - from,
{
    let ghost tail = segs.deep_view().skip(from as int);
    if from == segs.len() {
        assert(tail.len() == 0);
        String::new()
    } else if from + 1 == segs.len() {
        assert(tail.len() == 1);
        let r = segs[from].clone();
        assert(r@ == tail[0]);
        r
    } else {
        let mut r = segs[from].clone();
        let rest = join_from(segs, from + 1);
        r.append("/");
        r.append(rest.as_str());
        proof {
            reveal_strlit("/");
            assert("/"@ =~= seq!['/']);
            assert(tail.drop_first() =~= segs.deep_view().skip(from as int + 1));
            assert(r@ =~= join_segs(tail));
        }
        r
    }
}

impl Pattern {
    /// Matches this pattern against a split path; on success returns the
    /// extracted parameters in pattern order.
    pub fn match_segs(&self, segs: &Vec<String>) -> (r: Option<Vec<(String, String)>>)
        ensures
            r is Some <==> pattern_matches(self@, segs.deep_view()),
            r matches Some(b) ==> pairs_view(b@) == bindings_spec(self@, segs.deep_view()),
    {
        let ghost pv = self@;
        let ghost sv = segs.deep_view();
        let n = self.segs.len();
        let m = segs.len();
        let mut binds: Vec<(String, String)> = Vec::new();
        let mut i: usize = 0;
        proof {
            assert(pv.skip(0) =~= pv);
            assert(sv.skip(0) =~= sv);
            assert(pairs_view(binds@) =~= Seq::<(Seq<char>, Seq<char>)>::empty());
        }
        while i < n
            invariant
                n == self.segs.len(),
                m == segs.len(),
                pv == self@,
                sv == segs.deep_view(),
                i <= n,
                i <= m,
                pattern_matches(pv, sv) == pattern_matches(pv.skip(i as int), sv.skip(i as int)),
                pairs_view(binds@) + bindings_spec(pv.skip(i as int), sv.skip(i as int))
                    =~= bindings_spec(pv, sv),
            decreases n - i,
        {
            let ghost pt = pv.skip(i as int);
            let ghost st = sv.skip(i as int);
            proof {
                assert(self.segs.deep_view()[i as int] == self.segs@[i as int]@);
                assert(pt[0] == pv[i as int]);
                assert(pt.drop_first() =~= pv.skip(i as int + 1));
                assert(st.len() == m - i);
            }
            match &self.segs[i] {
                PatSeg::CatchAll(name) => {
                    if i + 1 == n {
                        let joined = join_from(segs, i);
                        binds.push((name.clone(), joined));
                        proof {
                            assert(st =~= sv.skip(i as int));
                            assert(bindings_spec(pt, st) =~= seq![
                                (name@, join_segs(sv.skip(i as int))),
                            ]);
                            assert(pairs_view(binds@) =~~= bindings_spec(pv, sv));
                        }
                        return Some(binds);
                    } else {
                        assert(pt.len() > 1);
                        assert(!pattern_matches(pt, st));
                        return None;
                    }
                },
                PatSeg::Param(name) => {
                    if i == m {
                        assert(st.len() == 0);
                        assert(!pattern_matches(pt, st));
                        return None;
                    }
                    if segs[i].as_str().unicode_len() == 0 {
                        assert(st[0].len() == 0);
                        assert(!seg_matches(pt[0], st[0]));
                        assert(!pattern_matches(pt, st));
                        return None;
                    }
                    proof {
                        assert(st[0] == sv[i as int]);
                        assert(st[0].len() > 0);
                        assert(st.drop_first() =~= sv.skip(i as int + 1));
                    }
                    let ghost prevb = pairs_view(binds@);
                    binds.push((name.clone(), segs[i].clone()));
                    assert(pairs_view(binds@) =~~= prevb.push((name@, sv[i as int])));
                },
                PatSeg::Literal(lit) => {
                    if i == m {
                        assert(st.len() == 0);
                        assert(!pattern_matches(pt, st));
                        return None;
                    }
                    proof {
                        assert(st[0] == sv[i as int]);
                        assert(st.drop_first() =~= sv.skip(i as int + 1));
                    }
                    if !(segs[i] == *lit) {
                        assert(!seg_matches(pt[0], st[0]));
                        assert(!pattern_matches(pt, st));
                        return None;
                    }
                },
            }
            i = i + 1;
        }
        if i < m {
            proof {
                assert(sv.skip(i as int).len() > 0);
                assert(pv.skip(i as int).len() == 0);
                assert(!pattern_matches(pv.skip(i as int), sv.skip(i as int)));
            }
            return None;
        }
        proof {
            assert(pv.skip(i as int).len() == 0);
            assert(sv.skip(i as int).len() == 0);
            assert(pattern_matches(pv.skip(i as int), sv.skip(i as int)));
            assert(bindings_spec(pv.skip(i as int), sv.skip(i as int)) =~= Seq::empty());
            assert(pairs_view(binds@) =~= bindings_spec(pv, sv));
        }
        Some(binds)
    }
}

/// One registration of the dispatch table.
pub struct Route<H> {
    pub method: Method,
    pub pattern: Pattern,
    pub handler: H,
}

/// The mathematical shape of a registration.
#[verifier::ext_equal]
pub struct RouteV<H> {
    pub method: Method,
    pub pat: Seq<PatSegV>,
    pub handler: H,
}

impl<H> View for Route<H> {
    type V = RouteV<H>;

    open spec fn view(&self) -> RouteV<H> {
        RouteV { method: self.method, pat: self.pattern@, handler: self.handler }
    }
}

/// Whether a registration accepts a request: the method must be equal and
/// the pattern must match the split path.
pub open spec fn route_matches<H>(r: RouteV<H>, m: Method, segs: Seq<Seq<char>>) -> bool {
    r.method == m && pattern_matches(r.pat, segs)
}

/// The first registration, in registration order, whose method and pattern
/// accept the request, together with its extracted parameters.
pub open spec fn spec_dispatch<H>(routes: Seq<RouteV<H>>, m: Method, segs: Seq<Seq<char>>) -> Option<
    (H, Seq<(Seq<char>, Seq<char>)>),
>
    decreases routes.len(),
{
    if routes.len() == 0 {
        None
    } else if route_matches(routes[0], m, segs) {
        Some((routes[0].handler, bindings_spec(routes[0].pat, segs)))
    } else {
        spec_dispatch(routes.drop_first(), m, segs)
    }
}

/// An ordered table of (method, pattern, handler) registrations.
pub struct Router<H> {
    routes: Vec<Route<H>>,
}

impl<H> View for Router<H> {
    type V = Seq<RouteV<H>>;

    closed spec fn view(&self) -> Seq<RouteV<H>> {
        self.routes@.map_values(|r: Route<H>| r@)
    }
}

impl<H> Router<H> {
    /// An empty dispatch table.
    pub fn new() -> (r: Router<H>)
        ensures
            r@ == Seq::<RouteV<H>>::empty(),
    {
        let r = Router { routes: Vec::new() };
        assert(r@ =~= Seq::<RouteV<H>>::empty());
        r
    }

    /// Adds a registration at the end of the table. The pattern is rejected,
    /// and nothing is added, exactly when a catch-all segment stands
    /// anywhere but last.
    pub fn register(&mut self, method: Method, pattern: &str, handler: H) -> (r: bool)
        ensures
            r == pattern_ok(pattern@),
            r ==> final(self)@ == old(self)@.push(
                RouteV { method, pat: parse_pattern_spec(pattern@), handler },
            ),
            !r ==> final(self)@ == old(self)@,
    {
        match Pattern::parse(pattern) {
            Some(p) => {
                let ghost prev = self@;
                self.routes.push(Route { method, pattern: p, handler });
                assert(self@ =~~= prev.push(
                    RouteV { method, pat: parse_pattern_spec(pattern@), handler },
                ));
                true
            },
            None => false,
        }
    }

    /// Walks the table in registration order and returns the first handler
    /// whose registration accepts the request, with the parameters its
    /// pattern extracts; `None` when no registration accepts it.
    pub fn dispatch<'a>(&'a self, method: Method, path: &str) -> (r: Option<
        (&'a H, Vec<(String, String)>),
    >)
        ensures
            ({
                let d = spec_dispatch(self@, method, split_path_spec(path@));
                match r {
                    Some((h, params)) => d matches Some(dv) && *h == dv.0 && pairs_view(params@)
                        == dv.1,
                    None => d is None,
                }
            }),
    {
        let ghost sv = split_path_spec(path@);
        let segs = split_path(path);
        let n = self.routes.len();
        let mut i: usize = 0;
        proof {
            assert(self@.skip(0) =~= self@);
        }
        while i < n
            invariant
                n == self.routes.len(),
                i <= n,
                sv == split_path_spec(path@),
                segs.deep_view() == sv,
                self@.len() == n,
                spec_dispatch(self@.skip(i as int), method, sv) == spec_dispatch(
                    self@,
                    method,
                    sv,
                ),
            decreases n - i,
        {
            let ghost rt = self@.skip(i as int);
            proof {
                assert(rt[0] == self@[i as int]);
                assert(self@[i as int] == self.routes@[i as int]@);
                assert(rt.drop_first() =~= self@.skip(i as int + 1));
            }
            if self.routes[i].method == method {
                match self.routes[i].pattern.match_segs(&segs) {
                    Some(b) => {
                        assert(route_matches(rt[0], method, sv));
                        return Some((&self.routes[i].handler, b));
                    },
                    None => {
                        assert(!route_matches(rt[0], method, sv));
                    },
                }
            } else {
                assert(!route_matches(rt[0], method, sv));
            }
            i = i + 1;
        }
        assert(self@.skip(n as int).len() == 0);
        None
    }
}

/// The value bound under a name, at its first occurrence in the extracted
/// parameter list.
pub open spec fn param_lookup(binds: Seq<(Seq<char>, Seq<char>)>, name: Seq<char>) -> Option<
    Seq<char>,
>
    decreases binds.len(),
{
    if binds.len() == 0 {
        None
    } else if binds[0].0 == name {
        Some(binds[0].1)
    } else {
        param_lookup(binds.drop_first(), name)
    }
}

/// Looks a parameter up by name in an extracted parameter list.
pub fn param_value<'a>(params: &'a Vec<(String, String)>, name: &str) -> (r: Option<&'a String>)
    ensures
        match r {
            Some(v) => param_lookup(pairs_view(params@), name@) == Some(v@),
            None => param_lookup(pairs_view(params@), name@) is None,
        },
{
    let ghost bv = pairs_view(params@);
    let needle = String::from_str(name);
    let n = params.len();
    let mut i: usize = 0;
    proof {
        assert(bv.skip(0) =~= bv);
    }
    while i < n
        invariant
            n == params.len(),
            i <= n,
            bv == pairs_view(params@),
            needle@ == name@,
            param_lookup(bv.skip(i as int), name@) == param_lookup(bv, name@),
        decreases n - i,
    {
        let ghost bt = bv.skip(i as int);
        proof {
            assert(bt[0] == bv[i as int]);
            assert(bt.drop_first() =~= bv.skip(i as int + 1));
        }
        if params[i].0 == needle {
            return Some(&params[i].1);
        }
        i = i + 1;
    }
    assert(bv.skip(n as int).len() == 0);
    None
}

/// No registration accepts the request exactly when dispatch reports no
/// match: a miss never yields a handler, and a handler is only yielded on a
/// genuine match.
pub proof fn lemma_dispatch_none_iff_no_match<H>(
    routes: Seq<RouteV<H>>,
    m: Method,
    segs: Seq<Seq<char>>,
)
    ensures
        spec_dispatch(routes, m, segs) is None <==> (forall|i: int|
            0 <= i < routes.len() ==> !route_matches(#[trigger] routes[i], m, segs)),
    decreases routes.len(),
{
    if routes.len() > 0 {
        lemma_dispatch_none_iff_no_match(routes.drop_first(), m, segs);
        if !route_matches(routes[0], m, segs) {
            assert forall|i: int| 0 <= i < routes.len() && spec_dispatch(routes, m, segs) is None
                implies !route_matches(#[trigger] routes[i], m, segs) by {
                if i > 0 {
                    assert(routes.drop_first()[i - 1] == routes[i]);
                }
            }
            if forall|i: int| 0 <= i < routes.len() ==> !route_matches(
                #[trigger] routes[i],
                m,
                segs,
            ) {
                assert forall|j: int| 0 <= j < routes.drop_first().len() implies !route_matches(
                    #[trigger] routes.drop_first()[j],
                    m,
                    segs,
                ) by {
                    assert(routes.drop_first()[j] == routes[j + 1]);
                }
            }
        }
    }
}

/// First match wins: when a registration accepts the request and every
/// earlier one refuses it, dispatch selects exactly that registration.
pub proof fn lemma_first_match_wins<H>(
    routes: Seq<RouteV<H>>,
    m: Method,
    segs: Seq<Seq<char>>,
    i: int,
)
    requires
        0 <= i < routes.len(),
        route_matches(routes[i], m, segs),
        forall|j: int| 0 <= j < i ==> !route_matches(#[trigger] routes[j], m, segs),
    ensures
        spec_dispatch(routes, m, segs) == Some(
            (routes[i].handler, bindings_spec(routes[i].pat, segs)),
        ),
    decreases i,
{
    if i > 0 {
        assert(!route_matches(routes[0], m, segs));
        assert(routes.drop_first()[i - 1] == routes[i]);
        assert forall|j: int| 0 <= j < i - 1 implies !route_matches(
            #[trigger] routes.drop_first()[j],
            m,
            segs,
        ) by {
            assert(routes.drop_first()[j] == routes[j + 1]);
        }
        lemma_first_match_wins(routes.drop_first(), m, segs, i - 1);
    }
}

proof fn lemma_split_no_star(s: Seq<char>)
    requires
        forall|i: int| #![trigger s[i]] 1 <= i < s.len() ==> !(s[i - 1] == '/' && s[i] == '*'),
    ensures
        forall|k: int|
            1 <= k < split_path_spec(s).len() ==> ((#[trigger] split_path_spec(s)[k]).len() > 0
                ==> split_path_spec(s)[k][0] != '*'),
        (s.len() == 0 || s[0] != '*') ==> (split_path_spec(s)[0].len() > 0 ==> split_path_spec(
            s,
        )[0][0] != '*'),
    decreases s.len(),
{
    if s.len() > 0 {
        let t = s.drop_first();
        assert forall|i: int| #![trigger t[i]] 1 <= i < t.len() implies !(t[i - 1] == '/' && t[i]
            == '*') by {
            assert(t[i - 1] == s[i]);
            assert(t[i] == s[i + 1]);
        }
        lemma_split_no_star(t);
        lemma_split_path_len(t);
        let r = split_path_spec(t);
        if s[0] == '/' {
            if t.len() > 0 {
                assert(t[0] == s[1]);
            }
            assert forall|k: int|
                1 <= k < split_path_spec(s).len() implies ((#[trigger] split_path_spec(s)[k]).len()
                > 0 ==> split_path_spec(s)[k][0] != '*') by {
                assert(split_path_spec(s)[k] == r[k - 1]);
            }
        } else {
            assert forall|k: int|
                1 <= k < split_path_spec(s).len() implies ((#[trigger] split_path_spec(s)[k]).len()
                > 0 ==> split_path_spec(s)[k][0] != '*') by {
                assert(split_path_spec(s)[k] == r.drop_first()[k - 1]);
                assert(r.drop_first()[k - 1] == r[k]);
            }
            assert(split_path_spec(s)[0] == seq![s[0]] + r[0]);
        }
    }
}

/// A pattern string in which no segment begins with `*` — neither at the
/// start of the string nor right after a `/` — parses with no catch-all
/// segment at all, and so is accepted by `Router::register`.
pub proof fn lemma_no_star_pattern_ok(s: Seq<char>)
    requires
        s.len() > 0 ==> s[0] != '*',
        forall|i: int| #![trigger s[i]] 1 <= i < s.len() ==> !(s[i - 1] == '/' && s[i] == '*'),
    ensures
        forall|k: int|
            0 <= k < parse_pattern_spec(s).len() ==> !((#[trigger] parse_pattern_spec(s)[k])
                is CatchAll),
        pattern_ok(s),
{
    lemma_split_no_star(s);
    assert forall|k: int|
        0 <= k < parse_pattern_spec(s).len() implies !((#[trigger] parse_pattern_spec(s)[k])
        is CatchAll) by {
        assert(parse_pattern_spec(s)[k] == parse_seg_spec(split_path_spec(s)[k]));
    }
}

/// A matching pattern binds every placeholder: the parameter list maps each
/// placeholder's name to the path segment standing in its position.
pub proof fn lemma_match_binds_params(pat: Seq<PatSegV>, segs: Seq<Seq<char>>, k: int)
    requires
        pattern_matches(pat, segs),
        0 <= k < pat.len(),
        pat[k] is Param,
    ensures
        k < segs.len(),
        bindings_spec(pat, segs).contains((pat[k]->Param_0, segs[k])),
    decreases pat.len(),
{
    if k == 0 {
        assert(bindings_spec(pat, segs)[0] == (pat[0]->Param_0, segs[0]));
    } else {
        assert(!(pat[0] is CatchAll));
        lemma_match_binds_params(pat.drop_first(), segs.drop_first(), k - 1);
        let sub = bindings_spec(pat.drop_first(), segs.drop_first());
        let pair = (pat[k]->Param_0, segs[k]);
        assert(pat.drop_first()[k - 1] == pat[k]);
        assert(segs.drop_first()[k - 1] == segs[k]);
        assert(sub.contains(pair));
        let w = choose|w: int| 0 <= w < sub.len() && sub[w] == pair;
        match pat[0] {
            PatSegV::Param(_) => {
                assert(bindings_spec(pat, segs)[w + 1] == pair);
            },
            PatSegV::Literal(_) => {
                assert(bindings_spec(pat, segs)[w] == pair);
            },
            PatSegV::CatchAll(_) => {},
        }
    }
}

} // verus!

