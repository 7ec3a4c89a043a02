use vstd::prelude::*;

use crate::router::{
    bindings_spec, lemma_dispatch_none_iff_no_match, lemma_first_match_wins,
    lemma_no_star_pattern_ok, lemma_split_append_part, param_lookup, param_value, parse_pattern_spec,
    parse_seg_spec, pattern_matches, route_matches, spec_dispatch, split_path_spec, Method, PatSegV,
    RouteV, Router,
};
use crate::user::{
    create_user, fetch_user, spec_create, spec_fetch, user_fields_of, PublicView, PublicViewV,
    Store, StoredRecord, StoredRecordV,
};
use crate::ApiError;

verus! {

/// The handlers the service registers: the greeting at the root, the user
/// create and fetch operations, and the version probe.
#[derive(Clone, Copy, Debug, PartialEq, Eq, Structural)]
pub enum HandlerKind {
    Root,
    CreateUser,
    FetchUser,
    Version,
}

/// The body of a response: plain text, the public view a create answers
/// with, or the full record a fetch answers with.
pub enum ResponseBody {
    Text(String),
    User(PublicView),
    Record(StoredRecord),
}

/// A response: a status code and a body.
pub struct Response {
    pub status: u16,
    pub body: ResponseBody,
}

/// The mathematical shape of a response body.
#[verifier::ext_equal]
pub enum ResponseBodyV {
    Text(Seq<char>),
    User(PublicViewV),
    Record(StoredRecordV),
}

/// The mathematical shape of a response.
#[verifier::ext_equal]
pub struct ResponseV {
    pub status: u16,
    pub body: ResponseBodyV,
}

impl View for ResponseBody {
    type V = ResponseBodyV;

    open spec fn view(&self) -> ResponseBodyV {
        match self {
            ResponseBody::Text(s) => ResponseBodyV::Text(s@),
            ResponseBody::User(v) => ResponseBodyV::User(v@),
            ResponseBody::Record(r) => ResponseBodyV::Record(r@),
        }
    }
}

impl View for Response {
    type V = ResponseV;

    open spec fn view(&self) -> ResponseV {
        ResponseV { status: self.status, body: self.body@ }
    }
}

/// The greeting the root route answers with.
pub open spec fn greeting_spec() -> Seq<char> {
    "Hello from Workers!"@
}

/// The greeting the root route answers with.
pub fn greeting() -> (r: String)
    ensures
        r@ == greeting_spec(),
{
    String::from_str("Hello from Workers!")
}

/// The service's dispatch table, in registration order.
pub open spec fn service_routes() -> Seq<RouteV<HandlerKind>> {
    seq![
        RouteV { method: Method::Get, pat: parse_pattern_spec("/"@), handler: HandlerKind::Root },
        RouteV {
            method: Method::Post,
            pat: parse_pattern_spec("/users"@),
            handler: HandlerKind::CreateUser,
        },
        RouteV {
            method: Method::Get,
            pat: parse_pattern_spec("/users/:id"@),
            handler: HandlerKind::FetchUser,
        },
        RouteV {
            method: Method::Get,
            pat: parse_pattern_spec("/worker-version"@),
            handler: HandlerKind::Version,
        },
    ]
}

/// What the service does with a request, over the store's map, the fields
/// the body decodes to, and the deployment's version string: the first
/// matching registration decides, a miss answers the no-route status, and
/// only a well-formed create changes the store.
pub open spec fn spec_handle(
    store: Map<Seq<char>, StoredRecordV>,
    m: Method,
    path: Seq<char>,
    fields: Option<(Seq<char>, Seq<char>, Seq<char>)>,
    version: Seq<char>,
) -> (Map<Seq<char>, StoredRecordV>, ResponseV) {
    match spec_dispatch(service_routes(), m, split_path_spec(path)) {
        None => (store, ResponseV { status: 404, body: ResponseBodyV::Text("Not Found"@) }),
        Some(hb) => match hb.0 {
            HandlerKind::Root => (
                store,
                ResponseV { status: 200, body: ResponseBodyV::Text(greeting_spec()) },
            ),
            HandlerKind::Version => (
                store,
                ResponseV { status: 200, body: ResponseBodyV::Text(version) },
            ),
            HandlerKind::CreateUser => {
                let (s2, r) = spec_create(store, fields);
                (s2, create_response_v(r))
            },
            HandlerKind::FetchUser => (
                store,
                fetch_response_v(spec_fetch(store, param_lookup(hb.1, "id"@))),
            ),
        },
    }
}

/// The response a create call's outcome is mapped to.
pub open spec fn create_response_v(r: Result<PublicViewV, ApiError>) -> ResponseV {
    match r {
        Ok(v) => ResponseV { status: 200, body: ResponseBodyV::User(v) },
        Err(_) => ResponseV { status: 400, body: ResponseBodyV::Text("Wrong Data"@) },
    }
}

/// The response a fetch call's outcome is mapped to.
pub open spec fn fetch_response_v(r: Result<StoredRecordV, ApiError>) -> ResponseV {
    match r {
        Ok(rec) => ResponseV { status: 200, body: ResponseBodyV::Record(rec) },
        Err(ApiError::BadRequest) => ResponseV {
            status: 400,
            body: ResponseBodyV::Text("Bad Request"@),
        },
        Err(ApiError::NotFound) => ResponseV {
            status: 404,
            body: ResponseBodyV::Text("User not found"@),
        },
        Err(ApiError::StorageError) => ResponseV {
            status: 500,
            body: ResponseBodyV::Text("Storage Error"@),
        },
    }
}

/// The whole service: the dispatch table and the handlers behind it.
pub struct Service {
    router: Router<HandlerKind>,
}

impl Service {
    /// The table holds exactly the four registrations, in order.
    pub closed spec fn wf(&self) -> bool {
        self.router@ == service_routes()
    }

    /// Builds the service's dispatch table.
    pub fn new() -> (r: Service)
        ensures
            r.wf(),
    {
        proof {
            reveal_strlit("/");
            reveal_strlit("/users");
            reveal_strlit("/users/:id");
            reveal_strlit("/worker-version");
            lemma_no_star_pattern_ok("/"@);
            lemma_no_star_pattern_ok("/users"@);
            lemma_no_star_pattern_ok("/users/:id"@);
            lemma_no_star_pattern_ok("/worker-version"@);
        }
        let mut router: Router<HandlerKind> = Router::new();
        let ok_root = router.register(Method::Get, "/", HandlerKind::Root);
        let ok_create = router.register(Method::Post, "/users", HandlerKind::CreateUser);
        let ok_fetch = router.register(Method::Get, "/users/:id", HandlerKind::FetchUser);
        let ok_version = router.register(Method::Get, "/worker-version", HandlerKind::Version);
        proof {
            assert(ok_root && ok_create && ok_fetch && ok_version);
            assert(router@ =~= service_routes());
        }
        Service { router }
    }

    /// Dispatches one request and runs the selected handler against the
    /// store; `version` is the deployment's version string, resolved by the
    /// caller.
    pub fn handle(
        &self,
        store: &mut Store,
        method: Method,
        path: &str,
        body: &str,
        version: &str,
    ) -> (r: Response)
        requires
            self.wf(),
        ensures
            final(store)@ == spec_handle(
                old(store)@,
                method,
                path@,
                user_fields_of(body@),
                version@,
            ).0,
            r@ == spec_handle(old(store)@, method, path@, user_fields_of(body@), version@).1,
    {
        match self.router.dispatch(method, path) {
            None => Response {
                status: 404,
                body: ResponseBody::Text(String::from_str("Not Found")),
            },
            Some((h, params)) => match *h {
                HandlerKind::Root => Response {
                    status: 200,
                    body: ResponseBody::Text(greeting()),
                },
                HandlerKind::Version => Response {
                    status: 200,
                    body: ResponseBody::Text(String::from_str(version)),
                },
                HandlerKind::CreateUser => match create_user(store, body) {
                    Ok(v) => Response { status: 200, body: ResponseBody::User(v) },
                    Err(_) => Response {
                        status: 400,
                        body: ResponseBody::Text(String::from_str("Wrong Data")),
                    },
                },
                HandlerKind::FetchUser => {
                    let id = param_value(&params, "id");
                    match fetch_user(store, id) {
                        Ok(rec) => Response { status: 200, body: ResponseBody::Record(rec) },
                        Err(ApiError::BadRequest) => Response {
                            status: 400,
                            body: ResponseBody::Text(String::from_str("Bad Request")),
                        },
                        Err(ApiError::NotFound) => Response {
                            status: 404,
                            body: ResponseBody::Text(String::from_str("User not found")),
                        },
                        Err(ApiError::StorageError) => Response {
                            status: 500,
                            body: ResponseBody::Text(String::from_str("Storage Error")),
                        },
                    }
                },
            },
        }
    }
}

/// A GET of `/` selects the root handler: every store is left exactly as
/// it was and the answer is the greeting.
pub proof fn lemma_root_route(
    store: Map<Seq<char>, StoredRecordV>,
    fields: Option<(Seq<char>, Seq<char>, Seq<char>)>,
    version: Seq<char>,
)
    ensures
        spec_handle(store, Method::Get, "/"@, fields, version).0 == store,
        spec_handle(store, Method::Get, "/"@, fields, version).1 == (ResponseV {
            status: 200,
            body: ResponseBodyV::Text(greeting_spec()),
        }),
{
    lemma_service_pattern_shapes();
    let e = Seq::<char>::empty();
    let segs = split_path_spec("/"@);
    let routes = service_routes();
    lemma_match_two_lits(e, e, e, e);
    assert(route_matches(routes[0], Method::Get, segs));
    lemma_first_match_wins(routes, Method::Get, segs, 0);
}

/// A POST of `/users` selects the create handler: the store and the answer
/// are exactly what the create operation yields on the decoded fields.
pub proof fn lemma_create_route(
    store: Map<Seq<char>, StoredRecordV>,
    fields: Option<(Seq<char>, Seq<char>, Seq<char>)>,
    version: Seq<char>,
)
    ensures
        spec_handle(store, Method::Post, "/users"@, fields, version).0 == spec_create(
            store,
            fields,
        ).0,
        spec_handle(store, Method::Post, "/users"@, fields, version).1 == create_response_v(
            spec_create(store, fields).1,
        ),
{
    lemma_service_pattern_shapes();
    let e = Seq::<char>::empty();
    let segs = split_path_spec("/users"@);
    let routes = service_routes();
    assert(!route_matches(routes[0], Method::Post, segs));
    lemma_match_two_lits(e, "users"@, e, "users"@);
    assert(route_matches(routes[1], Method::Post, segs));
    lemma_first_match_wins(routes, Method::Post, segs, 1);
}

/// A GET of `/users/` followed by a non-empty id without `/` selects the
/// fetch handler with the placeholder bound to that id: the store is left
/// exactly as it was and the answer is what the fetch operation yields on
/// it.
pub proof fn lemma_fetch_route(
    store: Map<Seq<char>, StoredRecordV>,
    fields: Option<(Seq<char>, Seq<char>, Seq<char>)>,
    version: Seq<char>,
    id: Seq<char>,
)
    requires
        id.len() > 0,
        forall|i: int| 0 <= i < id.len() ==> id[i] != '/',
    ensures
        spec_handle(store, Method::Get, "/users"@ + seq!['/'] + id, fields, version).0 == store,
        spec_handle(store, Method::Get, "/users"@ + seq!['/'] + id, fields, version).1
            == fetch_response_v(spec_fetch(store, Some(id))),
{
    lemma_service_pattern_shapes();
    let e = Seq::<char>::empty();
    let path = "/users"@ + seq!['/'] + id;
    lemma_split_append_part("/users"@, id);
    let segs = split_path_spec(path);
    assert(segs =~= seq![e, "users"@, id]);
    let routes = service_routes();
    lemma_two_lits_refuse_three_segs(e, e, e, "users"@, id);
    assert(!route_matches(routes[0], Method::Get, segs));
    assert(!route_matches(routes[1], Method::Get, segs));
    lemma_match_lits_param(e, "users"@, "id"@, e, "users"@, id);
    assert(route_matches(routes[2], Method::Get, segs));
    assert forall|j: int| 0 <= j < 2 implies !route_matches(
        #[trigger] routes[j],
        Method::Get,
        segs,
    ) by {
        if j == 0 {
            assert(!route_matches(routes[0], Method::Get, segs));
        } else {
            assert(!route_matches(routes[1], Method::Get, segs));
        }
    }
    lemma_first_match_wins(routes, Method::Get, segs, 2);
    assert(param_lookup(seq![("id"@, id)], "id"@) == Some(id));
}

/// A GET of `/worker-version` selects the version probe: every store is
/// left exactly as it was — the probe neither reads nor writes it — and
/// the answer is the version string verbatim, so the response text is
/// non-empty whenever the deployment's version string is.
pub proof fn lemma_version_route(
    store: Map<Seq<char>, StoredRecordV>,
    fields: Option<(Seq<char>, Seq<char>, Seq<char>)>,
    version: Seq<char>,
)
    ensures
        spec_handle(store, Method::Get, "/worker-version"@, fields, version).0 == store,
        spec_handle(store, Method::Get, "/worker-version"@, fields, version).1 == (ResponseV {
            status: 200,
            body: ResponseBodyV::Text(version),
        }),
        version.len() > 0 ==> (spec_handle(
            store,
            Method::Get,
            "/worker-version"@,
            fields,
            version,
        ).1.body matches ResponseBodyV::Text(t) && t.len() > 0),
{
    lemma_service_pattern_shapes();
    reveal_strlit("users");
    reveal_strlit("worker-version");
    let e = Seq::<char>::empty();
    let wv = "worker-version"@;
    assert(wv.len() == 14);
    assert("users"@.len() == 5);
    let segs = split_path_spec("/worker-version"@);
    let routes = service_routes();
    lemma_match_two_lits(e, e, e, wv);
    assert(!route_matches(routes[0], Method::Get, segs));
    assert(!route_matches(routes[1], Method::Get, segs));
    lemma_lits_param_refuse_two_segs(e, "users"@, "id"@, e, wv);
    assert(!route_matches(routes[2], Method::Get, segs));
    lemma_match_two_lits(e, wv, e, wv);
    assert(route_matches(routes[3], Method::Get, segs));
    assert forall|j: int| 0 <= j < 3 implies !route_matches(
        #[trigger] routes[j],
        Method::Get,
        segs,
    ) by {
        if j == 0 {
            assert(!route_matches(routes[0], Method::Get, segs));
        } else if j == 1 {
            assert(!route_matches(routes[1], Method::Get, segs));
        } else {
            assert(!route_matches(routes[2], Method::Get, segs));
        }
    }
    lemma_first_match_wins(routes, Method::Get, segs, 3);
}

/// The four patterns of the dispatch table, written out segment by segment,
/// and the splits of the strings they were registered under.
proof fn lemma_service_pattern_shapes()
    ensures
        split_path_spec("/"@) == seq![Seq::<char>::empty(), Seq::<char>::empty()],
        split_path_spec("/users"@) == seq![Seq::<char>::empty(), "users"@],
        split_path_spec("/users/:id"@) == seq![Seq::<char>::empty(), "users"@, ":id"@],
        split_path_spec("/worker-version"@) == seq![Seq::<char>::empty(), "worker-version"@],
        parse_pattern_spec("/"@) == seq![
            PatSegV::Literal(Seq::<char>::empty()),
            PatSegV::Literal(Seq::<char>::empty()),
        ],
        parse_pattern_spec("/users"@) == seq![
            PatSegV::Literal(Seq::<char>::empty()),
            PatSegV::Literal("users"@),
        ],
        parse_pattern_spec("/users/:id"@) == seq![
            PatSegV::Literal(Seq::<char>::empty()),
            PatSegV::Literal("users"@),
            PatSegV::Param("id"@),
        ],
        parse_pattern_spec("/worker-version"@) == seq![
            PatSegV::Literal(Seq::<char>::empty()),
            PatSegV::Literal("worker-version"@),
        ],
{
    reveal_strlit("/");
    reveal_strlit("/users");
    reveal_strlit("/users/:id");
    reveal_strlit("/worker-version");
    reveal_strlit("users");
    reveal_strlit(":id");
    reveal_strlit("id");
    reveal_strlit("worker-version");
    let e = Seq::<char>::empty();
    assert("/"@ =~= e + seq!['/'] + e);
    lemma_split_append_part(e, e);
    assert(split_path_spec("/"@) =~= seq![e, e]);
    assert("/users"@ =~= e + seq!['/'] + "users"@);
    lemma_split_append_part(e, "users"@);
    assert(split_path_spec("/users"@) =~= seq![e, "users"@]);
    assert("/users/:id"@ =~= "/users"@ + seq!['/'] + ":id"@);
    lemma_split_append_part("/users"@, ":id"@);
    assert(split_path_spec("/users/:id"@) =~= seq![e, "users"@, ":id"@]);
    assert("/worker-version"@ =~= e + seq!['/'] + "worker-version"@);
    lemma_split_append_part(e, "worker-version"@);
    assert(split_path_spec("/worker-version"@) =~= seq![e, "worker-version"@]);
    assert(parse_seg_spec(e) == PatSegV::Literal(e));
    assert(parse_seg_spec("users"@) == PatSegV::Literal("users"@));
    assert(":id"@.drop_first() =~= "id"@);
    assert(parse_seg_spec(":id"@) == PatSegV::Param("id"@));
    assert(parse_seg_spec("worker-version"@) == PatSegV::Literal("worker-version"@));
    assert(parse_pattern_spec("/"@) =~~= seq![PatSegV::Literal(e), PatSegV::Literal(e)]);
    assert(parse_pattern_spec("/users"@) =~~= seq![
        PatSegV::Literal(e),
        PatSegV::Literal("users"@),
    ]);
    assert(parse_pattern_spec("/users/:id"@) =~~= seq![
        PatSegV::Literal(e),
        PatSegV::Literal("users"@),
        PatSegV::Param("id"@),
    ]);
    assert(parse_pattern_spec("/worker-version"@) =~~= seq![
        PatSegV::Literal(e),
        PatSegV::Literal("worker-version"@),
    ]);
}

/// A two-literal pattern against a two-segment path: it matches exactly
/// when both literals are equal to their segments, and binds nothing.
proof fn lemma_match_two_lits(x: Seq<char>, y: Seq<char>, u: Seq<char>, v: Seq<char>)
    ensures
        pattern_matches(seq![PatSegV::Literal(x), PatSegV::Literal(y)], seq![u, v]) == (x == u && y
            == v),
        bindings_spec(seq![PatSegV::Literal(x), PatSegV::Literal(y)], seq![u, v])
            == Seq::<(Seq<char>, Seq<char>)>::empty(),
{
    let pat = seq![PatSegV::Literal(x), PatSegV::Literal(y)];
    let segs = seq![u, v];
    assert(pat.drop_first() =~= seq![PatSegV::Literal(y)]);
    assert(segs.drop_first() =~= seq![v]);
    assert(seq![PatSegV::Literal(y)].drop_first() =~= Seq::<PatSegV>::empty());
    assert(seq![v].drop_first() =~= Seq::<Seq<char>>::empty());
    assert(pattern_matches(Seq::<PatSegV>::empty(), Seq::<Seq<char>>::empty()));
    assert(pattern_matches(seq![PatSegV::Literal(y)], seq![v]) == (y == v));
    assert(bindings_spec(Seq::<PatSegV>::empty(), Seq::<Seq<char>>::empty())
        =~= Seq::<(Seq<char>, Seq<char>)>::empty());
    assert(bindings_spec(seq![PatSegV::Literal(y)], seq![v]) =~= Seq::<(Seq<char>, Seq<char>)>::empty());
    assert(bindings_spec(pat, segs) =~= Seq::<(Seq<char>, Seq<char>)>::empty());
}

/// A two-literal pattern never accepts a three-segment path: the path is
/// not fully consumed.
proof fn lemma_two_lits_refuse_three_segs(
    x: Seq<char>,
    y: Seq<char>,
    u: Seq<char>,
    v: Seq<char>,
    w: Seq<char>,
)
    ensures
        !pattern_matches(seq![PatSegV::Literal(x), PatSegV::Literal(y)], seq![u, v, w]),
{
    let pat = seq![PatSegV::Literal(x), PatSegV::Literal(y)];
    let segs = seq![u, v, w];
    assert(pat.drop_first() =~= seq![PatSegV::Literal(y)]);
    assert(segs.drop_first() =~= seq![v, w]);
    assert(seq![PatSegV::Literal(y)].drop_first() =~= Seq::<PatSegV>::empty());
    assert(seq![v, w].drop_first() =~= seq![w]);
    assert(!pattern_matches(Seq::<PatSegV>::empty(), seq![w]));
    assert(!pattern_matches(seq![PatSegV::Literal(y)], seq![v, w]));
}

/// A literal-literal-placeholder pattern against a three-segment path: it
/// matches exactly when the literals agree and the last segment is
/// non-empty, and then binds the placeholder to that segment.
proof fn lemma_match_lits_param(
    x: Seq<char>,
    y: Seq<char>,
    n: Seq<char>,
    u: Seq<char>,
    v: Seq<char>,
    w: Seq<char>,
)
    ensures
        pattern_matches(
            seq![PatSegV::Literal(x), PatSegV::Literal(y), PatSegV::Param(n)],
            seq![u, v, w],
        ) == (x == u && y == v && w.len() > 0),
        (x == u && y == v && w.len() > 0) ==> bindings_spec(
            seq![PatSegV::Literal(x), PatSegV::Literal(y), PatSegV::Param(n)],
            seq![u, v, w],
        ) == seq![(n, w)],
{
    let pat = seq![PatSegV::Literal(x), PatSegV::Literal(y), PatSegV::Param(n)];
    let segs = seq![u, v, w];
    assert(pat.drop_first() =~= seq![PatSegV::Literal(y), PatSegV::Param(n)]);
    assert(segs.drop_first() =~= seq![v, w]);
    assert(seq![PatSegV::Literal(y), PatSegV::Param(n)].drop_first() =~= seq![PatSegV::Param(n)]);
    assert(seq![v, w].drop_first() =~= seq![w]);
    assert(seq![PatSegV::Param(n)].drop_first() =~= Seq::<PatSegV>::empty());
    assert(seq![w].drop_first() =~= Seq::<Seq<char>>::empty());
    assert(pattern_matches(Seq::<PatSegV>::empty(), Seq::<Seq<char>>::empty()));
    assert(pattern_matches(seq![PatSegV::Param(n)], seq![w]) == (w.len() > 0));
    assert(pattern_matches(seq![PatSegV::Literal(y), PatSegV::Param(n)], seq![v, w]) == (y == v
        && w.len() > 0));
    if x == u && y == v && w.len() > 0 {
        assert(bindings_spec(Seq::<PatSegV>::empty(), Seq::<Seq<char>>::empty())
            =~= Seq::<(Seq<char>, Seq<char>)>::empty());
        assert(bindings_spec(seq![PatSegV::Param(n)], seq![w]) =~= seq![(n, w)]);
        assert(bindings_spec(seq![PatSegV::Literal(y), PatSegV::Param(n)], seq![v, w]) =~= seq![
            (n, w),
        ]);
        assert(bindings_spec(pat, segs) =~= seq![(n, w)]);
    }
}

/// A literal-literal-placeholder pattern never accepts a two-segment path:
/// the placeholder is left without a segment.
proof fn lemma_lits_param_refuse_two_segs(
    x: Seq<char>,
    y: Seq<char>,
    n: Seq<char>,
    u: Seq<char>,
    v: Seq<char>,
)
    ensures
        !pattern_matches(
            seq![PatSegV::Literal(x), PatSegV::Literal(y), PatSegV::Param(n)],
            seq![u, v],
        ),
{
    let pat = seq![PatSegV::Literal(x), PatSegV::Literal(y), PatSegV::Param(n)];
    let segs = seq![u, v];
    assert(pat.drop_first() =~= seq![PatSegV::Literal(y), PatSegV::Param(n)]);
    assert(segs.drop_first() =~= seq![v]);
    assert(seq![PatSegV::Literal(y), PatSegV::Param(n)].drop_first() =~= seq![PatSegV::Param(n)]);
    assert(seq![v].drop_first() =~= Seq::<Seq<char>>::empty());
    assert(!pattern_matches(seq![PatSegV::Param(n)], Seq::<Seq<char>>::empty()));
    assert(!pattern_matches(seq![PatSegV::Literal(y), PatSegV::Param(n)], seq![v]));
}

/// A request no registration accepts is answered with the no-route status
/// and writes nothing — never a handler's answer.
pub proof fn lemma_no_route_answers_not_found(
    store: Map<Seq<char>, StoredRecordV>,
    m: Method,
    path: Seq<char>,
    fields: Option<(Seq<char>, Seq<char>, Seq<char>)>,
    version: Seq<char>,
)
    requires
        forall|i: int|
            0 <= i < service_routes().len() ==> !route_matches(
                #[trigger] service_routes()[i],
                m,
                split_path_spec(path),
            ),
    ensures
        spec_handle(store, m, path, fields, version).0 == store,
        spec_handle(store, m, path, fields, version).1 == (ResponseV {
            status: 404,
            body: ResponseBodyV::Text("Not Found"@),
        }),
{
    lemma_dispatch_none_iff_no_match(service_routes(), m, split_path_spec(path));
}

} // verus!
