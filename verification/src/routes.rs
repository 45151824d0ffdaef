//! The control surface's routing table and request dispatch: which method
//! and path reach which handler, with the trailing `{id}` segment captured
//! where a route declares one, and the CORS policy the surface serves
//! under. The HTTP framework around the process feeds method and path in
//! and maps the endpoint tag to its handler.

use vstd::prelude::*;

use crate::text::{
    chars_contain, chars_start_with, chars_to_string, chars_vec, contains_char, starts_with,
    str_eq, subrange_chars,
};

verus! {

#[derive(Clone, Copy, PartialEq, Eq, Structural, Debug)]
pub enum HttpMethod {
    Get,
    Post,
    Put,
    Delete,
    Patch,
    Options,
}

/// The handlers a request can reach.
#[derive(Clone, Copy, PartialEq, Eq, Structural, Debug)]
pub enum Endpoint {
    Root,
    SendEveJsonLog,
    ListRules,
    CreateRule,
    GetRule,
    DeleteRule,
    SuricataStatus,
    SuricataStatistics,
    SuricataInterface,
    SuricataReloadRules,
    CreatePost,
}

/// One route: a method, a fixed path, and whether one more non-empty
/// segment is captured as the identifier.
pub struct Route {
    pub method: HttpMethod,
    pub path: String,
    pub captures_id: bool,
    pub endpoint: Endpoint,
}

/// Mathematical shadow of [`Route`].
pub struct RouteModel {
    pub method: HttpMethod,
    pub path: Seq<char>,
    pub captures_id: bool,
    pub endpoint: Endpoint,
}

impl View for Route {
    type V = RouteModel;

    open spec fn view(&self) -> RouteModel {
        RouteModel {
            method: self.method,
            path: self.path@,
            captures_id: self.captures_id,
            endpoint: self.endpoint,
        }
    }
}

impl DeepView for Route {
    type V = RouteModel;

    open spec fn deep_view(&self) -> RouteModel {
        self.view()
    }
}

/// The event-forwarding route.
pub open spec fn eve_routes() -> Seq<RouteModel> {
    seq![
        RouteModel {
            method: HttpMethod::Post,
            path: "/eve_json_log"@,
            captures_id: false,
            endpoint: Endpoint::SendEveJsonLog,
        },
    ]
}

/// The rule-lifecycle routes, in registration order.
pub open spec fn rule_routes() -> Seq<RouteModel> {
    seq![
        RouteModel {
            method: HttpMethod::Get,
            path: "/rule"@,
            captures_id: false,
            endpoint: Endpoint::ListRules,
        },
        RouteModel {
            method: HttpMethod::Get,
            path: "/rule"@,
            captures_id: true,
            endpoint: Endpoint::GetRule,
        },
        RouteModel {
            method: HttpMethod::Post,
            path: "/rule"@,
            captures_id: false,
            endpoint: Endpoint::CreateRule,
        },
        RouteModel {
            method: HttpMethod::Delete,
            path: "/rule"@,
            captures_id: true,
            endpoint: Endpoint::DeleteRule,
        },
    ]
}

/// The control-bridge routes, in registration order.
pub open spec fn suricata_routes() -> Seq<RouteModel> {
    seq![
        RouteModel {
            method: HttpMethod::Get,
            path: "/suricata/status"@,
            captures_id: false,
            endpoint: Endpoint::SuricataStatus,
        },
        RouteModel {
            method: HttpMethod::Get,
            path: "/suricata/statistics"@,
            captures_id: false,
            endpoint: Endpoint::SuricataStatistics,
        },
        RouteModel {
            method: HttpMethod::Get,
            path: "/suricata/interface"@,
            captures_id: false,
            endpoint: Endpoint::SuricataInterface,
        },
        RouteModel {
            method: HttpMethod::Post,
            path: "/suricata/rules/reload"@,
            captures_id: false,
            endpoint: Endpoint::SuricataReloadRules,
        },
    ]
}

/// The post-forwarding route.
pub open spec fn post_routes() -> Seq<RouteModel> {
    seq![
        RouteModel {
            method: HttpMethod::Post,
            path: "/post"@,
            captures_id: false,
            endpoint: Endpoint::CreatePost,
        },
    ]
}

/// Every route the merged surface serves, in merge order.
pub open spec fn all_routes() -> Seq<RouteModel> {
    eve_routes() + rule_routes() + suricata_routes()
}

fn mk_route(method: HttpMethod, path: &str, captures_id: bool, endpoint: Endpoint) -> (r: Route)
    ensures
        r@ == (RouteModel { method, path: path@, captures_id, endpoint }),
{
    Route { method, path: String::from_str(path), captures_id, endpoint }
}

/// The event-forwarding router.
pub fn router_eve_json_log() -> (r: Vec<Route>)
    ensures
        r.deep_view() == eve_routes(),
{
    let mut r: Vec<Route> = Vec::new();
    r.push(mk_route(HttpMethod::Post, "/eve_json_log", false, Endpoint::SendEveJsonLog));
    proof {
        assert(r.deep_view() =~= eve_routes());
    }
    r
}

/// The rule-lifecycle router.
pub fn router_rule() -> (r: Vec<Route>)
    ensures
        r.deep_view() == rule_routes(),
{
    let mut r: Vec<Route> = Vec::new();
    r.push(mk_route(HttpMethod::Get, "/rule", false, Endpoint::ListRules));
    r.push(mk_route(HttpMethod::Get, "/rule", true, Endpoint::GetRule));
    r.push(mk_route(HttpMethod::Post, "/rule", false, Endpoint::CreateRule));
    r.push(mk_route(HttpMethod::Delete, "/rule", true, Endpoint::DeleteRule));
    proof {
        assert(r.deep_view() =~= rule_routes());
    }
    r
}

/// The control-bridge router.
pub fn router_suricata() -> (r: Vec<Route>)
    ensures
        r.deep_view() == suricata_routes(),
{
    let mut r: Vec<Route> = Vec::new();
    r.push(mk_route(HttpMethod::Get, "/suricata/status", false, Endpoint::SuricataStatus));
    r.push(mk_route(HttpMethod::Get, "/suricata/statistics", false, Endpoint::SuricataStatistics));
    r.push(mk_route(HttpMethod::Get, "/suricata/interface", false, Endpoint::SuricataInterface));
    r.push(
        mk_route(HttpMethod::Post, "/suricata/rules/reload", false, Endpoint::SuricataReloadRules),
    );
    proof {
        assert(r.deep_view() =~= suricata_routes());
    }
    r
}

/// The post-forwarding router.
pub fn post_route() -> (r: Vec<Route>)
    ensures
        r.deep_view() == post_routes(),
{
    let mut r: Vec<Route> = Vec::new();
    r.push(mk_route(HttpMethod::Post, "/post", false, Endpoint::CreatePost));
    proof {
        assert(r.deep_view() =~= post_routes());
    }
    r
}

/// The merged routing table of the control surface.
pub fn routes() -> (r: Vec<Route>)
    ensures
        r.deep_view() == all_routes(),
{
    let mut r = router_eve_json_log();
    let mut b = router_rule();
    let mut c = router_suricata();
    r.append(&mut b);
    r.append(&mut c);
    proof {
        assert(r.deep_view() =~= all_routes());
    }
    r
}

/// Does a request's method and path match a route? A capturing route wants
/// its fixed path, a slash, and one more non-empty segment without further
/// slashes.
pub open spec fn route_matches(rt: RouteModel, method: HttpMethod, path: Seq<char>) -> bool {
    &&& rt.method == method
    &&& if rt.captures_id {
        &&& path.len() > rt.path.len() + 1
        &&& starts_with(path, rt.path)
        &&& path[rt.path.len() as int] == '/'
        &&& !contains_char(path.skip(rt.path.len() as int + 1), '/')
    } else {
        path == rt.path
    }
}

/// The identifier a capturing route extracts.
pub open spec fn captured_id(rt: RouteModel, path: Seq<char>) -> Seq<char> {
    path.skip(rt.path.len() as int + 1)
}

/// The first route matching a request, scanning from `i` on.
pub open spec fn first_route_match(
    rs: Seq<RouteModel>,
    i: int,
    method: HttpMethod,
    path: Seq<char>,
) -> Option<RouteModel>
    decreases rs.len() - i,
{
    if i < 0 || i >= rs.len() {
        None
    } else if route_matches(rs[i], method, path) {
        Some(rs[i])
    } else {
        first_route_match(rs, i + 1, method, path)
    }
}

/// Dispatch a request: the first matching route decides the endpoint, and a
/// capturing route hands the trailing segment out as the identifier.
#[verifier::loop_isolation(false)]
pub fn dispatch(table: &Vec<Route>, method: HttpMethod, path: &str) -> (r: Option<
    (Endpoint, Option<String>),
>)
    ensures
        r is None <==> first_route_match(table.deep_view(), 0, method, path@) is None,
        first_route_match(table.deep_view(), 0, method, path@) matches Some(rt) ==> (r matches
            Some(pair) && pair.0 == rt.endpoint && (rt.captures_id ==> (pair.1 matches Some(s)
            && s@ == captured_id(rt, path@))) && (!rt.captures_id ==> pair.1 is None)),
{
    let ghost td = table.deep_view();
    let pc = chars_vec(path);
    let n: usize = table.len();
    let mut i: usize = 0;
    while i < n
        invariant
            i <= n,
            first_route_match(td, 0, method, path@) == first_route_match(td, i as int, method, path@),
        decreases n - i,
    {
        proof {
            assert(td[i as int] == table@[i as int]@);
        }
        let rt = &table[i];
        if rt.method == method {
            if rt.captures_id {
                let plen: usize = rt.path.as_str().unicode_len();
                if pc.len() > plen && pc.len() - plen >= 2 && chars_start_with(
                    &pc,
                    rt.path.as_str(),
                ) {
                    let sep = pc[plen];
                    if sep == '/' {
                        let tail = subrange_chars(&pc, plen + 1, pc.len());
                        proof {
                            assert(tail@ =~= path@.skip(plen as int + 1));
                        }
                        if !chars_contain(&tail, '/') {
                            proof {
                                assert(route_matches(td[i as int], method, path@));
                            }
                            return Some((rt.endpoint, Some(chars_to_string(&tail))));
                        }
                    }
                }
            } else {
                if str_eq(rt.path.as_str(), path) {
                    proof {
                        assert(route_matches(td[i as int], method, path@));
                    }
                    return Some((rt.endpoint, None));
                }
            }
        }
        proof {
            assert(!route_matches(td[i as int], method, path@));
        }
        i = i + 1;
    }
    None
}

/// The cross-origin policy of the control surface: the methods and request
/// headers it allows, with credentials, for its one configured origin.
pub struct CorsPolicy {
    pub methods: Vec<HttpMethod>,
    pub allow_headers: Vec<String>,
    pub allow_credentials: bool,
    pub allowed_origin: String,
}

/// The policy the surface serves under.
pub fn create_cors() -> (r: CorsPolicy)
    ensures
        r.methods@ == seq![
            HttpMethod::Get,
            HttpMethod::Post,
            HttpMethod::Put,
            HttpMethod::Delete,
            HttpMethod::Patch,
            HttpMethod::Options,
        ],
        r.allow_headers@.map_values(|s: String| s@) == seq![
            "content-type"@,
            "authorization"@,
            "accept"@,
            "origin"@,
            "referer"@,
            "user-agent"@,
        ],
        r.allow_credentials,
        r.allowed_origin@ == "http://localhost:localhost:8080"@,
{
    let mut methods: Vec<HttpMethod> = Vec::new();
    methods.push(HttpMethod::Get);
    methods.push(HttpMethod::Post);
    methods.push(HttpMethod::Put);
    methods.push(HttpMethod::Delete);
    methods.push(HttpMethod::Patch);
    methods.push(HttpMethod::Options);
    let mut allow_headers: Vec<String> = Vec::new();
    allow_headers.push(String::from_str("content-type"));
    allow_headers.push(String::from_str("authorization"));
    allow_headers.push(String::from_str("accept"));
    allow_headers.push(String::from_str("origin"));
    allow_headers.push(String::from_str("referer"));
    allow_headers.push(String::from_str("user-agent"));
    let r = CorsPolicy {
        methods,
        allow_headers,
        allow_credentials: true,
        allowed_origin: String::from_str("http://localhost:localhost:8080"),
    };
    proof {
        assert(r.methods@ =~= seq![
            HttpMethod::Get,
            HttpMethod::Post,
            HttpMethod::Put,
            HttpMethod::Delete,
            HttpMethod::Patch,
            HttpMethod::Options,
        ]);
        assert(r.allow_headers@.map_values(|s: String| s@) =~= seq![
            "content-type"@,
            "authorization"@,
            "accept"@,
            "origin"@,
            "referer"@,
            "user-agent"@,
        ]);
    }
    r
}

} // verus!
