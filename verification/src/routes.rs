//! The dispatcher: the fixed route table, and the one decision each request
//! earns from it.
//!
//! A request is matched against the table first; on a match its route's
//! decoder and selector run; a known path under the wrong method is answered
//! 405; and only a request no route claims falls through to the static
//! resolver's chain. Work only a collaborator can do — the database read,
//! the template rendering, the disk probes — is returned as an instruction,
//! and its result is finished by the matching selector.

use vstd::prelude::*;

use vstd::string::StringSliceAdditionalSpecFns;
use crate::assets::StaticPlan;
use crate::assets::static_plan;
use crate::assets::plan_matches;
use crate::query::idx_of;
use crate::query::bytes_eq;
use crate::query::find_byte;
use crate::respond::Response;
use crate::respond::home_response;
use crate::respond::show_form_response;
use crate::respond::query_route_response;
use crate::respond::form_route_response;
use crate::respond::json_route_response;
use crate::respond::parsing_error_report;
use crate::respond::handler_return_route_response;
use crate::respond::home_body;
use crate::respond::form_page_body;
use crate::respond::query_route_resp;
use crate::respond::form_route_resp;
use crate::respond::json_route_resp;
use crate::respond::handler_return_resp;

verus! {

/// The request methods the table knows.
#[derive(Clone, Copy, Debug, PartialEq, Eq, Structural)]
pub enum Method {
    Get,
    Post,
}

/// Which route a request matched, if any: a known path under the wrong
/// method is its own answer, and only a path no route knows falls through.
#[derive(Debug, PartialEq, Eq)]
pub enum RouteMatch {
    Home,
    QueryRoute,
    ShowForm,
    AcceptForm,
    AcceptJson,
    HandleParsingError,
    HandlerReturn,
    ReturnTemplate(Vec<u8>),
    QueryFromDb,
    MethodNotAllowed,
    NoRoute,
}

pub open spec fn root_path() -> Seq<u8> {
    "/".spec_bytes()
}

pub open spec fn query_path() -> Seq<u8> {
    "/query".spec_bytes()
}

pub open spec fn form_path() -> Seq<u8> {
    "/form".spec_bytes()
}

pub open spec fn json_path() -> Seq<u8> {
    "/json".spec_bytes()
}

pub open spec fn parse_err_path() -> Seq<u8> {
    "/handleParsingError".spec_bytes()
}

pub open spec fn handler_return_path() -> Seq<u8> {
    "/handlerReturn".spec_bytes()
}

pub open spec fn db_path() -> Seq<u8> {
    "/query_from_db".spec_bytes()
}

pub open spec fn template_prefix() -> Seq<u8> {
    "/returnTemplate/".spec_bytes()
}

/// The path variable of the template route: what follows the prefix.
pub open spec fn template_name(p: Seq<u8>) -> Seq<u8> {
    p.skip(template_prefix().len() as int)
}

/// Whether a path is the template route: the prefix followed by one
/// non-empty segment with no further `/`.
pub open spec fn matches_template(p: Seq<u8>) -> bool {
    &&& p.len() > template_prefix().len()
    &&& p.take(template_prefix().len() as int) == template_prefix()
    &&& idx_of(template_name(p), 47) == template_name(p).len()
}

/// The route table, as one relation: for a method and path, the match they
/// earn. Explicit routes stand before any static fallback; a known path
/// under the wrong method is `MethodNotAllowed`; everything else is
/// `NoRoute` and belongs to the resolver chain.
pub open spec fn route_matches(m: Method, p: Seq<u8>, r: RouteMatch) -> bool {
    if matches_template(p) {
        if m == Method::Get {
            r matches RouteMatch::ReturnTemplate(nm) && nm@ == template_name(p)
        } else {
            r == RouteMatch::MethodNotAllowed
        }
    } else if p == root_path() {
        r == if m == Method::Get {
            RouteMatch::Home
        } else {
            RouteMatch::MethodNotAllowed
        }
    } else if p == query_path() {
        r == if m == Method::Get {
            RouteMatch::QueryRoute
        } else {
            RouteMatch::MethodNotAllowed
        }
    } else if p == form_path() {
        r == if m == Method::Get {
            RouteMatch::ShowForm
        } else {
            RouteMatch::AcceptForm
        }
    } else if p == json_path() {
        r == if m == Method::Post {
            RouteMatch::AcceptJson
        } else {
            RouteMatch::MethodNotAllowed
        }
    } else if p == parse_err_path() {
        r == if m == Method::Post {
            RouteMatch::HandleParsingError
        } else {
            RouteMatch::MethodNotAllowed
        }
    } else if p == handler_return_path() {
        r == if m == Method::Post {
            RouteMatch::HandlerReturn
        } else {
            RouteMatch::MethodNotAllowed
        }
    } else if p == db_path() {
        r == if m == Method::Get {
            RouteMatch::QueryFromDb
        } else {
            RouteMatch::MethodNotAllowed
        }
    } else {
        r == RouteMatch::NoRoute
    }
}

/// Matches a request against the table.
pub fn match_route(method: Method, path: &[u8]) -> (r: RouteMatch)
    ensures
        route_matches(method, path@, r),
{
    let get = match method {
        Method::Get => true,
        Method::Post => false,
    };
    let tp = "/returnTemplate/".as_bytes();
    let k = tp.len();
    let n = path.len();
    if n > k {
        let head = vstd::slice::slice_subrange(path, 0, k);
        proof {
            assert(head@ =~= path@.take(k as int));
        }
        if bytes_eq(head, tp) {
            let name = vstd::slice::slice_subrange(path, k, n);
            proof {
                assert(name@ =~= template_name(path@));
            }
            let j = find_byte(name, 0, 47);
            proof {
                assert(name@.skip(0) =~= name@);
            }
            if j == name.len() {
                return if get {
                    RouteMatch::ReturnTemplate(vstd::slice::slice_to_vec(name))
                } else {
                    RouteMatch::MethodNotAllowed
                };
            }
        }
    }
    if bytes_eq(path, "/".as_bytes()) {
        return if get {
            RouteMatch::Home
        } else {
            RouteMatch::MethodNotAllowed
        };
    }
    if bytes_eq(path, "/query".as_bytes()) {
        return if get {
            RouteMatch::QueryRoute
        } else {
            RouteMatch::MethodNotAllowed
        };
    }
    if bytes_eq(path, "/form".as_bytes()) {
        return if get {
            RouteMatch::ShowForm
        } else {
            RouteMatch::AcceptForm
        };
    }
    if bytes_eq(path, "/json".as_bytes()) {
        return if get {
            RouteMatch::MethodNotAllowed
        } else {
            RouteMatch::AcceptJson
        };
    }
    if bytes_eq(path, "/handleParsingError".as_bytes()) {
        return if get {
            RouteMatch::MethodNotAllowed
        } else {
            RouteMatch::HandleParsingError
        };
    }
    if bytes_eq(path, "/handlerReturn".as_bytes()) {
        return if get {
            RouteMatch::MethodNotAllowed
        } else {
            RouteMatch::HandlerReturn
        };
    }
    if bytes_eq(path, "/query_from_db".as_bytes()) {
        return if get {
            RouteMatch::QueryFromDb
        } else {
            RouteMatch::MethodNotAllowed
        };
    }
    RouteMatch::NoRoute
}

/// What the dispatcher decides for one request: a finished response, or the
/// one piece of outside work that must happen first.
#[derive(Debug, PartialEq, Eq)]
pub enum Dispatched {
    /// The response is settled.
    Done(Response),
    /// Run the fixed database query, then finish with
    /// `query_from_db_response`.
    NeedDb,
    /// Render the named template, then finish with `template_response`.
    RenderTemplate(Vec<u8>),
    /// Probe the disk as the plan says, then finish with `static_outcome`.
    Probe(StaticPlan),
}

/// Dispatches one request: route match first, then the route's decoder and
/// selector; a known path under the wrong method is a bare 405; a request no
/// route claims earns its static-resolution plan.
pub fn dispatch(
    method: Method,
    path: &[u8],
    raw_query: Option<&[u8]>,
    content_type: Option<&[u8]>,
    body: Option<&[u8]>,
) -> (r: Dispatched)
    ensures
        ({
            let p = path@;
            let qv = match raw_query {
                Some(b) => b@,
                None => Seq::<u8>::empty(),
            };
            let ctv = match content_type {
                Some(h) => Some(h@),
                None => None::<Seq<u8>>,
            };
            let bv = match body {
                Some(b) => Some(b@),
                None => None::<Seq<u8>>,
            };
            &&& (route_matches(method, p, RouteMatch::Home) ==> (r matches Dispatched::Done(
                resp,
            ) && resp matches Response::Html(b) && b@ == home_body()))
            &&& (route_matches(method, p, RouteMatch::QueryRoute) ==> (r
                matches Dispatched::Done(resp) && query_route_resp(qv, resp)))
            &&& (route_matches(method, p, RouteMatch::ShowForm) ==> (r matches Dispatched::Done(
                resp,
            ) && resp matches Response::Html(b) && b@ == form_page_body()))
            &&& (route_matches(method, p, RouteMatch::AcceptForm) ==> (r
                matches Dispatched::Done(resp) && form_route_resp(bv, resp)))
            &&& (route_matches(method, p, RouteMatch::AcceptJson) ==> (r
                matches Dispatched::Done(resp) && json_route_resp(ctv, bv, resp)))
            &&& (route_matches(method, p, RouteMatch::HandleParsingError) ==> (r
                matches Dispatched::Done(resp) && resp matches Response::Status(s, b) && s == 200
                && b@ == Seq::<char>::empty()))
            &&& (route_matches(method, p, RouteMatch::HandlerReturn) ==> (r
                matches Dispatched::Done(resp) && handler_return_resp(ctv, bv, resp)))
            &&& (route_matches(method, p, RouteMatch::QueryFromDb) ==> r is NeedDb)
            &&& (matches_template(p) && method == Method::Get ==> (r
                matches Dispatched::RenderTemplate(nm) && nm@ == template_name(p)))
            &&& (route_matches(method, p, RouteMatch::MethodNotAllowed) ==> (r
                matches Dispatched::Done(resp) && resp matches Response::Status(s, b) && s == 405
                && b@ == Seq::<char>::empty()))
            &&& (route_matches(method, p, RouteMatch::NoRoute) ==> (r matches Dispatched::Probe(
                plan,
            ) && plan_matches(p, plan)))
        }),
{
    match match_route(method, path) {
        RouteMatch::Home => Dispatched::Done(home_response()),
        RouteMatch::QueryRoute => Dispatched::Done(query_route_response(raw_query)),
        RouteMatch::ShowForm => Dispatched::Done(show_form_response()),
        RouteMatch::AcceptForm => Dispatched::Done(form_route_response(body)),
        RouteMatch::AcceptJson => Dispatched::Done(json_route_response(content_type, body)),
        RouteMatch::HandleParsingError => {
            let (_failure, resp) = parsing_error_report(content_type, body);
            Dispatched::Done(resp)
        },
        RouteMatch::HandlerReturn => Dispatched::Done(
            handler_return_route_response(content_type, body),
        ),
        RouteMatch::ReturnTemplate(name) => Dispatched::RenderTemplate(name),
        RouteMatch::QueryFromDb => Dispatched::NeedDb,
        RouteMatch::MethodNotAllowed => Dispatched::Done(Response::Status(405, String::new())),
        RouteMatch::NoRoute => Dispatched::Probe(static_plan(path)),
    }
}

/// The per-request phases of the dispatcher. Every request starts at
/// `Matching` and ends at `Responded`; the phases between them are the route
/// table, the matched route's decoder and handler, and the static resolver
/// with its terminal miss.
#[derive(Clone, Copy, Debug, PartialEq, Eq, Structural)]
pub enum Phase {
    Matching,
    Decoding,
    Handling,
    ResolvingStatic,
    Missing,
    Responded,
}

/// How many steps a phase is from `Responded` at most.
pub open spec fn phase_rank(s: Phase) -> nat {
    match s {
        Phase::Matching => 3,
        Phase::Decoding => 2,
        Phase::ResolvingStatic => 2,
        Phase::Handling => 1,
        Phase::Missing => 1,
        Phase::Responded => 0,
    }
}

/// One transition of the dispatcher's machine. The flag carries the phase's
/// own outcome: a route matched, a decode succeeded, a file was hit. The
/// transitions are exactly these: matching leads to decoding on a match and
/// to the static resolver otherwise; a decode failure is answered at once
/// and a success is handled; handling always answers; a static hit answers
/// and a miss goes to the terminal not-found phase, which answers; and an
/// answered request stays answered.
pub fn advance(s: Phase, ok: bool) -> (r: Phase)
    ensures
        s == Phase::Matching ==> r == if ok {
            Phase::Decoding
        } else {
            Phase::ResolvingStatic
        },
        s == Phase::Decoding ==> r == if ok {
            Phase::Handling
        } else {
            Phase::Responded
        },
        s == Phase::Handling ==> r == Phase::Responded,
        s == Phase::ResolvingStatic ==> r == if ok {
            Phase::Responded
        } else {
            Phase::Missing
        },
        s == Phase::Missing ==> r == Phase::Responded,
        s == Phase::Responded ==> r == Phase::Responded,
        s != Phase::Responded ==> phase_rank(r) < phase_rank(s),
{
    match s {
        Phase::Matching => if ok {
            Phase::Decoding
        } else {
            Phase::ResolvingStatic
        },
        Phase::Decoding => if ok {
            Phase::Handling
        } else {
            Phase::Responded
        },
        Phase::Handling => Phase::Responded,
        Phase::ResolvingStatic => if ok {
            Phase::Responded
        } else {
            Phase::Missing
        },
        Phase::Missing => Phase::Responded,
        Phase::Responded => Phase::Responded,
    }
}

} // verus!
