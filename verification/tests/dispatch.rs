//! Dispatching: the route table, the static fallback chain, the lease pool,
//! and the response selectors.

use webcore::assets::static_outcome;
use webcore::assets::static_plan;
use webcore::assets::StaticOutcome;
use webcore::assets::StaticPlan;
use webcore::json::Submission;
use webcore::pool::AcquireOutcome;
use webcore::pool::LeasePool;
use webcore::pool::run_pooled_read;
use webcore::pool::fixed_query_text;
use webcore::respond::handler_return_response;
use webcore::respond::handler_return_route_response;
use webcore::respond::home_response;
use webcore::respond::not_found_response;
use webcore::respond::parsing_error_report;
use webcore::respond::query_from_db_response;
use webcore::respond::template_response;
use webcore::respond::Response;
use webcore::routes::dispatch;
use webcore::routes::match_route;
use webcore::routes::Dispatched;
use webcore::routes::Method;
use webcore::routes::Phase;
use webcore::routes::advance;
use webcore::routes::RouteMatch;
use webcore::failure::DecodeFailure;

#[test]
fn route_table_exact_paths() {
    assert_eq!(match_route(Method::Get, b"/"), RouteMatch::Home);
    assert_eq!(match_route(Method::Post, b"/"), RouteMatch::MethodNotAllowed);
    assert_eq!(match_route(Method::Get, b"/query"), RouteMatch::QueryRoute);
    assert_eq!(match_route(Method::Get, b"/form"), RouteMatch::ShowForm);
    assert_eq!(match_route(Method::Post, b"/form"), RouteMatch::AcceptForm);
    assert_eq!(match_route(Method::Post, b"/json"), RouteMatch::AcceptJson);
    assert_eq!(
        match_route(Method::Post, b"/handleParsingError"),
        RouteMatch::HandleParsingError
    );
    assert_eq!(
        match_route(Method::Post, b"/handlerReturn"),
        RouteMatch::HandlerReturn
    );
    assert_eq!(
        match_route(Method::Get, b"/query_from_db"),
        RouteMatch::QueryFromDb
    );
    assert_eq!(match_route(Method::Get, b"/elsewhere"), RouteMatch::NoRoute);
}

#[test]
fn route_table_template_variable() {
    assert_eq!(
        match_route(Method::Get, b"/returnTemplate/alice"),
        RouteMatch::ReturnTemplate(b"alice".to_vec())
    );
    assert_eq!(
        match_route(Method::Get, b"/returnTemplate/a/b"),
        RouteMatch::NoRoute
    );
    assert_eq!(match_route(Method::Get, b"/returnTemplate/"), RouteMatch::NoRoute);
}

#[test]
fn primary_mount_miss_is_final() {
    let plan = static_plan(b"/assets/missing-file");
    assert_eq!(plan, StaticPlan::TryPrimary(b"missing-file".to_vec()));
    // even with the override file present, a primary miss serves nothing
    assert_eq!(static_outcome(plan, false, true), StaticOutcome::NotFound);
    let plan = static_plan(b"/assets/style.css");
    assert_eq!(
        static_outcome(plan, true, true),
        StaticOutcome::ServePrimary(b"style.css".to_vec())
    );
}

#[test]
fn secondary_mount_miss_serves_override() {
    let plan = static_plan(b"/assets2/missing-file");
    assert_eq!(plan, StaticPlan::TrySecondary(b"missing-file".to_vec()));
    assert_eq!(static_outcome(plan, false, true), StaticOutcome::ServeOverride);
    let plan = static_plan(b"/assets2/present.txt");
    assert_eq!(
        static_outcome(plan, true, true),
        StaticOutcome::ServeSecondary(b"present.txt".to_vec())
    );
}

#[test]
fn unrouted_path_falls_back_then_404() {
    let plan = static_plan(b"/nonexistent/random/path");
    assert_eq!(
        plan,
        StaticPlan::TryFallback(b"nonexistent/random/path".to_vec())
    );
    let plan2 = static_plan(b"/nonexistent/random/path");
    assert_eq!(static_outcome(plan, false, true), StaticOutcome::ServeOverride);
    assert_eq!(static_outcome(plan2, false, false), StaticOutcome::NotFound);
    match not_found_response() {
        Response::Status(code, body) => {
            assert_eq!(code, 404);
            assert_eq!(body, "Nothing to see here!");
        }
        other => panic!("unexpected response {:?}", other),
    }
}

#[test]
fn traversal_is_rejected_not_served() {
    let plan = static_plan(b"/assets/../secret");
    assert_eq!(plan, StaticPlan::Reject);
    assert_eq!(static_outcome(plan, true, true), StaticOutcome::NotFound);
    let plan = static_plan(b"/assets2/a/../../x");
    assert_eq!(plan, StaticPlan::Reject);
}

#[test]
fn pool_excess_requests_wait_until_release() {
    let mut pool = LeasePool::new(2);
    assert_eq!(pool.acquire(), AcquireOutcome::Granted);
    assert_eq!(pool.acquire(), AcquireOutcome::Granted);
    // the pool is exhausted: the next request waits, it does not fail
    assert_eq!(pool.acquire(), AcquireOutcome::MustWait);
    assert_eq!(pool.acquire(), AcquireOutcome::MustWait);
    pool.release();
    assert_eq!(pool.acquire(), AcquireOutcome::Granted);
}

#[test]
fn pool_lease_roundtrip_observable() {
    let mut pool = LeasePool::new(1);
    assert_eq!(pool.acquire(), AcquireOutcome::Granted);
    pool.release();
    // the lease is observably back: a subsequent call is granted at once
    assert_eq!(pool.acquire(), AcquireOutcome::Granted);
}

#[test]
fn fixed_statement_is_one_plus_one() {
    assert_eq!(fixed_query_text(), "select 1 + 1");
}

#[test]
fn db_route_returns_two_as_text() {
    // the fixed statement evaluates one plus one; the route answers "2"
    assert_eq!(query_from_db_response(Ok(2)), Response::Text("2".to_owned()));
}

#[test]
fn db_route_failure_is_500_with_error_text() {
    assert_eq!(
        query_from_db_response(Err("connection refused".to_owned())),
        Response::Status(500, "connection refused".to_owned())
    );
}

#[test]
fn handler_return_envelope_or_redirect() {
    let sub = Submission {
        name: "alice".to_owned(),
        email: "a@b.com".to_owned(),
    };
    assert_eq!(
        handler_return_response(&sub),
        Response::Json("{\"result\":\"ok\",\"number\":1}".to_owned())
    );
    let sub = Submission {
        name: String::new(),
        email: "a@b.com".to_owned(),
    };
    assert_eq!(handler_return_response(&sub), Response::Redirect("/".to_owned()));
}

#[test]
fn handler_return_route_end_to_end() {
    let r = handler_return_route_response(
        Some(b"application/json"),
        Some(br#"{"name":"alice","email":"a@b.com"}"#),
    );
    assert_eq!(r, Response::Json("{\"result\":\"ok\",\"number\":1}".to_owned()));
    let r = handler_return_route_response(
        Some(b"application/json"),
        Some(br#"{"name":"","email":"a@b.com"}"#),
    );
    assert_eq!(r, Response::Redirect("/".to_owned()));
}

#[test]
fn parsing_error_route_always_empty_200() {
    let (tag, resp) = parsing_error_report(None, Some(b"{}"));
    assert_eq!(tag, Some(DecodeFailure::MissingContentType));
    assert_eq!(resp, Response::Status(200, String::new()));
    let (tag, resp) = parsing_error_report(Some(b"application/json"), Some(b"{oops"));
    assert_eq!(tag, Some(DecodeFailure::BodySyntaxError));
    assert_eq!(resp, Response::Status(200, String::new()));
    let (tag, resp) = parsing_error_report(
        Some(b"application/json"),
        Some(br#"{"name":"a","email":"b"}"#),
    );
    assert_eq!(tag, None);
    assert_eq!(resp, Response::Status(200, String::new()));
}

#[test]
fn template_route_passes_text_verbatim() {
    assert_eq!(
        template_response("Hello, alice!"),
        Response::Text("Hello, alice!".to_owned())
    );
}

#[test]
fn dispatch_fixed_routes() {
    let r = dispatch(Method::Get, b"/", None, None, None);
    assert_eq!(r, Dispatched::Done(home_response()));
    let r = dispatch(Method::Get, b"/query_from_db", None, None, None);
    assert_eq!(r, Dispatched::NeedDb);
    let r = dispatch(Method::Get, b"/returnTemplate/bob", None, None, None);
    assert_eq!(r, Dispatched::RenderTemplate(b"bob".to_vec()));
    let r = dispatch(Method::Post, b"/query_from_db", None, None, None);
    assert_eq!(
        r,
        Dispatched::Done(Response::Status(405, String::new()))
    );
}

#[test]
fn dispatch_query_route() {
    let r = dispatch(Method::Get, b"/query", Some(b"foo=1&bar=x"), None, None);
    assert_eq!(r, Dispatched::Done(Response::Html("<h3>Test query</h3>".to_owned())));
    let r = dispatch(Method::Get, b"/query", Some(b"bar=x"), None, None);
    assert_eq!(r, Dispatched::Done(Response::Status(400, String::new())));
    let r = dispatch(Method::Get, b"/query", None, None, None);
    assert_eq!(r, Dispatched::Done(Response::Status(400, String::new())));
}

#[test]
fn dispatch_unrouted_goes_to_fallback_chain() {
    let r = dispatch(Method::Get, b"/no/such/route", None, None, None);
    assert_eq!(
        r,
        Dispatched::Probe(StaticPlan::TryFallback(b"no/such/route".to_vec()))
    );
}

#[test]
fn pooled_read_returns_lease_on_every_path() {
    let mut pool = LeasePool::new(1);
    let r = run_pooled_read(&mut pool, Ok(2));
    assert_eq!(r, Some(Response::Text("2".to_owned())));
    // the lease came back: the same pool serves the failing read too
    let r = run_pooled_read(&mut pool, Err("boom".to_owned()));
    assert_eq!(r, Some(Response::Status(500, "boom".to_owned())));
    // and a third read still finds a free lease
    let r = run_pooled_read(&mut pool, Ok(2));
    assert_eq!(r, Some(Response::Text("2".to_owned())));
}

#[test]
fn dispatcher_phases_reach_responded() {
    // route matched, decode ok, handled
    let s = advance(Phase::Matching, true);
    assert_eq!(s, Phase::Decoding);
    let s = advance(s, true);
    assert_eq!(s, Phase::Handling);
    let s = advance(s, true);
    assert_eq!(s, Phase::Responded);
    // no route, file miss, terminal not-found answer
    let s = advance(Phase::Matching, false);
    assert_eq!(s, Phase::ResolvingStatic);
    let s = advance(s, false);
    assert_eq!(s, Phase::Missing);
    let s = advance(s, false);
    assert_eq!(s, Phase::Responded);
    // a decode failure is answered at once
    assert_eq!(advance(Phase::Decoding, false), Phase::Responded);
}
