//! The response selector: given a decoded input, or a collaborator's result,
//! the one response representation each route owes.
//!
//! A response here is a shape, not a wire format: an HTML page, plain text, a
//! JSON body, a redirect to a fixed path, or a bare status with a body. The
//! process around the library turns the shape into an actual reply.

use vstd::prelude::*;

use crate::failure::DecodeFailure;
use crate::failure::spec_failure_status;
use crate::failure::failure_status;
use crate::json::Submission;
use crate::json::spec_is_json_content_type;
use crate::json::json_syntax_ok;
use crate::json::json_string_field;
use crate::json::submission_fields_ok;
use crate::json::decode_json_submission;
use crate::numeric::int_chars;
use crate::numeric::i32_to_string;
use crate::query::query_accepts;
use crate::query::form_accepts;
use crate::query::decode_query_params;
use crate::query::decode_form_submission;

verus! {

/// One chosen response shape.
#[derive(Debug, PartialEq, Eq)]
pub enum Response {
    /// A 200 page of HTML.
    Html(String),
    /// A 200 body of plain text.
    Text(String),
    /// A 200 body of JSON.
    Json(String),
    /// A redirect to the named path.
    Redirect(String),
    /// A bare status with a plain body.
    Status(u16, String),
}

pub open spec fn home_body() -> Seq<char> {
    "<h1>Hello, World!</h1>"@
}

pub open spec fn query_ok_body() -> Seq<char> {
    "<h3>Test query</h3>"@
}

pub open spec fn form_ok_body() -> Seq<char> {
    "<h3>Form posted</h3>"@
}

pub open spec fn json_ok_body() -> Seq<char> {
    "<h3>Json posted</h3>"@
}

pub open spec fn not_found_text() -> Seq<char> {
    "Nothing to see here!"@
}

/// The success envelope of the submission route.
pub open spec fn ok_envelope() -> Seq<char> {
    "{\"result\":\"ok\",\"number\":1}"@
}

pub open spec fn root_redirect() -> Seq<char> {
    "/"@
}

/// The fixed greeting of the root route.
pub fn home_response() -> (r: Response)
    ensures
        r matches Response::Html(b) && b@ == home_body(),
{
    Response::Html("<h1>Hello, World!</h1>".to_owned())
}

/// The static form page.
pub fn show_form_response() -> (r: Response)
    ensures
        r matches Response::Html(b) && b@ == form_page_body(),
{
    Response::Html(form_page().to_owned())
}

pub open spec fn form_page_body() -> Seq<char> {
    "\n        <!doctype html>\n        <html>\n            <head></head>\n            <body>\n                <form action=\"/form\" method=\"post\">\n                    <label for=\"name\">\n                        Enter your name:\n                        <input type=\"text\" name=\"name\">\n                    </label>\n\n                    <label>\n                        Enter your email:\n                        <input type=\"text\" name=\"email\">\n                    </label>\n\n                    <input type=\"submit\" value=\"Subscribe!\">\n                </form>\n            </body>\n        </html>\n        "@
}

fn form_page() -> (r: &'static str)
    ensures
        r@ == form_page_body(),
{
    "\n        <!doctype html>\n        <html>\n            <head></head>\n            <body>\n                <form action=\"/form\" method=\"post\">\n                    <label for=\"name\">\n                        Enter your name:\n                        <input type=\"text\" name=\"name\">\n                    </label>\n\n                    <label>\n                        Enter your email:\n                        <input type=\"text\" name=\"email\">\n                    </label>\n\n                    <input type=\"submit\" value=\"Subscribe!\">\n                </form>\n            </body>\n        </html>\n        "
}

/// What the query route answers: the fixed page on a successful decode, a
/// bare 400 on any decode failure — the framework's answer for a bad query
/// string.
pub open spec fn query_route_resp(qv: Seq<u8>, r: Response) -> bool {
    if query_accepts(qv) {
        r matches Response::Html(b) && b@ == query_ok_body()
    } else {
        r matches Response::Status(s, b) && s == 400 && b@ == Seq::<char>::empty()
    }
}

/// The query route: decode, then answer.
pub fn query_route_response(raw_query: Option<&[u8]>) -> (r: Response)
    ensures
        ({
            let qv = match raw_query {
                Some(b) => b@,
                None => Seq::<u8>::empty(),
            };
            query_route_resp(qv, r)
        }),
{
    let decoded = match raw_query {
        Some(b) => decode_query_params(b),
        None => {
            proof {
                assert(crate::query::spec_pairs(Seq::<u8>::empty()) =~= Seq::<(
                    Seq<u8>,
                    Seq<u8>,
                )>::empty());
                assert(!query_accepts(Seq::<u8>::empty()));
            }
            Err(DecodeFailure::BodyDeserializationError)
        },
    };
    match decoded {
        Ok(_) => Response::Html("<h3>Test query</h3>".to_owned()),
        Err(_) => Response::Status(400, String::new()),
    }
}

/// What the form route answers: the fixed page on success, the failure's
/// status with an empty body otherwise; an unreadable body counts as a read
/// failure.
pub open spec fn form_route_resp(body: Option<Seq<u8>>, r: Response) -> bool {
    match body {
        None => r matches Response::Status(s, b) && s == spec_failure_status(
            DecodeFailure::BodyReadError,
        ) && b@ == Seq::<char>::empty(),
        Some(bv) => {
            if form_accepts(bv) {
                r matches Response::Html(b) && b@ == form_ok_body()
            } else {
                r matches Response::Status(s, b) && s == spec_failure_status(
                    DecodeFailure::BodyDeserializationError,
                ) && b@ == Seq::<char>::empty()
            }
        },
    }
}

/// The form route: decode, then answer.
pub fn form_route_response(body: Option<&[u8]>) -> (r: Response)
    ensures
        ({
            let bv = match body {
                Some(b) => Some(b@),
                None => None::<Seq<u8>>,
            };
            form_route_resp(bv, r)
        }),
{
    match body {
        None => Response::Status(failure_status(DecodeFailure::BodyReadError), String::new()),
        Some(b) => match decode_form_submission(b) {
            Ok(_) => Response::Html("<h3>Form posted</h3>".to_owned()),
            Err(f) => Response::Status(failure_status(f), String::new()),
        },
    }
}

/// What the JSON route answers, following the decode classification: 415
/// without a JSON content type, 400 for an unreadable or ill-formed body,
/// the fixed page exactly when the well-formed body carries both string
/// fields, and the 422 shape mismatch exactly when it does not.
pub open spec fn json_route_resp(ct: Option<Seq<u8>>, body: Option<Seq<u8>>, r: Response) -> bool {
    if ct is None || !spec_is_json_content_type(ct.unwrap()) {
        r matches Response::Status(s, b) && s == 415 && b@ == Seq::<char>::empty()
    } else if body is None {
        r matches Response::Status(s, b) && s == 400 && b@ == Seq::<char>::empty()
    } else if !json_syntax_ok(body.unwrap()) {
        r matches Response::Status(s, b) && s == 400 && b@ == Seq::<char>::empty()
    } else if submission_fields_ok(body.unwrap()) {
        r matches Response::Html(b) && b@ == json_ok_body()
    } else {
        r matches Response::Status(s, b) && s == 422 && b@ == Seq::<char>::empty()
    }
}

/// The JSON route: decode, then answer.
pub fn json_route_response(content_type: Option<&[u8]>, body: Option<&[u8]>) -> (r: Response)
    ensures
        ({
            let ctv = match content_type {
                Some(h) => Some(h@),
                None => None::<Seq<u8>>,
            };
            let bv = match body {
                Some(b) => Some(b@),
                None => None::<Seq<u8>>,
            };
            json_route_resp(ctv, bv, r)
        }),
{
    match decode_json_submission(content_type, body) {
        Ok(_) => Response::Html("<h3>Json posted</h3>".to_owned()),
        Err(f) => Response::Status(failure_status(f), String::new()),
    }
}

/// The rejection-handling route: it classifies the decode like the JSON
/// route but answers an empty 200 whatever happened — the classification is
/// only reported, for the caller to log, and it is exact: no tag at all
/// precisely when the well-formed body carries both string fields.
pub fn parsing_error_report(content_type: Option<&[u8]>, body: Option<&[u8]>) -> (r: (
    Option<DecodeFailure>,
    Response,
))
    ensures
        r.1 matches Response::Status(s, b) && s == 200 && b@ == Seq::<char>::empty(),
        ({
            let ctv = match content_type {
                Some(h) => Some(h@),
                None => None::<Seq<u8>>,
            };
            let bv = match body {
                Some(b) => Some(b@),
                None => None::<Seq<u8>>,
            };
            if ctv is None || !spec_is_json_content_type(ctv.unwrap()) {
                r.0 == Some(DecodeFailure::MissingContentType)
            } else if bv is None {
                r.0 == Some(DecodeFailure::BodyReadError)
            } else if !json_syntax_ok(bv.unwrap()) {
                r.0 == Some(DecodeFailure::BodySyntaxError)
            } else if submission_fields_ok(bv.unwrap()) {
                r.0 is None
            } else {
                r.0 == Some(DecodeFailure::BodyDeserializationError)
            }
        }),
{
    let failure = match decode_json_submission(content_type, body) {
        Ok(_) => None,
        Err(f) => Some(f),
    };
    (failure, Response::Status(200, String::new()))
}

/// The submission route's choice: a non-empty name earns the success
/// envelope, an empty name a redirect to the root. (Of the two inverse
/// readings of this rule, the one kept here answers success for a non-empty
/// name.)
pub fn handler_return_response(sub: &Submission) -> (r: Response)
    ensures
        sub.name@.len() > 0 ==> (r matches Response::Json(b) && b@ == ok_envelope()),
        sub.name@.len() == 0 ==> (r matches Response::Redirect(t) && t@ == root_redirect()),
{
    if !sub.name.as_str().is_empty() {
        Response::Json("{\"result\":\"ok\",\"number\":1}".to_owned())
    } else {
        Response::Redirect("/".to_owned())
    }
}

/// What the submission route answers end to end: the decode classification
/// as on the JSON route; past it, 422 exactly when a string field is
/// missing, the envelope exactly for a non-empty name, and the redirect
/// exactly for an empty one.
pub open spec fn handler_return_resp(ct: Option<Seq<u8>>, body: Option<Seq<u8>>, r: Response)
    -> bool {
    if ct is None || !spec_is_json_content_type(ct.unwrap()) {
        r matches Response::Status(s, b) && s == 415 && b@ == Seq::<char>::empty()
    } else if body is None {
        r matches Response::Status(s, b) && s == 400 && b@ == Seq::<char>::empty()
    } else if !json_syntax_ok(body.unwrap()) {
        r matches Response::Status(s, b) && s == 400 && b@ == Seq::<char>::empty()
    } else if !submission_fields_ok(body.unwrap()) {
        r matches Response::Status(s, b) && s == 422 && b@ == Seq::<char>::empty()
    } else if json_string_field(body.unwrap(), "name"@).unwrap().len() > 0 {
        r matches Response::Json(b) && b@ == ok_envelope()
    } else {
        r matches Response::Redirect(t) && t@ == root_redirect()
    }
}

/// The submission route: decode, then choose by the name field.
pub fn handler_return_route_response(content_type: Option<&[u8]>, body: Option<&[u8]>) -> (r:
    Response)
    ensures
        ({
            let ctv = match content_type {
                Some(h) => Some(h@),
                None => None::<Seq<u8>>,
            };
            let bv = match body {
                Some(b) => Some(b@),
                None => None::<Seq<u8>>,
            };
            handler_return_resp(ctv, bv, r)
        }),
{
    match decode_json_submission(content_type, body) {
        Ok(sub) => handler_return_response(&sub),
        Err(f) => Response::Status(failure_status(f), String::new()),
    }
}

/// The template route's answer: the rendered text, verbatim, as a 200.
pub fn template_response(rendered: &str) -> (r: Response)
    ensures
        r matches Response::Text(b) && b@ == rendered@,
{
    Response::Text(rendered.to_owned())
}

/// The pooled-read route's answer: the one integer as decimal text, or the
/// backend failure's text under a 500 — and nothing else, so a backend
/// failure never leaks a success body.
pub fn query_from_db_response(res: Result<i32, String>) -> (r: Response)
    ensures
        res matches Ok(n) ==> r matches Response::Text(b) && b@ == int_chars(n as int),
        res matches Err(m) ==> r matches Response::Status(s, b) && s == 500 && b == m,
{
    match res {
        Ok(n) => Response::Text(i32_to_string(n)),
        Err(m) => Response::Status(500, m),
    }
}

/// The terminal answer of the fallback chain.
pub fn not_found_response() -> (r: Response)
    ensures
        r matches Response::Status(s, b) && s == 404 && b@ == not_found_text(),
{
    Response::Status(404, "Nothing to see here!".to_owned())
}

} // verus!
