//! Typed decoding of a JSON request body into the submission record
//! `{name: string, email: string}`, with a classified failure for every way
//! the decode can go wrong.
//!
//! The classification keeps three causes strictly apart: a request without a
//! JSON content type is rejected before its body is ever parsed; a body that
//! is not well-formed JSON is a syntax failure; well-formed JSON that does
//! not carry the two string fields is a shape failure. Reading the body at
//! all is the transport's affair, so an absent body is its own tag. The
//! parsing itself is serde_json's; everything around it is verified.

use vstd::prelude::*;

use crate::failure::DecodeFailure;
use crate::query::idx_of;

verus! {

#[verifier::external_type_specification]
#[verifier::external_body]
pub struct ExValue(serde_json::Value);

#[verifier::external_type_specification]
#[verifier::external_body]
pub struct ExJsonError(serde_json::Error);

/// Whether a byte string is syntactically well-formed JSON text, as
/// serde_json reads it. The answer depends on the bytes alone.
pub uninterp spec fn json_syntax_ok(b: Seq<u8>) -> bool;

/// Relies on `serde_json::from_slice::<Value>`: parsing into the dynamic
/// `Value` succeeds on exactly the syntactically well-formed JSON texts,
/// since `Value` itself accepts every JSON shape.
#[verifier::external_body]
fn parse_json_value(b: &[u8]) -> (r: Result<serde_json::Value, serde_json::Error>)
    ensures
        (r is Ok) == json_syntax_ok(b@),
{
    serde_json::from_slice::<serde_json::Value>(b)
}

/// The string under `key` when a JSON text parses to an object holding a
/// string there, and nothing otherwise — what serde_json's parse, member
/// lookup and string read yield together. The answer depends on the bytes
/// and the key alone.
pub uninterp spec fn json_string_field(b: Seq<u8>, key: Seq<char>) -> Option<Seq<char>>;

/// Whether a JSON text carries the submission record: both fields present
/// as strings.
pub open spec fn submission_fields_ok(b: Seq<u8>) -> bool {
    json_string_field(b, "name"@) is Some && json_string_field(b, "email"@) is Some
}

/// Relies on `serde_json::from_slice::<Value>`, `Value::get` and
/// `Value::as_str`: the string under `key` in the parsed text, when the text
/// is an object holding a string there. Parsing and lookup are functions of
/// the bytes and the key, so the result carries the name for them.
#[verifier::external_body]
fn json_field_string(b: &[u8], key: &str) -> (r: Option<String>)
    ensures
        match r {
            Some(s) => json_string_field(b@, key@) == Some(s@),
            None => json_string_field(b@, key@) is None,
        },
{
    let v = serde_json::from_slice::<serde_json::Value>(b).ok()?;
    let s = v.get(key)?.as_str()?;
    Some(s.to_owned())
}

/// The decoded submission record.
#[derive(Debug)]
pub struct Submission {
    pub name: String,
    pub email: String,
}

/// Builds the record from the two extracted fields: it succeeds exactly when
/// both fields were present as strings, and any miss is the shape-mismatch
/// failure — never a syntax failure, since syntax was settled before the
/// fields were looked at.
pub fn submission_from_fields(name: Option<String>, email: Option<String>) -> (r: Result<
    Submission,
    DecodeFailure,
>)
    ensures
        name is Some && email is Some ==> (r matches Ok(s) && s.name == name.unwrap()
            && s.email == email.unwrap()),
        name is None || email is None ==> r == Err::<Submission, DecodeFailure>(
            DecodeFailure::BodyDeserializationError,
        ),
{
    match (name, email) {
        (Some(n), Some(e)) => Ok(Submission { name: n, email: e }),
        _ => Err(DecodeFailure::BodyDeserializationError),
    }
}

/// An upper-case ASCII letter lowered, any other byte unchanged.
pub open spec fn ascii_lower(b: u8) -> u8 {
    if 65 <= b <= 90 {
        (b + 32) as u8
    } else {
        b
    }
}

pub open spec fn lower_seq(s: Seq<u8>) -> Seq<u8> {
    s.map_values(|b: u8| ascii_lower(b))
}

pub open spec fn is_blank(b: u8) -> bool {
    b == 32 || b == 9
}

pub open spec fn trim_start(s: Seq<u8>) -> Seq<u8>
    decreases s.len(),
{
    if s.len() > 0 && is_blank(s[0]) {
        trim_start(s.skip(1))
    } else {
        s
    }
}

pub open spec fn trim_end(s: Seq<u8>) -> Seq<u8>
    decreases s.len(),
{
    if s.len() > 0 && is_blank(s.last()) {
        trim_end(s.drop_last())
    } else {
        s
    }
}

pub open spec fn trim(s: Seq<u8>) -> Seq<u8> {
    trim_end(trim_start(s))
}

/// The media type of a content-type header: what stands before the first
/// `;`, blanks stripped, lowered.
pub open spec fn spec_media_type(h: Seq<u8>) -> Seq<u8> {
    lower_seq(trim(h.take(idx_of(h, 59))))
}

/// The bytes of `application/json`.
pub open spec fn json_media_type() -> Seq<u8> {
    seq![97u8, 112u8, 112u8, 108u8, 105u8, 99u8, 97u8, 116u8, 105u8, 111u8, 110u8, 47u8,
        106u8, 115u8, 111u8, 110u8]
}

/// The bytes of `+json`.
pub open spec fn plus_json() -> Seq<u8> {
    seq![43u8, 106u8, 115u8, 111u8, 110u8]
}

/// When a content-type header announces JSON: the media type is
/// `application/json` itself, or an `application/…+json` variant. Parameters
/// after `;` and letter case never matter.
pub open spec fn spec_is_json_content_type(h: Seq<u8>) -> bool {
    let mt = spec_media_type(h);
    mt == json_media_type() || (mt.len() >= 17 && mt.take(12) == json_media_type().take(12)
        && mt.skip(mt.len() - 5) == plus_json())
}

proof fn lemma_trim_start_at(s: Seq<u8>, a: int)
    requires
        0 <= a <= s.len(),
        forall|k: int| 0 <= k < a ==> is_blank(s[k]),
        a < s.len() ==> !is_blank(s[a]),
    ensures
        trim_start(s) == s.skip(a),
    decreases a,
{
    if a == 0 {
        assert(s.skip(0) =~= s);
    } else {
        assert(is_blank(s[0]));
        assert(forall|k: int| 0 <= k < s.skip(1).len() ==> s.skip(1)[k] == s[k + 1]);
        lemma_trim_start_at(s.skip(1), a - 1);
        assert(s.skip(1).skip(a - 1) =~= s.skip(a));
    }
}

proof fn lemma_trim_end_at(s: Seq<u8>, e: int)
    requires
        0 <= e <= s.len(),
        forall|k: int| e <= k < s.len() ==> is_blank(s[k]),
        e > 0 ==> !is_blank(s[e - 1]),
    ensures
        trim_end(s) == s.take(e),
    decreases s.len(),
{
    if e == s.len() {
        assert(s.take(e) =~= s);
        if s.len() > 0 {
            assert(!is_blank(s.last()));
        }
    } else {
        assert(is_blank(s.last()));
        assert(forall|k: int| 0 <= k < s.drop_last().len() ==> s.drop_last()[k] == s[k]);
        lemma_trim_end_at(s.drop_last(), e);
        assert(s.drop_last().take(e) =~= s.take(e));
    }
}

/// The media type of a raw header, lowered and stripped, as executable code.
fn media_type(h: &[u8]) -> (out: Vec<u8>)
    ensures
        out@ == spec_media_type(h@),
{
    let e0 = crate::query::find_byte(h, 0, 59);
    let ghost cut = h@.take(e0 as int);
    proof {
        assert(h@.skip(0) =~= h@);
        assert(forall|k: int| 0 <= k < cut.len() ==> cut[k] == h@[k]);
    }
    let mut a: usize = 0;
    while a < e0 && (h[a] == 32 || h[a] == 9)
        invariant
            a <= e0,
            e0 <= h@.len(),
            cut == h@.take(e0 as int),
            forall|k: int| 0 <= k < a ==> is_blank(cut[k]),
        decreases e0 - a,
    {
        a = a + 1;
    }
    let mut e: usize = e0;
    while e > a && (h[e - 1] == 32 || h[e - 1] == 9)
        invariant
            a <= e <= e0,
            e0 <= h@.len(),
            cut == h@.take(e0 as int),
            forall|k: int| 0 <= k < a ==> is_blank(cut[k]),
            a < e0 ==> !is_blank(cut[a as int]),
            forall|k: int| e <= k < e0 ==> is_blank(cut[k]),
        decreases e,
    {
        e = e - 1;
    }
    proof {
        lemma_trim_start_at(cut, a as int);
        let t = cut.skip(a as int);
        assert(forall|k: int| 0 <= k < t.len() ==> t[k] == cut[k + a]);
        lemma_trim_end_at(t, e - a);
        assert(trim(cut) == cut.skip(a as int).take(e - a));
    }
    let mut out: Vec<u8> = Vec::new();
    let mut i: usize = a;
    proof {
        assert(h@.subrange(a as int, a as int) =~= Seq::<u8>::empty());
        assert(lower_seq(h@.subrange(a as int, a as int)) =~= Seq::<u8>::empty());
    }
    while i < e
        invariant
            a <= i <= e,
            e <= e0 <= h@.len(),
            out@ == lower_seq(h@.subrange(a as int, i as int)),
        decreases e - i,
    {
        let b = h[i];
        let low = if 65 <= b && b <= 90 {
            b + 32
        } else {
            b
        };
        out.push(low);
        proof {
            assert(out@ =~= lower_seq(h@.subrange(a as int, i + 1)));
        }
        i = i + 1;
    }
    proof {
        assert(h@.subrange(a as int, e as int) =~= cut.skip(a as int).take(e - a));
        assert(out@ == spec_media_type(h@));
    }
    out
}

fn json_media_type_vec() -> (r: Vec<u8>)
    ensures
        r@ == json_media_type(),
{
    let mut v: Vec<u8> = Vec::new();
    v.push(97);
    v.push(112);
    v.push(112);
    v.push(108);
    v.push(105);
    v.push(99);
    v.push(97);
    v.push(116);
    v.push(105);
    v.push(111);
    v.push(110);
    v.push(47);
    v.push(106);
    v.push(115);
    v.push(111);
    v.push(110);
    proof {
        assert(v@ =~= json_media_type());
    }
    v
}

fn plus_json_vec() -> (r: Vec<u8>)
    ensures
        r@ == plus_json(),
{
    let mut v: Vec<u8> = Vec::new();
    v.push(43);
    v.push(106);
    v.push(115);
    v.push(111);
    v.push(110);
    proof {
        assert(v@ =~= plus_json());
    }
    v
}

/// Whether a raw content-type header announces JSON.
pub fn is_json_content_type(h: &[u8]) -> (r: bool)
    ensures
        r == spec_is_json_content_type(h@),
{
    let mt = media_type(h);
    let jmt = json_media_type_vec();
    let n = mt.len();
    if crate::query::bytes_eq(mt.as_slice(), jmt.as_slice()) {
        return true;
    }
    if n >= 17 {
        let pre = vstd::slice::slice_subrange(mt.as_slice(), 0, 12);
        let jpre = vstd::slice::slice_subrange(jmt.as_slice(), 0, 12);
        let suf = vstd::slice::slice_subrange(mt.as_slice(), n - 5, n);
        let pj = plus_json_vec();
        proof {
            assert(mt@.subrange(0, 12) =~= mt@.take(12));
            assert(jmt@.subrange(0, 12) =~= json_media_type().take(12));
            assert(mt@.subrange(n - 5, n as int) =~= mt@.skip(n - 5));
        }
        crate::query::bytes_eq(pre, jpre) && crate::query::bytes_eq(suf, pj.as_slice())
    } else {
        false
    }
}

/// Decodes a JSON request body into the submission record.
///
/// Success and failure are pinned down: no or a non-JSON content type is
/// `MissingContentType` before anything else is looked at; an unreadable body
/// is `BodyReadError`; a body that is not well-formed JSON is
/// `BodySyntaxError` and nothing else; a well-formed body without both
/// string fields is the shape mismatch `BodyDeserializationError` — the two
/// parse-stage tags can never be conflated — and a well-formed body carrying
/// both fields decodes to exactly their values.
pub fn decode_json_submission(content_type: Option<&[u8]>, body: Option<&[u8]>) -> (r: Result<
    Submission,
    DecodeFailure,
>)
    ensures
        match content_type {
            None => r == Err::<Submission, DecodeFailure>(DecodeFailure::MissingContentType),
            Some(h) => {
                if !spec_is_json_content_type(h@) {
                    r == Err::<Submission, DecodeFailure>(DecodeFailure::MissingContentType)
                } else {
                    match body {
                        None => r == Err::<Submission, DecodeFailure>(
                            DecodeFailure::BodyReadError,
                        ),
                        Some(b) => {
                            if !json_syntax_ok(b@) {
                                r == Err::<Submission, DecodeFailure>(
                                    DecodeFailure::BodySyntaxError,
                                )
                            } else if submission_fields_ok(b@) {
                                r matches Ok(s) && Some(s.name@) == json_string_field(
                                    b@,
                                    "name"@,
                                ) && Some(s.email@) == json_string_field(b@, "email"@)
                            } else {
                                r == Err::<Submission, DecodeFailure>(
                                    DecodeFailure::BodyDeserializationError,
                                )
                            }
                        },
                    }
                }
            },
        },
{
    let h = match content_type {
        Some(h) => h,
        None => {
            return Err(DecodeFailure::MissingContentType);
        },
    };
    if !is_json_content_type(h) {
        return Err(DecodeFailure::MissingContentType);
    }
    let b = match body {
        Some(b) => b,
        None => {
            return Err(DecodeFailure::BodyReadError);
        },
    };
    if parse_json_value(b).is_err() {
        return Err(DecodeFailure::BodySyntaxError);
    }
    let name = json_field_string(b, "name");
    let email = json_field_string(b, "email");
    submission_from_fields(name, email)
}

} // verus!
