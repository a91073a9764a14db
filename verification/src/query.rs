//! Typed decoding of form-encoded key/value text: the query-string record
//! `{foo: integer, bar: string, third: optional integer}`.
//!
//! The raw text is split on `&` into segments, each segment on its first `=`
//! into a key and a value, and both halves are percent-decoded with `+`
//! standing for a space. Empty segments are skipped. A record decodes
//! successfully exactly when `foo` appears once with an integer value, `bar`
//! appears once with a value whose bytes are valid UTF-8, and `third` appears
//! at most once, with an integer value when it does; keys outside those three
//! are ignored. Any other input is a classified decode failure.

use vstd::prelude::*;

use crate::failure::DecodeFailure;
use crate::numeric::spec_parse_i32;
use crate::numeric::parse_i32_bytes;
use vstd::utf8::valid_utf8;
use vstd::utf8::decode_utf8;
use crate::json::Submission;

verus! {

/// The index of the first occurrence of `b` in `s`, or `s.len()` when `b`
/// does not occur.
pub open spec fn idx_of(s: Seq<u8>, b: u8) -> int
    decreases s.len(),
{
    if s.len() == 0 {
        0
    } else if s[0] == b {
        0
    } else {
        1 + idx_of(s.skip(1), b)
    }
}

pub proof fn lemma_idx_of(s: Seq<u8>, b: u8)
    ensures
        0 <= idx_of(s, b) <= s.len(),
        idx_of(s, b) < s.len() ==> s[idx_of(s, b)] == b,
        forall|k: int| 0 <= k < idx_of(s, b) ==> s[k] != b,
    decreases s.len(),
{
    if s.len() > 0 && s[0] != b {
        lemma_idx_of(s.skip(1), b);
        assert forall|k: int| 0 <= k < idx_of(s, b) implies s[k] != b by {
            if k > 0 {
                assert(s.skip(1)[k - 1] == s[k]);
            }
        }
    }
}

pub proof fn lemma_idx_of_unique(s: Seq<u8>, b: u8, j: int)
    requires
        0 <= j <= s.len(),
        j < s.len() ==> s[j] == b,
        forall|k: int| 0 <= k < j ==> s[k] != b,
        j == s.len() ==> forall|k: int| 0 <= k < s.len() ==> s[k] != b,
    ensures
        idx_of(s, b) == j,
    decreases s.len(),
{
    if s.len() == 0 {
    } else if s[0] == b {
        assert(j == 0);
    } else {
        assert(j >= 1);
        assert(forall|k: int| 0 <= k < s.skip(1).len() ==> s.skip(1)[k] == s[k + 1]);
        lemma_idx_of_unique(s.skip(1), b, j - 1);
    }
}

/// Whether a byte is an ASCII hexadecimal digit.
pub open spec fn is_hex_digit(b: u8) -> bool {
    48 <= b <= 57 || 65 <= b <= 70 || 97 <= b <= 102
}

/// The value of an ASCII hexadecimal digit.
pub open spec fn hex_val(b: u8) -> int {
    if 48 <= b <= 57 {
        b - 48
    } else if 65 <= b <= 70 {
        b - 55
    } else if 97 <= b <= 102 {
        b - 87
    } else {
        0
    }
}

/// Percent-decoding of one key or value: `+` becomes a space, `%` followed by
/// two hexadecimal digits becomes the named byte, and anything else — a lone
/// or ill-formed `%` included — passes through unchanged.
pub open spec fn spec_component_decode(s: Seq<u8>) -> Seq<u8>
    decreases s.len(),
{
    if s.len() == 0 {
        Seq::empty()
    } else if s[0] == 43 {
        seq![32u8] + spec_component_decode(s.skip(1))
    } else if s[0] == 37 && s.len() >= 3 && is_hex_digit(s[1]) && is_hex_digit(s[2]) {
        seq![(hex_val(s[1]) * 16 + hex_val(s[2])) as u8] + spec_component_decode(s.skip(3))
    } else {
        seq![s[0]] + spec_component_decode(s.skip(1))
    }
}

/// One segment split at its first `=` and both halves percent-decoded; a
/// segment without `=` is a key with an empty value.
pub open spec fn split_eq_decode(seg: Seq<u8>) -> (Seq<u8>, Seq<u8>) {
    let k = idx_of(seg, 61);
    if 0 <= k < seg.len() {
        (spec_component_decode(seg.take(k)), spec_component_decode(seg.skip(k + 1)))
    } else {
        (spec_component_decode(seg), Seq::empty())
    }
}

/// The decoded key/value pairs of a raw query string: segments between `&`,
/// the empty ones skipped, in order of appearance.
pub open spec fn spec_pairs(q: Seq<u8>) -> Seq<(Seq<u8>, Seq<u8>)>
    decreases q.len(),
{
    if q.len() == 0 {
        Seq::empty()
    } else {
        let i = idx_of(q, 38);
        if 0 <= i < q.len() {
            let head: Seq<(Seq<u8>, Seq<u8>)> = if i == 0 {
                Seq::empty()
            } else {
                seq![split_eq_decode(q.take(i))]
            };
            head + spec_pairs(q.skip(i + 1))
        } else {
            seq![split_eq_decode(q)]
        }
    }
}

/// How many pairs carry the key `k`.
pub open spec fn key_count(ps: Seq<(Seq<u8>, Seq<u8>)>, k: Seq<u8>) -> nat
    decreases ps.len(),
{
    if ps.len() == 0 {
        0
    } else {
        key_count(ps.drop_last(), k) + if ps.last().0 == k {
            1nat
        } else {
            0nat
        }
    }
}

/// The value of the first pair carrying the key `k`, if any does.
pub open spec fn spec_find(ps: Seq<(Seq<u8>, Seq<u8>)>, k: Seq<u8>) -> Option<Seq<u8>>
    decreases ps.len(),
{
    if ps.len() == 0 {
        None
    } else if spec_find(ps.drop_last(), k) is Some {
        spec_find(ps.drop_last(), k)
    } else if ps.last().0 == k {
        Some(ps.last().1)
    } else {
        None
    }
}

pub proof fn lemma_find_count(ps: Seq<(Seq<u8>, Seq<u8>)>, k: Seq<u8>)
    ensures
        (spec_find(ps, k) is Some) <==> key_count(ps, k) > 0,
    decreases ps.len(),
{
    if ps.len() > 0 {
        lemma_find_count(ps.drop_last(), k);
    }
}

pub open spec fn foo_key() -> Seq<u8> {
    seq![102u8, 111u8, 111u8]
}

pub open spec fn bar_key() -> Seq<u8> {
    seq![98u8, 97u8, 114u8]
}

pub open spec fn third_key() -> Seq<u8> {
    seq![116u8, 104u8, 105u8, 114u8, 100u8]
}

/// When a pair list fits the record: one integer `foo`, one UTF-8 `bar`,
/// `third` at most once and then an integer. Nothing is said of any other
/// key, so unrecognized keys never disturb acceptance.
pub open spec fn pairs_accept(ps: Seq<(Seq<u8>, Seq<u8>)>) -> bool {
    &&& key_count(ps, foo_key()) == 1
    &&& spec_parse_i32(spec_find(ps, foo_key()).unwrap()) is Some
    &&& key_count(ps, bar_key()) == 1
    &&& valid_utf8(spec_find(ps, bar_key()).unwrap())
    &&& key_count(ps, third_key()) <= 1
    &&& (key_count(ps, third_key()) == 1 ==> spec_parse_i32(
        spec_find(ps, third_key()).unwrap(),
    ) is Some)
}

/// When a raw query string decodes into the record.
pub open spec fn query_accepts(q: Seq<u8>) -> bool {
    pairs_accept(spec_pairs(q))
}

/// The decoded query record.
#[derive(Debug)]
pub struct QueryParams {
    pub foo: i32,
    pub bar: String,
    pub third: Option<i32>,
}

/// Law: a pair under a key the record does not name changes nothing — a list
/// is accepted with such a pair appended exactly when it was accepted without
/// it, and the three decoded values are the same.
pub proof fn lemma_unknown_key_ignored(ps: Seq<(Seq<u8>, Seq<u8>)>, p: (Seq<u8>, Seq<u8>))
    requires
        p.0 != foo_key(),
        p.0 != bar_key(),
        p.0 != third_key(),
    ensures
        pairs_accept(ps.push(p)) == pairs_accept(ps),
        spec_find(ps.push(p), foo_key()) == spec_find(ps, foo_key()),
        spec_find(ps.push(p), bar_key()) == spec_find(ps, bar_key()),
        spec_find(ps.push(p), third_key()) == spec_find(ps, third_key()),
{
    assert(ps.push(p).drop_last() =~= ps);
    lemma_find_count(ps, foo_key());
    lemma_find_count(ps, bar_key());
    lemma_find_count(ps, third_key());
}

fn is_hex_digit_exec(b: u8) -> (r: bool)
    ensures
        r == is_hex_digit(b),
{
    (48 <= b && b <= 57) || (65 <= b && b <= 70) || (97 <= b && b <= 102)
}

fn hex_val_exec(b: u8) -> (r: u8)
    requires
        is_hex_digit(b),
    ensures
        r as int == hex_val(b),
{
    if b <= 57 {
        b - 48
    } else if b <= 70 {
        b - 55
    } else {
        b - 87
    }
}

/// The index of the first occurrence of `b` in `s` at or after `from`.
pub fn find_byte(s: &[u8], from: usize, b: u8) -> (j: usize)
    requires
        from <= s@.len(),
    ensures
        from <= j <= s@.len(),
        j - from == idx_of(s@.skip(from as int), b),
        j < s@.len() ==> s@[j as int] == b,
        forall|k: int| from <= k < j ==> s@[k] != b,
{
    let n = s.len();
    let mut j: usize = from;
    while j < n
        invariant
            from <= j <= n,
            n == s@.len(),
            forall|k: int| from <= k < j ==> s@[k] != b,
        decreases n - j,
    {
        if *vstd::slice::slice_index_get(s, j) == b {
            proof {
                let rem = s@.skip(from as int);
                assert(forall|k: int| 0 <= k < rem.len() ==> rem[k] == s@[k + from]);
                lemma_idx_of_unique(rem, b, j - from);
            }
            return j;
        }
        j = j + 1;
    }
    proof {
        let rem = s@.skip(from as int);
        assert(forall|k: int| 0 <= k < rem.len() ==> rem[k] == s@[k + from]);
        lemma_idx_of_unique(rem, b, j - from);
    }
    j
}

/// Percent-decodes one key or value.
fn component_decode(s: &[u8]) -> (out: Vec<u8>)
    ensures
        out@ == spec_component_decode(s@),
{
    let n = s.len();
    let mut i: usize = 0;
    let mut out: Vec<u8> = Vec::new();
    proof {
        assert(s@.skip(0) =~= s@);
    }
    while i < n
        invariant
            i <= n,
            n == s@.len(),
            out@ + spec_component_decode(s@.skip(i as int)) == spec_component_decode(s@),
        decreases n - i,
    {
        let ghost rem = s@.skip(i as int);
        proof {
            assert(forall|k: int| 0 <= k < rem.len() ==> rem[k] == s@[k + i]);
        }
        let b = *vstd::slice::slice_index_get(s, i);
        if b == 43 {
            out.push(32);
            proof {
                assert(rem.skip(1) =~= s@.skip(i + 1));
                assert(out@ + spec_component_decode(s@.skip(i + 1)) =~= spec_component_decode(
                    s@,
                ));
            }
            i = i + 1;
        } else if b == 37 && n - i >= 3 && is_hex_digit_exec(s[i + 1]) && is_hex_digit_exec(
            s[i + 2],
        ) {
            let h = hex_val_exec(s[i + 1]) * 16 + hex_val_exec(s[i + 2]);
            out.push(h);
            proof {
                assert(rem.len() >= 3 && rem[1] == s@[i + 1] && rem[2] == s@[i + 2]);
                assert(rem.skip(3) =~= s@.skip(i + 3));
                assert(out@ + spec_component_decode(s@.skip(i + 3)) =~= spec_component_decode(
                    s@,
                ));
            }
            i = i + 3;
        } else {
            out.push(b);
            proof {
                assert(rem.skip(1) =~= s@.skip(i + 1));
                assert(out@ + spec_component_decode(s@.skip(i + 1)) =~= spec_component_decode(
                    s@,
                ));
            }
            i = i + 1;
        }
    }
    proof {
        assert(s@.skip(n as int) =~= Seq::<u8>::empty());
        assert(out@ =~= spec_component_decode(s@));
    }
    out
}

/// Splits a raw query string into its decoded key/value pairs.
fn parse_pairs(q: &[u8]) -> (out: Vec<(Vec<u8>, Vec<u8>)>)
    ensures
        out.deep_view() == spec_pairs(q@),
{
    let n = q.len();
    let mut out: Vec<(Vec<u8>, Vec<u8>)> = Vec::new();
    let mut pos: usize = 0;
    let mut done = false;
    proof {
        assert(q@.skip(0) =~= q@);
        assert(out.deep_view() + spec_pairs(q@) =~= spec_pairs(q@));
    }
    while !done
        invariant
            pos <= n,
            n == q@.len(),
            !done ==> out.deep_view() + spec_pairs(q@.skip(pos as int)) == spec_pairs(q@),
            done ==> out.deep_view() == spec_pairs(q@),
        decreases n - pos + if done {
            0int
        } else {
            1int
        },
    {
        let ghost total = spec_pairs(q@);
        let ghost rem = q@.skip(pos as int);
        proof {
            assert(forall|k: int| 0 <= k < rem.len() ==> rem[k] == q@[k + pos]);
        }
        let j = find_byte(q, pos, 38);
        let ghost i = j - pos;
        proof {
            lemma_idx_of(rem, 38);
            assert(i == idx_of(rem, 38));
        }
        let ghost before = out.deep_view();
        let ghost rest: Seq<(Seq<u8>, Seq<u8>)> = if j < n {
            spec_pairs(q@.skip(j + 1))
        } else {
            Seq::empty()
        };
        proof {
            // decompose spec_pairs(rem) into this segment's pair and the rest
            if j < n {
                assert(rem.skip(i + 1) =~= q@.skip(j + 1));
            }
            if rem.len() == 0 {
                assert(spec_pairs(rem) =~= rest);
            } else if i == 0 {
                assert(spec_pairs(rem) == spec_pairs(rem.skip(1)));
                assert(spec_pairs(rem) =~= rest);
            } else if j < n {
                assert(spec_pairs(rem) =~= seq![split_eq_decode(rem.take(i))] + rest);
            } else {
                assert(idx_of(rem, 38) == rem.len());
                assert(rem.take(i) =~= rem);
                assert(spec_pairs(rem) =~= seq![split_eq_decode(rem.take(i))] + rest);
            }
        }
        if j > pos {
            let seg = vstd::slice::slice_subrange(q, pos, j);
            proof {
                assert(seg@ =~= rem.take(i));
            }
            let m = seg.len();
            let k = find_byte(seg, 0, 61);
            let key = component_decode(vstd::slice::slice_subrange(seg, 0, k));
            let val: Vec<u8> = if k == m {
                Vec::new()
            } else {
                component_decode(vstd::slice::slice_subrange(seg, k + 1, m))
            };
            proof {
                lemma_idx_of(seg@, 61);
                if k < m {
                    assert(seg@.take(k as int) =~= seg@.subrange(0, k as int));
                    assert(seg@.skip(k + 1) =~= seg@.subrange(k + 1, m as int));
                } else {
                    assert(seg@.take(k as int) =~= seg@);
                }
                assert((key@, val@) == split_eq_decode(seg@));
            }
            out.push((key, val));
            proof {
                assert(key.deep_view() =~= key@);
                assert(val.deep_view() =~= val@);
                assert(out.deep_view() =~= before.push((key@, val@)));
                assert(out.deep_view() + rest =~= before + spec_pairs(rem));
            }
        } else {
            proof {
                assert(out.deep_view() + rest =~= before + spec_pairs(rem));
            }
        }
        if j == n {
            done = true;
            proof {
                assert(out.deep_view() + rest =~= out.deep_view());
                assert(out.deep_view() == total);
            }
        } else {
            pos = j + 1;
        }
    }
    out
}

/// Compares two byte strings.
pub fn bytes_eq(a: &[u8], b: &[u8]) -> (r: bool)
    ensures
        r == (a@ == b@),
{
    let n = a.len();
    if n != b.len() {
        proof {
            assert(a@ != b@);
        }
        return false;
    }
    let mut i: usize = 0;
    while i < n
        invariant
            i <= n,
            n == a@.len() == b@.len(),
            forall|k: int| 0 <= k < i ==> a@[k] == b@[k],
        decreases n - i,
    {
        if *vstd::slice::slice_index_get(a, i) != *vstd::slice::slice_index_get(b, i) {
            return false;
        }
        i = i + 1;
    }
    proof {
        assert(a@ =~= b@);
    }
    true
}

/// How often `key` occurs among the pairs, and the first value under it.
fn scan_key(pairs: &Vec<(Vec<u8>, Vec<u8>)>, key: &[u8]) -> (r: (usize, Option<Vec<u8>>))
    ensures
        r.0 as nat == key_count(pairs.deep_view(), key@),
        match r.1 {
            Some(v) => spec_find(pairs.deep_view(), key@) == Some(v@),
            None => spec_find(pairs.deep_view(), key@) is None,
        },
{
    let ghost dv = pairs.deep_view();
    let n = pairs.len();
    let mut i: usize = 0;
    let mut cnt: usize = 0;
    let mut found: Option<Vec<u8>> = None;
    proof {
        assert(dv.len() == n);
    }
    while i < n
        invariant
            i <= n,
            n == pairs@.len(),
            dv == pairs.deep_view(),
            dv.len() == n,
            cnt <= i,
            cnt as nat == key_count(dv.take(i as int), key@),
            match found {
                Some(v) => spec_find(dv.take(i as int), key@) == Some(v@),
                None => spec_find(dv.take(i as int), key@) is None,
            },
        decreases n - i,
    {
        proof {
            assert(dv[i as int].0 =~= pairs@[i as int].0@);
            assert(dv[i as int].1 =~= pairs@[i as int].1@);
            assert(dv.take(i + 1).drop_last() =~= dv.take(i as int));
            assert(dv.take(i + 1).last() == dv[i as int]);
        }
        if bytes_eq(pairs[i].0.as_slice(), key) {
            cnt = cnt + 1;
            if found.is_none() {
                found = Some(pairs[i].1.clone());
            }
        }
        i = i + 1;
    }
    proof {
        assert(dv.take(n as int) =~= dv);
    }
    (cnt, found)
}

/// Relies on `String::from_utf8`: it yields a string exactly when the bytes
/// are valid UTF-8, and then the string's characters are their decoding.
#[verifier::external_body]
fn bytes_to_string(v: Vec<u8>) -> (r: Option<String>)
    ensures
        (r is Some) == valid_utf8(v@),
        r matches Some(s) ==> s@ == decode_utf8(v@),
{
    String::from_utf8(v).ok()
}

fn key_foo() -> (r: Vec<u8>)
    ensures
        r@ == foo_key(),
{
    let mut v: Vec<u8> = Vec::new();
    v.push(102);
    v.push(111);
    v.push(111);
    proof {
        assert(v@ =~= foo_key());
    }
    v
}

fn key_bar() -> (r: Vec<u8>)
    ensures
        r@ == bar_key(),
{
    let mut v: Vec<u8> = Vec::new();
    v.push(98);
    v.push(97);
    v.push(114);
    proof {
        assert(v@ =~= bar_key());
    }
    v
}

fn key_third() -> (r: Vec<u8>)
    ensures
        r@ == third_key(),
{
    let mut v: Vec<u8> = Vec::new();
    v.push(116);
    v.push(104);
    v.push(105);
    v.push(114);
    v.push(100);
    proof {
        assert(v@ =~= third_key());
    }
    v
}

/// Decodes a raw query string into the typed record.
///
/// Success and failure are pinned down exactly: the record comes back if and
/// only if the pairs fit it — one integer `foo`, one UTF-8 `bar`, at most one
/// integer `third`, unrecognized keys ignored — and every rejection is the
/// shape-mismatch failure, never any other tag.
pub fn decode_query_params(q: &[u8]) -> (r: Result<QueryParams, DecodeFailure>)
    ensures
        (r is Ok) == query_accepts(q@),
        r matches Ok(p) ==> {
            let ps = spec_pairs(q@);
            &&& Some(p.foo as int) == spec_parse_i32(spec_find(ps, foo_key()).unwrap())
            &&& p.bar@ == decode_utf8(spec_find(ps, bar_key()).unwrap())
            &&& match p.third {
                Some(t) => key_count(ps, third_key()) == 1 && Some(t as int) == spec_parse_i32(
                    spec_find(ps, third_key()).unwrap(),
                ),
                None => key_count(ps, third_key()) == 0,
            }
        },
        r is Err ==> r == Err::<QueryParams, DecodeFailure>(
            DecodeFailure::BodyDeserializationError,
        ),
{
    let pairs = parse_pairs(q);
    let ghost ps = spec_pairs(q@);
    let (foo_n, foo_v) = scan_key(&pairs, key_foo().as_slice());
    let (bar_n, bar_v) = scan_key(&pairs, key_bar().as_slice());
    let (third_n, third_v) = scan_key(&pairs, key_third().as_slice());
    proof {
        lemma_find_count(ps, foo_key());
        lemma_find_count(ps, bar_key());
        lemma_find_count(ps, third_key());
    }
    if foo_n != 1 || bar_n != 1 || third_n > 1 {
        return Err(DecodeFailure::BodyDeserializationError);
    }
    let foo_bytes = match foo_v {
        Some(v) => v,
        None => {
            return Err(DecodeFailure::BodyDeserializationError);
        },
    };
    let bar_bytes = match bar_v {
        Some(v) => v,
        None => {
            return Err(DecodeFailure::BodyDeserializationError);
        },
    };
    let foo = match parse_i32_bytes(foo_bytes.as_slice()) {
        Some(x) => x,
        None => {
            return Err(DecodeFailure::BodyDeserializationError);
        },
    };
    let bar = match bytes_to_string(bar_bytes) {
        Some(s) => s,
        None => {
            return Err(DecodeFailure::BodyDeserializationError);
        },
    };
    let third: Option<i32> = match third_v {
        Some(v) => {
            match parse_i32_bytes(v.as_slice()) {
                Some(x) => Some(x),
                None => {
                    return Err(DecodeFailure::BodyDeserializationError);
                },
            }
        },
        None => None,
    };
    Ok(QueryParams { foo, bar, third })
}

/// The keys of the submission record when it arrives form-encoded.
pub open spec fn name_key() -> Seq<u8> {
    seq![110u8, 97u8, 109u8, 101u8]
}

pub open spec fn email_key() -> Seq<u8> {
    seq![101u8, 109u8, 97u8, 105u8, 108u8]
}

/// When a form-encoded body fits the submission record: `name` and `email`
/// each exactly once, both valid UTF-8, other keys ignored.
pub open spec fn form_accepts(q: Seq<u8>) -> bool {
    let ps = spec_pairs(q);
    &&& key_count(ps, name_key()) == 1
    &&& valid_utf8(spec_find(ps, name_key()).unwrap())
    &&& key_count(ps, email_key()) == 1
    &&& valid_utf8(spec_find(ps, email_key()).unwrap())
}

fn key_name() -> (r: Vec<u8>)
    ensures
        r@ == name_key(),
{
    let mut v: Vec<u8> = Vec::new();
    v.push(110);
    v.push(97);
    v.push(109);
    v.push(101);
    proof {
        assert(v@ =~= name_key());
    }
    v
}

fn key_email() -> (r: Vec<u8>)
    ensures
        r@ == email_key(),
{
    let mut v: Vec<u8> = Vec::new();
    v.push(101);
    v.push(109);
    v.push(97);
    v.push(105);
    v.push(108);
    proof {
        assert(v@ =~= email_key());
    }
    v
}

/// Decodes a form-encoded body into the submission record, under the same
/// pair rules as the query record: success exactly when both fields stand
/// there once, and every rejection is the shape-mismatch failure.
pub fn decode_form_submission(body: &[u8]) -> (r: Result<Submission, DecodeFailure>)
    ensures
        (r is Ok) == form_accepts(body@),
        r matches Ok(s) ==> {
            let ps = spec_pairs(body@);
            &&& s.name@ == decode_utf8(spec_find(ps, name_key()).unwrap())
            &&& s.email@ == decode_utf8(spec_find(ps, email_key()).unwrap())
        },
        r is Err ==> r == Err::<Submission, DecodeFailure>(
            DecodeFailure::BodyDeserializationError,
        ),
{
    let pairs = parse_pairs(body);
    let ghost ps = spec_pairs(body@);
    let (name_n, name_v) = scan_key(&pairs, key_name().as_slice());
    let (email_n, email_v) = scan_key(&pairs, key_email().as_slice());
    proof {
        lemma_find_count(ps, name_key());
        lemma_find_count(ps, email_key());
    }
    if name_n != 1 || email_n != 1 {
        return Err(DecodeFailure::BodyDeserializationError);
    }
    let name_bytes = match name_v {
        Some(v) => v,
        None => {
            return Err(DecodeFailure::BodyDeserializationError);
        },
    };
    let email_bytes = match email_v {
        Some(v) => v,
        None => {
            return Err(DecodeFailure::BodyDeserializationError);
        },
    };
    let name = match bytes_to_string(name_bytes) {
        Some(s) => s,
        None => {
            return Err(DecodeFailure::BodyDeserializationError);
        },
    };
    let email = match bytes_to_string(email_bytes) {
        Some(s) => s,
        None => {
            return Err(DecodeFailure::BodyDeserializationError);
        },
    };
    Ok(Submission { name, email })
}

} // verus!
