//! Decoding of GraphQL operation requests from URL query strings.
//!
//! A query string is a sequence of `&`-separated segments; each segment is
//! a key, an optional `=`, and a value; keys and values are
//! form-urlencoded: `+` stands for a space and `%XX` for the byte `XX`.
//! The recognized keys are `query` (required), `operationName` and
//! `variables` (optional); of repeated keys the first occurrence counts.

use vstd::prelude::*;
use vstd::slice::slice_subrange;
use vstd::utf8::decode_utf8;
use vstd::utf8::valid_utf8;

use crate::request::BadRequest;
use crate::request::GraphQlRequest;
use crate::request::RequestModel;

verus! {

/// The byte `&`, which separates the segments of a query string.
pub const AMPERSAND: u8 = 38;

/// The byte `=`, which separates a key from its value.
pub const EQUALS_SIGN: u8 = 61;

/// The byte `%`, which opens a two-hex-digit escape.
pub const PERCENT: u8 = 37;

/// The byte `+`, which stands for a space in a form-urlencoded value.
pub const PLUS_SIGN: u8 = 43;

/// The byte of the space character.
pub const SPACE: u8 = 32;

/// The position of the first occurrence of `b` in `s`, if any.
pub open spec fn find_byte(s: Seq<u8>, b: u8) -> Option<int>
    decreases s.len(),
{
    if s.len() == 0 {
        Option::None
    } else if s[0] == b {
        Option::Some(0int)
    } else {
        match find_byte(s.subrange(1, s.len() as int), b) {
            Option::None => Option::None,
            Option::Some(i) => Option::Some(i + 1),
        }
    }
}

/// Where `find_byte` finds a position, that position holds `b` and nothing
/// before it does; where it finds none, no position holds `b`.
pub proof fn lemma_find_byte(s: Seq<u8>, b: u8)
    ensures
        match find_byte(s, b) {
            Option::Some(i) => 0 <= i < s.len() && s[i] == b && (forall|j: int|
                0 <= j < i ==> s[j] != b),
            Option::None => forall|j: int| 0 <= j < s.len() ==> s[j] != b,
        },
    decreases s.len(),
{
    if s.len() != 0 && s[0] != b {
        let tail = s.subrange(1, s.len() as int);
        lemma_find_byte(tail, b);
        match find_byte(tail, b) {
            Option::Some(i) => {
                assert(s[i + 1] == tail[i]);
                assert forall|j: int| 0 <= j < i + 1 implies s[j] != b by {
                    if j > 0 {
                        assert(s[j] == tail[j - 1]);
                    }
                }
            },
            Option::None => {
                assert forall|j: int| 0 <= j < s.len() implies s[j] != b by {
                    if j > 0 {
                        assert(s[j] == tail[j - 1]);
                    }
                }
            },
        }
    }
}

/// A position that holds `b`, with none before it, is the one `find_byte`
/// finds.
pub proof fn lemma_find_byte_at(s: Seq<u8>, b: u8, i: int)
    requires
        0 <= i < s.len(),
        s[i] == b,
        forall|j: int| 0 <= j < i ==> s[j] != b,
    ensures
        find_byte(s, b) == Option::Some(i),
    decreases i,
{
    if i > 0 {
        let tail = s.subrange(1, s.len() as int);
        assert(tail[i - 1] == s[i]);
        assert forall|j: int| 0 <= j < i - 1 implies tail[j] != b by {
            assert(tail[j] == s[j + 1]);
        }
        lemma_find_byte_at(tail, b, i - 1);
    }
}

/// Where no position holds `b`, `find_byte` finds none.
pub proof fn lemma_find_byte_none(s: Seq<u8>, b: u8)
    requires
        forall|j: int| 0 <= j < s.len() ==> s[j] != b,
    ensures
        find_byte(s, b) is None,
    decreases s.len(),
{
    if s.len() != 0 {
        let tail = s.subrange(1, s.len() as int);
        assert forall|j: int| 0 <= j < tail.len() implies tail[j] != b by {
            assert(tail[j] == s[j + 1]);
        }
        lemma_find_byte_none(tail, b);
    }
}

/// The position of the first occurrence of `b` in `s`, if any.
pub fn find_byte_at(s: &[u8], b: u8) -> (r: Option<usize>)
    ensures
        match r {
            Option::Some(i) => find_byte(s@, b) == Option::Some(i as int),
            Option::None => find_byte(s@, b) is None,
        },
{
    let n = s.len();
    let mut i: usize = 0;
    while i < n
        invariant
            0 <= i <= n,
            n == s@.len(),
            forall|j: int| 0 <= j < i ==> s@[j] != b,
        decreases n - i,
    {
        if s[i] == b {
            proof {
                lemma_find_byte_at(s@, b, i as int);
            }
            return Option::Some(i);
        }
        i = i + 1;
    }
    proof {
        lemma_find_byte_none(s@, b);
    }
    Option::None
}

/// The value of a hex digit, if `b` is one.
pub open spec fn hex_digit_value(b: u8) -> Option<int> {
    if 48 <= b <= 57 {
        Option::Some(b - 48)
    } else if 65 <= b <= 70 {
        Option::Some(b - 65 + 10)
    } else if 97 <= b <= 102 {
        Option::Some(b - 97 + 10)
    } else {
        Option::None
    }
}

/// The value of a hex digit, if `b` is one.
fn hex_digit(b: u8) -> (r: Option<u8>)
    ensures
        match r {
            Option::Some(v) => hex_digit_value(b) == Option::Some(v as int),
            Option::None => hex_digit_value(b) is None,
        },
{
    if 48 <= b && b <= 57 {
        Option::Some(b - 48)
    } else if 65 <= b && b <= 70 {
        Option::Some(b - 65 + 10)
    } else if 97 <= b && b <= 102 {
        Option::Some(b - 97 + 10)
    } else {
        Option::None
    }
}

/// The form-urlencoded decoding of `s`: `+` becomes a space, `%XX` the
/// byte `XX`, every other byte itself; a `%` not followed by two hex
/// digits makes the whole text undecodable.
pub open spec fn pct_decoded(s: Seq<u8>) -> Option<Seq<u8>>
    decreases s.len(),
{
    if s.len() == 0 {
        Option::Some(Seq::<u8>::empty())
    } else if s[0] == PERCENT {
        if s.len() >= 3 {
            match (hex_digit_value(s[1]), hex_digit_value(s[2])) {
                (Option::Some(h), Option::Some(l)) => {
                    match pct_decoded(s.subrange(3, s.len() as int)) {
                        Option::Some(t) => Option::Some(seq![(h * 16 + l) as u8] + t),
                        Option::None => Option::None,
                    }
                },
                _ => Option::None,
            }
        } else {
            Option::None
        }
    } else if s[0] == PLUS_SIGN {
        match pct_decoded(s.subrange(1, s.len() as int)) {
            Option::Some(t) => Option::Some(seq![SPACE] + t),
            Option::None => Option::None,
        }
    } else {
        match pct_decoded(s.subrange(1, s.len() as int)) {
            Option::Some(t) => Option::Some(seq![s[0]] + t),
            Option::None => Option::None,
        }
    }
}

/// The form-urlencoded decoding of `s`, or nothing where `s` holds a bad
/// escape.
pub fn percent_decode(s: &[u8]) -> (r: Option<Vec<u8>>)
    ensures
        match r {
            Option::Some(v) => pct_decoded(s@) == Option::Some(v@),
            Option::None => pct_decoded(s@) is None,
        },
{
    let n = s.len();
    let mut out: Vec<u8> = Vec::new();
    let mut i: usize = 0;
    proof {
        assert(s@.subrange(0, n as int) =~= s@);
        match pct_decoded(s@) {
            Option::Some(t) => {
                assert(Seq::<u8>::empty() + t =~= t);
            },
            Option::None => {},
        }
    }
    while i < n
        invariant
            0 <= i <= n,
            n == s@.len(),
            pct_decoded(s@) == match pct_decoded(s@.subrange(i as int, n as int)) {
                Option::Some(t) => Option::Some(out@ + t),
                Option::None => Option::None::<Seq<u8>>,
            },
        decreases n - i,
    {
        let ghost suffix = s@.subrange(i as int, n as int);
        proof {
            assert(suffix[0] == s@[i as int]);
        }
        let b = s[i];
        if b == PERCENT {
            if n - i > 2 {
                proof {
                    assert(suffix[1] == s@[i + 1]);
                    assert(suffix[2] == s@[i + 2]);
                }
                match (hex_digit(s[i + 1]), hex_digit(s[i + 2])) {
                    (Option::Some(h), Option::Some(l)) => {
                        let decoded: u8 = h * 16 + l;
                        let ghost prev = out@;
                        out.push(decoded);
                        proof {
                            assert(suffix.subrange(3, suffix.len() as int) =~= s@.subrange(
                                i + 3,
                                n as int,
                            ));
                            match pct_decoded(s@.subrange(i + 3, n as int)) {
                                Option::Some(t) => {
                                    assert(prev + (seq![decoded] + t) =~= out@ + t);
                                },
                                Option::None => {},
                            }
                        }
                        i = i + 3;
                    },
                    _ => {
                        return Option::None;
                    },
                }
            } else {
                return Option::None;
            }
        } else {
            let decoded: u8 = if b == PLUS_SIGN {
                SPACE
            } else {
                b
            };
            let ghost prev = out@;
            out.push(decoded);
            proof {
                assert(suffix.subrange(1, suffix.len() as int) =~= s@.subrange(i + 1, n as int));
                match pct_decoded(s@.subrange(i + 1, n as int)) {
                    Option::Some(t) => {
                        assert(prev + (seq![decoded] + t) =~= out@ + t);
                    },
                    Option::None => {},
                }
            }
            i = i + 1;
        }
    }
    proof {
        assert(s@.subrange(i as int, n as int) =~= Seq::<u8>::empty());
        assert(out@ + Seq::<u8>::empty() =~= out@);
    }
    Option::Some(out)
}

/// The `&`-separated segments of a query string. An empty string has one
/// empty segment, and a trailing `&` ends with one.
pub open spec fn qs_segments(s: Seq<u8>) -> Seq<Seq<u8>>
    decreases s.len(),
    via qs_segments_decreases
{
    match find_byte(s, AMPERSAND) {
        Option::None => seq![s],
        Option::Some(i) => seq![s.subrange(0, i)] + qs_segments(s.subrange(i + 1, s.len() as int)),
    }
}

#[via_fn]
proof fn qs_segments_decreases(s: Seq<u8>) {
    lemma_find_byte(s, AMPERSAND);
}

/// The key of a segment: what stands before the first `=`, or the whole
/// segment where there is none.
pub open spec fn seg_key(seg: Seq<u8>) -> Seq<u8> {
    match find_byte(seg, EQUALS_SIGN) {
        Option::Some(i) => seg.subrange(0, i),
        Option::None => seg,
    }
}

/// The still-encoded value of a segment: what stands after the first `=`,
/// or the empty sequence where there is none.
pub open spec fn seg_value(seg: Seq<u8>) -> Seq<u8> {
    match find_byte(seg, EQUALS_SIGN) {
        Option::Some(i) => seg.subrange(i + 1, seg.len() as int),
        Option::None => Seq::<u8>::empty(),
    }
}

/// The still-encoded value of the first segment whose decoded key is
/// `key`, if any.
pub open spec fn param_raw(segs: Seq<Seq<u8>>, key: Seq<u8>) -> Option<Seq<u8>>
    decreases segs.len(),
{
    if segs.len() == 0 {
        Option::None
    } else if pct_decoded(seg_key(segs[0])) == Option::Some(key) {
        Option::Some(seg_value(segs[0]))
    } else {
        param_raw(segs.drop_first(), key)
    }
}

/// Whether two byte slices hold the same bytes.
fn bytes_eq(a: &[u8], b: &[u8]) -> (r: bool)
    ensures
        r == (a@ == b@),
{
    let n = a.len();
    if n != b.len() {
        return false;
    }
    let mut i: usize = 0;
    while i < n
        invariant
            0 <= i <= n,
            n == a@.len(),
            n == b@.len(),
            forall|j: int| 0 <= j < i ==> a@[j] == b@[j],
        decreases n - i,
    {
        if a[i] != b[i] {
            return false;
        }
        i = i + 1;
    }
    proof {
        assert(a@ =~= b@);
    }
    true
}

/// The still-encoded value of the first segment of `qs` whose decoded key
/// is `key`, if any.
pub fn lookup_param<'a>(qs: &'a [u8], key: &[u8]) -> (r: Option<&'a [u8]>)
    ensures
        match r {
            Option::Some(v) => param_raw(qs_segments(qs@), key@) == Option::Some(v@),
            Option::None => param_raw(qs_segments(qs@), key@) is None,
        },
    decreases qs@.len(),
{
    proof {
        lemma_find_byte(qs@, AMPERSAND);
    }
    let qs_len = qs.len();
    let (seg, rest): (&[u8], Option<&[u8]>) = match find_byte_at(qs, AMPERSAND) {
        Option::Some(i) => {
            proof {
                assert((i as int) < qs@.len());
            }
            (slice_subrange(qs, 0, i), Option::Some(slice_subrange(qs, i + 1, qs_len)))
        },
        Option::None => (qs, Option::None),
    };
    let ghost segs = qs_segments(qs@);
    proof {
        match rest {
            Option::Some(t) => {
                assert(segs == seq![seg@] + qs_segments(t@));
                assert(segs[0] == seg@);
                assert(segs.drop_first() =~= qs_segments(t@));
            },
            Option::None => {
                assert(segs == seq![seg@]);
                assert(segs[0] == seg@);
                assert(segs.drop_first() =~= Seq::<Seq<u8>>::empty());
            },
        }
    }
    proof {
        lemma_find_byte(seg@, EQUALS_SIGN);
    }
    let seg_len = seg.len();
    let (kraw, vraw): (&[u8], &[u8]) = match find_byte_at(seg, EQUALS_SIGN) {
        Option::Some(j) => {
            proof {
                assert((j as int) < seg@.len());
            }
            (slice_subrange(seg, 0, j), slice_subrange(seg, j + 1, seg_len))
        },
        Option::None => (seg, slice_subrange(seg, 0, 0)),
    };
    proof {
        assert(kraw@ == seg_key(seg@));
        assert(vraw@ =~= seg_value(seg@));
    }
    let key_matches: bool = match percent_decode(kraw) {
        Option::Some(k) => bytes_eq(k.as_slice(), key),
        Option::None => false,
    };
    proof {
        assert(key_matches == (pct_decoded(seg_key(segs[0])) == Option::Some(key@)));
    }
    if key_matches {
        proof {
            assert(param_raw(segs, key@) == Option::Some(vraw@));
        }
        return Option::Some(vraw);
    }
    proof {
        assert(param_raw(segs, key@) == param_raw(segs.drop_first(), key@));
    }
    match rest {
        Option::Some(t) => lookup_param(t, key),
        Option::None => Option::None,
    }
}

/// The bytes of the key `query`.
pub open spec fn query_key() -> Seq<u8> {
    seq![113u8, 117u8, 101u8, 114u8, 121u8]
}

/// The bytes of the key `operationName`.
pub open spec fn operation_name_key() -> Seq<u8> {
    seq![111u8, 112u8, 101u8, 114u8, 97u8, 116u8, 105u8, 111u8, 110u8, 78u8, 97u8, 109u8, 101u8]
}

/// The bytes of the key `variables`.
pub open spec fn variables_key() -> Seq<u8> {
    seq![118u8, 97u8, 114u8, 105u8, 97u8, 98u8, 108u8, 101u8, 115u8]
}

fn query_key_bytes() -> (r: Vec<u8>)
    ensures
        r@ == query_key(),
{
    let r: Vec<u8> = vec![113, 117, 101, 114, 121];
    proof {
        assert(r@ =~= query_key());
    }
    r
}

fn operation_name_key_bytes() -> (r: Vec<u8>)
    ensures
        r@ == operation_name_key(),
{
    let r: Vec<u8> = vec![111, 112, 101, 114, 97, 116, 105, 111, 110, 78, 97, 109, 101];
    proof {
        assert(r@ =~= operation_name_key());
    }
    r
}

fn variables_key_bytes() -> (r: Vec<u8>)
    ensures
        r@ == variables_key(),
{
    let r: Vec<u8> = vec![118, 97, 114, 105, 97, 98, 108, 101, 115];
    proof {
        assert(r@ =~= variables_key());
    }
    r
}

/// The text a still-encoded parameter value stands for: its
/// form-urlencoded decoding read as UTF-8, or the transport error that
/// makes it unreadable.
pub open spec fn decoded_text(raw: Seq<u8>) -> Result<Seq<char>, BadRequest> {
    match pct_decoded(raw) {
        Option::None => Result::Err(BadRequest::InvalidEscape),
        Option::Some(bytes) => if valid_utf8(bytes) {
            Result::Ok(decode_utf8(bytes))
        } else {
            Result::Err(BadRequest::InvalidUtf8)
        },
    }
}

/// As `decoded_text`, for a parameter that may be absent: an absent
/// parameter is no error.
pub open spec fn decoded_opt(raw: Option<Seq<u8>>) -> Result<Option<Seq<char>>, BadRequest> {
    match raw {
        Option::None => Result::Ok(Option::None),
        Option::Some(r) => match decoded_text(r) {
            Result::Ok(t) => Result::Ok(Option::Some(t)),
            Result::Err(e) => Result::Err(e),
        },
    }
}

/// The GraphQL operation request a whole query string stands for: the
/// decoded `query` parameter (required), and the decoded `operationName`
/// and `variables` parameters (optional) — or the first transport error
/// met in that order.
pub open spec fn parsed_query_string(qs: Seq<u8>) -> Result<RequestModel, BadRequest> {
    let segs = qs_segments(qs);
    match param_raw(segs, query_key()) {
        Option::None => Result::Err(BadRequest::MissingQuery),
        Option::Some(rawq) => match decoded_text(rawq) {
            Result::Err(e) => Result::Err(e),
            Result::Ok(q) => match decoded_opt(param_raw(segs, operation_name_key())) {
                Result::Err(e) => Result::Err(e),
                Result::Ok(on) => match decoded_opt(param_raw(segs, variables_key())) {
                    Result::Err(e) => Result::Err(e),
                    Result::Ok(vs) => Result::Ok(
                        RequestModel { query: q, operation_name: on, variables: vs },
                    ),
                },
            },
        },
    }
}

/// Relies on `String::from_utf8`, whose documentation promises a string
/// of exactly the given bytes when they are a valid UTF-8 encoding, and
/// an error otherwise.
#[verifier::external_body]
pub(crate) fn string_from_utf8(bytes: Vec<u8>) -> (r: Option<String>)
    ensures
        match r {
            Option::Some(s) => valid_utf8(bytes@) && s@ == decode_utf8(bytes@),
            Option::None => !valid_utf8(bytes@),
        },
{
    String::from_utf8(bytes).ok()
}

/// Decodes one still-encoded parameter value into its text.
pub fn decode_text(raw: &[u8]) -> (r: Result<String, BadRequest>)
    ensures
        match r {
            Result::Ok(s) => decoded_text(raw@) == Result::Ok::<Seq<char>, BadRequest>(s@),
            Result::Err(e) => decoded_text(raw@) == Result::Err::<Seq<char>, BadRequest>(e),
        },
{
    match percent_decode(raw) {
        Option::None => Result::Err(BadRequest::InvalidEscape),
        Option::Some(bytes) => match string_from_utf8(bytes) {
            Option::Some(s) => Result::Ok(s),
            Option::None => Result::Err(BadRequest::InvalidUtf8),
        },
    }
}

/// Decodes a whole query string into the GraphQL operation request it
/// stands for, or the first transport error that makes it unreadable.
pub fn parse_query_string(qs: &[u8]) -> (r: Result<GraphQlRequest, BadRequest>)
    ensures
        match r {
            Result::Ok(req) => parsed_query_string(qs@) == Result::Ok::<
                RequestModel,
                BadRequest,
            >(req@),
            Result::Err(e) => parsed_query_string(qs@) == Result::Err::<
                RequestModel,
                BadRequest,
            >(e),
        },
{
    let qkey = query_key_bytes();
    let onkey = operation_name_key_bytes();
    let vkey = variables_key_bytes();
    let rawq = match lookup_param(qs, qkey.as_slice()) {
        Option::Some(v) => v,
        Option::None => {
            return Result::Err(BadRequest::MissingQuery);
        },
    };
    let query = match decode_text(rawq) {
        Result::Ok(s) => s,
        Result::Err(e) => {
            return Result::Err(e);
        },
    };
    let operation_name = match lookup_param(qs, onkey.as_slice()) {
        Option::Some(v) => match decode_text(v) {
            Result::Ok(s) => Option::Some(s),
            Result::Err(e) => {
                return Result::Err(e);
            },
        },
        Option::None => Option::None,
    };
    let variables = match lookup_param(qs, vkey.as_slice()) {
        Option::Some(v) => match decode_text(v) {
            Result::Ok(s) => Option::Some(s),
            Result::Err(e) => {
                return Result::Err(e);
            },
        },
        Option::None => Option::None,
    };
    Result::Ok(GraphQlRequest { query, operation_name, variables })
}

} // verus!

