//! Request dispatch decisions around the JavaScript bridge: the URL a
//! request is handed to JS with, how the JS response body is taken, and the
//! arguments and replies of the egress-lease operations.

use vstd::prelude::*;

use crate::connection_manager::AcquireError;
use crate::text::{chars_of, concat3};

verus! {

/// The absolute URL JS receives: `http://`, the `Host` header (or
/// `localhost`), then the path and query (or `/`).
pub open spec fn request_uri_for(host: Option<Seq<char>>, path_and_query: Option<Seq<char>>) -> Seq<char> {
    "http://"@ + (match host { Some(h) => h, None => "localhost"@ }) + (match path_and_query {
        Some(p) => p,
        None => "/"@,
    })
}

/// Builds the URL a request is dispatched with.
pub fn request_uri(host: Option<&str>, path_and_query: Option<&str>) -> (r: String)
    ensures
        r@ == request_uri_for(match host { Some(h) => Some(h@), None => None }, match path_and_query {
            Some(p) => Some(p@),
            None => None,
        }),
{
    let h = match host {
        Some(h) => h,
        None => "localhost",
    };
    let p = match path_and_query {
        Some(p) => p,
        None => "/",
    };
    concat3("http://", h, p)
}

/// The context id a request runs in: the given one, or `default`.
pub fn context_id_or_default(context_id: Option<&str>) -> (r: &str)
    ensures
        r@ == (match context_id { Some(c) => c@, None => "default"@ }),
{
    match context_id {
        Some(c) => c,
        None => "default",
    }
}

/// The function name reported to JS: the given one, or `<unknown>`.
pub fn function_name_or_unknown(function_name: Option<&str>) -> (r: &str)
    ensures
        r@ == (match function_name { Some(f) => f@, None => "<unknown>"@ }),
{
    match function_name {
        Some(f) => f,
        None => "<unknown>",
    }
}

/// The response JS hands back for a request.
#[derive(Debug)]
pub struct JsResponse {
    pub status: u16,
    pub headers: Vec<(String, String)>,
    pub body_kind: String,
    pub body_base64: String,
    pub stream_id: Option<String>,
}

/// How the response body reaches the client.
#[derive(Debug, PartialEq, Eq)]
pub enum ResponseBody {
    /// Chunks come from the registered response stream.
    Stream,
    /// The whole body, decoded.
    Full(Vec<u8>),
}

/// Why a JS response could not be turned into an HTTP response.
#[derive(Debug, PartialEq, Eq)]
pub enum DispatchError {
    MissingStreamId,
    StreamIdMismatch { expected: String, got: String },
    InvalidBase64Body,
    UnknownBodyKind(String),
}

/// What standard base64 decoding (`base64::engine::general_purpose::STANDARD`)
/// gives for `text`: the bytes, or `None` when it is not valid base64.
pub uninterp spec fn base64_standard_decode(text: Seq<char>) -> Option<Seq<u8>>;

/// `STANDARD.decode(text)`; `None` on a decode error.
#[verifier::external_body]
fn decode_base64(text: &str) -> (r: Option<Vec<u8>>)
    ensures
        r is None ==> base64_standard_decode(text@) is None,
        r matches Some(b) ==> base64_standard_decode(text@) == Some(b@),
{
    match base64::Engine::decode(&base64::engine::general_purpose::STANDARD, text) {
        Ok(bytes) => Some(bytes),
        Err(_) => None,
    }
}

/// The body of `js`, sent for stream `stream_id`, and whether the stream
/// stays registered (only a streaming body keeps it):
/// a `stream` body must name that same stream; an `inline` body is its
/// base64 text decoded (empty text, empty body); any other kind is refused.
pub open spec fn body_outcome(kind: Seq<char>, body_base64: Seq<char>, returned: Option<Seq<char>>, stream_id: Seq<char>)
    -> Result<Option<Seq<u8>>, ()>
{
    if kind == "stream"@ {
        match returned {
            Some(r) => if r == stream_id { Ok(None) } else { Err(()) },
            None => Err(()),
        }
    } else if kind == "inline"@ {
        if body_base64.len() == 0 {
            Ok(Some(Seq::empty()))
        } else {
            match base64_standard_decode(body_base64) {
                Some(b) => Ok(Some(b)),
                None => Err(()),
            }
        }
    } else {
        Err(())
    }
}

/// Takes the body of a JS response; the flag says whether the response
/// stream stays registered.
pub fn take_response_body(js: &JsResponse, stream_id: &str) -> (r: (Result<ResponseBody, DispatchError>, bool))
    ensures
        r.1 == (r.0 matches Ok(ResponseBody::Stream)),
        js.body_kind@ == "stream"@ ==> match js.stream_id {
            None => r.0 == Err::<ResponseBody, DispatchError>(DispatchError::MissingStreamId),
            Some(got) => if got@ == stream_id@ {
                r.0 == Ok::<ResponseBody, DispatchError>(ResponseBody::Stream)
            } else {
                (r.0 matches Err(DispatchError::StreamIdMismatch { expected, got: g }) && expected@ == stream_id@ && g@ == got@)
            },
        },
        js.body_kind@ == "inline"@ && js.body_base64@.len() == 0 ==> (r.0 matches Ok(ResponseBody::Full(b))
            && b@.len() == 0),
        js.body_kind@ == "inline"@ && js.body_base64@.len() > 0 && base64_standard_decode(js.body_base64@) is None
            ==> r.0 == Err::<ResponseBody, DispatchError>(DispatchError::InvalidBase64Body),
        js.body_kind@ == "inline"@ && js.body_base64@.len() > 0 && base64_standard_decode(js.body_base64@) is Some
            ==> (r.0 matches Ok(ResponseBody::Full(b)) && base64_standard_decode(js.body_base64@) == Some(b@)),
        js.body_kind@ != "stream"@ && js.body_kind@ != "inline"@ ==> (r.0 matches Err(DispatchError::UnknownBodyKind(k))
            && k@ == js.body_kind@),
{
    proof {
        reveal_strlit("stream");
        reveal_strlit("inline");
        assert("inline"@[0] != "stream"@[0]);
        assert("inline"@ != "stream"@);
    }
    let kind = js.body_kind.clone();
    if crate::bundle::same_text(js.body_kind.as_str(), "stream") {
        match &js.stream_id {
            None => (Err(DispatchError::MissingStreamId), false),
            Some(got) => {
                if crate::bundle::same_text(got.as_str(), stream_id) {
                    (Ok(ResponseBody::Stream), true)
                } else {
                    (Err(DispatchError::StreamIdMismatch { expected: stream_id.to_string(), got: got.clone() }), false)
                }
            },
        }
    } else if crate::bundle::same_text(js.body_kind.as_str(), "inline") {
        if js.body_base64.as_str().unicode_len() == 0 {
            (Ok(ResponseBody::Full(Vec::new())), false)
        } else {
            match decode_base64(js.body_base64.as_str()) {
                Some(b) => (Ok(ResponseBody::Full(b)), false),
                None => (Err(DispatchError::InvalidBase64Body), false),
            }
        }
    } else {
        (Err(DispatchError::UnknownBodyKind(kind)), false)
    }
}

/// The lease timeout an egress operation waits for: none for 0.
pub fn lease_timeout_ms(timeout_ms: u32) -> (r: Option<u64>)
    ensures
        r == (if timeout_ms == 0 { None::<u64> } else { Some(timeout_ms as u64) }),
{
    if timeout_ms == 0 { None } else { Some(timeout_ms as u64) }
}

pub open spec fn acquire_reason(e: AcquireError) -> Seq<char> {
    match e {
        AcquireError::Backpressure => "backpressure"@,
        AcquireError::Timeout => "timeout"@,
        AcquireError::Internal(m) => "internal error: "@ + m@,
    }
}

/// The error JS sees when a lease cannot be acquired.
pub fn acquire_failure_message(err: &AcquireError) -> (m: String)
    ensures
        m@ == "[thunder] outbound lease acquisition failed: "@ + acquire_reason(*err),
{
    proof {
        reveal_strlit("");
    }
    let prefix = "[thunder] outbound lease acquisition failed: ";
    match err {
        AcquireError::Backpressure => concat3(prefix, "backpressure", ""),
        AcquireError::Timeout => concat3(prefix, "timeout", ""),
        AcquireError::Internal(message) => concat3(prefix, "internal error: ", message.as_str()),
    }
}

/// Why a lease id is not a `u64`, as `u64::from_str` reports it.
#[derive(Debug, Clone, Copy, PartialEq, Eq, Structural)]
pub enum LeaseIdError {
    Empty,
    InvalidDigit,
    PosOverflow,
}

pub open spec fn lease_id_error_text(e: LeaseIdError) -> Seq<char> {
    match e {
        LeaseIdError::Empty => "cannot parse integer from empty string"@,
        LeaseIdError::InvalidDigit => "invalid digit found in string"@,
        LeaseIdError::PosOverflow => "number too large to fit in target type"@,
    }
}

pub open spec fn is_digit(c: char) -> bool {
    '0' <= c && c <= '9'
}

/// Every character of `d` is a decimal digit.
pub open spec fn all_digits(d: Seq<char>) -> bool {
    forall|i: int| 0 <= i < d.len() ==> is_digit(#[trigger] d[i])
}

/// The number the decimal digits `d` spell.
pub open spec fn digits_value(d: Seq<char>) -> nat
    decreases d.len(),
{
    if d.len() == 0 { 0 } else { digits_value(d.drop_last()) * 10 + ((d.last() as int - '0' as int) as nat) }
}

/// What `u64::from_str` gives: an optional leading `+`, then one or more
/// decimal digits whose value fits in 64 bits.
pub open spec fn parse_u64(s: Seq<char>) -> Result<u64, LeaseIdError> {
    let d = if s.len() > 0 && s[0] == '+' { s.skip(1) } else { s };
    if s.len() == 0 || (s.len() == 1 && s[0] == '+') {
        if s.len() == 0 { Err(LeaseIdError::Empty) } else { Err(LeaseIdError::InvalidDigit) }
    } else if !all_digits(d) {
        Err(LeaseIdError::InvalidDigit)
    } else if digits_value(d) > u64::MAX {
        Err(LeaseIdError::PosOverflow)
    } else {
        Ok(digits_value(d) as u64)
    }
}

/// Parses a lease id as `u64::from_str` does.
pub fn parse_lease_id(s: &str) -> (r: Result<u64, LeaseIdError>)
    ensures
        r == parse_u64(s@),
{
    let cs = chars_of(s);
    if cs.len() == 0 {
        return Err(LeaseIdError::Empty);
    }
    let start: usize = if cs[0] == '+' { 1 } else { 0 };
    if start == cs.len() {
        assert(parse_u64(s@) == Err::<u64, LeaseIdError>(LeaseIdError::InvalidDigit));
        return Err(LeaseIdError::InvalidDigit);
    }
    let ghost d = if cs@[0] == '+' { cs@.skip(1) } else { cs@ };
    proof {
        assert(cs@.skip(0) =~= cs@);
        assert(d == cs@.skip(start as int));
    }
    let mut i = start;
    while i < cs.len()
        invariant
            start <= i <= cs.len(),
            d == cs@.skip(start as int),
            cs@ == s@,
            start < cs.len(),
            d == (if cs@[0] == '+' { cs@.skip(1) } else { cs@ }),
            forall|j: int| 0 <= j < i - start ==> is_digit(#[trigger] d[j]),
        decreases cs.len() - i,
    {
        if !('0' <= cs[i] && cs[i] <= '9') {
            proof {
                assert(!is_digit(d[i - start]));
                let sd = if s@.len() > 0 && s@[0] == '+' { s@.skip(1) } else { s@ };
                assert(sd == d);
                assert(!is_digit(sd[i - start]));
                assert(!all_digits(sd));
                assert(parse_u64(s@) == Err::<u64, LeaseIdError>(LeaseIdError::InvalidDigit));
            }
            return Err(LeaseIdError::InvalidDigit);
        }
        i = i + 1;
    }
    let mut value: u64 = 0;
    let mut overflow = false;
    let mut k = start;
    proof {
        assert(d.take(0) =~= Seq::<char>::empty());
    }
    while k < cs.len()
        invariant
            start <= k <= cs.len(),
            d == cs@.skip(start as int),
            forall|j: int| 0 <= j < d.len() ==> is_digit(#[trigger] d[j]),
            !overflow ==> value == digits_value(d.take(k - start)),
            overflow ==> digits_value(d.take(k - start)) > u64::MAX,
        decreases cs.len() - k,
    {
        let c = cs[k];
        proof {
            assert(d[k - start] == c);
            assert(d.take(k - start + 1).drop_last() =~= d.take(k - start));
            assert(d.take(k - start + 1).last() == c);
            assert(is_digit(c));
        }
        let digit = (c as u32 - '0' as u32) as u64;
        if !overflow {
            if value > (u64::MAX - digit) / 10 {
                overflow = true;
                proof {
                    assert(value * 10 + digit > u64::MAX) by (nonlinear_arith)
                        requires value > (u64::MAX - digit) / 10, digit <= 9;
                }
            } else {
                proof {
                    assert(value * 10 + digit <= u64::MAX) by (nonlinear_arith)
                        requires value <= (u64::MAX - digit) / 10, digit <= 9;
                }
                value = value * 10 + digit;
            }
        } else {
            proof {
                assert(digits_value(d.take(k - start + 1)) >= digits_value(d.take(k - start)) * 10) by (nonlinear_arith)
                    requires digits_value(d.take(k - start + 1)) == digits_value(d.take(k - start)) * 10
                        + ((c as int - '0' as int) as nat), c as int >= '0' as int;
            }
        }
        k = k + 1;
    }
    proof {
        assert(d.take(d.len() as int) =~= d);
        assert(cs.len() - start == d.len());
        assert(all_digits(d));
        assert(s@.len() > 0);
        assert(!(s@.len() == 1 && s@[0] == '+'));
    }
    if overflow {
        assert(digits_value(d) > u64::MAX);
        assert(parse_u64(s@) == Err::<u64, LeaseIdError>(LeaseIdError::PosOverflow));
        Err(LeaseIdError::PosOverflow)
    } else {
        assert(value == digits_value(d));
        assert(parse_u64(s@) == Ok::<u64, LeaseIdError>(value));
        Ok(value)
    }
}

/// The count of released leases as JS receives it (a 32-bit number,
/// truncated as `as u32` truncates).
pub fn released_count(released: usize) -> (r: u32)
    ensures
        r == released as u32,
{
    released as u32
}

} // verus!
