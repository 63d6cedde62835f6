//! The propagator: the codec's public face. It reads a carrier's header
//! value into a `TraceContext` and renders a `TraceContext` as the value to
//! write back, under the fixed header name `X-Cloud-Trace-Context`.
//!
//! The carrier itself (the case-insensitive name lookup and the write) is
//! the caller's: the propagator takes the looked-up value and hands back the
//! value to store.

use vstd::prelude::*;
use vstd::string::StrSliceExecFns;
use vstd::string::StringSliceAdditionalSpecFns;
use vstd::utf8::encode_utf8;

use crate::codec::{decode_bytes, encode_bytes, construct_context_bytes, grammar_split, trim_bytes};
use crate::context::{DecodeError, TraceContext};
use crate::grammar::{construct_spec, decode_spec, encode_spec, grammar_ok, trim_spec};

verus! {

pub open spec fn spec_header_name() -> Seq<char> {
    "X-Cloud-Trace-Context"@
}

/// The one header name this codec reads and writes.
pub fn header_name() -> (r: &'static str)
    ensures
        r@ == spec_header_name(),
{
    "X-Cloud-Trace-Context"
}

/// What extracting from a carrier lookup yields: a missing header is its own
/// error; a present one is trimmed and decoded.
pub open spec fn extract_spec(h: Option<&str>) -> Result<TraceContext, DecodeError> {
    match h {
        None => Err(DecodeError::Missing),
        Some(s) => decode_spec(trim_spec(s.spec_bytes())),
    }
}

/// Relies on `String::from_utf8`: a vector of ASCII bytes is valid UTF-8,
/// and the string it becomes holds exactly those bytes.
#[verifier::external_body]
fn ascii_bytes_to_string(v: Vec<u8>) -> (r: String)
    requires
        forall|i: int| 0 <= i < v@.len() ==> v@[i] < 128,
    ensures
        encode_utf8(r@) == v@,
{
    String::from_utf8(v).unwrap_or_default()
}

/// Whether a header value matches the grammar as it stands, with no
/// trimming.
pub fn header_value_matches_grammar(value: &str) -> (r: bool)
    ensures
        r == grammar_ok(value.spec_bytes()),
{
    let bytes = value.as_bytes_vec();
    grammar_split(&bytes).is_some()
}

/// Propagates a trace context through the Google Cloud Trace header,
/// `X-Cloud-Trace-Context`.
#[derive(Clone, Copy, Debug)]
pub struct GoogleTraceContextPropagator {}

impl GoogleTraceContextPropagator {
    /// Create a new `GoogleTraceContextPropagator`.
    pub fn new() -> (r: Self)
        ensures
            r == (GoogleTraceContextPropagator {}),
    {
        GoogleTraceContextPropagator {}
    }

    /// Decodes the looked-up header value into a trace context, or says why
    /// it cannot: absent, not matching the grammar, a field out of range, or
    /// a zero identifier.
    pub fn extract_span_context(&self, header_value: Option<&str>) -> (r: Result<
        TraceContext,
        DecodeError,
    >)
        ensures
            r == extract_spec(header_value),
    {
        match header_value {
            None => Err(DecodeError::Missing),
            Some(s) => {
                let bytes = s.as_bytes_vec();
                let trimmed = trim_bytes(&bytes);
                decode_bytes(&trimmed)
            },
        }
    }

    /// Builds the context from its sampling decision and its two textual
    /// fields, checking each as the wire format demands.
    pub fn construct_span_context(sampled: bool, trace_id_hex: &str, span_id_dec: &str) -> (r:
        Result<TraceContext, DecodeError>)
        ensures
            r == construct_spec(sampled, trace_id_hex.spec_bytes(), span_id_dec.spec_bytes()),
    {
        let t = trace_id_hex.as_bytes_vec();
        let sp = span_id_dec.as_bytes_vec();
        construct_context_bytes(sampled, &t, &sp)
    }

    /// Renders the context as the header value to write, or nothing when the
    /// context is invalid: a header is never emitted for a context that
    /// cannot be round-tripped.
    pub fn inject_context(&self, cx: Option<&TraceContext>) -> (r: Option<String>)
        ensures
            r is Some <==> (cx matches Some(c) && c.valid()),
            r matches Some(h) ==> (cx matches Some(c) && encode_utf8(h@) == encode_spec(*c)),
    {
        match cx {
            Some(c) => {
                if c.is_valid() {
                    let bytes = encode_bytes(c);
                    proof {
                        crate::laws::lemma_encode_spec_ascii(*c);
                    }
                    Some(ascii_bytes_to_string(bytes))
                } else {
                    None
                }
            },
            None => None,
        }
    }

    /// Extraction that never fails the caller: a decoded context replaces
    /// the ambient one, and on any decode failure the ambient context is
    /// handed back unchanged.
    pub fn extract_with_context(&self, cx: Option<TraceContext>, header_value: Option<&str>) -> (r:
        Option<TraceContext>)
        ensures
            extract_spec(header_value) matches Ok(c) ==> r == Some(c),
            extract_spec(header_value) is Err ==> r == cx,
    {
        match self.extract_span_context(header_value) {
            Ok(c) => Some(c),
            Err(_) => cx,
        }
    }

    /// The header names this codec may read or write: exactly one.
    pub fn fields(&self) -> (r: Vec<String>)
        ensures
            r@.len() == 1,
            r@[0]@ == spec_header_name(),
    {
        let mut names: Vec<String> = Vec::new();
        names.push(header_name().to_owned());
        names
    }
}

impl Default for GoogleTraceContextPropagator {
    fn default() -> (r: Self)
        ensures
            r == (GoogleTraceContextPropagator {}),
    {
        GoogleTraceContextPropagator {}
    }
}

} // verus!
