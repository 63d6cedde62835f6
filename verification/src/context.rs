//! The in-process trace context carried by the header, and the errors a
//! decode can end in.

use vstd::prelude::*;

verus! {

/// One end-to-end trace context: a 128-bit trace identifier, a 64-bit span
/// identifier, and the sampling decision. On the wire the trace identifier
/// is 32 lowercase hex digits and the span identifier an unsigned decimal
/// number; a context is usable only when both identifiers are non-zero.
#[derive(Clone, Copy, Debug, PartialEq, Eq, Structural)]
pub struct TraceContext {
    pub trace_id: u128,
    pub span_id: u64,
    pub sampled: bool,
}

impl TraceContext {
    /// A context is valid exactly when neither identifier is the all-zero
    /// sentinel.
    pub open spec fn valid(self) -> bool {
        self.trace_id != 0 && self.span_id != 0
    }

    pub fn new(trace_id: u128, span_id: u64, sampled: bool) -> (r: TraceContext)
        ensures
            r == (TraceContext { trace_id, span_id, sampled }),
    {
        TraceContext { trace_id, span_id, sampled }
    }

    pub fn is_valid(&self) -> (r: bool)
        ensures
            r == self.valid(),
    {
        self.trace_id != 0 && self.span_id != 0
    }
}

/// Why a decode failed.
#[derive(Clone, Copy, Debug, PartialEq, Eq, Structural)]
pub enum DecodeError {
    /// The header is absent from the carrier.
    Missing,
    /// The value does not match the header grammar.
    Malformed,
    /// The trace-id field is not 32 lowercase hex digits.
    InvalidTraceId,
    /// The span-id field is not a decimal number that fits in 64 bits.
    InvalidSpanId,
    /// Both fields parsed, but an identifier is the all-zero sentinel.
    InvalidContext,
}

} // verus!
