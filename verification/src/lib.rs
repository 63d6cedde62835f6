//! Codec for the `X-Cloud-Trace-Context` header: a bidirectional mapping
//! between an in-process trace context (trace id, span id, sampling decision)
//! and the single textual header value used by the Google Cloud tracing
//! backend.

pub mod codec;
pub mod context;
pub mod digits;
pub mod grammar;
pub mod laws;
pub mod propagator;

pub use context::DecodeError;
pub use context::TraceContext;
pub use propagator::header_name;
pub use propagator::header_value_matches_grammar;
pub use propagator::GoogleTraceContextPropagator;
