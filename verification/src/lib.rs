//! A unary-call bridge that lets a gRPC-style client run over a
//! host-provided HTTP fetch capability instead of a native HTTP/2 stack.
//!
//! The crate models the two halves of the adapter:
//! byte-frame sources (lazy sequences of byte chunks with a failure
//! signal) and the request/response bridging logic that drains a body,
//! hands it to the host exchange, and rebuilds a response around the
//! host's answer.

mod bridge;
mod error;
mod frames;
mod headers;

pub use bridge::{
    ExchangeOutcome, FetchOptions, HostRequest, HttpMethod, HttpVersion, IncomingResponse,
    OutgoingRequest, complete_call, prepare_call,
};

pub use error::Error;
pub use headers::{
    Header, has_te, headers_view, is_te_name, is_valid_value, is_valid_value_byte, keep_valid,
    keep_valid_spec, lemma_keep_valid_sound, lemma_strip_te_removes_all, lower_byte, name_is_te,
    strip_te, strip_te_spec,
};
pub use frames::{
    BodyStream, FramePoll, chunks_view, classify_read, concat_chunks, drain, lemma_concat_push,
    lemma_drain_completeness, lemma_empty_drains_to_nothing, total_len,
};
