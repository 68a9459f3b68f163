//! Request-body ingestion and response emission for a block relay's HTTP API:
//! content negotiation, newest-first probing of untagged SSZ submissions, and
//! the encoding of tagged results into status, content type and JSON bytes.

pub mod media;
pub mod response;
pub mod ssz_wire;
pub mod submission;
pub mod json_shape;
pub mod query;
pub mod text;
