//! Retrieval of objects over HTTP: range requests, response validation and resumable bodies.

pub mod attribute_laws;
pub mod attributes;
pub mod backoff;
pub mod call_laws;
pub mod chunk;
pub mod context;
pub mod decimal;
pub mod error_laws;
pub mod field_laws;
pub mod fields;
pub mod get;
pub mod get_attributes;
pub mod get_error;
pub mod get_laws;
pub mod header;
pub mod header_laws;
pub mod range;
pub mod response_laws;
pub mod runtime;
pub mod step_laws;
pub mod stream;
pub mod stream_laws;
pub mod text;
pub mod text_laws;
pub mod views;
