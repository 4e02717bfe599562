//! The ingestion front end of a pluggable log-shipping pipeline: an HTTP
//! source that decodes a raw request body under a configured encoding
//! (plain text lines, newline-delimited JSON, or one JSON value), enriches
//! every record with captured headers, query parameters, the matched path
//! and a fixed source-kind tag, and answers with the batch to publish or
//! the failure that aborts the whole request.

#![verifier::loop_isolation(false)]

pub mod config;
pub mod decode;
pub mod enrich;
pub mod error;
pub mod json;
pub mod laws;
pub mod lines;
pub mod notification;
pub mod record;
pub mod schema;
pub mod server;
pub mod source;
pub mod strutil;
pub mod value;
