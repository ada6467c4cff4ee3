//! Streaming transcoding between JSON, line-delimited JSON, TOML and
//! delimiter-separated tables, with per-record error isolation.
//!
//! Data flows from a reader (outside this crate: files, tokenizers) through
//! the per-record decoders of `decode` into a canonical stream (`stream`),
//! and from there through a `writer::Writer` into output bytes. A malformed
//! record is reported to a `log::LogSink` and skipped; a fatal condition is
//! a `error::ConversionError` returned to the caller.
//!
//! - `escape`: scalar coercion and string escaping.
//! - `table`: rows keyed by the header in each output layout.
//! - `codec`: the calls into serde_json, toml and csv.
//! - `laws`: properties over several calls.
pub mod cli;
pub mod codec;
pub mod decode;
pub mod error;
pub mod escape;
pub mod format;
pub mod laws;
pub mod log;
pub mod stream;
pub mod table;
pub mod writer;
