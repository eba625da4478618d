//! Dumping the messages of a NATS JetStream stream as one JSON array, with
//! optional JSONPath filtering.
//!
//! - `args`: the command line and its grammar.
//! - `stream_reader`: messages, read errors, and the decisions taken while
//!   reading a stream.
//! - `filter`: JSONPath filters evaluated against whole messages.
//! - `output`: the JSON array writer.
//! - `dump`: the `dump` subcommand, message by message.
//! - `datetime`: RFC 3339 timestamps as nanoseconds.
//! - `json`, `text`: JSON text and character-level helpers.
pub mod args;
pub mod datetime;
pub mod dump;
pub mod filter;
pub mod json;
pub mod output;
pub mod stream_reader;
pub mod text;
