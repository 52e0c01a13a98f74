//! Streaming search over MediaWiki XML page dumps.
//!
//! The scanner consumes a stream of XML tokens, assembles one page record at
//! a time (title, namespace, body text), filters pages by namespace, and runs
//! a regular expression against each completed page body, reporting the first
//! match of every matching page to a caller-supplied sink.

pub mod args;
pub mod config;
pub mod laws;
pub mod model;
pub mod numparse;
pub mod pattern;
pub mod scanner;
pub mod sink;
pub mod strutil;
pub mod token;
pub mod xml;
