//! Verified core of a small batch image downloader.
//!
//! The library holds the logic of the tool: collecting download targets
//! from typed lines and bulk file loads, normalizing identifiers into
//! request URLs, deriving output paths, and labelling HTTP status codes.
//! The surrounding I/O (prompting, reading files, the HTTP requests and
//! the file writes) lives outside the library and hands it plain values.

pub mod lines;
pub mod orchestrate;
pub mod pending;
pub mod status;
pub mod strutil;
pub mod url;
