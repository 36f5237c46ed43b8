//! A recursive, pattern-based text search engine: a run compiles a pattern,
//! resolves a text encoding, scans the bytes of each file it is handed line by
//! line, and releases one match event per matching line followed by exactly one
//! finish event.
pub mod engine;
pub mod matcher;
pub mod request;
pub mod scanner;
