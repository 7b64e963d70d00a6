//! A decode instruction engine for a schema-driven binary format language.
//!
//! A front end compiles a format description into a sequence of typed
//! instructions over a write-once register file; this crate executes such a
//! program against an in-memory byte stream, consuming it in a single
//! deterministic forward pass and assembling the decoded value in the last
//! register.  An extension-resolution registry supplies built-in and
//! user-defined codec capabilities by name.

pub mod decoder;
pub mod laws;
pub mod program;
pub mod semantics;
pub mod resolver;
pub mod stream;
pub mod values;
