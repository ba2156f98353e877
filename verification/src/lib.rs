//! Structural decoder for JVM class files.
//!
//! The decoder takes an in-memory byte buffer and produces a typed view of
//! the class-file container: version, constant pool, access flags, class and
//! superclass references, fields, methods, and attributes. It performs a
//! single forward pass over the bytes and fails fast with a typed error on
//! the first malformed record; a malformed buffer never yields a partial
//! result.
//!
//! Every decoding step is specified against a mathematical model of the
//! binary layout (a spec-level parser over `Seq<u8>`), so the decoded
//! structure is provably a function of the input bytes alone.

pub mod class;
pub mod constant;
pub mod error;
pub mod flags;
pub mod reader;
