//! The decoder's error taxonomy. Every error aborts the whole decode; no
//! step catches or downgrades an error from a nested step.

use vstd::prelude::*;

verus! {

/// A fatal decoding error.
#[derive(Clone, Copy, Debug, PartialEq, Eq, Structural)]
pub enum Error {
    /// An underlying file read failed. The core decoder never produces this
    /// variant itself; it exists for collaborators that load a file into
    /// memory before handing the bytes over.
    Io,
    /// The first four bytes are not the class-file magic number.
    InvalidSignature(u32),
    /// The version pair fails the major/minor compatibility rule.
    InvalidVersion { major: u16, minor: u16 },
    /// A constant record starts with an unknown tag byte.
    InvalidConstantTag(u8),
    /// An access-flag word has a bit outside the known vocabulary set.
    InvalidAccessFlags(u16),
    /// A constant-pool index is zero or past the end of the pool.
    InvalidConstantPoolIndex,
    /// A constant-pool entry is not of the variant the context requires.
    InvalidConstantPoolType,
    /// A Utf8 constant's payload is not valid UTF-8. The class-file format
    /// prescribes "modified UTF-8"; this decoder reads standard UTF-8 (a
    /// documented limitation) and rejects payloads that fail it.
    InvalidUtf8,
    /// The input ended in the middle of a read.
    TruncatedInput,
}

} // verus!
