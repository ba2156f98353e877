//! Access-flag words: a bit-set over a fixed vocabulary of twelve flags.
//!
//! The same vocabulary is reused for class-level, field-level and
//! method-level flags (an accepted simplification of the format, which
//! allows slightly different sets per context). A word with any bit outside
//! the vocabulary is a hard decode error, never a silently-ignored flag.

use vstd::prelude::*;

use crate::error::Error;
use crate::reader::{be_u16, can_read, spec_read_u16, Reader};

verus! {

/// The flag for `public` visibility.
pub const FLAG_PUBLIC: u16 = 0x0001;

/// The flag for `private` visibility.
pub const FLAG_PRIVATE: u16 = 0x0002;

/// The flag for `protected` visibility.
pub const FLAG_PROTECTED: u16 = 0x0004;

/// The flag for `static` members.
pub const FLAG_STATIC: u16 = 0x0008;

/// The flag for `final` declarations.
pub const FLAG_FINAL: u16 = 0x0010;

/// The flag for `synchronized` methods.
pub const FLAG_SYNCHRONIZED: u16 = 0x0020;

/// The flag for compiler-generated bridge methods.
pub const FLAG_BRIDGE: u16 = 0x0040;

/// The flag for variable-arity methods.
pub const FLAG_VARARGS: u16 = 0x0080;

/// The flag for `native` methods.
pub const FLAG_NATIVE: u16 = 0x0100;

/// The flag for `abstract` declarations.
pub const FLAG_ABSTRACT: u16 = 0x0400;

/// The flag for strict floating-point semantics.
pub const FLAG_STRICT: u16 = 0x0800;

/// The flag for compiler-synthesized items.
pub const FLAG_SYNTHETIC: u16 = 0x1000;

/// The union of the twelve known flags; every other bit is undefined.
pub const FLAG_MASK: u16 = 0x1DFF;

/// True when `bits` sets no bit outside the known vocabulary.
pub open spec fn flags_valid(bits: u16) -> bool {
    bits & !FLAG_MASK == 0
}

/// Spec-level read of an access-flag word: the word succeeds exactly when
/// it stays inside the vocabulary, and is returned unchanged.
pub open spec fn spec_read_flags(b: Seq<u8>, p: int) -> Result<(AccessFlags, int), Error> {
    match spec_read_u16(b, p) {
        Err(e) => Err(e),
        Ok((bits, p1)) => if flags_valid(bits) {
            Ok((AccessFlags { bits }, p1))
        } else {
            Err(Error::InvalidAccessFlags(bits))
        },
    }
}

/// A flag word read in full is accepted, unchanged, exactly when it sets
/// no bit outside the known vocabulary; otherwise the decode fails with
/// `InvalidAccessFlags` carrying the offending word.
pub proof fn lemma_flags_rule(b: Seq<u8>, p: int)
    requires
        can_read(b, p, 2),
    ensures
        flags_valid(be_u16(b, p)) ==> spec_read_flags(b, p) == Ok::<(AccessFlags, int), Error>(
            (AccessFlags { bits: be_u16(b, p) }, p + 2),
        ),
        !flags_valid(be_u16(b, p)) ==> spec_read_flags(b, p) == Err::<(AccessFlags, int), Error>(
            Error::InvalidAccessFlags(be_u16(b, p)),
        ),
{
}

/// A validated access-flag word.
#[derive(Clone, Copy, Debug, PartialEq, Eq, Structural)]
pub struct AccessFlags {
    /// The raw word; valid values set no bit outside [`FLAG_MASK`].
    pub bits: u16,
}

impl AccessFlags {
    /// Reads one 16-bit word and validates it against the vocabulary.
    pub fn read(r: &mut Reader<'_>) -> (res: Result<AccessFlags, Error>)
        requires
            old(r).wf(),
        ensures
            final(r).wf(),
            final(r).bytes() == old(r).bytes(),
            match res {
                Ok(f) => spec_read_flags(old(r).bytes(), old(r).position()) == Ok::<
                    (AccessFlags, int),
                    Error,
                >((f, final(r).position())) && flags_valid(f.bits),
                Err(e) => spec_read_flags(old(r).bytes(), old(r).position()) == Err::<
                    (AccessFlags, int),
                    Error,
                >(e),
            },
    {
        let bits = match r.read_u16() {
            Ok(v) => v,
            Err(e) => {
                return Err(e);
            },
        };
        if bits & !FLAG_MASK == 0 {
            Ok(AccessFlags { bits })
        } else {
            Err(Error::InvalidAccessFlags(bits))
        }
    }

    /// The raw word.
    pub fn bits(&self) -> (r: u16)
        ensures
            r == self.bits,
    {
        self.bits
    }

    /// True when every bit of `mask` is set in this word.
    pub fn contains(&self, mask: u16) -> (r: bool)
        ensures
            r == (self.bits & mask == mask),
    {
        self.bits & mask == mask
    }
}

} // verus!
