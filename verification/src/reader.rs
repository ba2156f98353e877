//! Sequential big-endian reader over an in-memory byte buffer.
//!
//! Every read advances the position by exactly the width consumed, and fails
//! with [`Error::TruncatedInput`] when fewer bytes remain than requested.
//! Each exec read is proved against a spec-level read over `Seq<u8>`, so the
//! decoders built on top can be specified as pure functions of the bytes.

use vstd::prelude::*;
use vstd::slice::{slice_index_get, slice_subrange, slice_to_vec};

use crate::error::Error;

verus! {

/// True when `n` bytes can be read from `b` at position `p`.
pub open spec fn can_read(b: Seq<u8>, p: int, n: int) -> bool {
    0 <= p && p + n <= b.len()
}

/// The big-endian 16-bit value at position `p`.
pub open spec fn be_u16(b: Seq<u8>, p: int) -> u16 {
    (b[p] as int * 0x100 + b[p + 1] as int) as u16
}

/// The big-endian 32-bit value at position `p`.
pub open spec fn be_u32(b: Seq<u8>, p: int) -> u32 {
    (b[p] as int * 0x1000000 + b[p + 1] as int * 0x10000 + b[p + 2] as int * 0x100 + b[p
        + 3] as int) as u32
}

/// The big-endian 64-bit value at position `p`.
pub open spec fn be_u64(b: Seq<u8>, p: int) -> u64 {
    (b[p] as int * 0x100000000000000 + b[p + 1] as int * 0x1000000000000 + b[p
        + 2] as int * 0x10000000000 + b[p + 3] as int * 0x100000000 + b[p + 4] as int * 0x1000000
        + b[p + 5] as int * 0x10000 + b[p + 6] as int * 0x100 + b[p + 7] as int) as u64
}

/// Spec-level read of one byte: the value and the position after it.
pub open spec fn spec_read_u8(b: Seq<u8>, p: int) -> Result<(u8, int), Error> {
    if can_read(b, p, 1) {
        Ok((b[p], p + 1))
    } else {
        Err(Error::TruncatedInput)
    }
}

/// Spec-level read of a big-endian 16-bit value.
pub open spec fn spec_read_u16(b: Seq<u8>, p: int) -> Result<(u16, int), Error> {
    if can_read(b, p, 2) {
        Ok((be_u16(b, p), p + 2))
    } else {
        Err(Error::TruncatedInput)
    }
}

/// Spec-level read of a big-endian 32-bit value.
pub open spec fn spec_read_u32(b: Seq<u8>, p: int) -> Result<(u32, int), Error> {
    if can_read(b, p, 4) {
        Ok((be_u32(b, p), p + 4))
    } else {
        Err(Error::TruncatedInput)
    }
}

/// Spec-level read of a big-endian 64-bit value.
pub open spec fn spec_read_u64(b: Seq<u8>, p: int) -> Result<(u64, int), Error> {
    if can_read(b, p, 8) {
        Ok((be_u64(b, p), p + 8))
    } else {
        Err(Error::TruncatedInput)
    }
}

/// Spec-level read of `n` raw bytes.
pub open spec fn spec_read_bytes(b: Seq<u8>, p: int, n: int) -> Result<(Seq<u8>, int), Error> {
    if can_read(b, p, n) {
        Ok((b.subrange(p, p + n), p + n))
    } else {
        Err(Error::TruncatedInput)
    }
}

/// Prepends one decoded value to the outcome of decoding the values after
/// it: a failure stays a failure, a success gains the value at the front.
pub open spec fn spec_cons<T>(x: T, rest: Result<(Seq<T>, int), Error>) -> Result<
    (Seq<T>, int),
    Error,
> {
    match rest {
        Err(e) => Err(e),
        Ok((vs, p)) => Ok((seq![x] + vs, p)),
    }
}

/// Prepends a run of already-decoded values to the outcome of decoding the
/// rest of a fixed-length run.
pub open spec fn spec_prepend<T>(done: Seq<T>, rest: Result<(Seq<T>, int), Error>) -> Result<
    (Seq<T>, int),
    Error,
> {
    match rest {
        Err(e) => Err(e),
        Ok((vs, p)) => Ok((done + vs, p)),
    }
}

/// Prepending nothing changes nothing.
pub proof fn lemma_prepend_empty<T>(rest: Result<(Seq<T>, int), Error>)
    ensures
        spec_prepend(Seq::<T>::empty(), rest) == rest,
{
    match rest {
        Err(..) => {},
        Ok((vs, p)) => {
            assert(Seq::<T>::empty() + vs =~= vs);
        },
    }
}

/// Moving one decoded value from the front of the rest to the end of the
/// done run leaves the composition unchanged.
pub proof fn lemma_prepend_step<T>(done: Seq<T>, x: T, rest: Result<(Seq<T>, int), Error>)
    ensures
        spec_prepend(done.push(x), rest) == spec_prepend(done, spec_cons(x, rest)),
{
    match rest {
        Err(..) => {},
        Ok((vs, p)) => {
            assert(done.push(x) + vs =~= done + (seq![x] + vs));
        },
    }
}

/// Prepending the whole run to an empty rest yields the run itself.
pub proof fn lemma_prepend_done<T>(done: Seq<T>, p: int)
    ensures
        spec_prepend(done, Ok::<(Seq<T>, int), Error>((Seq::empty(), p))) == Ok::<
            (Seq<T>, int),
            Error,
        >((done, p)),
{
    assert(done + Seq::<T>::empty() =~= done);
}

/// A cursor over an in-memory buffer, tracking the next position to read.
pub struct Reader<'a> {
    data: &'a [u8],
    pos: usize,
}

impl<'a> Reader<'a> {
    /// The whole underlying buffer; reads never change it.
    pub closed spec fn bytes(&self) -> Seq<u8> {
        self.data@
    }

    /// The position of the next byte to read.
    pub closed spec fn position(&self) -> int {
        self.pos as int
    }

    /// The position never runs past the end of the buffer.
    pub closed spec fn wf(&self) -> bool {
        self.pos <= self.data@.len()
    }

    /// A reader at the start of `data`.
    pub fn new(data: &'a [u8]) -> (r: Reader<'a>)
        ensures
            r.wf(),
            r.bytes() == data@,
            r.position() == 0,
    {
        Reader { data, pos: 0 }
    }

    /// Reads one byte.
    pub fn read_u8(&mut self) -> (r: Result<u8, Error>)
        requires
            old(self).wf(),
        ensures
            final(self).wf(),
            final(self).bytes() == old(self).bytes(),
            match r {
                Ok(v) => spec_read_u8(old(self).bytes(), old(self).position()) == Ok::<
                    (u8, int),
                    Error,
                >((v, final(self).position())),
                Err(e) => spec_read_u8(old(self).bytes(), old(self).position()) == Err::<
                    (u8, int),
                    Error,
                >(e) && *final(self) == *old(self),
            },
    {
        if self.pos < self.data.len() {
            let v: u8 = *slice_index_get(self.data, self.pos);
            self.pos = self.pos + 1;
            Ok(v)
        } else {
            Err(Error::TruncatedInput)
        }
    }

    /// Reads a big-endian 16-bit value.
    pub fn read_u16(&mut self) -> (r: Result<u16, Error>)
        requires
            old(self).wf(),
        ensures
            final(self).wf(),
            final(self).bytes() == old(self).bytes(),
            match r {
                Ok(v) => spec_read_u16(old(self).bytes(), old(self).position()) == Ok::<
                    (u16, int),
                    Error,
                >((v, final(self).position())),
                Err(e) => spec_read_u16(old(self).bytes(), old(self).position()) == Err::<
                    (u16, int),
                    Error,
                >(e) && *final(self) == *old(self),
            },
    {
        if self.data.len() - self.pos >= 2 {
            let b0: u8 = *slice_index_get(self.data, self.pos);
            let b1: u8 = *slice_index_get(self.data, self.pos + 1);
            self.pos = self.pos + 2;
            Ok((b0 as u16) * 0x100 + (b1 as u16))
        } else {
            Err(Error::TruncatedInput)
        }
    }

    /// Reads a big-endian 32-bit value.
    pub fn read_u32(&mut self) -> (r: Result<u32, Error>)
        requires
            old(self).wf(),
        ensures
            final(self).wf(),
            final(self).bytes() == old(self).bytes(),
            match r {
                Ok(v) => spec_read_u32(old(self).bytes(), old(self).position()) == Ok::<
                    (u32, int),
                    Error,
                >((v, final(self).position())),
                Err(e) => spec_read_u32(old(self).bytes(), old(self).position()) == Err::<
                    (u32, int),
                    Error,
                >(e) && *final(self) == *old(self),
            },
    {
        if self.data.len() - self.pos >= 4 {
            let b0: u8 = *slice_index_get(self.data, self.pos);
            let b1: u8 = *slice_index_get(self.data, self.pos + 1);
            let b2: u8 = *slice_index_get(self.data, self.pos + 2);
            let b3: u8 = *slice_index_get(self.data, self.pos + 3);
            self.pos = self.pos + 4;
            Ok(
                (b0 as u32) * 0x1000000 + (b1 as u32) * 0x10000 + (b2 as u32) * 0x100 + (
                b3 as u32),
            )
        } else {
            Err(Error::TruncatedInput)
        }
    }

    /// Reads a big-endian 64-bit value.
    pub fn read_u64(&mut self) -> (r: Result<u64, Error>)
        requires
            old(self).wf(),
        ensures
            final(self).wf(),
            final(self).bytes() == old(self).bytes(),
            match r {
                Ok(v) => spec_read_u64(old(self).bytes(), old(self).position()) == Ok::<
                    (u64, int),
                    Error,
                >((v, final(self).position())),
                Err(e) => spec_read_u64(old(self).bytes(), old(self).position()) == Err::<
                    (u64, int),
                    Error,
                >(e) && *final(self) == *old(self),
            },
    {
        if self.data.len() - self.pos >= 8 {
            let b0: u8 = *slice_index_get(self.data, self.pos);
            let b1: u8 = *slice_index_get(self.data, self.pos + 1);
            let b2: u8 = *slice_index_get(self.data, self.pos + 2);
            let b3: u8 = *slice_index_get(self.data, self.pos + 3);
            let b4: u8 = *slice_index_get(self.data, self.pos + 4);
            let b5: u8 = *slice_index_get(self.data, self.pos + 5);
            let b6: u8 = *slice_index_get(self.data, self.pos + 6);
            let b7: u8 = *slice_index_get(self.data, self.pos + 7);
            self.pos = self.pos + 8;
            Ok(
                (b0 as u64) * 0x100000000000000 + (b1 as u64) * 0x1000000000000 + (
                b2 as u64) * 0x10000000000 + (b3 as u64) * 0x100000000 + (b4 as u64) * 0x1000000 + (
                b5 as u64) * 0x10000 + (b6 as u64) * 0x100 + (b7 as u64),
            )
        } else {
            Err(Error::TruncatedInput)
        }
    }

    /// Reads exactly `n` raw bytes.
    pub fn read_bytes(&mut self, n: usize) -> (r: Result<Vec<u8>, Error>)
        requires
            old(self).wf(),
        ensures
            final(self).wf(),
            final(self).bytes() == old(self).bytes(),
            match r {
                Ok(v) => spec_read_bytes(old(self).bytes(), old(self).position(), n as int) == Ok::<
                    (Seq<u8>, int),
                    Error,
                >((v@, final(self).position())),
                Err(e) => spec_read_bytes(old(self).bytes(), old(self).position(), n as int)
                    == Err::<(Seq<u8>, int), Error>(e) && *final(self) == *old(self),
            },
    {
        if n <= self.data.len() - self.pos {
            let s: &[u8] = slice_subrange(self.data, self.pos, self.pos + n);
            let v: Vec<u8> = slice_to_vec(s);
            self.pos = self.pos + n;
            Ok(v)
        } else {
            Err(Error::TruncatedInput)
        }
    }
}

} // verus!
