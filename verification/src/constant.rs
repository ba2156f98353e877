//! The constant pool and its tagged constant records.
//!
//! A constant record is a 1-byte tag followed by a variant-specific payload.
//! The pool is an ordered sequence of such records, 1-indexed in the public
//! lookup API (index 0 is invalid, mirroring the format's numbering). Every
//! entry here occupies a single slot; the format's convention that `Long`
//! and `Double` entries take two slots is not implemented, a documented gap
//! of this decoder.

use vstd::prelude::*;
use vstd::utf8::{decode_utf8, valid_utf8};

use crate::error::Error;
use crate::reader::{be_u16, can_read, lemma_prepend_done, lemma_prepend_empty, lemma_prepend_step,
    spec_cons, spec_prepend, spec_read_bytes, spec_read_u16, spec_read_u32, spec_read_u64,
    spec_read_u8, Reader};

verus! {

/// The mathematical model of a constant record.
///
/// Index fields hold 1-based positions in the same pool, widened from the
/// 16-bit fields of the binary layout. `Float` and `Double` hold the raw
/// bit pattern of the IEEE-754 value exactly as it stands in the file; the
/// decoder never interprets it.
pub enum ConstantView {
    Class { name_index: usize },
    FieldRef { class_index: usize, name_and_type_index: usize },
    MethodRef { class_index: usize, name_and_type_index: usize },
    InterfaceMethodRef { class_index: usize, name_and_type_index: usize },
    String { string_index: usize },
    Integer(u32),
    Float(u32),
    Long(u64),
    Double(u64),
    NameAndType { name_index: usize, descriptor_index: usize },
    Utf8 { data: Seq<char> },
    MethodHandle { reference_kind: u16, reference_index: usize },
    MethodType { descriptor_index: usize },
    Dynamic { bootstrap_method_attr_index: usize, name_and_type_index: usize },
    InvokeDynamic { bootstrap_method_attr_index: usize, name_and_type_index: usize },
    Module { name_index: usize },
    Package { name_index: usize },
}

/// A decoded constant record.
///
/// The shape mirrors [`ConstantView`]; `Utf8` holds the payload decoded as
/// standard UTF-8 text (the format's "modified UTF-8" differs in null-byte
/// and supplementary-character encoding — a documented limitation), and
/// `Float`/`Double` hold the raw 32- and 64-bit patterns read from the
/// stream, since the decoder never does floating-point arithmetic on them.
#[derive(Debug)]
pub enum Constant {
    Class { name_index: usize },
    FieldRef { class_index: usize, name_and_type_index: usize },
    MethodRef { class_index: usize, name_and_type_index: usize },
    InterfaceMethodRef { class_index: usize, name_and_type_index: usize },
    String { string_index: usize },
    Integer(u32),
    Float(u32),
    Long(u64),
    Double(u64),
    NameAndType { name_index: usize, descriptor_index: usize },
    Utf8 { data: String },
    MethodHandle { reference_kind: u16, reference_index: usize },
    MethodType { descriptor_index: usize },
    Dynamic { bootstrap_method_attr_index: usize, name_and_type_index: usize },
    InvokeDynamic { bootstrap_method_attr_index: usize, name_and_type_index: usize },
    Module { name_index: usize },
    Package { name_index: usize },
}

impl View for Constant {
    type V = ConstantView;

    closed spec fn view(&self) -> ConstantView {
        match self {
            Constant::Class { name_index } => ConstantView::Class { name_index: *name_index },
            Constant::FieldRef { class_index, name_and_type_index } => ConstantView::FieldRef {
                class_index: *class_index,
                name_and_type_index: *name_and_type_index,
            },
            Constant::MethodRef { class_index, name_and_type_index } => ConstantView::MethodRef {
                class_index: *class_index,
                name_and_type_index: *name_and_type_index,
            },
            Constant::InterfaceMethodRef {
                class_index,
                name_and_type_index,
            } => ConstantView::InterfaceMethodRef {
                class_index: *class_index,
                name_and_type_index: *name_and_type_index,
            },
            Constant::String { string_index } => ConstantView::String {
                string_index: *string_index,
            },
            Constant::Integer(v) => ConstantView::Integer(*v),
            Constant::Float(bits) => ConstantView::Float(*bits),
            Constant::Long(v) => ConstantView::Long(*v),
            Constant::Double(bits) => ConstantView::Double(*bits),
            Constant::NameAndType { name_index, descriptor_index } => ConstantView::NameAndType {
                name_index: *name_index,
                descriptor_index: *descriptor_index,
            },
            Constant::Utf8 { data } => ConstantView::Utf8 { data: data@ },
            Constant::MethodHandle {
                reference_kind,
                reference_index,
            } => ConstantView::MethodHandle {
                reference_kind: *reference_kind,
                reference_index: *reference_index,
            },
            Constant::MethodType { descriptor_index } => ConstantView::MethodType {
                descriptor_index: *descriptor_index,
            },
            Constant::Dynamic {
                bootstrap_method_attr_index,
                name_and_type_index,
            } => ConstantView::Dynamic {
                bootstrap_method_attr_index: *bootstrap_method_attr_index,
                name_and_type_index: *name_and_type_index,
            },
            Constant::InvokeDynamic {
                bootstrap_method_attr_index,
                name_and_type_index,
            } => ConstantView::InvokeDynamic {
                bootstrap_method_attr_index: *bootstrap_method_attr_index,
                name_and_type_index: *name_and_type_index,
            },
            Constant::Module { name_index } => ConstantView::Module { name_index: *name_index },
            Constant::Package { name_index } => ConstantView::Package { name_index: *name_index },
        }
    }
}

/// True of the tag bytes that begin a known constant record.
pub open spec fn known_tag(tag: u8) -> bool {
    tag == 1 || (3 <= tag && tag <= 12) || (15 <= tag && tag <= 20)
}

/// Spec-level decode of one constant record at position `p`: a 1-byte tag,
/// then the variant-specific payload.
pub open spec fn spec_read_constant(b: Seq<u8>, p: int) -> Result<(ConstantView, int), Error> {
    match spec_read_u8(b, p) {
        Err(e) => Err(e),
        Ok((tag, p1)) => spec_constant_payload(b, p1, tag),
    }
}

/// Spec-level decode of the payload that follows tag `tag`.
pub open spec fn spec_constant_payload(b: Seq<u8>, p: int, tag: u8) -> Result<
    (ConstantView, int),
    Error,
> {
    if tag == 1 {
        match spec_read_u16(b, p) {
            Err(e) => Err(e),
            Ok((len, p1)) => match spec_read_bytes(b, p1, len as int) {
                Err(e) => Err(e),
                Ok((payload, p2)) => if valid_utf8(payload) {
                    Ok((ConstantView::Utf8 { data: decode_utf8(payload) }, p2))
                } else {
                    Err(Error::InvalidUtf8)
                },
            },
        }
    } else if tag == 3 {
        match spec_read_u32(b, p) {
            Err(e) => Err(e),
            Ok((v, p1)) => Ok((ConstantView::Integer(v), p1)),
        }
    } else if tag == 4 {
        match spec_read_u32(b, p) {
            Err(e) => Err(e),
            Ok((v, p1)) => Ok((ConstantView::Float(v), p1)),
        }
    } else if tag == 5 {
        match spec_read_u64(b, p) {
            Err(e) => Err(e),
            Ok((v, p1)) => Ok((ConstantView::Long(v), p1)),
        }
    } else if tag == 6 {
        match spec_read_u64(b, p) {
            Err(e) => Err(e),
            Ok((v, p1)) => Ok((ConstantView::Double(v), p1)),
        }
    } else if tag == 7 {
        match spec_read_u16(b, p) {
            Err(e) => Err(e),
            Ok((v, p1)) => Ok((ConstantView::Class { name_index: v as usize }, p1)),
        }
    } else if tag == 8 {
        match spec_read_u16(b, p) {
            Err(e) => Err(e),
            Ok((v, p1)) => Ok((ConstantView::String { string_index: v as usize }, p1)),
        }
    } else if tag == 9 {
        match spec_read_index_pair(b, p) {
            Err(e) => Err(e),
            Ok(((a, c), p1)) => Ok(
                (ConstantView::FieldRef { class_index: a, name_and_type_index: c }, p1),
            ),
        }
    } else if tag == 10 {
        match spec_read_index_pair(b, p) {
            Err(e) => Err(e),
            Ok(((a, c), p1)) => Ok(
                (ConstantView::MethodRef { class_index: a, name_and_type_index: c }, p1),
            ),
        }
    } else if tag == 11 {
        match spec_read_index_pair(b, p) {
            Err(e) => Err(e),
            Ok(((a, c), p1)) => Ok(
                (ConstantView::InterfaceMethodRef { class_index: a, name_and_type_index: c }, p1),
            ),
        }
    } else if tag == 12 {
        match spec_read_index_pair(b, p) {
            Err(e) => Err(e),
            Ok(((a, c), p1)) => Ok(
                (ConstantView::NameAndType { name_index: a, descriptor_index: c }, p1),
            ),
        }
    } else if tag == 15 {
        match spec_read_u16(b, p) {
            Err(e) => Err(e),
            Ok((idx, p1)) => match spec_read_u16(b, p1) {
                Err(e) => Err(e),
                Ok((kind, p2)) => Ok(
                    (
                        ConstantView::MethodHandle {
                            reference_kind: kind,
                            reference_index: idx as usize,
                        },
                        p2,
                    ),
                ),
            },
        }
    } else if tag == 16 {
        match spec_read_u16(b, p) {
            Err(e) => Err(e),
            Ok((v, p1)) => Ok((ConstantView::MethodType { descriptor_index: v as usize }, p1)),
        }
    } else if tag == 17 {
        match spec_read_index_pair(b, p) {
            Err(e) => Err(e),
            Ok(((a, c), p1)) => Ok(
                (
                    ConstantView::Dynamic {
                        bootstrap_method_attr_index: a,
                        name_and_type_index: c,
                    },
                    p1,
                ),
            ),
        }
    } else if tag == 18 {
        match spec_read_index_pair(b, p) {
            Err(e) => Err(e),
            Ok(((a, c), p1)) => Ok(
                (
                    ConstantView::InvokeDynamic {
                        bootstrap_method_attr_index: a,
                        name_and_type_index: c,
                    },
                    p1,
                ),
            ),
        }
    } else if tag == 19 {
        match spec_read_u16(b, p) {
            Err(e) => Err(e),
            Ok((v, p1)) => Ok((ConstantView::Module { name_index: v as usize }, p1)),
        }
    } else if tag == 20 {
        match spec_read_u16(b, p) {
            Err(e) => Err(e),
            Ok((v, p1)) => Ok((ConstantView::Package { name_index: v as usize }, p1)),
        }
    } else {
        Err(Error::InvalidConstantTag(tag))
    }
}

/// Spec-level read of two consecutive 16-bit pool indices, widened.
pub open spec fn spec_read_index_pair(b: Seq<u8>, p: int) -> Result<((usize, usize), int), Error> {
    match spec_read_u16(b, p) {
        Err(e) => Err(e),
        Ok((a, p1)) => match spec_read_u16(b, p1) {
            Err(e) => Err(e),
            Ok((c, p2)) => Ok(((a as usize, c as usize), p2)),
        },
    }
}

/// An unknown tag byte is rejected as `InvalidConstantTag`, carrying the
/// tag itself; no payload bytes are interpreted after it.
pub proof fn lemma_unknown_tag_rejected(b: Seq<u8>, p: int)
    requires
        0 <= p < b.len(),
        !known_tag(b[p]),
    ensures
        spec_read_constant(b, p) == Err::<(ConstantView, int), Error>(
            Error::InvalidConstantTag(b[p]),
        ),
{
}

/// Relies on `String::from_utf8`: it returns `Ok` exactly when the bytes
/// are valid UTF-8, and the returned string's characters are then the
/// bytes' UTF-8 decoding.
#[verifier::external_body]
fn utf8_to_string(bytes: Vec<u8>) -> (r: Option<String>)
    ensures
        r is Some <==> valid_utf8(bytes@),
        r matches Some(s) ==> s@ == decode_utf8(bytes@),
{
    String::from_utf8(bytes).ok()
}

impl Constant {
    /// Reads one tagged constant record.
    pub fn read(r: &mut Reader<'_>) -> (res: Result<Constant, Error>)
        requires
            old(r).wf(),
        ensures
            final(r).wf(),
            final(r).bytes() == old(r).bytes(),
            match res {
                Ok(c) => spec_read_constant(old(r).bytes(), old(r).position()) == Ok::<
                    (ConstantView, int),
                    Error,
                >((c@, final(r).position())),
                Err(e) => spec_read_constant(old(r).bytes(), old(r).position()) == Err::<
                    (ConstantView, int),
                    Error,
                >(e),
            },
    {
        let tag = match r.read_u8() {
            Ok(v) => v,
            Err(e) => {
                return Err(e);
            },
        };
        match tag {
            1 => {
                let len = match r.read_u16() {
                    Ok(v) => v,
                    Err(e) => {
                        return Err(e);
                    },
                };
                let payload = match r.read_bytes(len as usize) {
                    Ok(v) => v,
                    Err(e) => {
                        return Err(e);
                    },
                };
                let ghost payload_bytes = payload@;
                match utf8_to_string(payload) {
                    Some(data) => Ok(Constant::Utf8 { data }),
                    None => Err(Error::InvalidUtf8),
                }
            },
            3 => {
                let v = match r.read_u32() {
                    Ok(v) => v,
                    Err(e) => {
                        return Err(e);
                    },
                };
                Ok(Constant::Integer(v))
            },
            4 => {
                let v = match r.read_u32() {
                    Ok(v) => v,
                    Err(e) => {
                        return Err(e);
                    },
                };
                Ok(Constant::Float(v))
            },
            5 => {
                let v = match r.read_u64() {
                    Ok(v) => v,
                    Err(e) => {
                        return Err(e);
                    },
                };
                Ok(Constant::Long(v))
            },
            6 => {
                let v = match r.read_u64() {
                    Ok(v) => v,
                    Err(e) => {
                        return Err(e);
                    },
                };
                Ok(Constant::Double(v))
            },
            7 => {
                let v = match r.read_u16() {
                    Ok(v) => v,
                    Err(e) => {
                        return Err(e);
                    },
                };
                Ok(Constant::Class { name_index: v as usize })
            },
            8 => {
                let v = match r.read_u16() {
                    Ok(v) => v,
                    Err(e) => {
                        return Err(e);
                    },
                };
                Ok(Constant::String { string_index: v as usize })
            },
            9 => {
                let (a, c) = match Self::read_index_pair(r) {
                    Ok(v) => v,
                    Err(e) => {
                        return Err(e);
                    },
                };
                Ok(Constant::FieldRef { class_index: a, name_and_type_index: c })
            },
            10 => {
                let (a, c) = match Self::read_index_pair(r) {
                    Ok(v) => v,
                    Err(e) => {
                        return Err(e);
                    },
                };
                Ok(Constant::MethodRef { class_index: a, name_and_type_index: c })
            },
            11 => {
                let (a, c) = match Self::read_index_pair(r) {
                    Ok(v) => v,
                    Err(e) => {
                        return Err(e);
                    },
                };
                Ok(Constant::InterfaceMethodRef { class_index: a, name_and_type_index: c })
            },
            12 => {
                let (a, c) = match Self::read_index_pair(r) {
                    Ok(v) => v,
                    Err(e) => {
                        return Err(e);
                    },
                };
                Ok(Constant::NameAndType { name_index: a, descriptor_index: c })
            },
            15 => {
                // The stream holds the reference index first, then the
                // reference kind; the decoded record keeps them by name.
                let idx = match r.read_u16() {
                    Ok(v) => v,
                    Err(e) => {
                        return Err(e);
                    },
                };
                let kind = match r.read_u16() {
                    Ok(v) => v,
                    Err(e) => {
                        return Err(e);
                    },
                };
                Ok(Constant::MethodHandle { reference_kind: kind, reference_index: idx as usize })
            },
            16 => {
                let v = match r.read_u16() {
                    Ok(v) => v,
                    Err(e) => {
                        return Err(e);
                    },
                };
                Ok(Constant::MethodType { descriptor_index: v as usize })
            },
            17 => {
                let (a, c) = match Self::read_index_pair(r) {
                    Ok(v) => v,
                    Err(e) => {
                        return Err(e);
                    },
                };
                Ok(Constant::Dynamic { bootstrap_method_attr_index: a, name_and_type_index: c })
            },
            18 => {
                let (a, c) = match Self::read_index_pair(r) {
                    Ok(v) => v,
                    Err(e) => {
                        return Err(e);
                    },
                };
                Ok(
                    Constant::InvokeDynamic {
                        bootstrap_method_attr_index: a,
                        name_and_type_index: c,
                    },
                )
            },
            19 => {
                let v = match r.read_u16() {
                    Ok(v) => v,
                    Err(e) => {
                        return Err(e);
                    },
                };
                Ok(Constant::Module { name_index: v as usize })
            },
            20 => {
                let v = match r.read_u16() {
                    Ok(v) => v,
                    Err(e) => {
                        return Err(e);
                    },
                };
                Ok(Constant::Package { name_index: v as usize })
            },
            _ => Err(Error::InvalidConstantTag(tag)),
        }
    }

    /// Reads two consecutive 16-bit pool indices, widened.
    fn read_index_pair(r: &mut Reader<'_>) -> (res: Result<(usize, usize), Error>)
        requires
            old(r).wf(),
        ensures
            final(r).wf(),
            final(r).bytes() == old(r).bytes(),
            match res {
                Ok(v) => spec_read_index_pair(old(r).bytes(), old(r).position()) == Ok::<
                    ((usize, usize), int),
                    Error,
                >((v, final(r).position())),
                Err(e) => spec_read_index_pair(old(r).bytes(), old(r).position()) == Err::<
                    ((usize, usize), int),
                    Error,
                >(e),
            },
    {
        let a = match r.read_u16() {
            Ok(v) => v,
            Err(e) => {
                return Err(e);
            },
        };
        let c = match r.read_u16() {
            Ok(v) => v,
            Err(e) => {
                return Err(e);
            },
        };
        Ok((a as usize, c as usize))
    }
}

/// The models of a sequence of constants.
pub open spec fn views_of(s: Seq<Constant>) -> Seq<ConstantView> {
    s.map_values(|c: Constant| c@)
}

/// Appending a constant to a sequence appends its model.
pub proof fn lemma_views_of_push(s: Seq<Constant>, c: Constant)
    ensures
        views_of(s.push(c)) == views_of(s).push(c@),
{
    assert(views_of(s.push(c)) =~= views_of(s).push(c@));
}

/// Spec-level decode of exactly `n` constant records in stream order.
pub open spec fn spec_read_constants(b: Seq<u8>, p: int, n: nat) -> Result<
    (Seq<ConstantView>, int),
    Error,
>
    decreases n,
{
    if n == 0 {
        Ok((Seq::empty(), p))
    } else {
        match spec_read_constant(b, p) {
            Err(e) => Err(e),
            Ok((c, p1)) => spec_cons(c, spec_read_constants(b, p1, (n - 1) as nat)),
        }
    }
}

/// Spec-level decode of the whole pool: a 16-bit count, then `count - 1`
/// records. The count field numbers one slot past the entries, so a count
/// of 1 means an empty pool; a count of 0, which the format never uses, is
/// treated the same way.
pub open spec fn spec_read_pool(b: Seq<u8>, p: int) -> Result<(Seq<ConstantView>, int), Error> {
    match spec_read_u16(b, p) {
        Err(e) => Err(e),
        Ok((count, p1)) => spec_read_constants(
            b,
            p1,
            if count == 0 {
                0
            } else {
                (count - 1) as nat
            },
        ),
    }
}

/// Pool lookup model: `index` is 1-based; index 0 and indices past the end
/// fail with `InvalidConstantPoolIndex`, an entry that is not `Utf8` fails
/// with `InvalidConstantPoolType`, and a `Utf8` entry yields its text.
pub open spec fn spec_pool_string(pool: Seq<ConstantView>, index: u16) -> Result<Seq<char>, Error> {
    if index == 0 || index as int > pool.len() {
        Err(Error::InvalidConstantPoolIndex)
    } else {
        match pool[index as int - 1] {
            ConstantView::Utf8 { data } => Ok(data),
            _ => Err(Error::InvalidConstantPoolType),
        }
    }
}

/// A run of `n` constant records read in full holds exactly `n` models.
pub proof fn lemma_constants_length(b: Seq<u8>, p: int, n: nat)
    ensures
        spec_read_constants(b, p, n) matches Ok((cs, q)) ==> cs.len() == n,
    decreases n,
{
    if n > 0 {
        match spec_read_constant(b, p) {
            Err(..) => {},
            Ok((c, p1)) => {
                lemma_constants_length(b, p1, (n - 1) as nat);
            },
        }
    }
}

/// A pool read in full holds exactly `count - 1` constants: the count
/// field numbers one slot past the entries.
pub proof fn lemma_pool_length(b: Seq<u8>, p: int)
    ensures
        spec_read_pool(b, p) matches Ok((pool, q)) ==> pool.len() == (if be_u16(b, p) == 0 {
            0int
        } else {
            be_u16(b, p) - 1
        }),
{
    match spec_read_u16(b, p) {
        Err(..) => {},
        Ok((count, p1)) => {
            lemma_constants_length(
                b,
                p1,
                if count == 0 {
                    0
                } else {
                    (count - 1) as nat
                },
            );
        },
    }
}

/// A lookup that reaches an entry of the wrong variant — any constant
/// that is not `Utf8` where text is required — fails with
/// `InvalidConstantPoolType`.
pub proof fn lemma_non_utf8_lookup(pool: Seq<ConstantView>, index: u16)
    requires
        1 <= index,
        index as int <= pool.len(),
        !(pool[index as int - 1] is Utf8),
    ensures
        spec_pool_string(pool, index) == Err::<Seq<char>, Error>(Error::InvalidConstantPoolType),
{
}

/// On an empty pool every lookup fails with `InvalidConstantPoolIndex`.
pub proof fn lemma_empty_pool_lookup(index: u16)
    ensures
        spec_pool_string(Seq::empty(), index) == Err::<Seq<char>, Error>(
            Error::InvalidConstantPoolIndex,
        ),
{
}

/// A pool whose count field is 1 decodes to zero constants.
pub proof fn lemma_count_one_empty_pool(b: Seq<u8>, p: int)
    requires
        can_read(b, p, 2),
        be_u16(b, p) == 1,
    ensures
        spec_read_pool(b, p) == Ok::<(Seq<ConstantView>, int), Error>((Seq::empty(), p + 2)),
{
}

/// The class file's shared table of constants, owner of every decoded
/// constant record; the rest of the model refers to entries only through
/// 1-based indices or strings already resolved from it.
#[derive(Debug)]
pub struct ConstantPool {
    pool: Vec<Constant>,
}

impl View for ConstantPool {
    type V = Seq<ConstantView>;

    closed spec fn view(&self) -> Seq<ConstantView> {
        views_of(self.pool@)
    }
}

impl ConstantPool {
    /// Reads the count, then decodes exactly `count - 1` constants in
    /// stream order. Any failure inside a single constant aborts the whole
    /// pool decode; there is no partial pool.
    pub fn read(r: &mut Reader<'_>) -> (res: Result<ConstantPool, Error>)
        requires
            old(r).wf(),
        ensures
            final(r).wf(),
            final(r).bytes() == old(r).bytes(),
            match res {
                Ok(cp) => spec_read_pool(old(r).bytes(), old(r).position()) == Ok::<
                    (Seq<ConstantView>, int),
                    Error,
                >((cp@, final(r).position())),
                Err(e) => spec_read_pool(old(r).bytes(), old(r).position()) == Err::<
                    (Seq<ConstantView>, int),
                    Error,
                >(e),
            },
    {
        let ghost b = old(r).bytes();
        let ghost p0 = old(r).position();
        let count = match r.read_u16() {
            Ok(v) => v,
            Err(e) => {
                return Err(e);
            },
        };
        let n: usize = if count == 0 {
            0
        } else {
            (count - 1) as usize
        };
        let mut pool: Vec<Constant> = Vec::new();
        let ghost pstart = r.position();
        let mut i: usize = 0;
        proof {
            assert(views_of(pool@) =~= Seq::<ConstantView>::empty());
            lemma_prepend_empty(spec_read_constants(b, pstart, n as nat));
        }
        #[verifier::loop_isolation(false)]
        while i < n
            invariant
                r.wf(),
                r.bytes() == b,
                i <= n,
                spec_read_pool(b, p0) == spec_read_constants(b, pstart, n as nat),
                spec_read_constants(b, pstart, n as nat) == spec_prepend(
                    views_of(pool@),
                    spec_read_constants(b, r.position(), (n - i) as nat),
                ),
            decreases n - i,
        {
            let ghost done = pool@;
            let c = match Constant::read(r) {
                Ok(c) => c,
                Err(e) => {
                    return Err(e);
                },
            };
            pool.push(c);
            i = i + 1;
            proof {
                lemma_views_of_push(done, c);
                lemma_prepend_step(
                    views_of(done),
                    c@,
                    spec_read_constants(b, r.position(), (n - i) as nat),
                );
            }
        }
        proof {
            lemma_prepend_done(views_of(pool@), r.position());
        }
        Ok(ConstantPool { pool })
    }

    /// Resolves a 1-based pool index to the text of the `Utf8` entry there.
    pub fn string(&self, index: u16) -> (res: Result<String, Error>)
        ensures
            match res {
                Ok(s) => spec_pool_string(self@, index) == Ok::<Seq<char>, Error>(s@),
                Err(e) => spec_pool_string(self@, index) == Err::<Seq<char>, Error>(e),
            },
    {
        if index == 0 {
            return Err(Error::InvalidConstantPoolIndex);
        }
        let i = (index - 1) as usize;
        if i >= self.pool.len() {
            return Err(Error::InvalidConstantPoolIndex);
        }
        match &self.pool[i] {
            Constant::Utf8 { data } => Ok(data.clone()),
            _ => Err(Error::InvalidConstantPoolType),
        }
    }
}

} // verus!
