//! The top-level class structure and its nested records: version, named
//! attributes, fields, methods, and the orchestrating decode of a whole
//! class file from its bytes.

use vstd::prelude::*;

use crate::constant::{spec_pool_string, spec_read_pool, ConstantPool, ConstantView};
use crate::error::Error;
use crate::flags::{flags_valid, spec_read_flags, AccessFlags};
use crate::reader::{be_u16, be_u32, can_read, lemma_prepend_done, lemma_prepend_empty,
    lemma_prepend_step, spec_cons, spec_prepend, spec_read_bytes, spec_read_u16, spec_read_u32,
    Reader};

verus! {

/// A class-file version pair.
///
/// In the byte stream the minor version precedes the major version; that
/// ordering is a quirk of the format and is preserved by the decoder.
#[derive(Clone, Copy, Debug, PartialEq, Eq, Structural)]
pub struct Version {
    /// The major version.
    pub major: u16,
    /// The minor version.
    pub minor: u16,
}

/// The compatibility rule on version pairs: a major version of at most 56
/// accepts any minor version; above that the minor version must be exactly
/// 0 or 65535.
pub open spec fn version_ok(major: u16, minor: u16) -> bool {
    major <= 56 || minor == 0 || minor == 65535
}

/// Spec-level decode of a version pair: minor, then major, then the
/// compatibility rule; a rejected pair is reported in the error.
pub open spec fn spec_read_version(b: Seq<u8>, p: int) -> Result<(Version, int), Error> {
    match spec_read_u16(b, p) {
        Err(e) => Err(e),
        Ok((minor, p1)) => match spec_read_u16(b, p1) {
            Err(e) => Err(e),
            Ok((major, p2)) => if version_ok(major, minor) {
                Ok((Version { major, minor }, p2))
            } else {
                Err(Error::InvalidVersion { major, minor })
            },
        },
    }
}

/// A version pair read in full is accepted exactly when it satisfies
/// [`version_ok`]; otherwise the decode fails with `InvalidVersion`
/// carrying that very pair.
pub proof fn lemma_version_rule(b: Seq<u8>, p: int)
    requires
        can_read(b, p, 4),
    ensures
        version_ok(be_u16(b, p + 2), be_u16(b, p)) ==> spec_read_version(b, p) == Ok::<
            (Version, int),
            Error,
        >((Version { major: be_u16(b, p + 2), minor: be_u16(b, p) }, p + 4)),
        !version_ok(be_u16(b, p + 2), be_u16(b, p)) ==> spec_read_version(b, p) == Err::<
            (Version, int),
            Error,
        >(Error::InvalidVersion { major: be_u16(b, p + 2), minor: be_u16(b, p) }),
{
}

impl Version {
    /// Reads minor then major and validates the pair.
    pub fn read(r: &mut Reader<'_>) -> (res: Result<Version, Error>)
        requires
            old(r).wf(),
        ensures
            final(r).wf(),
            final(r).bytes() == old(r).bytes(),
            match res {
                Ok(v) => spec_read_version(old(r).bytes(), old(r).position()) == Ok::<
                    (Version, int),
                    Error,
                >((v, final(r).position())) && version_ok(v.major, v.minor),
                Err(e) => spec_read_version(old(r).bytes(), old(r).position()) == Err::<
                    (Version, int),
                    Error,
                >(e),
            },
    {
        let minor = match r.read_u16() {
            Ok(v) => v,
            Err(e) => {
                return Err(e);
            },
        };
        let major = match r.read_u16() {
            Ok(v) => v,
            Err(e) => {
                return Err(e);
            },
        };
        if major > 56 && minor != 0 && minor != 65535 {
            Err(Error::InvalidVersion { major, minor })
        } else {
            Ok(Version { major, minor })
        }
    }
}

/// The kinds a method-handle constant can reference. The decoder keeps the
/// raw kind value; this vocabulary names the meanings the format assigns
/// to values 1 through 9.
#[derive(Clone, Copy, Debug, PartialEq, Eq, Structural)]
pub enum ReferenceKind {
    GetField,
    GetStatic,
    PutField,
    PutStatic,
    InvokeVirtual,
    InvokeStatic,
    InvokeSpecial,
    NewInvokeSpecial,
    InvokeInterface,
}

/// The mathematical model of a named attribute record.
pub struct AttributeView {
    /// The attribute's name, resolved from the pool at decode time.
    pub name: Seq<char>,
    /// The opaque payload; the decoder never interprets it.
    pub info: Seq<u8>,
}

/// A named, length-prefixed, opaque extension record attached to a class,
/// field, or method.
#[derive(Debug)]
pub struct Attribute {
    name: String,
    info: Vec<u8>,
}

impl View for Attribute {
    type V = AttributeView;

    closed spec fn view(&self) -> AttributeView {
        AttributeView { name: self.name@, info: self.info@ }
    }
}

/// The models of a sequence of attributes.
pub open spec fn attribute_views(s: Seq<Attribute>) -> Seq<AttributeView> {
    s.map_values(|a: Attribute| a@)
}

/// Appending an attribute to a sequence appends its model.
pub proof fn lemma_attribute_views_push(s: Seq<Attribute>, a: Attribute)
    ensures
        attribute_views(s.push(a)) == attribute_views(s).push(a@),
{
    assert(attribute_views(s.push(a)) =~= attribute_views(s).push(a@));
}

/// Spec-level decode of one attribute: a name index resolved through the
/// pool, then a 32-bit length and that many raw payload bytes.
pub open spec fn spec_read_attribute(b: Seq<u8>, p: int, pool: Seq<ConstantView>) -> Result<
    (AttributeView, int),
    Error,
> {
    match spec_read_u16(b, p) {
        Err(e) => Err(e),
        Ok((name_index, p1)) => match spec_pool_string(pool, name_index) {
            Err(e) => Err(e),
            Ok(name) => match spec_read_u32(b, p1) {
                Err(e) => Err(e),
                Ok((len, p2)) => match spec_read_bytes(b, p2, len as int) {
                    Err(e) => Err(e),
                    Ok((info, p3)) => Ok((AttributeView { name, info }, p3)),
                },
            },
        },
    }
}

/// Spec-level decode of exactly `n` attributes in stream order.
pub open spec fn spec_read_attributes(b: Seq<u8>, p: int, pool: Seq<ConstantView>, n: nat) -> Result<
    (Seq<AttributeView>, int),
    Error,
>
    decreases n,
{
    if n == 0 {
        Ok((Seq::empty(), p))
    } else {
        match spec_read_attribute(b, p, pool) {
            Err(e) => Err(e),
            Ok((a, p1)) => spec_cons(a, spec_read_attributes(b, p1, pool, (n - 1) as nat)),
        }
    }
}

/// Spec-level decode of a 16-bit count followed by that many attributes.
pub open spec fn spec_read_attribute_list(b: Seq<u8>, p: int, pool: Seq<ConstantView>) -> Result<
    (Seq<AttributeView>, int),
    Error,
> {
    match spec_read_u16(b, p) {
        Err(e) => Err(e),
        Ok((count, p1)) => spec_read_attributes(b, p1, pool, count as nat),
    }
}

impl Attribute {
    /// Reads one attribute, resolving its name through the pool.
    pub fn read(r: &mut Reader<'_>, cp: &ConstantPool) -> (res: Result<Attribute, Error>)
        requires
            old(r).wf(),
        ensures
            final(r).wf(),
            final(r).bytes() == old(r).bytes(),
            match res {
                Ok(a) => spec_read_attribute(old(r).bytes(), old(r).position(), cp@) == Ok::<
                    (AttributeView, int),
                    Error,
                >((a@, final(r).position())),
                Err(e) => spec_read_attribute(old(r).bytes(), old(r).position(), cp@) == Err::<
                    (AttributeView, int),
                    Error,
                >(e),
            },
    {
        let name_index = match r.read_u16() {
            Ok(v) => v,
            Err(e) => {
                return Err(e);
            },
        };
        let name = match cp.string(name_index) {
            Ok(s) => s,
            Err(e) => {
                return Err(e);
            },
        };
        let info_length = match r.read_u32() {
            Ok(v) => v,
            Err(e) => {
                return Err(e);
            },
        };
        let info = match r.read_bytes(info_length as usize) {
            Ok(v) => v,
            Err(e) => {
                return Err(e);
            },
        };
        Ok(Attribute { name, info })
    }

    /// Reads a 16-bit count and that many attributes.
    pub fn read_list(r: &mut Reader<'_>, cp: &ConstantPool) -> (res: Result<Vec<Attribute>, Error>)
        requires
            old(r).wf(),
        ensures
            final(r).wf(),
            final(r).bytes() == old(r).bytes(),
            match res {
                Ok(v) => spec_read_attribute_list(old(r).bytes(), old(r).position(), cp@) == Ok::<
                    (Seq<AttributeView>, int),
                    Error,
                >((attribute_views(v@), final(r).position())),
                Err(e) => spec_read_attribute_list(old(r).bytes(), old(r).position(), cp@) == Err::<
                    (Seq<AttributeView>, int),
                    Error,
                >(e),
            },
    {
        let ghost b = old(r).bytes();
        let count = match r.read_u16() {
            Ok(v) => v,
            Err(e) => {
                return Err(e);
            },
        };
        let n = count as usize;
        let mut elements: Vec<Attribute> = Vec::new();
        let ghost pstart = r.position();
        let mut i: usize = 0;
        proof {
            assert(attribute_views(elements@) =~= Seq::<AttributeView>::empty());
            lemma_prepend_empty(spec_read_attributes(b, pstart, cp@, n as nat));
        }
        #[verifier::loop_isolation(false)]
        while i < n
            invariant
                r.wf(),
                r.bytes() == b,
                i <= n,
                spec_read_attributes(b, pstart, cp@, n as nat) == spec_prepend(
                    attribute_views(elements@),
                    spec_read_attributes(b, r.position(), cp@, (n - i) as nat),
                ),
            decreases n - i,
        {
            let ghost done = elements@;
            let a = match Attribute::read(r, cp) {
                Ok(a) => a,
                Err(e) => {
                    return Err(e);
                },
            };
            elements.push(a);
            i = i + 1;
            proof {
                lemma_attribute_views_push(done, a);
                lemma_prepend_step(
                    attribute_views(done),
                    a@,
                    spec_read_attributes(b, r.position(), cp@, (n - i) as nat),
                );
            }
        }
        proof {
            lemma_prepend_done(attribute_views(elements@), r.position());
        }
        Ok(elements)
    }
}

/// Spec-level decode of a field or method record, which share one layout:
/// access flags, a pool-resolved name, a pool-resolved descriptor, and an
/// attribute list.
pub open spec fn spec_read_member(b: Seq<u8>, p: int, pool: Seq<ConstantView>) -> Result<
    ((AccessFlags, Seq<char>, Seq<char>, Seq<AttributeView>), int),
    Error,
> {
    match spec_read_flags(b, p) {
        Err(e) => Err(e),
        Ok((flags, p1)) => match spec_read_u16(b, p1) {
            Err(e) => Err(e),
            Ok((name_index, p2)) => match spec_pool_string(pool, name_index) {
                Err(e) => Err(e),
                Ok(name) => match spec_read_u16(b, p2) {
                    Err(e) => Err(e),
                    Ok((descriptor_index, p3)) => match spec_pool_string(pool, descriptor_index) {
                        Err(e) => Err(e),
                        Ok(descriptor) => match spec_read_attribute_list(b, p3, pool) {
                            Err(e) => Err(e),
                            Ok((attributes, p4)) => Ok(
                                ((flags, name, descriptor, attributes), p4),
                            ),
                        },
                    },
                },
            },
        },
    }
}

/// Reads one field or method record: flags, name, descriptor, attributes.
fn read_member(r: &mut Reader<'_>, cp: &ConstantPool) -> (res: Result<
    (AccessFlags, String, String, Vec<Attribute>),
    Error,
>)
    requires
        old(r).wf(),
    ensures
        final(r).wf(),
        final(r).bytes() == old(r).bytes(),
        match res {
            Ok(m) => spec_read_member(old(r).bytes(), old(r).position(), cp@) == Ok::<
                ((AccessFlags, Seq<char>, Seq<char>, Seq<AttributeView>), int),
                Error,
            >(((m.0, m.1@, m.2@, attribute_views(m.3@)), final(r).position())),
            Err(e) => spec_read_member(old(r).bytes(), old(r).position(), cp@) == Err::<
                ((AccessFlags, Seq<char>, Seq<char>, Seq<AttributeView>), int),
                Error,
            >(e),
        },
{
    let access_flags = match AccessFlags::read(r) {
        Ok(v) => v,
        Err(e) => {
            return Err(e);
        },
    };
    let name_index = match r.read_u16() {
        Ok(v) => v,
        Err(e) => {
            return Err(e);
        },
    };
    let name = match cp.string(name_index) {
        Ok(s) => s,
        Err(e) => {
            return Err(e);
        },
    };
    let descriptor_index = match r.read_u16() {
        Ok(v) => v,
        Err(e) => {
            return Err(e);
        },
    };
    let descriptor = match cp.string(descriptor_index) {
        Ok(s) => s,
        Err(e) => {
            return Err(e);
        },
    };
    let attributes = match Attribute::read_list(r, cp) {
        Ok(v) => v,
        Err(e) => {
            return Err(e);
        },
    };
    Ok((access_flags, name, descriptor, attributes))
}

/// The mathematical model of a field record.
pub struct FieldView {
    pub access_flags: AccessFlags,
    pub name: Seq<char>,
    pub descriptor: Seq<char>,
    pub attributes: Seq<AttributeView>,
}

/// A field record: flags, pool-resolved name and descriptor, attributes.
#[derive(Debug)]
pub struct Field {
    access_flags: AccessFlags,
    name: String,
    descriptor: String,
    attributes: Vec<Attribute>,
}

impl View for Field {
    type V = FieldView;

    closed spec fn view(&self) -> FieldView {
        FieldView {
            access_flags: self.access_flags,
            name: self.name@,
            descriptor: self.descriptor@,
            attributes: attribute_views(self.attributes@),
        }
    }
}

/// The models of a sequence of fields.
pub open spec fn field_views(s: Seq<Field>) -> Seq<FieldView> {
    s.map_values(|f: Field| f@)
}

/// Appending a field to a sequence appends its model.
pub proof fn lemma_field_views_push(s: Seq<Field>, f: Field)
    ensures
        field_views(s.push(f)) == field_views(s).push(f@),
{
    assert(field_views(s.push(f)) =~= field_views(s).push(f@));
}

/// Spec-level decode of one field record.
pub open spec fn spec_read_field(b: Seq<u8>, p: int, pool: Seq<ConstantView>) -> Result<
    (FieldView, int),
    Error,
> {
    match spec_read_member(b, p, pool) {
        Err(e) => Err(e),
        Ok((m, p1)) => Ok(
            (FieldView { access_flags: m.0, name: m.1, descriptor: m.2, attributes: m.3 }, p1),
        ),
    }
}

/// Spec-level decode of exactly `n` field records.
pub open spec fn spec_read_fields(b: Seq<u8>, p: int, pool: Seq<ConstantView>, n: nat) -> Result<
    (Seq<FieldView>, int),
    Error,
>
    decreases n,
{
    if n == 0 {
        Ok((Seq::empty(), p))
    } else {
        match spec_read_field(b, p, pool) {
            Err(e) => Err(e),
            Ok((f, p1)) => spec_cons(f, spec_read_fields(b, p1, pool, (n - 1) as nat)),
        }
    }
}

/// Spec-level decode of a 16-bit count followed by that many fields.
pub open spec fn spec_read_field_list(b: Seq<u8>, p: int, pool: Seq<ConstantView>) -> Result<
    (Seq<FieldView>, int),
    Error,
> {
    match spec_read_u16(b, p) {
        Err(e) => Err(e),
        Ok((count, p1)) => spec_read_fields(b, p1, pool, count as nat),
    }
}

impl Field {
    /// Reads one field record, resolving names through the pool.
    pub fn read(r: &mut Reader<'_>, cp: &ConstantPool) -> (res: Result<Field, Error>)
        requires
            old(r).wf(),
        ensures
            final(r).wf(),
            final(r).bytes() == old(r).bytes(),
            match res {
                Ok(f) => spec_read_field(old(r).bytes(), old(r).position(), cp@) == Ok::<
                    (FieldView, int),
                    Error,
                >((f@, final(r).position())),
                Err(e) => spec_read_field(old(r).bytes(), old(r).position(), cp@) == Err::<
                    (FieldView, int),
                    Error,
                >(e),
            },
    {
        let (access_flags, name, descriptor, attributes) = match read_member(r, cp) {
            Ok(m) => m,
            Err(e) => {
                return Err(e);
            },
        };
        Ok(Field { access_flags, name, descriptor, attributes })
    }

    /// The field's name.
    pub fn name(&self) -> (res: &str)
        ensures
            res@ == self@.name,
    {
        self.name.as_str()
    }

    /// The field's type descriptor.
    pub fn descriptor(&self) -> (res: &str)
        ensures
            res@ == self@.descriptor,
    {
        self.descriptor.as_str()
    }
}

/// The mathematical model of a method record.
pub struct MethodView {
    pub access_flags: AccessFlags,
    pub name: Seq<char>,
    pub descriptor: Seq<char>,
    pub attributes: Seq<AttributeView>,
}

/// A method record: flags, pool-resolved name and descriptor, attributes.
#[derive(Debug)]
pub struct Method {
    access_flags: AccessFlags,
    name: String,
    descriptor: String,
    attributes: Vec<Attribute>,
}

impl View for Method {
    type V = MethodView;

    closed spec fn view(&self) -> MethodView {
        MethodView {
            access_flags: self.access_flags,
            name: self.name@,
            descriptor: self.descriptor@,
            attributes: attribute_views(self.attributes@),
        }
    }
}

/// The models of a sequence of methods.
pub open spec fn method_views(s: Seq<Method>) -> Seq<MethodView> {
    s.map_values(|m: Method| m@)
}

/// Appending a method to a sequence appends its model.
pub proof fn lemma_method_views_push(s: Seq<Method>, m: Method)
    ensures
        method_views(s.push(m)) == method_views(s).push(m@),
{
    assert(method_views(s.push(m)) =~= method_views(s).push(m@));
}

/// Spec-level decode of one method record.
pub open spec fn spec_read_method(b: Seq<u8>, p: int, pool: Seq<ConstantView>) -> Result<
    (MethodView, int),
    Error,
> {
    match spec_read_member(b, p, pool) {
        Err(e) => Err(e),
        Ok((m, p1)) => Ok(
            (MethodView { access_flags: m.0, name: m.1, descriptor: m.2, attributes: m.3 }, p1),
        ),
    }
}

/// Spec-level decode of exactly `n` method records.
pub open spec fn spec_read_methods(b: Seq<u8>, p: int, pool: Seq<ConstantView>, n: nat) -> Result<
    (Seq<MethodView>, int),
    Error,
>
    decreases n,
{
    if n == 0 {
        Ok((Seq::empty(), p))
    } else {
        match spec_read_method(b, p, pool) {
            Err(e) => Err(e),
            Ok((m, p1)) => spec_cons(m, spec_read_methods(b, p1, pool, (n - 1) as nat)),
        }
    }
}

/// Spec-level decode of a 16-bit count followed by that many methods.
pub open spec fn spec_read_method_list(b: Seq<u8>, p: int, pool: Seq<ConstantView>) -> Result<
    (Seq<MethodView>, int),
    Error,
> {
    match spec_read_u16(b, p) {
        Err(e) => Err(e),
        Ok((count, p1)) => spec_read_methods(b, p1, pool, count as nat),
    }
}

impl Method {
    /// Reads one method record, resolving names through the pool.
    pub fn read(r: &mut Reader<'_>, cp: &ConstantPool) -> (res: Result<Method, Error>)
        requires
            old(r).wf(),
        ensures
            final(r).wf(),
            final(r).bytes() == old(r).bytes(),
            match res {
                Ok(m) => spec_read_method(old(r).bytes(), old(r).position(), cp@) == Ok::<
                    (MethodView, int),
                    Error,
                >((m@, final(r).position())),
                Err(e) => spec_read_method(old(r).bytes(), old(r).position(), cp@) == Err::<
                    (MethodView, int),
                    Error,
                >(e),
            },
    {
        let (access_flags, name, descriptor, attributes) = match read_member(r, cp) {
            Ok(m) => m,
            Err(e) => {
                return Err(e);
            },
        };
        Ok(Method { access_flags, name, descriptor, attributes })
    }

    /// The method's name.
    pub fn name(&self) -> (res: &str)
        ensures
            res@ == self@.name,
    {
        self.name.as_str()
    }

    /// The method's signature descriptor.
    pub fn descriptor(&self) -> (res: &str)
        ensures
            res@ == self@.descriptor,
    {
        self.descriptor.as_str()
    }
}

/// Spec-level decode of exactly `n` raw 16-bit pool indices.
pub open spec fn spec_read_indices(b: Seq<u8>, p: int, n: nat) -> Result<(Seq<u16>, int), Error>
    decreases n,
{
    if n == 0 {
        Ok((Seq::empty(), p))
    } else {
        match spec_read_u16(b, p) {
            Err(e) => Err(e),
            Ok((v, p1)) => spec_cons(v, spec_read_indices(b, p1, (n - 1) as nat)),
        }
    }
}

/// Spec-level decode of a 16-bit count followed by that many raw indices.
pub open spec fn spec_read_index_list(b: Seq<u8>, p: int) -> Result<(Seq<u16>, int), Error> {
    match spec_read_u16(b, p) {
        Err(e) => Err(e),
        Ok((count, p1)) => spec_read_indices(b, p1, count as nat),
    }
}

/// Reads a 16-bit count and that many raw 16-bit pool indices.
fn read_index_list(r: &mut Reader<'_>) -> (res: Result<Vec<u16>, Error>)
    requires
        old(r).wf(),
    ensures
        final(r).wf(),
        final(r).bytes() == old(r).bytes(),
        match res {
            Ok(v) => spec_read_index_list(old(r).bytes(), old(r).position()) == Ok::<
                (Seq<u16>, int),
                Error,
            >((v@, final(r).position())),
            Err(e) => spec_read_index_list(old(r).bytes(), old(r).position()) == Err::<
                (Seq<u16>, int),
                Error,
            >(e),
        },
{
    let ghost b = old(r).bytes();
    let count = match r.read_u16() {
        Ok(v) => v,
        Err(e) => {
            return Err(e);
        },
    };
    let n = count as usize;
    let mut elements: Vec<u16> = Vec::new();
    let ghost pstart = r.position();
    let mut i: usize = 0;
    proof {
        lemma_prepend_empty(spec_read_indices(b, pstart, n as nat));
    }
    #[verifier::loop_isolation(false)]
    while i < n
        invariant
            r.wf(),
            r.bytes() == b,
            i <= n,
            spec_read_indices(b, pstart, n as nat) == spec_prepend(
                elements@,
                spec_read_indices(b, r.position(), (n - i) as nat),
            ),
        decreases n - i,
    {
        let ghost done = elements@;
        let v = match r.read_u16() {
            Ok(v) => v,
            Err(e) => {
                return Err(e);
            },
        };
        elements.push(v);
        i = i + 1;
        proof {
            lemma_prepend_step(done, v, spec_read_indices(b, r.position(), (n - i) as nat));
        }
    }
    proof {
        lemma_prepend_done(elements@, r.position());
    }
    Ok(elements)
}

/// Reads a 16-bit count and that many field records.
fn read_field_list(r: &mut Reader<'_>, cp: &ConstantPool) -> (res: Result<Vec<Field>, Error>)
    requires
        old(r).wf(),
    ensures
        final(r).wf(),
        final(r).bytes() == old(r).bytes(),
        match res {
            Ok(v) => spec_read_field_list(old(r).bytes(), old(r).position(), cp@) == Ok::<
                (Seq<FieldView>, int),
                Error,
            >((field_views(v@), final(r).position())),
            Err(e) => spec_read_field_list(old(r).bytes(), old(r).position(), cp@) == Err::<
                (Seq<FieldView>, int),
                Error,
            >(e),
        },
{
    let ghost b = old(r).bytes();
    let count = match r.read_u16() {
        Ok(v) => v,
        Err(e) => {
            return Err(e);
        },
    };
    let n = count as usize;
    let mut elements: Vec<Field> = Vec::new();
    let ghost pstart = r.position();
    let mut i: usize = 0;
    proof {
        assert(field_views(elements@) =~= Seq::<FieldView>::empty());
        lemma_prepend_empty(spec_read_fields(b, pstart, cp@, n as nat));
    }
    #[verifier::loop_isolation(false)]
    while i < n
        invariant
            r.wf(),
            r.bytes() == b,
            i <= n,
            spec_read_fields(b, pstart, cp@, n as nat) == spec_prepend(
                field_views(elements@),
                spec_read_fields(b, r.position(), cp@, (n - i) as nat),
            ),
        decreases n - i,
    {
        let ghost done = elements@;
        let f = match Field::read(r, cp) {
            Ok(f) => f,
            Err(e) => {
                return Err(e);
            },
        };
        elements.push(f);
        i = i + 1;
        proof {
            lemma_field_views_push(done, f);
            lemma_prepend_step(
                field_views(done),
                f@,
                spec_read_fields(b, r.position(), cp@, (n - i) as nat),
            );
        }
    }
    proof {
        lemma_prepend_done(field_views(elements@), r.position());
    }
    Ok(elements)
}

/// Reads a 16-bit count and that many method records.
fn read_method_list(r: &mut Reader<'_>, cp: &ConstantPool) -> (res: Result<Vec<Method>, Error>)
    requires
        old(r).wf(),
    ensures
        final(r).wf(),
        final(r).bytes() == old(r).bytes(),
        match res {
            Ok(v) => spec_read_method_list(old(r).bytes(), old(r).position(), cp@) == Ok::<
                (Seq<MethodView>, int),
                Error,
            >((method_views(v@), final(r).position())),
            Err(e) => spec_read_method_list(old(r).bytes(), old(r).position(), cp@) == Err::<
                (Seq<MethodView>, int),
                Error,
            >(e),
        },
{
    let ghost b = old(r).bytes();
    let count = match r.read_u16() {
        Ok(v) => v,
        Err(e) => {
            return Err(e);
        },
    };
    let n = count as usize;
    let mut elements: Vec<Method> = Vec::new();
    let ghost pstart = r.position();
    let mut i: usize = 0;
    proof {
        assert(method_views(elements@) =~= Seq::<MethodView>::empty());
        lemma_prepend_empty(spec_read_methods(b, pstart, cp@, n as nat));
    }
    #[verifier::loop_isolation(false)]
    while i < n
        invariant
            r.wf(),
            r.bytes() == b,
            i <= n,
            spec_read_methods(b, pstart, cp@, n as nat) == spec_prepend(
                method_views(elements@),
                spec_read_methods(b, r.position(), cp@, (n - i) as nat),
            ),
        decreases n - i,
    {
        let ghost done = elements@;
        let m = match Method::read(r, cp) {
            Ok(m) => m,
            Err(e) => {
                return Err(e);
            },
        };
        elements.push(m);
        i = i + 1;
        proof {
            lemma_method_views_push(done, m);
            lemma_prepend_step(
                method_views(done),
                m@,
                spec_read_methods(b, r.position(), cp@, (n - i) as nat),
            );
        }
    }
    proof {
        lemma_prepend_done(method_views(elements@), r.position());
    }
    Ok(elements)
}

/// The mathematical model of a decoded class file.
pub struct ClassView {
    pub version: Version,
    pub constant_pool: Seq<ConstantView>,
    pub access_flags: AccessFlags,
    pub this_class: u16,
    pub super_class: u16,
    pub interfaces: Seq<u16>,
    pub fields: Seq<FieldView>,
    pub methods: Seq<MethodView>,
    pub attributes: Seq<AttributeView>,
}

/// Spec-level decode of a whole class file, strictly in stream order:
/// magic, version, constant pool, access flags, this/super class indices,
/// interfaces, fields, methods, attributes. The first failure is the
/// outcome; bytes after the last attribute are ignored.
pub open spec fn spec_read_class(b: Seq<u8>) -> Result<ClassView, Error> {
    match spec_read_u32(b, 0) {
        Err(e) => Err(e),
        Ok((magic, p1)) => if magic != 0xCAFEBABE {
            Err(Error::InvalidSignature(magic))
        } else {
            match spec_read_version(b, p1) {
                Err(e) => Err(e),
                Ok((version, p2)) => match spec_read_pool(b, p2) {
                    Err(e) => Err(e),
                    Ok((pool, p3)) => match spec_read_flags(b, p3) {
                        Err(e) => Err(e),
                        Ok((access_flags, p4)) => match spec_read_u16(b, p4) {
                            Err(e) => Err(e),
                            Ok((this_class, p5)) => match spec_read_u16(b, p5) {
                                Err(e) => Err(e),
                                Ok((super_class, p6)) => match spec_read_index_list(b, p6) {
                                    Err(e) => Err(e),
                                    Ok((interfaces, p7)) => match spec_read_field_list(
                                        b,
                                        p7,
                                        pool,
                                    ) {
                                        Err(e) => Err(e),
                                        Ok((fields, p8)) => match spec_read_method_list(
                                            b,
                                            p8,
                                            pool,
                                        ) {
                                            Err(e) => Err(e),
                                            Ok((methods, p9)) => match spec_read_attribute_list(
                                                b,
                                                p9,
                                                pool,
                                            ) {
                                                Err(e) => Err(e),
                                                Ok((attributes, p10)) => Ok(
                                                    ClassView {
                                                        version,
                                                        constant_pool: pool,
                                                        access_flags,
                                                        this_class,
                                                        super_class,
                                                        interfaces,
                                                        fields,
                                                        methods,
                                                        attributes,
                                                    },
                                                ),
                                            },
                                        },
                                    },
                                },
                            },
                        },
                    },
                },
            }
        },
    }
}

/// The first method, in declared order, whose name equals `name`.
pub open spec fn spec_find_method(methods: Seq<MethodView>, name: Seq<char>) -> Option<MethodView>
    decreases methods.len(),
{
    if methods.len() == 0 {
        None
    } else if methods[0].name == name {
        Some(methods[0])
    } else {
        spec_find_method(methods.drop_first(), name)
    }
}

/// Every field in a successfully decoded run has a flag word inside the
/// known vocabulary: the member decoder validates flags before anything
/// else of the record.
pub proof fn lemma_fields_flags_valid(b: Seq<u8>, p: int, pool: Seq<ConstantView>, n: nat)
    ensures
        spec_read_fields(b, p, pool, n) matches Ok((fs, q)) ==> forall|i: int|
            0 <= i < fs.len() ==> flags_valid(#[trigger] fs[i].access_flags.bits),
    decreases n,
{
    if n > 0 {
        match spec_read_field(b, p, pool) {
            Err(..) => {},
            Ok((f, p1)) => {
                lemma_fields_flags_valid(b, p1, pool, (n - 1) as nat);
                match spec_read_fields(b, p1, pool, (n - 1) as nat) {
                    Err(..) => {},
                    Ok((rest, q)) => {
                        assert forall|i: int|
                            0 <= i < (seq![f] + rest).len() implies flags_valid(
                            #[trigger] (seq![f] + rest)[i].access_flags.bits,
                        ) by {
                            if i > 0 {
                                assert((seq![f] + rest)[i] == rest[i - 1]);
                            }
                        }
                    },
                }
            },
        }
    }
}

/// Every method in a successfully decoded run has a flag word inside the
/// known vocabulary.
pub proof fn lemma_methods_flags_valid(b: Seq<u8>, p: int, pool: Seq<ConstantView>, n: nat)
    ensures
        spec_read_methods(b, p, pool, n) matches Ok((ms, q)) ==> forall|i: int|
            0 <= i < ms.len() ==> flags_valid(#[trigger] ms[i].access_flags.bits),
    decreases n,
{
    if n > 0 {
        match spec_read_method(b, p, pool) {
            Err(..) => {},
            Ok((m, p1)) => {
                lemma_methods_flags_valid(b, p1, pool, (n - 1) as nat);
                match spec_read_methods(b, p1, pool, (n - 1) as nat) {
                    Err(..) => {},
                    Ok((rest, q)) => {
                        assert forall|i: int|
                            0 <= i < (seq![m] + rest).len() implies flags_valid(
                            #[trigger] (seq![m] + rest)[i].access_flags.bits,
                        ) by {
                            if i > 0 {
                                assert((seq![m] + rest)[i] == rest[i - 1]);
                            }
                        }
                    },
                }
            },
        }
    }
}

/// A successful decode establishes the invariants of its parts: the
/// version pair satisfies the compatibility rule, and every flag word in
/// the structure — the class's own and each field's and method's — stays
/// inside the known vocabulary.
pub proof fn lemma_decoded_class_valid(b: Seq<u8>, c: ClassView)
    requires
        spec_read_class(b) == Ok::<ClassView, Error>(c),
    ensures
        version_ok(c.version.major, c.version.minor),
        flags_valid(c.access_flags.bits),
        forall|i: int| 0 <= i < c.fields.len() ==> flags_valid(
            #[trigger] c.fields[i].access_flags.bits,
        ),
        forall|i: int| 0 <= i < c.methods.len() ==> flags_valid(
            #[trigger] c.methods[i].access_flags.bits,
        ),
{
    match spec_read_u32(b, 0) {
        Err(..) => {},
        Ok((magic, p1)) => {
            match spec_read_version(b, p1) {
                Err(..) => {},
                Ok((version, p2)) => {
                    match spec_read_pool(b, p2) {
                        Err(..) => {},
                        Ok((pool, p3)) => {
                            match spec_read_flags(b, p3) {
                                Err(..) => {},
                                Ok((access_flags, p4)) => {
                                    match spec_read_index_list(b, p4 + 4) {
                                        Err(..) => {},
                                        Ok((interfaces, p7)) => {
                                            match spec_read_u16(b, p7) {
                                                Err(..) => {},
                                                Ok((field_count, p8)) => {
                                                    lemma_fields_flags_valid(
                                                        b,
                                                        p8,
                                                        pool,
                                                        field_count as nat,
                                                    );
                                                    match spec_read_fields(
                                                        b,
                                                        p8,
                                                        pool,
                                                        field_count as nat,
                                                    ) {
                                                        Err(..) => {},
                                                        Ok((fields, p9)) => {
                                                            match spec_read_u16(b, p9) {
                                                                Err(..) => {},
                                                                Ok((method_count, p10)) => {
                                                                    lemma_methods_flags_valid(
                                                                        b,
                                                                        p10,
                                                                        pool,
                                                                        method_count as nat,
                                                                    );
                                                                },
                                                            }
                                                        },
                                                    }
                                                },
                                            }
                                        },
                                    }
                                },
                            }
                        },
                    }
                },
            }
        },
    }
}

/// Decoding is deterministic: the decoded structure, or the reported
/// error, is a function of the input bytes alone, so two decodes of equal
/// buffers yield equal outcomes.
pub proof fn lemma_decode_deterministic(
    bytes: Seq<u8>,
    r1: Result<ClassView, Error>,
    r2: Result<ClassView, Error>,
)
    requires
        r1 == spec_read_class(bytes),
        r2 == spec_read_class(bytes),
    ensures
        r1 == r2,
{
}

/// A buffer whose magic number is not `0xCAFEBABE` is rejected as
/// `InvalidSignature` carrying that number, whatever the remaining bytes
/// hold: nothing past the magic is consumed.
pub proof fn lemma_bad_magic_rejected(b: Seq<u8>)
    requires
        can_read(b, 0, 4),
        be_u32(b, 0) != 0xCAFEBABE,
    ensures
        spec_read_class(b) == Err::<ClassView, Error>(Error::InvalidSignature(be_u32(b, 0))),
{
}

/// A decoded class file.
#[derive(Debug)]
pub struct Class {
    version: Version,
    constant_pool: ConstantPool,
    access_flags: AccessFlags,
    this_class: u16,
    super_class: u16,
    interfaces: Vec<u16>,
    fields: Vec<Field>,
    methods: Vec<Method>,
    attributes: Vec<Attribute>,
}

impl View for Class {
    type V = ClassView;

    closed spec fn view(&self) -> ClassView {
        ClassView {
            version: self.version,
            constant_pool: self.constant_pool@,
            access_flags: self.access_flags,
            this_class: self.this_class,
            super_class: self.super_class,
            interfaces: self.interfaces@,
            fields: field_views(self.fields@),
            methods: method_views(self.methods@),
            attributes: attribute_views(self.attributes@),
        }
    }
}

impl Class {
    /// Decodes a whole class file from an in-memory buffer, in one pass.
    pub fn from_bytes(data: &[u8]) -> (res: Result<Class, Error>)
        ensures
            match res {
                Ok(c) => spec_read_class(data@) == Ok::<ClassView, Error>(c@),
                Err(e) => spec_read_class(data@) == Err::<ClassView, Error>(e),
            },
    {
        let mut cursor = Reader::new(data);
        let magic = match cursor.read_u32() {
            Ok(v) => v,
            Err(e) => {
                return Err(e);
            },
        };
        if magic != 0xCAFEBABE {
            return Err(Error::InvalidSignature(magic));
        }
        let version = match Version::read(&mut cursor) {
            Ok(v) => v,
            Err(e) => {
                return Err(e);
            },
        };
        let constant_pool = match ConstantPool::read(&mut cursor) {
            Ok(v) => v,
            Err(e) => {
                return Err(e);
            },
        };
        let access_flags = match AccessFlags::read(&mut cursor) {
            Ok(v) => v,
            Err(e) => {
                return Err(e);
            },
        };
        let this_class = match cursor.read_u16() {
            Ok(v) => v,
            Err(e) => {
                return Err(e);
            },
        };
        let super_class = match cursor.read_u16() {
            Ok(v) => v,
            Err(e) => {
                return Err(e);
            },
        };
        let interfaces = match read_index_list(&mut cursor) {
            Ok(v) => v,
            Err(e) => {
                return Err(e);
            },
        };
        let fields = match read_field_list(&mut cursor, &constant_pool) {
            Ok(v) => v,
            Err(e) => {
                return Err(e);
            },
        };
        let methods = match read_method_list(&mut cursor, &constant_pool) {
            Ok(v) => v,
            Err(e) => {
                return Err(e);
            },
        };
        let attributes = match Attribute::read_list(&mut cursor, &constant_pool) {
            Ok(v) => v,
            Err(e) => {
                return Err(e);
            },
        };
        Ok(
            Class {
                version,
                constant_pool,
                access_flags,
                this_class,
                super_class,
                interfaces,
                fields,
                methods,
                attributes,
            },
        )
    }

    /// The first method, in declared order, whose name equals `name`, or
    /// nothing when no method has that name.
    pub fn method(&self, name: &str) -> (res: Option<&Method>)
        ensures
            match res {
                Some(m) => spec_find_method(self@.methods, name@) == Some(m@),
                None => spec_find_method(self@.methods, name@) is None,
            },
    {
        let needle: String = name.to_owned();
        let n = self.methods.len();
        let mut i: usize = 0;
        proof {
            assert(self@.methods.skip(0) =~= self@.methods);
        }
        #[verifier::loop_isolation(false)]
        while i < n
            invariant
                i <= n,
                spec_find_method(self@.methods, name@) == spec_find_method(
                    self@.methods.skip(i as int),
                    name@,
                ),
            decreases n - i,
        {
            if self.methods[i].name == needle {
                return Some(&self.methods[i]);
            }
            i = i + 1;
            proof {
                assert(self@.methods.skip(i - 1).drop_first() =~= self@.methods.skip(i as int));
            }
        }
        proof {
            assert(self@.methods.skip(n as int) =~= Seq::<MethodView>::empty());
        }
        None
    }
}

} // verus!
