// Tests of the byte reader, version rule, access flags, single constants,
// and constant-pool lookups.

use classfile::class::Version;
use classfile::constant::{Constant, ConstantPool};
use classfile::error::Error;
use classfile::flags::{AccessFlags, FLAG_PUBLIC, FLAG_SYNCHRONIZED};
use classfile::reader::Reader;

#[test]
fn reader_big_endian_values() {
    let data = vec![0x12u8, 0x34, 0x56, 0x78, 0x9A, 0xBC, 0xDE, 0xF0];
    let mut r = Reader::new(&data);
    assert_eq!(r.read_u16(), Ok(0x1234));
    let mut r = Reader::new(&data);
    assert_eq!(r.read_u32(), Ok(0x12345678));
    let mut r = Reader::new(&data);
    assert_eq!(r.read_u64(), Ok(0x123456789ABCDEF0));
}

#[test]
fn reader_advances_in_sequence() {
    let data = vec![0x01u8, 0x02, 0x03, 0x04, 0x05];
    let mut r = Reader::new(&data);
    assert_eq!(r.read_u8(), Ok(0x01));
    assert_eq!(r.read_u16(), Ok(0x0203));
    assert_eq!(r.read_bytes(2), Ok(vec![0x04, 0x05]));
    assert_eq!(r.read_u8(), Err(Error::TruncatedInput));
}

#[test]
fn reader_truncated_mid_read() {
    let data = vec![0x01u8];
    let mut r = Reader::new(&data);
    assert_eq!(r.read_u16(), Err(Error::TruncatedInput));
    // The failed read consumed nothing; the single byte is still there.
    assert_eq!(r.read_u8(), Ok(0x01));
}

#[test]
fn version_minor_precedes_major() {
    // Bytes: minor = 3, major = 45.
    let data = vec![0x00u8, 0x03, 0x00, 0x2D];
    let mut r = Reader::new(&data);
    let v = Version::read(&mut r).unwrap();
    assert_eq!(v.major, 45);
    assert_eq!(v.minor, 3);
}

#[test]
fn version_rule_major_57() {
    // major = 57, minor = 1: rejected with the pair in the error.
    let data = vec![0x00u8, 0x01, 0x00, 0x39];
    let mut r = Reader::new(&data);
    assert_eq!(
        Version::read(&mut r),
        Err(Error::InvalidVersion { major: 57, minor: 1 })
    );

    // major = 57, minor = 0: accepted.
    let data = vec![0x00u8, 0x00, 0x00, 0x39];
    let mut r = Reader::new(&data);
    assert_eq!(Version::read(&mut r), Ok(Version { major: 57, minor: 0 }));

    // major = 57, minor = 65535: accepted.
    let data = vec![0xFFu8, 0xFF, 0x00, 0x39];
    let mut r = Reader::new(&data);
    assert_eq!(
        Version::read(&mut r),
        Ok(Version { major: 57, minor: 65535 })
    );
}

#[test]
fn version_rule_major_below_threshold() {
    // major = 45, minor = 3: the minor check is bypassed entirely.
    let data = vec![0x00u8, 0x03, 0x00, 0x2D];
    let mut r = Reader::new(&data);
    assert_eq!(Version::read(&mut r), Ok(Version { major: 45, minor: 3 }));
}

#[test]
fn access_flags_undefined_bit() {
    let data = vec![0x20u8, 0x00];
    let mut r = Reader::new(&data);
    assert_eq!(
        AccessFlags::read(&mut r),
        Err(Error::InvalidAccessFlags(0x2000))
    );
}

#[test]
fn access_flags_public_synchronized() {
    let data = vec![0x00u8, 0x21];
    let mut r = Reader::new(&data);
    let f = AccessFlags::read(&mut r).unwrap();
    assert_eq!(f.bits(), 0x0021);
    assert!(f.contains(FLAG_PUBLIC));
    assert!(f.contains(FLAG_SYNCHRONIZED));
    assert!(!f.contains(FLAG_PUBLIC | 0x0002));
}

#[test]
fn constant_reserved_tags_rejected() {
    let data = vec![13u8];
    let mut r = Reader::new(&data);
    assert!(matches!(
        Constant::read(&mut r),
        Err(Error::InvalidConstantTag(13))
    ));
    let data = vec![14u8];
    let mut r = Reader::new(&data);
    assert!(matches!(
        Constant::read(&mut r),
        Err(Error::InvalidConstantTag(14))
    ));
}

#[test]
fn constant_integer_payload() {
    let data = vec![3u8, 0x00, 0x00, 0x01, 0x00];
    let mut r = Reader::new(&data);
    assert!(matches!(Constant::read(&mut r), Ok(Constant::Integer(256))));
}

#[test]
fn constant_float_bits() {
    // tag 4 carries the raw IEEE-754 bit pattern; 0x40490FDB is pi as f32.
    let data = vec![4u8, 0x40, 0x49, 0x0F, 0xDB];
    let mut r = Reader::new(&data);
    match Constant::read(&mut r) {
        Ok(Constant::Float(bits)) => {
            assert_eq!(bits, 0x40490FDB);
            assert!((f32::from_bits(bits) - 3.14159265f32).abs() < 1e-6);
        }
        other => panic!("expected a Float constant, got {:?}", other),
    }
}

#[test]
fn constant_long_and_double() {
    let data = vec![5u8, 0x00, 0x00, 0x00, 0x01, 0x00, 0x00, 0x00, 0x00];
    let mut r = Reader::new(&data);
    assert!(matches!(
        Constant::read(&mut r),
        Ok(Constant::Long(0x100000000))
    ));

    // tag 6 carries the raw bit pattern; 0x3FF0000000000000 is 1.0 as f64.
    let data = vec![6u8, 0x3F, 0xF0, 0x00, 0x00, 0x00, 0x00, 0x00, 0x00];
    let mut r = Reader::new(&data);
    match Constant::read(&mut r) {
        Ok(Constant::Double(bits)) => {
            assert_eq!(f64::from_bits(bits), 1.0f64);
        }
        other => panic!("expected a Double constant, got {:?}", other),
    }
}

#[test]
fn constant_method_handle_read_order() {
    // The stream holds the reference index first, then the kind.
    let data = vec![15u8, 0x00, 0x05, 0x00, 0x06];
    let mut r = Reader::new(&data);
    match Constant::read(&mut r) {
        Ok(Constant::MethodHandle { reference_kind, reference_index }) => {
            assert_eq!(reference_index, 5);
            assert_eq!(reference_kind, 6);
        }
        other => panic!("expected a MethodHandle constant, got {:?}", other),
    }
}

#[test]
fn constant_reference_variants() {
    let data = vec![7u8, 0x00, 0x09];
    let mut r = Reader::new(&data);
    assert!(matches!(
        Constant::read(&mut r),
        Ok(Constant::Class { name_index: 9 })
    ));

    let data = vec![10u8, 0x00, 0x02, 0x00, 0x03];
    let mut r = Reader::new(&data);
    assert!(matches!(
        Constant::read(&mut r),
        Ok(Constant::MethodRef { class_index: 2, name_and_type_index: 3 })
    ));

    let data = vec![12u8, 0x00, 0x04, 0x00, 0x05];
    let mut r = Reader::new(&data);
    assert!(matches!(
        Constant::read(&mut r),
        Ok(Constant::NameAndType { name_index: 4, descriptor_index: 5 })
    ));

    let data = vec![18u8, 0x00, 0x01, 0x00, 0x02];
    let mut r = Reader::new(&data);
    assert!(matches!(
        Constant::read(&mut r),
        Ok(Constant::InvokeDynamic { bootstrap_method_attr_index: 1, name_and_type_index: 2 })
    ));
}

#[test]
fn constant_remaining_tags() {
    let data = vec![8u8, 0x00, 0x07];
    let mut r = Reader::new(&data);
    assert!(matches!(
        Constant::read(&mut r),
        Ok(Constant::String { string_index: 7 })
    ));

    let data = vec![9u8, 0x00, 0x01, 0x00, 0x02];
    let mut r = Reader::new(&data);
    assert!(matches!(
        Constant::read(&mut r),
        Ok(Constant::FieldRef { class_index: 1, name_and_type_index: 2 })
    ));

    let data = vec![11u8, 0x00, 0x03, 0x00, 0x04];
    let mut r = Reader::new(&data);
    assert!(matches!(
        Constant::read(&mut r),
        Ok(Constant::InterfaceMethodRef { class_index: 3, name_and_type_index: 4 })
    ));

    let data = vec![16u8, 0x00, 0x08];
    let mut r = Reader::new(&data);
    assert!(matches!(
        Constant::read(&mut r),
        Ok(Constant::MethodType { descriptor_index: 8 })
    ));

    let data = vec![17u8, 0x00, 0x02, 0x00, 0x05];
    let mut r = Reader::new(&data);
    assert!(matches!(
        Constant::read(&mut r),
        Ok(Constant::Dynamic { bootstrap_method_attr_index: 2, name_and_type_index: 5 })
    ));

    let data = vec![19u8, 0x00, 0x06];
    let mut r = Reader::new(&data);
    assert!(matches!(
        Constant::read(&mut r),
        Ok(Constant::Module { name_index: 6 })
    ));

    let data = vec![20u8, 0x00, 0x09];
    let mut r = Reader::new(&data);
    assert!(matches!(
        Constant::read(&mut r),
        Ok(Constant::Package { name_index: 9 })
    ));
}

#[test]
fn pool_count_zero_is_empty() {
    // A count of 0 never occurs in well-formed files; it is read as an
    // empty pool, like a count of 1.
    let data = vec![0x00u8, 0x00];
    let mut r = Reader::new(&data);
    let cp = ConstantPool::read(&mut r).unwrap();
    assert_eq!(cp.string(1), Err(Error::InvalidConstantPoolIndex));
    // Nothing past the count was consumed.
    assert_eq!(r.read_u8(), Err(Error::TruncatedInput));
}

#[test]
fn constant_empty_utf8() {
    let data = vec![1u8, 0x00, 0x00];
    let mut r = Reader::new(&data);
    match Constant::read(&mut r) {
        Ok(Constant::Utf8 { data }) => assert_eq!(data, String::new()),
        other => panic!("expected a Utf8 constant, got {:?}", other),
    }
}

#[test]
fn constant_truncated_payload() {
    let data = vec![3u8, 0x00, 0x00];
    let mut r = Reader::new(&data);
    assert!(matches!(
        Constant::read(&mut r),
        Err(Error::TruncatedInput)
    ));
}

#[test]
fn pool_count_one_is_empty() {
    let data = vec![0x00u8, 0x01];
    let mut r = Reader::new(&data);
    let cp = ConstantPool::read(&mut r).unwrap();
    assert_eq!(cp.string(0), Err(Error::InvalidConstantPoolIndex));
    assert_eq!(cp.string(1), Err(Error::InvalidConstantPoolIndex));
    assert_eq!(cp.string(65535), Err(Error::InvalidConstantPoolIndex));
}

#[test]
fn pool_utf8_lookup() {
    // Two entries: Utf8 "hi" and Integer 7.
    let data = vec![
        0x00u8, 0x03, // count = 3, two entries
        1, 0x00, 0x02, b'h', b'i', // Utf8 "hi"
        3, 0x00, 0x00, 0x00, 0x07, // Integer 7
    ];
    let mut r = Reader::new(&data);
    let cp = ConstantPool::read(&mut r).unwrap();
    assert_eq!(cp.string(1), Ok(String::from("hi")));
    assert_eq!(cp.string(2), Err(Error::InvalidConstantPoolType));
    assert_eq!(cp.string(3), Err(Error::InvalidConstantPoolIndex));
}

#[test]
fn pool_utf8_multibyte_text() {
    // A Utf8 entry whose payload is multi-byte UTF-8: 0xC3 0xA9 decodes to
    // a single character, not to two.
    let data = vec![0x00u8, 0x02, 1, 0x00, 0x02, 0xC3, 0xA9];
    let mut r = Reader::new(&data);
    let cp = ConstantPool::read(&mut r).unwrap();
    let s = cp.string(1).unwrap();
    assert_eq!(s.chars().count(), 1);
    assert_eq!(s, String::from("\u{e9}"));
}

#[test]
fn pool_invalid_utf8_rejected() {
    let data = vec![0x00u8, 0x02, 1, 0x00, 0x01, 0xFF];
    let mut r = Reader::new(&data);
    assert!(matches!(
        ConstantPool::read(&mut r),
        Err(Error::InvalidUtf8)
    ));
}

#[test]
fn pool_decode_fails_fast() {
    // First entry is fine, second has a reserved tag: the whole pool
    // decode fails, no partial pool.
    let data = vec![0x00u8, 0x03, 3, 0x00, 0x00, 0x00, 0x07, 14];
    let mut r = Reader::new(&data);
    assert!(matches!(
        ConstantPool::read(&mut r),
        Err(Error::InvalidConstantTag(14))
    ));
}
