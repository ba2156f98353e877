// End-to-end decodes of whole class-file buffers.

use classfile::class::Class;
use classfile::error::Error;

// The fixed skeleton around a constant pool: magic, minor = 0, major = 52,
// then the pool bytes, then flags 0x0021, this/super 0, and empty
// interface, field, method and attribute lists.
fn skeleton(pool: &[u8]) -> Vec<u8> {
    let mut data = vec![0xCAu8, 0xFE, 0xBA, 0xBE, 0x00, 0x00, 0x00, 0x34];
    data.extend_from_slice(pool);
    data.extend_from_slice(&[
        0x00, 0x21, // access_flags
        0x00, 0x00, // this_class
        0x00, 0x00, // super_class
        0x00, 0x00, // interfaces_count
        0x00, 0x00, // fields_count
        0x00, 0x00, // methods_count
        0x00, 0x00, // attributes_count
    ]);
    data
}

// A three-entry pool: Utf8 "main", Utf8 "()V", Utf8 "Code".
fn three_entry_pool() -> Vec<u8> {
    let mut pool = vec![0x00u8, 0x04];
    pool.extend_from_slice(&[1, 0x00, 0x04, b'm', b'a', b'i', b'n']);
    pool.extend_from_slice(&[1, 0x00, 0x03, b'(', b')', b'V']);
    pool.extend_from_slice(&[1, 0x00, 0x04, b'C', b'o', b'd', b'e']);
    pool
}

#[test]
fn wrong_magic_rejected() {
    let data = vec![0xCAu8, 0xFE, 0xBA, 0xBF, 0x00, 0x00, 0x00, 0x34];
    assert!(matches!(
        Class::from_bytes(&data),
        Err(Error::InvalidSignature(0xCAFEBABF))
    ));
}

#[test]
fn short_magic_truncated() {
    let data = vec![0xCAu8, 0xFE];
    assert!(matches!(
        Class::from_bytes(&data),
        Err(Error::TruncatedInput)
    ));
}

#[test]
fn invalid_version_in_file() {
    // minor = 1, major = 57 after a good magic.
    let mut data = vec![0xCAu8, 0xFE, 0xBA, 0xBE, 0x00, 0x01, 0x00, 0x39];
    data.extend_from_slice(&[0x00, 0x01]);
    assert!(matches!(
        Class::from_bytes(&data),
        Err(Error::InvalidVersion { major: 57, minor: 1 })
    ));
}

#[test]
fn minimal_class_decodes() {
    let data = skeleton(&[0x00, 0x01]);
    let class = Class::from_bytes(&data).unwrap();
    assert!(class.method("main").is_none());
    assert!(class.method("").is_none());
}

#[test]
fn method_lookup_resolves_descriptor() {
    let mut data = vec![0xCAu8, 0xFE, 0xBA, 0xBE, 0x00, 0x00, 0x00, 0x34];
    data.extend_from_slice(&three_entry_pool());
    data.extend_from_slice(&[
        0x00, 0x21, // access_flags
        0x00, 0x00, // this_class
        0x00, 0x00, // super_class
        0x00, 0x00, // interfaces_count
        0x00, 0x00, // fields_count
        0x00, 0x01, // methods_count
        0x00, 0x01, // method access_flags: public
        0x00, 0x01, // method name_index -> "main"
        0x00, 0x02, // method descriptor_index -> "()V"
        0x00, 0x00, // method attributes_count
        0x00, 0x00, // class attributes_count
    ]);
    let class = Class::from_bytes(&data).unwrap();
    let main = class.method("main").unwrap();
    assert_eq!(main.name(), "main");
    assert_eq!(main.descriptor(), "()V");
    assert!(class.method("other").is_none());
}

#[test]
fn field_name_at_integer_constant() {
    // Pool holds a single Integer; the field's name_index points at it.
    let mut data = vec![0xCAu8, 0xFE, 0xBA, 0xBE, 0x00, 0x00, 0x00, 0x34];
    data.extend_from_slice(&[0x00, 0x02, 3, 0x00, 0x00, 0x00, 0x07]);
    data.extend_from_slice(&[
        0x00, 0x21, // access_flags
        0x00, 0x00, // this_class
        0x00, 0x00, // super_class
        0x00, 0x00, // interfaces_count
        0x00, 0x01, // fields_count
        0x00, 0x01, // field access_flags: public
        0x00, 0x01, // field name_index -> Integer, not Utf8
    ]);
    assert!(matches!(
        Class::from_bytes(&data),
        Err(Error::InvalidConstantPoolType)
    ));
}

#[test]
fn undefined_class_flags_rejected() {
    // Good magic, version, empty pool, then flags 0x2000.
    let data = vec![
        0xCAu8, 0xFE, 0xBA, 0xBE, 0x00, 0x00, 0x00, 0x34, 0x00, 0x01, 0x20, 0x00,
    ];
    assert!(matches!(
        Class::from_bytes(&data),
        Err(Error::InvalidAccessFlags(0x2000))
    ));
}

#[test]
fn truncated_after_pool() {
    // The buffer ends right after the (empty) constant pool.
    let data = vec![0xCAu8, 0xFE, 0xBA, 0xBE, 0x00, 0x00, 0x00, 0x34, 0x00, 0x01];
    assert!(matches!(
        Class::from_bytes(&data),
        Err(Error::TruncatedInput)
    ));
}

#[test]
fn decode_is_deterministic() {
    let mut data = vec![0xCAu8, 0xFE, 0xBA, 0xBE, 0x00, 0x00, 0x00, 0x34];
    data.extend_from_slice(&three_entry_pool());
    data.extend_from_slice(&[
        0x00, 0x21, 0x00, 0x00, 0x00, 0x00, 0x00, 0x00, 0x00, 0x00, 0x00, 0x01, 0x00,
        0x01, 0x00, 0x01, 0x00, 0x02, 0x00, 0x00, 0x00, 0x00,
    ]);
    let first = Class::from_bytes(&data).unwrap();
    let second = Class::from_bytes(&data).unwrap();
    assert_eq!(format!("{:?}", first), format!("{:?}", second));
}

#[test]
fn interfaces_and_attributes_consumed() {
    // Two interface indices and one class attribute with a 3-byte payload.
    let mut data = vec![0xCAu8, 0xFE, 0xBA, 0xBE, 0x00, 0x00, 0x00, 0x34];
    data.extend_from_slice(&[0x00, 0x02, 1, 0x00, 0x03, b'f', b'o', b'o']);
    data.extend_from_slice(&[
        0x00, 0x21, // access_flags
        0x00, 0x00, // this_class
        0x00, 0x00, // super_class
        0x00, 0x02, // interfaces_count
        0x00, 0x05, 0x00, 0x09, // interface indices
        0x00, 0x00, // fields_count
        0x00, 0x00, // methods_count
        0x00, 0x01, // attributes_count
        0x00, 0x01, // attribute name_index -> "foo"
        0x00, 0x00, 0x00, 0x03, // attribute length
        0xAA, 0xBB, 0xCC, // attribute payload
    ]);
    assert!(Class::from_bytes(&data).is_ok());
}
