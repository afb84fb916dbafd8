use hddsgen::generator::RustGenerator;
use hddsgen::types::{IdlType, PrimitiveType};

#[test]
fn xcdr1_alignment_primitives_match_spec_table_31() {
    let one_byte = [
        PrimitiveType::Octet,
        PrimitiveType::UInt8,
        PrimitiveType::Int8,
        PrimitiveType::Boolean,
        PrimitiveType::Char,
    ];
    let two_byte = [
        PrimitiveType::Short,
        PrimitiveType::UnsignedShort,
        PrimitiveType::Int16,
        PrimitiveType::UInt16,
    ];
    let four_byte = [
        PrimitiveType::Long,
        PrimitiveType::UnsignedLong,
        PrimitiveType::Int32,
        PrimitiveType::UInt32,
        PrimitiveType::Float,
        PrimitiveType::WChar,
        PrimitiveType::String,
        PrimitiveType::WString,
    ];
    let eight_byte = [
        PrimitiveType::LongLong,
        PrimitiveType::UnsignedLongLong,
        PrimitiveType::Int64,
        PrimitiveType::UInt64,
        PrimitiveType::Double,
        PrimitiveType::LongDouble,
    ];

    for p in &one_byte {
        assert_eq!(
            RustGenerator::xcdr1_alignment(&IdlType::Primitive(*p)),
            1,
            "XCDR1: {p:?} must align to 1"
        );
    }
    for p in &two_byte {
        assert_eq!(
            RustGenerator::xcdr1_alignment(&IdlType::Primitive(*p)),
            2,
            "XCDR1: {p:?} must align to 2"
        );
    }
    for p in &four_byte {
        assert_eq!(
            RustGenerator::xcdr1_alignment(&IdlType::Primitive(*p)),
            4,
            "XCDR1: {p:?} must align to 4"
        );
    }
    for p in &eight_byte {
        assert_eq!(
            RustGenerator::xcdr1_alignment(&IdlType::Primitive(*p)),
            8,
            "XCDR1: {p:?} must align to 8 per Table 31"
        );
    }
}

#[test]
fn xcdr2_alignment_caps_8_byte_primitives_at_4() {
    let capped_at_4 = [
        PrimitiveType::LongLong,
        PrimitiveType::UnsignedLongLong,
        PrimitiveType::Int64,
        PrimitiveType::UInt64,
        PrimitiveType::Double,
        PrimitiveType::LongDouble,
    ];
    for p in &capped_at_4 {
        assert_eq!(
            RustGenerator::xcdr2_alignment(&IdlType::Primitive(*p)),
            4,
            "XCDR2: {p:?} must cap at 4 per Section 7.4.2 (not 8 as in XCDR1)"
        );
    }
}

#[test]
fn xcdr2_alignment_matches_xcdr1_for_types_not_larger_than_4_bytes() {
    let types = [
        IdlType::Primitive(PrimitiveType::Octet),
        IdlType::Primitive(PrimitiveType::UInt8),
        IdlType::Primitive(PrimitiveType::Int8),
        IdlType::Primitive(PrimitiveType::Boolean),
        IdlType::Primitive(PrimitiveType::Char),
        IdlType::Primitive(PrimitiveType::Short),
        IdlType::Primitive(PrimitiveType::UnsignedShort),
        IdlType::Primitive(PrimitiveType::Int16),
        IdlType::Primitive(PrimitiveType::UInt16),
        IdlType::Primitive(PrimitiveType::Long),
        IdlType::Primitive(PrimitiveType::UnsignedLong),
        IdlType::Primitive(PrimitiveType::Int32),
        IdlType::Primitive(PrimitiveType::UInt32),
        IdlType::Primitive(PrimitiveType::Float),
        IdlType::Primitive(PrimitiveType::WChar),
        IdlType::Primitive(PrimitiveType::String),
        IdlType::Primitive(PrimitiveType::WString),
    ];
    for t in &types {
        assert_eq!(
            RustGenerator::xcdr1_alignment(t),
            RustGenerator::xcdr2_alignment(t),
            "XCDR1 and XCDR2 must match for {t:?} (alignment <= 4)"
        );
    }
}

#[test]
fn xcdr_alignment_non_primitive_types_unchanged_between_versions() {
    let seq = IdlType::Sequence {
        inner: Box::new(IdlType::Primitive(PrimitiveType::Double)),
        bound: None,
    };
    let map = IdlType::MapType {
        key: Box::new(IdlType::Primitive(PrimitiveType::Int32)),
        value: Box::new(IdlType::Primitive(PrimitiveType::Double)),
        bound: None,
    };
    let named = IdlType::Named("MyStruct".to_string());
    for t in [&seq, &map, &named] {
        assert_eq!(RustGenerator::xcdr1_alignment(t), 4);
        assert_eq!(RustGenerator::xcdr2_alignment(t), 4);
    }
}

#[test]
fn xcdr_alignment_array_inherits_from_inner_type() {
    let array_of_double = IdlType::Array {
        inner: Box::new(IdlType::Primitive(PrimitiveType::Double)),
        size: 10,
    };
    assert_eq!(RustGenerator::xcdr1_alignment(&array_of_double), 8);
    assert_eq!(RustGenerator::xcdr2_alignment(&array_of_double), 4);

    let array_of_u32 = IdlType::Array {
        inner: Box::new(IdlType::Primitive(PrimitiveType::UInt32)),
        size: 4,
    };
    assert_eq!(RustGenerator::xcdr1_alignment(&array_of_u32), 4);
    assert_eq!(RustGenerator::xcdr2_alignment(&array_of_u32), 4);
}
