use hddsgen::ast::{
    BitfieldDecl, Bitset, Definition, Field, IdlFile, Struct, Union, UnionCase, UnionLabel,
};
use hddsgen::const_expr::{Parser, ConstValue, ErrorKind, Op, ParseError, TokenKind};
use hddsgen::generator::RustGenerator;
use hddsgen::member_hash::{md5_digest, member_name_hash};
use hddsgen::rust_types::to_camel;
use hddsgen::text::{append_decimal, append_hex_u32, append_signed_decimal, to_upper};
use hddsgen::types::{Annotation, IdlType, PrimitiveType};
use hddsgen::union::{min_free, parse_int_label, plan_union, GenErrorKind};

fn prim(p: PrimitiveType) -> IdlType {
    IdlType::Primitive(p)
}

fn array(inner: IdlType, size: u32) -> IdlType {
    IdlType::Array { inner: Box::new(inner), size }
}

fn lit(n: i64) -> TokenKind {
    TokenKind::IntegerLiteral(n)
}

fn ident(s: &str) -> TokenKind {
    TokenKind::Identifier(s.to_string())
}

fn eval(tokens: Vec<TokenKind>) -> Result<ConstValue, ParseError> {
    let mut parser = Parser::new(tokens);
    parser.parse_const_expression(0)
}

fn eval_err(tokens: Vec<TokenKind>) -> (usize, String) {
    match eval(tokens) {
        Ok(v) => panic!("expected an error, got {v:?}"),
        Err(e) => {
            assert_eq!(e.kind, ErrorKind::InvalidSyntax);
            (e.pos, e.message)
        }
    }
}

fn value_case(name: &str, labels: &[&str], ty: IdlType) -> UnionCase {
    UnionCase {
        labels: labels
            .iter()
            .map(|l| {
                if *l == "default" {
                    UnionLabel::Default
                } else {
                    UnionLabel::Value(l.to_string())
                }
            })
            .collect(),
        field: Field::new(name, ty),
    }
}

fn generate_one(d: Definition) -> Result<String, (GenErrorKind, String)> {
    let mut file = IdlFile::new();
    file.add_definition(d);
    RustGenerator::new()
        .generate(&file)
        .map_err(|e| (e.kind, e.name))
}

#[test]
fn align_to_rounds_up_to_the_next_multiple() {
    assert_eq!(RustGenerator::align_to(13, 8), 16);
    assert_eq!(RustGenerator::align_to(16, 8), 16);
    assert_eq!(RustGenerator::align_to(0, 4), 0);
    assert_eq!(RustGenerator::align_to(5, 1), 5);
    assert_eq!(RustGenerator::align_to(3, 2), 4);
    assert_eq!(RustGenerator::align_to(9, 4), 12);
    assert_eq!(RustGenerator::align_to(17, 16), 32);
    assert_eq!(RustGenerator::align_to(4096, 4096), 4096);
    assert_eq!(RustGenerator::align_to(5, 3), 5);
}

#[test]
fn struct_layout_pads_members_to_their_alignment() {
    let fields = vec![
        Field::new("a", prim(PrimitiveType::Octet)),
        Field::new("b", prim(PrimitiveType::Long)),
        Field::new("c", prim(PrimitiveType::Double)),
    ];
    let (size, align, members) = RustGenerator::compute_struct_layout(&fields);
    assert_eq!((size, align), (16, 8));
    let offsets: Vec<usize> = members.iter().map(|m| m.1).collect();
    assert_eq!(offsets, vec![0, 4, 8]);
    assert_eq!(members[1].0, "b");
}

#[test]
fn struct_size_is_rounded_up_to_the_largest_alignment() {
    let fields = vec![
        Field::new("x", prim(PrimitiveType::Octet)),
        Field::new("y", prim(PrimitiveType::UInt64)),
        Field::new("z", prim(PrimitiveType::Octet)),
    ];
    let (size, align, members) = RustGenerator::compute_struct_layout(&fields);
    let offsets: Vec<usize> = members.iter().map(|m| m.1).collect();
    assert_eq!(offsets, vec![0, 8, 16]);
    assert_eq!((size, align), (24, 8));

    let (size, align, members) = RustGenerator::compute_struct_layout(&[]);
    assert_eq!((size, align, members.len()), (0, 1, 0));
}

#[test]
fn field_type_info_of_arrays_and_sequences() {
    let (size, align, kind) =
        RustGenerator::field_type_info(&array(prim(PrimitiveType::Short), 5));
    assert_eq!((size, align, kind), (10, 2, "I16"));
    let seq_char = IdlType::Sequence {
        inner: Box::new(prim(PrimitiveType::Char)),
        bound: Some(8),
    };
    assert_eq!(RustGenerator::field_type_info(&seq_char), (24, 8, "String"));
    assert_eq!(
        RustGenerator::field_type_info(&IdlType::Named("T".to_string())),
        (4, 4, "U32")
    );
}

#[test]
fn xcdr2_caps_every_alignment_at_four() {
    let nested = array(array(prim(PrimitiveType::LongDouble), 2), 3);
    assert_eq!(RustGenerator::xcdr1_alignment(&nested), 8);
    assert_eq!(RustGenerator::xcdr2_alignment(&nested), 4);
    let small = array(prim(PrimitiveType::Short), 4);
    assert_eq!(RustGenerator::xcdr1_alignment(&small), 2);
    assert_eq!(RustGenerator::xcdr2_alignment(&small), 2);
    let map = IdlType::MapType {
        key: Box::new(prim(PrimitiveType::Double)),
        value: Box::new(prim(PrimitiveType::Double)),
        bound: None,
    };
    assert_eq!(RustGenerator::xcdr1_alignment(&map), 4);
    assert_eq!(RustGenerator::xcdr2_alignment(&map), 4);
}

#[test]
fn variable_size_types() {
    assert!(RustGenerator::is_variable_size_type(&prim(PrimitiveType::String)));
    assert!(!RustGenerator::is_variable_size_type(&prim(PrimitiveType::Double)));
    assert!(RustGenerator::is_variable_size_type(&array(
        prim(PrimitiveType::WString),
        2
    )));
    assert!(!RustGenerator::is_variable_size_type(&IdlType::Named(
        "T".to_string()
    )));
    let optional = Field::new("o", prim(PrimitiveType::Long))
        .with_annotation(Annotation::Optional);
    assert!(RustGenerator::has_variable_size_field(&[
        Field::new("a", prim(PrimitiveType::Long)),
        optional
    ]));
    assert!(!RustGenerator::has_variable_size_field(&[Field::new(
        "a",
        prim(PrimitiveType::Long)
    )]));
}

#[test]
fn fnv1a_matches_the_reference_vectors() {
    assert_eq!(RustGenerator::compute_fnv1a_hash(""), 0x811c_9dc5);
    assert_eq!(RustGenerator::compute_fnv1a_hash("a"), 0xe40c_292c);
    assert_eq!(RustGenerator::compute_fnv1a_hash("foobar"), 0xbf9c_f968);
    assert_eq!(
        RustGenerator::compute_fnv1a_hash("sensors::Temperature"),
        0x2bbf_e77e
    );
}

#[test]
fn min_free_is_the_least_unused_non_negative_value() {
    assert_eq!(min_free(&vec![]), 0);
    assert_eq!(min_free(&vec![0, 1, 3]), 2);
    assert_eq!(min_free(&vec![2, 0, 1]), 3);
    assert_eq!(min_free(&vec![1, 2]), 0);
    assert_eq!(min_free(&vec![-1, 0, -5]), 1);
}

#[test]
fn union_default_discriminant_skips_every_label() -> Result<(), String> {
    let mut u = Union::new("U", prim(PrimitiveType::Long));
    u.add_case(value_case("a", &["0"], prim(PrimitiveType::Long)));
    u.add_case(value_case("b", &["1", "3"], prim(PrimitiveType::Double)));
    u.add_case(value_case("c", &["default"], prim(PrimitiveType::Octet)));
    let defs = vec![Definition::Union(u)];
    let Definition::Union(u) = &defs[0] else {
        return Err("not a union".to_string());
    };
    let plan = plan_union(u, &defs).map_err(|e| format!("{e:?}"))?;
    assert_eq!(plan.default_value, 2);
    assert_eq!(plan.default_case, Some(2));
    assert_eq!(plan.values, vec![vec![0], vec![1, 3], vec![]]);
    Ok(())
}

#[test]
fn union_with_string_discriminator_is_refused() {
    let mut u = Union::new("Bad", prim(PrimitiveType::String));
    u.add_case(value_case("a", &["0"], prim(PrimitiveType::Long)));
    assert_eq!(
        generate_one(Definition::Union(u)),
        Err((GenErrorKind::InvalidDiscriminator, "Bad".to_string()))
    );
}

#[test]
fn union_with_non_numeric_label_is_refused() {
    let mut u = Union::new("Lbl", prim(PrimitiveType::Long));
    u.add_case(value_case("a", &["abc"], prim(PrimitiveType::Long)));
    assert_eq!(
        generate_one(Definition::Union(u)),
        Err((GenErrorKind::InvalidUnionLabel, "Lbl".to_string()))
    );
}

#[test]
fn boolean_union_with_both_values_and_a_default_is_refused() {
    let mut u = Union::new("B", prim(PrimitiveType::Boolean));
    u.add_case(value_case("t", &["TRUE"], prim(PrimitiveType::Long)));
    u.add_case(value_case("f", &["FALSE"], prim(PrimitiveType::Long)));
    u.add_case(value_case("d", &["default"], prim(PrimitiveType::Long)));
    assert_eq!(
        generate_one(Definition::Union(u)),
        Err((GenErrorKind::UnionDefaultExhausted, "B".to_string()))
    );
}

#[test]
fn bitfield_of_width_zero_or_past_bit_64_is_refused() {
    let mut bs = Bitset::new("Z");
    bs.add_field(BitfieldDecl::new(0, "none"));
    assert_eq!(
        generate_one(Definition::Bitset(bs)),
        Err((GenErrorKind::InvalidBitfield, "Z".to_string()))
    );
    let mut bs = Bitset::new("W");
    bs.add_field(BitfieldDecl::new(40, "a"));
    bs.add_field(BitfieldDecl::new(30, "b"));
    assert_eq!(
        generate_one(Definition::Bitset(bs)),
        Err((GenErrorKind::InvalidBitfield, "W".to_string()))
    );
}

#[test]
fn struct_too_large_for_the_address_space_is_refused() {
    let huge = array(
        array(array(prim(PrimitiveType::UInt64), u32::MAX), u32::MAX),
        u32::MAX,
    );
    let mut s = Struct::new("Huge");
    s.add_field(Field::new("data", huge));
    assert_eq!(
        generate_one(Definition::Struct(s)),
        Err((GenErrorKind::LayoutOverflow, "Huge".to_string()))
    );
}

#[test]
fn self_referencing_struct_falls_back_to_uint32_identifier() -> Result<(), String> {
    let mut s = Struct::new("Node");
    s.add_field(Field::new("value", prim(PrimitiveType::Long)));
    s.add_field(Field::new("child", IdlType::Named("Node".to_string())));
    let code = generate_one(Definition::Struct(s)).map_err(|e| format!("{e:?}"))?;
    assert!(code.contains("::hdds::xtypes::TypeIdentifier::Complete("));
    assert!(code.contains("::hdds::xtypes::TypeIdentifier::TK_UINT32"));
    Ok(())
}

#[test]
fn multiplication_binds_tighter_than_addition() {
    assert_eq!(
        eval(vec![lit(1), TokenKind::Plus, lit(2), TokenKind::Star, lit(3)]).ok(),
        Some(ConstValue::Int(7))
    );
    assert_eq!(
        eval(vec![lit(2), TokenKind::Star, lit(3), TokenKind::Plus, lit(4)]).ok(),
        Some(ConstValue::Int(10))
    );
    assert_eq!(
        eval(vec![
            lit(1),
            TokenKind::ShiftLeft,
            lit(4),
            TokenKind::Pipe,
            lit(1)
        ])
        .ok(),
        Some(ConstValue::Int(17))
    );
    assert_eq!(
        eval(vec![
            lit(1),
            TokenKind::DoublePipe,
            lit(0),
            TokenKind::DoubleAmpersand,
            lit(0)
        ])
        .ok(),
        Some(ConstValue::Bool(true))
    );
}

#[test]
fn operators_of_equal_precedence_associate_left() {
    assert_eq!(
        eval(vec![lit(10), TokenKind::Minus, lit(4), TokenKind::Minus, lit(3)]).ok(),
        Some(ConstValue::Int(3))
    );
    assert_eq!(
        eval(vec![lit(100), TokenKind::Slash, lit(10), TokenKind::Slash, lit(5)]).ok(),
        Some(ConstValue::Int(2))
    );
}

#[test]
fn parentheses_group_and_the_parser_consumes_them() {
    let mut parser = Parser::new(vec![
        TokenKind::LeftParen,
        lit(1),
        TokenKind::Plus,
        lit(2),
        TokenKind::RightParen,
        TokenKind::Star,
        lit(3),
        TokenKind::Semicolon,
    ]);
    assert_eq!(parser.parse_const_expression(0).ok(), Some(ConstValue::Int(9)));
    assert_eq!(parser.current_position(), 7);
    assert!(parser.check(&TokenKind::Semicolon));
}

#[test]
fn logical_operators_ignore_operand_order() {
    let a = eval(vec![
        TokenKind::BoolLiteral(true),
        TokenKind::DoubleAmpersand,
        lit(0),
    ]);
    let b = eval(vec![
        lit(0),
        TokenKind::DoubleAmpersand,
        TokenKind::BoolLiteral(true),
    ]);
    assert_eq!(a.ok(), Some(ConstValue::Bool(false)));
    assert_eq!(b.ok(), Some(ConstValue::Bool(false)));
    assert_eq!(
        ConstValue::Int(6)
            .apply_binary(&Op::BitXor, ConstValue::Int(3), 0)
            .ok(),
        ConstValue::Int(3)
            .apply_binary(&Op::BitXor, ConstValue::Int(6), 0)
            .ok()
    );
}

#[test]
fn double_negation() {
    assert_eq!(
        eval(vec![TokenKind::Bang, TokenKind::Bang, lit(5)]).ok(),
        Some(ConstValue::Bool(true))
    );
    assert_eq!(
        eval(vec![TokenKind::Bang, TokenKind::StringLiteral(String::new())]).ok(),
        Some(ConstValue::Bool(true))
    );
    assert_eq!(
        eval(vec![TokenKind::Minus, TokenKind::Minus, lit(5)]).ok(),
        Some(ConstValue::Int(5))
    );
    assert_eq!(
        eval(vec![TokenKind::Plus, TokenKind::Minus, lit(5)]).ok(),
        Some(ConstValue::Int(-5))
    );
}

#[test]
fn integer_division_truncates_toward_zero_and_wraps() {
    assert_eq!(
        eval(vec![TokenKind::Minus, lit(7), TokenKind::Slash, lit(2)]).ok(),
        Some(ConstValue::Int(-3))
    );
    assert_eq!(
        eval(vec![TokenKind::Minus, lit(7), TokenKind::Percent, lit(2)]).ok(),
        Some(ConstValue::Int(-1))
    );
    assert_eq!(
        eval(vec![lit(7), TokenKind::Percent, TokenKind::Minus, lit(2)]).ok(),
        Some(ConstValue::Int(1))
    );
    assert_eq!(
        ConstValue::Int(i64::MIN)
            .apply_binary(&Op::Div, ConstValue::Int(-1), 0)
            .ok(),
        Some(ConstValue::Int(i64::MIN))
    );
    assert_eq!(
        ConstValue::Int(i64::MAX)
            .apply_binary(&Op::Add, ConstValue::Int(1), 0)
            .ok(),
        Some(ConstValue::Int(i64::MIN))
    );
    assert_eq!(
        ConstValue::Int(-16)
            .apply_binary(&Op::Shr, ConstValue::Int(2), 0)
            .ok(),
        Some(ConstValue::Int(-4))
    );
}

#[test]
fn arithmetic_errors_name_the_operator_position() {
    assert_eq!(
        eval_err(vec![lit(1), TokenKind::Slash, lit(0)]),
        (1, "Division by zero".to_string())
    );
    assert_eq!(
        eval_err(vec![lit(1), TokenKind::Plus, lit(1), TokenKind::Percent, lit(0)]),
        (3, "Modulo by zero".to_string())
    );
    assert_eq!(
        eval_err(vec![lit(1), TokenKind::ShiftLeft, lit(64)]),
        (1, "Shift amount out of range (0..63)".to_string())
    );
    assert_eq!(
        eval_err(vec![
            lit(1),
            TokenKind::Plus,
            TokenKind::StringLiteral("s".to_string())
        ]),
        (1, "+ expects numbers".to_string())
    );
    assert_eq!(
        eval_err(vec![
            TokenKind::BoolLiteral(true),
            TokenKind::Ampersand,
            lit(1)
        ]),
        (1, "& expects integers".to_string())
    );
}

#[test]
fn syntax_errors() {
    assert_eq!(
        eval_err(vec![ident("foo")]),
        (0, "Unknown identifier in const expression: foo".to_string())
    );
    assert_eq!(
        eval_err(vec![
            TokenKind::LeftParen,
            lit(1),
            TokenKind::Plus,
            lit(2)
        ]),
        (4, "Expected ')' in expression".to_string())
    );
    assert_eq!(eval_err(vec![]), (0, "Expected expression".to_string()));
    assert_eq!(
        eval_err(vec![lit(1), TokenKind::Plus, TokenKind::Semicolon]),
        (2, "Expected expression".to_string())
    );
    assert_eq!(
        eval_err(vec![
            TokenKind::Minus,
            TokenKind::StringLiteral("s".to_string())
        ]),
        (1, "Invalid unary -".to_string())
    );
    assert_eq!(
        eval_err(vec![ident("a"), TokenKind::DoubleColon, lit(3)]),
        (2, "Expected identifier after '::'".to_string())
    );
}

#[test]
fn scoped_constants_and_redefinition() {
    let mut parser = Parser::new(vec![
        ident("m"),
        TokenKind::DoubleColon,
        ident("K"),
        TokenKind::Star,
        ident("N"),
    ]);
    parser.define("m::K", ConstValue::Int(5));
    parser.define("N", ConstValue::Int(1));
    parser.define("N", ConstValue::Int(2));
    assert_eq!(parser.lookup("N"), Some(ConstValue::Int(2)));
    assert_eq!(parser.lookup("K"), None);
    assert_eq!(parser.parse_const_expression(0).ok(), Some(ConstValue::Int(10)));
    assert_eq!(parser.current_position(), 5);
}

#[test]
fn const_values_print_and_convert() {
    assert_eq!(ConstValue::Int(-42).fmt(), "-42");
    assert_eq!(ConstValue::Bool(true).fmt(), "true");
    assert_eq!(ConstValue::Str("x y".to_string()).fmt(), "x y");
    assert_eq!(ConstValue::Bool(true).as_int(3).ok(), Some(1));
    assert_eq!(ConstValue::Int(9).as_int(3).ok(), Some(9));
    let err = ConstValue::Str("s".to_string()).as_int(3);
    assert!(matches!(err, Err(ref e) if e.pos == 3 && e.message == "Expected integer"));
    assert!(!ConstValue::Str(String::new()).truthy());
    assert!(ConstValue::Int(-1).truthy());
}

#[test]
fn number_and_name_text() {
    let mut s = String::new();
    append_decimal(&mut s, 0);
    assert_eq!(s, "0");
    let mut s = String::from("n=");
    append_decimal(&mut s, u64::MAX);
    assert_eq!(s, "n=18446744073709551615");
    let mut s = String::new();
    append_signed_decimal(&mut s, i64::MIN);
    assert_eq!(s, "-9223372036854775808");
    let mut s = String::new();
    append_hex_u32(&mut s, 0xdead_beef);
    assert_eq!(s, "0xDEADBEEF");
    let mut s = String::new();
    append_hex_u32(&mut s, 0x2a);
    assert_eq!(s, "0x0000002A");
    assert_eq!(to_upper("mode_x1"), "MODE_X1");
    assert_eq!(to_camel("my_field_name"), "MyFieldName");
    assert_eq!(to_camel("_a__b"), "AB");
}

#[test]
fn generation_reports_the_first_declaration_that_fails() {
    let mut file = IdlFile::new();
    let mut e = hddsgen::ast::Enum::new("Color");
    e.add_variant(hddsgen::ast::EnumVariant::new("RED", None));
    file.add_definition(Definition::Enum(e));
    let mut u = Union::new("U1", prim(PrimitiveType::Double));
    u.add_case(value_case("a", &["0"], prim(PrimitiveType::Long)));
    file.add_definition(Definition::Union(u));
    let mut bs = Bitset::new("B");
    bs.add_field(BitfieldDecl::new(0, "none"));
    file.add_definition(Definition::Bitset(bs));
    let err = RustGenerator::new().generate(&file).err();
    assert!(matches!(
        err,
        Some(ref e) if e.kind == GenErrorKind::InvalidDiscriminator && e.name == "U1"
    ));
}

fn hex(bytes: &[u8]) -> String {
    bytes.iter().map(|b| format!("{b:02x}")).collect()
}

#[test]
fn md5_matches_the_reference_digests() {
    assert_eq!(hex(&md5_digest(b"")), "d41d8cd98f00b204e9800998ecf8427e");
    assert_eq!(hex(&md5_digest(b"a")), "0cc175b9c0f1b6a831c399e269772661");
    assert_eq!(hex(&md5_digest(b"abc")), "900150983cd24fb0d6963f7d28e17f72");
    let cases: [(usize, &str); 5] = [
        (55, "04364420e25c512fd958a70738aa8f72"),
        (56, "668a72d5ba17f08e62dabcafad6db14b"),
        (64, "c1bb4f81d892b2d57947682aeb252456"),
        (119, "ab347a5f68c8a443cfcddc633f12c24f"),
        (200, "30a83621ce5422fbdfdd539777458c78"),
    ];
    for (n, want) in cases {
        assert_eq!(hex(&md5_digest(&vec![b'x'; n])), want, "length {n}");
    }
}

#[test]
fn mutable_struct_members_get_hashed_or_explicit_ids() {
    assert_eq!(member_name_hash("id"), 0x04b7_0bb8);
    assert_eq!(member_name_hash("temperature_celsius"), 0x0898_2f62);
    let mut s = Struct::new("Reading");
    s.add_annotation(Annotation::Mutable);
    let value = Field::new("value", prim(PrimitiveType::Double));
    let tagged = Field::new("tagged", prim(PrimitiveType::Long)).with_annotation(Annotation::Id(7));
    assert_eq!(RustGenerator::compute_member_id(&s, 0, &value), 0x00c1_6320);
    assert_eq!(RustGenerator::compute_member_id(&s, 1, &tagged), 7);
    let plain = Struct::new("Plain");
    assert_eq!(RustGenerator::compute_member_id(&plain, 3, &value), 3);

    s.add_field(value);
    let code = generate_one(Definition::Struct(s)).map_err(|e| format!("{e:?}"));
    assert!(code.is_ok_and(|c| c.contains("member_id: 12673824,")
        && c.contains("struct_flags: ::hdds::xtypes::StructTypeFlag::IS_MUTABLE")));
}

#[test]
fn emitted_label_literals_read_back_as_their_values() {
    for n in [0i64, 7, -42, 1_000_000, i64::MAX, i64::MIN + 1, i64::MIN] {
        let mut text = String::new();
        append_signed_decimal(&mut text, n);
        assert_eq!(parse_int_label(&text), Some(n), "{text}");
    }
    assert_eq!(parse_int_label("9223372036854775808"), None);
    assert_eq!(parse_int_label("-9223372036854775809"), None);
    assert_eq!(parse_int_label("-"), None);
    assert_eq!(parse_int_label("1x"), None);
    assert_eq!(parse_int_label("007"), Some(7));
}

#[test]
fn parser_position_after_an_error() {
    let mut parser = Parser::new(vec![TokenKind::Semicolon]);
    assert!(parser.parse_const_expression(0).is_err());
    assert_eq!(parser.current_position(), 0);
    let mut parser = Parser::new(vec![TokenKind::Minus, TokenKind::BoolLiteral(true), TokenKind::Comma]);
    let err = parser.parse_const_unary().err();
    assert!(matches!(err, Some(ref e) if e.pos == 1 && e.message == "Invalid unary -"));
    assert_eq!(parser.current_position(), 2);
    let mut parser = Parser::new(vec![TokenKind::LeftParen, lit(1), TokenKind::Plus, lit(2)]);
    assert!(parser.parse_const_unary().is_err());
    assert_eq!(parser.current_position(), 4);
    let mut parser = Parser::new(vec![lit(1), TokenKind::Slash, lit(0), TokenKind::Comma]);
    assert!(parser.parse_const_expression(0).is_err());
    assert_eq!(parser.current_position(), 3);
    let mut parser = Parser::new(vec![TokenKind::Bang, lit(0)]);
    assert_eq!(parser.parse_const_unary().ok(), Some(ConstValue::Bool(true)));
    let mut parser = Parser::new(vec![TokenKind::Plus, TokenKind::StringLiteral("s".to_string())]);
    assert_eq!(parser.parse_const_unary().ok(), Some(ConstValue::Str("s".to_string())));
}

#[test]
fn extensibility_flag_of_the_type_object() -> Result<(), String> {
    let mut s = Struct::new("App");
    s.add_annotation(Annotation::Appendable);
    s.add_field(Field::new("v", prim(PrimitiveType::Long)));
    let code = generate_one(Definition::Struct(s)).map_err(|e| format!("{e:?}"))?;
    assert!(code.contains("struct_flags: ::hdds::xtypes::StructTypeFlag::IS_APPENDABLE,"));
    assert!(code.contains("member_id: 0,"));
    let mut s = Struct::new("Both");
    s.add_annotation(Annotation::Appendable);
    s.add_annotation(Annotation::Mutable);
    let code = generate_one(Definition::Struct(s)).map_err(|e| format!("{e:?}"))?;
    assert!(code.contains("struct_flags: ::hdds::xtypes::StructTypeFlag::IS_MUTABLE,"));
    let code = generate_one(Definition::Struct(Struct::new("Plain"))).map_err(|e| format!("{e:?}"))?;
    assert!(code.contains("struct_flags: ::hdds::xtypes::StructTypeFlag::IS_FINAL,"));
    Ok(())
}

#[test]
fn dds_impl_descriptor_names_the_qualified_type() {
    let mut s = Struct::new("Temperature");
    s.add_field(Field::new("id", prim(PrimitiveType::Long)).with_annotation(Annotation::Key));
    s.add_field(Field::new("celsius", prim(PrimitiveType::Double)));
    let defs: Vec<Definition> = vec![];
    let code = RustGenerator::emit_dds_trait_impl(&s, Some("sensors"), &defs);
    assert!(code.starts_with(
        "    // === DDS Trait (auto-generated by hddsgen) ===\n    impl ::hdds::api::DDS for Temperature {\n"
    ));
    assert!(code.contains("type_id: 0x2BBFE77E,  // FNV-1a hash of \"sensors::Temperature\"\n"));
    assert!(code.contains("type_name: \"sensors::Temperature\",\n"));
    assert!(code.contains("size_bytes: 16,\n"));
    assert!(code.contains("alignment: 8,\n"));
    assert!(code.contains("is_variable_size: false,\n"));
    assert_eq!(code.matches("::hdds::core::types::FieldLayout {").count(), 2);
    assert!(code.contains("name: \"celsius\",\n                        offset_bytes: 8,\n"));
    assert!(code.contains("CompleteTypeDetail::new(\"sensors::Temperature\")"));
    assert!(code.contains("// Hash @key field: id\n"));
    assert!(!code.contains("No @key fields"));
    assert!(code.contains("fn has_key() -> bool { true }\n"));
    assert!(code.ends_with("    }\n    \n"));

    let plain = Struct::new("Empty");
    let code = RustGenerator::emit_dds_trait_impl(&plain, None, &defs);
    assert!(code.contains("// No @key fields - return zeroed hash\n"));
    assert!(code.contains("fn has_key() -> bool { false }\n"));
    assert!(code.contains("type_name: \"Empty\",\n"));
}

#[test]
fn inline_type_object_wraps_the_nested_object() {
    let mut inner = Struct::new("Inner");
    inner.add_field(Field::new("x", prim(PrimitiveType::Long)));
    let defs = vec![Definition::Struct(inner)];
    let code = RustGenerator::emit_inline_type_object("Inner", &defs, &vec![]);
    assert!(code.starts_with("{\n"));
    assert!(code.ends_with("}"));
    assert!(code.contains("static __HASH: ::std::sync::OnceLock<::hdds::xtypes::EquivalenceHash>"));
    assert!(code.contains("let __nested_to = ::hdds::xtypes::CompleteTypeObject::Struct("));
    assert_eq!(
        RustGenerator::emit_inline_type_object("Inner", &defs, &vec!["Inner".to_string()]),
        "::hdds::xtypes::TypeIdentifier::TK_UINT32"
    );
    assert_eq!(
        RustGenerator::emit_inline_type_object("Missing", &defs, &vec![]),
        "::hdds::xtypes::TypeIdentifier::TK_UINT32"
    );
}

#[test]
fn declared_type_keeps_its_object_whatever_else_is_being_emitted() {
    let mut a = Struct::new("A");
    a.add_field(Field::new("x", prim(PrimitiveType::Long)));
    let defs = vec![Definition::Struct(a)];
    let code = RustGenerator::emit_inline_type_object("A", &defs, &vec!["X".to_string(), "Y".to_string()]);
    assert!(code.starts_with("{\n"));
    assert!(code.contains("let __nested_to = ::hdds::xtypes::CompleteTypeObject::Struct("));
    let id = RustGenerator::emit_member_type_id(&IdlType::Named("A".to_string()), &defs, &vec!["X".to_string()]);
    assert!(id.contains("CompleteTypeDetail::new(\"A\")"));
}

#[test]
fn type_object_lists_the_given_layouts() {
    let mut s = Struct::new("S");
    s.add_field(Field::new("a", prim(PrimitiveType::Long)));
    s.add_field(Field::new("b", prim(PrimitiveType::Double)));
    let defs: Vec<Definition> = vec![];
    let layouts = vec![("first".to_string(), 0usize, prim(PrimitiveType::Octet))];
    let code = RustGenerator::emit_xtypes_type_object(&s, "S", &layouts, &defs);
    assert_eq!(code.matches("::hdds::xtypes::CompleteStructMember {").count(), 1);
    assert!(code.contains("member_type_id: ::hdds::xtypes::TypeIdentifier::TK_BYTE,"));
    assert!(code.contains("CompleteMemberDetail::new(\"first\")"));
    assert!(code.contains("member_id: 0,"));

    let mut m = Struct::new("M");
    m.add_annotation(Annotation::Mutable);
    m.add_field(Field::new("value", prim(PrimitiveType::Double)));
    m.add_field(Field::new("other", prim(PrimitiveType::Long)));
    let layouts = vec![("value".to_string(), 0usize, prim(PrimitiveType::Double))];
    let code = RustGenerator::emit_xtypes_type_object(&m, "M", &layouts, &defs);
    assert!(code.contains("member_id: 12673824,"));
    assert_eq!(code.matches("::hdds::xtypes::CompleteStructMember {").count(), 1);
}

#[test]
fn nested_enum_object_lists_each_enumerator() {
    let mut e = hddsgen::ast::Enum::new("Color");
    e.add_variant(hddsgen::ast::EnumVariant::new("RED", None));
    e.add_variant(hddsgen::ast::EnumVariant::new("BLUE", Some(7)));
    e.add_variant(hddsgen::ast::EnumVariant::new("GREEN", None));
    let code = RustGenerator::emit_complete_enum_type_object(&e, "Color");
    assert!(code.starts_with("::hdds::xtypes::CompleteTypeObject::Enumerated(\n"));
    assert!(code.ends_with(")"));
    assert_eq!(code.matches("CompleteEnumeratedLiteral {").count(), 3);
    assert!(code.contains("value: 0,"));
    assert!(code.contains("value: 7,"));
    assert!(code.contains("value: 2,"));
}
