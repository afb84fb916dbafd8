//! What the tables of the generator say of each numeric IDL primitive,
//! held against the primitive's arithmetic kind: its Rust type, its size and
//! alignment, its XCDR alignments, its XTypes type identifier and its
//! descriptor kind all follow from its width and signedness.

use vstd::prelude::*;
use crate::cdr_codegen::{CdrVersion, prim_decode_text, prim_encode_text, version_align};
use crate::dds_trait::{KeyHashKind, key_hash_text, key_kind, tk_suffix};
use crate::ast::{Definition, find_type};
use crate::layout::{primitive_info, type_align, type_size, xcdr1_align, xcdr2_align};
use crate::rust_types::prim_rust_text;
use crate::text::{decimal, is_infix};
use crate::types::{IdlType, PrimitiveType};

verus! {

/// The arithmetic kind of a numeric IDL primitive (IDL 4.2, 7.4.1.4.4.2):
/// whether it is floating point, whether it is signed, and its width in
/// bits. `None` for the primitives that are not numbers.
pub open spec fn numeric_kind(p: PrimitiveType) -> Option<(bool, bool, nat)> {
    match p {
        PrimitiveType::Int8 => Some((false, true, 8)),
        PrimitiveType::Octet | PrimitiveType::UInt8 => Some((false, false, 8)),
        PrimitiveType::Short | PrimitiveType::Int16 => Some((false, true, 16)),
        PrimitiveType::UnsignedShort | PrimitiveType::UInt16 => Some((false, false, 16)),
        PrimitiveType::Long | PrimitiveType::Int32 => Some((false, true, 32)),
        PrimitiveType::UnsignedLong | PrimitiveType::UInt32 => Some((false, false, 32)),
        PrimitiveType::LongLong | PrimitiveType::Int64 => Some((false, true, 64)),
        PrimitiveType::UnsignedLongLong | PrimitiveType::UInt64 => Some((false, false, 64)),
        PrimitiveType::Float => Some((true, true, 32)),
        PrimitiveType::Double => Some((true, true, 64)),
        _ => None,
    }
}

/// The family word of a numeric kind in XTypes names: `FLOAT`, `INT` or
/// `UINT`.
pub open spec fn kind_word(float: bool, signed: bool) -> Seq<char> {
    if float { "FLOAT"@ } else if signed { "INT"@ } else { "UINT"@ }
}

/// The Rust letter of a numeric kind: `f`, `i` or `u`.
pub open spec fn rust_letter(float: bool, signed: bool) -> Seq<char> {
    if float { "f"@ } else if signed { "i"@ } else { "u"@ }
}

/// The descriptor letter of a numeric kind: `F`, `I` or `U`.
pub open spec fn kind_letter(float: bool, signed: bool) -> Seq<char> {
    if float { "F"@ } else if signed { "I"@ } else { "U"@ }
}

proof fn lemma_decimal_widths()
    ensures
        decimal(8) == seq!['8'],
        decimal(16) == seq!['1', '6'],
        decimal(32) == seq!['3', '2'],
        decimal(64) == seq!['6', '4'],
{
    assert(decimal(1) == seq!['1']);
    assert(decimal(3) == seq!['3']);
    assert(decimal(6) == seq!['6']);
    assert(decimal(16) =~= seq!['1', '6']);
    assert(decimal(32) =~= seq!['3', '2']);
    assert(decimal(64) =~= seq!['6', '4']);
}

/// Every table of the generator agrees with a numeric primitive's width `w`
/// and signedness: its Rust type is `f`/`i`/`u` followed by `w`; its
/// generated form has size and alignment `w / 8` bytes; XCDR version 1 aligns
/// it to `w / 8` and version 2 to that capped at 4, in the type tables and
/// in the alignment the encoders and decoders use; its XTypes type
/// identifier is `TK_FLOAT`, `TK_INT` or `TK_UINT` followed by `w` (`TK_BYTE`
/// for an unsigned byte); its descriptor kind is `F`, `I` or `U` followed by
/// `w` (`U8` for every byte); and as a `@key` member it is hashed through its
/// little-endian bytes.
pub proof fn law_numeric_primitive_tables(p: PrimitiveType, defs: Seq<Definition>)
    requires
        numeric_kind(p) is Some,
    ensures
        ({
            let (float, signed, w) = numeric_kind(p)->0;
            &&& prim_rust_text(p) == rust_letter(float, signed) + decimal(w)
            &&& type_size(IdlType::Primitive(p)) == w / 8
            &&& type_align(IdlType::Primitive(p)) == w / 8
            &&& primitive_info(p).0 == w / 8
            &&& xcdr1_align(IdlType::Primitive(p)) == w / 8
            &&& xcdr2_align(IdlType::Primitive(p)) == if w / 8 > 4 { 4 } else { w / 8 }
            &&& version_align(CdrVersion::Xcdr1, IdlType::Primitive(p)) == w / 8
            &&& version_align(CdrVersion::Xcdr2, IdlType::Primitive(p)) == if w / 8 > 4 { 4 } else { w / 8 }
            &&& (w > 8 || signed) ==> tk_suffix(p) == "TK_"@ + kind_word(float, signed) + decimal(w)
            &&& (w == 8 && !signed) ==> tk_suffix(p) == "TK_BYTE"@
            &&& w > 8 ==> primitive_info(p).2 == kind_letter(float, signed) + decimal(w)
            &&& w == 8 ==> primitive_info(p).2 == "U8"@
            &&& key_kind(IdlType::Primitive(p), defs) is Numeric
        }),
{
    lemma_decimal_widths();
    reveal_strlit("TK_");
    reveal_strlit("FLOAT");
    reveal_strlit("INT");
    reveal_strlit("UINT");
    reveal_strlit("f");
    reveal_strlit("i");
    reveal_strlit("u");
    reveal_strlit("F");
    reveal_strlit("I");
    reveal_strlit("U");
    reveal_strlit("i8");
    reveal_strlit("u8");
    reveal_strlit("i16");
    reveal_strlit("u16");
    reveal_strlit("i32");
    reveal_strlit("u32");
    reveal_strlit("i64");
    reveal_strlit("u64");
    reveal_strlit("f32");
    reveal_strlit("f64");
    reveal_strlit("TK_INT8");
    reveal_strlit("TK_INT16");
    reveal_strlit("TK_UINT16");
    reveal_strlit("TK_INT32");
    reveal_strlit("TK_UINT32");
    reveal_strlit("TK_INT64");
    reveal_strlit("TK_UINT64");
    reveal_strlit("TK_FLOAT32");
    reveal_strlit("TK_FLOAT64");
    reveal_strlit("I16");
    reveal_strlit("U16");
    reveal_strlit("I32");
    reveal_strlit("U32");
    reveal_strlit("I64");
    reveal_strlit("U64");
    reveal_strlit("F32");
    reveal_strlit("F64");
    let (float, signed, w) = numeric_kind(p)->0;
    assert(prim_rust_text(p) =~= rust_letter(float, signed) + decimal(w));
    if w > 8 || signed {
        assert(tk_suffix(p) =~= "TK_"@ + kind_word(float, signed) + decimal(w));
    }
    if w > 8 {
        assert(primitive_info(p).2 =~= kind_letter(float, signed) + decimal(w));
    }
}

/// Whether a type is a string: `string`, `wstring`, or a bounded string (a
/// sequence of `char` or `wchar`).
pub open spec fn is_string_type(t: IdlType) -> bool {
    match t {
        IdlType::Primitive(p) => p is String || p is WString,
        IdlType::Sequence { inner, .. } => *inner matches IdlType::Primitive(q) && (q is Char || q is WChar),
        _ => false,
    }
}

/// A `@key` member of a string type is hashed through the bytes of its
/// text (`.as_bytes()`), and a member of any other type is not hashed as a
/// string.
pub proof fn law_string_keys_hash_their_bytes(t: IdlType, defs: Seq<Definition>, pre: Seq<char>, field: Seq<char>)
    ensures
        is_string_type(t) ==> key_kind(t, defs) is String && is_infix(".as_bytes()"@, key_hash_text(pre, field, key_kind(t, defs))),
        !is_string_type(t) ==> !(key_kind(t, defs) is String),
{
    if is_string_type(t) {
        let head = pre + "            // Hash @key field: "@ + field + "\n"@;
        let a = head + "            for &b in self."@ + field;
        let line = ".as_bytes() {\n"@;
        reveal_strlit(".as_bytes() {\n");
        reveal_strlit(".as_bytes()");
        let suffix = "                hash ^= b as u64;\n"@ + "                hash = hash.wrapping_mul(PRIME);\n"@ + "            }\n\n"@;
        let text = key_hash_text(pre, field, KeyHashKind::String);
        assert(text == a + line + suffix);
        let i: int = a.len() as int;
        assert(text.subrange(i, i + ".as_bytes()"@.len()) =~= ".as_bytes()"@);
    }
}


/// The wire alignment of a value `w` bits wide: its byte width in XCDR
/// version 1, capped at 4 in version 2.
pub open spec fn wire_align(v: CdrVersion, w: nat) -> nat {
    match v {
        CdrVersion::Xcdr1 => w / 8,
        CdrVersion::Xcdr2 => if w / 8 > 4 { 4 } else { w / 8 },
    }
}

/// The generated encoder writes a numeric primitive as its little-endian
/// bytes aligned to its byte width (capped at 4 in XCDR version 2), and the
/// generated decoder reads it back with the Rust type of its width and
/// signedness from the same alignment.
pub proof fn law_numeric_wire_format(p: PrimitiveType, v: CdrVersion, pre: Seq<char>, e: Seq<char>, k: nat, ind: Seq<char>)
    requires
        numeric_kind(p) is Some,
    ensures
        ({
            let (float, signed, w) = numeric_kind(p)->0;
            &&& prim_encode_text(pre, p, e, k, v, ind) == pre + ind + "__cdr_put(dst, &mut offset, "@
                + decimal(wire_align(v, w)) + ", &"@ + e + ".to_le_bytes())?;\n"@
            &&& prim_decode_text(p, v) == rust_letter(float, signed) + decimal(w)
                + "::from_le_bytes(__cdr_array(src, &mut offset, "@ + decimal(wire_align(v, w)) + ")?)"@
        }),
{
    law_numeric_primitive_tables(p, Seq::empty());
    let (float, signed, w) = numeric_kind(p)->0;
    assert(version_align(v, IdlType::Primitive(p)) == wire_align(v, w));
}


/// A `@key` member of a named type is hashed as the `u32` an enum is encoded
/// as exactly when the name is that of an enum, and through its CDR2
/// encoding otherwise (a struct, or a name that is not an enum); a boolean
/// is hashed as a `u8` and a character as a `u32`.
pub proof fn law_key_kinds_of_other_types(t: IdlType, defs: Seq<Definition>)
    ensures
        t matches IdlType::Named(n) ==> (if find_type(defs, n@) matches Some(i) && defs[i] is Enum {
            key_kind(t, defs) == KeyHashKind::Cast("u32")
        } else {
            key_kind(t, defs) is Cdr2
        }),
        t == IdlType::Primitive(PrimitiveType::Boolean) ==> key_kind(t, defs) == KeyHashKind::Cast("u8"),
        (t == IdlType::Primitive(PrimitiveType::Char) || t == IdlType::Primitive(PrimitiveType::WChar)) ==> key_kind(t, defs)
            == KeyHashKind::Cast("u32"),
{
}

} // verus!
