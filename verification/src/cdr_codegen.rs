//! Code that encodes and decodes one value in XCDR (little endian), emitted
//! inside the generated `encode_*`/`decode_*` methods.

use vstd::prelude::*;
use crate::ast::{Definition, find_named, lookup_named};
use crate::generator::RustGenerator;
use crate::layout::{is_char_prim, xcdr1_align, xcdr2_align};
use crate::rust_types::{prim_rust, prim_rust_text};
use crate::text::{append_decimal, decimal};
use crate::types::{IdlType, PrimitiveType};

verus! {

/// The XCDR version a method encodes or decodes.
#[derive(Debug, Clone, Copy, PartialEq, Eq)]
pub enum CdrVersion {
    Xcdr1,
    Xcdr2,
}

/// The method-name suffix of a version.
pub open spec fn suffix_text(v: CdrVersion) -> Seq<char> {
    match v {
        CdrVersion::Xcdr1 => "xcdr1"@,
        CdrVersion::Xcdr2 => "xcdr2"@,
    }
}

/// The alignment of a type in a version.
pub open spec fn version_align(v: CdrVersion, t: IdlType) -> nat {
    match v {
        CdrVersion::Xcdr1 => xcdr1_align(t),
        CdrVersion::Xcdr2 => xcdr2_align(t),
    }
}

/// The base type of the typedef called `name`, when the first declaration
/// with that name is a typedef.
pub open spec fn typedef_base(defs: Seq<Definition>, name: Seq<char>) -> Option<IdlType> {
    match find_named(defs, name) {
        Some(i) => match defs[i] {
            Definition::Typedef(td) => Some(td.base_type),
            _ => None,
        },
        None => None,
    }
}

/// `e` dereferenced `k` times.
pub open spec fn deref_text(e: Seq<char>, k: nat) -> Seq<char> {
    if k == 0 {
        e
    } else if k == 1 {
        "(*"@ + e + ")"@
    } else {
        "(**"@ + e + ")"@
    }
}

/// `pre` followed by the statement that encodes a primitive value.
pub open spec fn prim_encode_text(pre: Seq<char>, p: PrimitiveType, e: Seq<char>, k: nat, v: CdrVersion, ind: Seq<char>) -> Seq<char> {
    let a = decimal(version_align(v, IdlType::Primitive(p)));
    match p {
        PrimitiveType::Boolean => pre + ind + "__cdr_put(dst, &mut offset, 1, &[u8::from("@
            + deref_text(e, k) + ")])?;\n"@,
        PrimitiveType::Char => pre + ind + "__cdr_put(dst, &mut offset, 1, &["@ + deref_text(e, k)
            + " as u8])?;\n"@,
        PrimitiveType::WChar => pre + ind + "__cdr_put(dst, &mut offset, "@ + a + ", &("@
            + deref_text(e, k) + " as u32).to_le_bytes())?;\n"@,
        PrimitiveType::String | PrimitiveType::WString => pre + ind
            + "__cdr_put_string(dst, &mut offset, &"@ + e + ")?;\n"@,
        PrimitiveType::Fixed { .. } => pre + ind + "__cdr_put(dst, &mut offset, "@ + a + ", &"@ + e
            + ".raw().to_le_bytes())?;\n"@,
        _ => pre + ind + "__cdr_put(dst, &mut offset, "@ + a + ", &"@ + e + ".to_le_bytes())?;\n"@,
    }
}

/// `pre` followed by the statements that encode the value `e` of type `t`
/// (`e` to be dereferenced `k` times for its scalar value), each line
/// indented by `ind`. Typedef names are followed to their base type while
/// `fuel` lasts; other named types encode through their own
/// `encode_<version>_le_at`.
pub open spec fn encode_text(pre: Seq<char>, t: IdlType, e: Seq<char>, k: nat, v: CdrVersion, defs: Seq<Definition>, fuel: nat, ind: Seq<char>) -> Seq<char>
    decreases fuel, t,
{
    match t {
        IdlType::Primitive(p) => prim_encode_text(pre, p, e, k, v, ind),
        IdlType::Sequence { inner, .. } => if is_char_prim(*inner) {
            pre + ind + "__cdr_put_string(dst, &mut offset, &"@ + e + ")?;\n"@
        } else {
            let head = pre + ind + "__cdr_put(dst, &mut offset, 4, &("@ + e
                + ".len() as u32).to_le_bytes())?;\n"@ + ind + "for elem in "@ + e + ".iter() {\n"@;
            encode_text(head, *inner, "elem"@, 1, v, defs, fuel, ind + "    "@) + ind + "}\n"@
        },
        IdlType::Array { inner, .. } => {
            let head = pre + ind + "for elem in "@ + e + ".iter() {\n"@;
            encode_text(head, *inner, "elem"@, 1, v, defs, fuel, ind + "    "@) + ind + "}\n"@
        },
        IdlType::MapType { key, value, .. } => {
            let head = pre + ind + "__cdr_put(dst, &mut offset, 4, &("@ + e
                + ".len() as u32).to_le_bytes())?;\n"@ + ind + "for (key, value) in "@ + e
                + ".iter() {\n"@;
            let mid = encode_text(head, *key, "key"@, 1, v, defs, fuel, ind + "    "@);
            encode_text(mid, *value, "value"@, 1, v, defs, fuel, ind + "    "@) + ind + "}\n"@
        },
        IdlType::Named(n) => match typedef_base(defs, n@) {
            Some(b) if fuel > 0 => encode_text(pre, b, e, k, v, defs, (fuel - 1) as nat, ind),
            _ => pre + ind + e + ".encode_"@ + suffix_text(v) + "_le_at(dst, &mut offset)?;\n"@,
        },
    }
}

/// An expression that decodes a primitive value.
pub open spec fn prim_decode_text(p: PrimitiveType, v: CdrVersion) -> Seq<char> {
    let a = decimal(version_align(v, IdlType::Primitive(p)));
    match p {
        PrimitiveType::Boolean => "(__cdr_array::<1>(src, &mut offset, 1)?[0] != 0)"@,
        PrimitiveType::Char => "char::from(__cdr_array::<1>(src, &mut offset, 1)?[0])"@,
        PrimitiveType::WChar => "char::from_u32(u32::from_le_bytes(__cdr_array(src, &mut offset, "@
            + a + ")?)).ok_or(CdrError::InvalidEncoding)?"@,
        PrimitiveType::String | PrimitiveType::WString => "__cdr_get_string(src, &mut offset)?"@,
        PrimitiveType::Fixed { digits, scale } => "Fixed::<"@ + decimal(digits as nat) + ", "@
            + decimal(scale as nat) + ">::from_raw(i64::from_le_bytes(__cdr_array(src, &mut offset, "@
            + a + ")?))"@,
        _ => prim_rust_text(p) + "::from_le_bytes(__cdr_array(src, &mut offset, "@ + a + ")?)"@,
    }
}

/// An expression that decodes a value of type `t`. A named type decodes
/// through its own `decode_<version>_le_at`, called as `T::` for a member
/// (`direct`) and as `<T>::` for a collection element.
pub open spec fn decode_text(t: IdlType, v: CdrVersion, defs: Seq<Definition>, fuel: nat, direct: bool) -> Seq<char>
    decreases fuel, t,
{
    match t {
        IdlType::Primitive(p) => prim_decode_text(p, v),
        IdlType::Sequence { inner, .. } => if is_char_prim(*inner) {
            "__cdr_get_string(src, &mut offset)?"@
        } else {
            "{ let n = __cdr_len(src, &mut offset)?; let mut items = Vec::with_capacity(n); for _ in 0..n { items.push("@
                + decode_text(*inner, v, defs, fuel, false) + "); } items }"@
        },
        IdlType::Array { inner, size } => "{ let mut items = Vec::with_capacity("@ + decimal(size as nat)
            + "); for _ in 0.."@ + decimal(size as nat) + " { items.push("@
            + decode_text(*inner, v, defs, fuel, false)
            + "); } items.try_into().map_err(|_| CdrError::InvalidEncoding)? }"@,
        IdlType::MapType { key, value, .. } => "{ let n = __cdr_len(src, &mut offset)?; let mut items = std::collections::HashMap::new(); for _ in 0..n { let key = "@
            + decode_text(*key, v, defs, fuel, false) + "; items.insert(key, "@
            + decode_text(*value, v, defs, fuel, false) + "); } items }"@,
        IdlType::Named(n) => match typedef_base(defs, n@) {
            Some(b) if fuel > 0 => decode_text(b, v, defs, (fuel - 1) as nat, direct),
            _ => if direct {
                n@ + "::decode_"@ + suffix_text(v) + "_le_at(src, &mut offset)?"@
            } else {
                "<"@ + n@ + ">::decode_"@ + suffix_text(v) + "_le_at(src, &mut offset)?"@
            },
        },
    }
}

/// The method-name suffix of a version.
pub fn suffix(v: CdrVersion) -> (r: &'static str)
    ensures
        r@ == suffix_text(v),
{
    match v {
        CdrVersion::Xcdr1 => "xcdr1",
        CdrVersion::Xcdr2 => "xcdr2",
    }
}

/// The alignment of a type in a version.
pub fn alignment_in(v: CdrVersion, t: &IdlType) -> (r: usize)
    ensures
        r == version_align(v, *t),
{
    match v {
        CdrVersion::Xcdr1 => RustGenerator::xcdr1_alignment(t),
        CdrVersion::Xcdr2 => RustGenerator::xcdr2_alignment(t),
    }
}

/// The base type of the typedef called `name`, if the first declaration
/// with that name is a typedef.
pub fn lookup_typedef_base<'a>(defs: &'a Vec<Definition>, name: &str) -> (r: Option<&'a IdlType>)
    ensures
        r matches Some(b) ==> typedef_base(defs@, name@) == Some(*b),
        r is None ==> typedef_base(defs@, name@) is None,
{
    match lookup_named(defs, name) {
        Some(i) => {
            proof {
                crate::ast::lemma_find_named(defs@, name@);
            }
            match &defs[i] {
                Definition::Typedef(td) => Some(&td.base_type),
                _ => None,
            }
        },
        None => None,
    }
}

fn append_deref(out: &mut String, e: &str, k: u8)
    requires
        k <= 2,
    ensures
        final(out)@ == old(out)@ + deref_text(e@, k as nat),
{
    if k == 0 {
        out.append(e);
    } else if k == 1 {
        out.append("(*");
        out.append(e);
        out.append(")");
        assert(final(out)@ =~= old(out)@ + deref_text(e@, k as nat));
    } else {
        out.append("(**");
        out.append(e);
        out.append(")");
        assert(final(out)@ =~= old(out)@ + deref_text(e@, k as nat));
    }
}

/// Appends the statement that encodes a primitive value.
pub fn emit_prim_encode(out: &mut String, p: PrimitiveType, e: &str, k: u8, v: CdrVersion, ind: &str)
    requires
        k <= 2,
    ensures
        final(out)@ == prim_encode_text(old(out)@, p, e@, k as nat, v, ind@),
{
    let ghost pre = old(out)@;
    let a = alignment_in(v, &IdlType::Primitive(p));
    out.append(ind);
    match p {
        PrimitiveType::Boolean => {
            out.append("__cdr_put(dst, &mut offset, 1, &[u8::from(");
            append_deref(out, e, k);
            out.append(")])?;\n");
        },
        PrimitiveType::Char => {
            out.append("__cdr_put(dst, &mut offset, 1, &[");
            append_deref(out, e, k);
            out.append(" as u8])?;\n");
        },
        PrimitiveType::WChar => {
            out.append("__cdr_put(dst, &mut offset, ");
            append_decimal(out, a as u64);
            out.append(", &(");
            append_deref(out, e, k);
            out.append(" as u32).to_le_bytes())?;\n");
        },
        PrimitiveType::String | PrimitiveType::WString => {
            out.append("__cdr_put_string(dst, &mut offset, &");
            out.append(e);
            out.append(")?;\n");
        },
        PrimitiveType::Fixed { .. } => {
            out.append("__cdr_put(dst, &mut offset, ");
            append_decimal(out, a as u64);
            out.append(", &");
            out.append(e);
            out.append(".raw().to_le_bytes())?;\n");
        },
        _ => {
            out.append("__cdr_put(dst, &mut offset, ");
            append_decimal(out, a as u64);
            out.append(", &");
            out.append(e);
            out.append(".to_le_bytes())?;\n");
        },
    }
    assert(out@ =~= prim_encode_text(pre, p, e@, k as nat, v, ind@));
}

/// Appends the statements that encode the value `e` of type `t`.
pub fn emit_encode(out: &mut String, t: &IdlType, e: &str, k: u8, v: CdrVersion, defs: &Vec<Definition>, fuel: usize, ind: &str)
    requires
        k <= 2,
    ensures
        final(out)@ == encode_text(old(out)@, *t, e@, k as nat, v, defs@, fuel as nat, ind@),
    decreases fuel, *t,
{
    let ghost pre = old(out)@;
    match t {
        IdlType::Primitive(p) => emit_prim_encode(out, *p, e, k, v, ind),
        IdlType::Sequence { inner, .. } => {
            if let IdlType::Primitive(PrimitiveType::Char | PrimitiveType::WChar) = **inner {
                out.append(ind);
                out.append("__cdr_put_string(dst, &mut offset, &");
                out.append(e);
                out.append(")?;\n");
                assert(out@ =~= encode_text(pre, *t, e@, k as nat, v, defs@, fuel as nat, ind@));
                return;
            }
            out.append(ind);
            out.append("__cdr_put(dst, &mut offset, 4, &(");
            out.append(e);
            out.append(".len() as u32).to_le_bytes())?;\n");
            out.append(ind);
            out.append("for elem in ");
            out.append(e);
            out.append(".iter() {\n");
            let mut inner_ind = ind.to_owned();
            inner_ind.append("    ");
            let ghost head = out@;
            assert(head =~= pre + ind@ + "__cdr_put(dst, &mut offset, 4, &("@ + e@
                + ".len() as u32).to_le_bytes())?;\n"@ + ind@ + "for elem in "@ + e@ + ".iter() {\n"@);
            emit_encode(out, inner, "elem", 1, v, defs, fuel, inner_ind.as_str());
            out.append(ind);
            out.append("}\n");
        },
        IdlType::Array { inner, .. } => {
            out.append(ind);
            out.append("for elem in ");
            out.append(e);
            out.append(".iter() {\n");
            let mut inner_ind = ind.to_owned();
            inner_ind.append("    ");
            let ghost head = out@;
            assert(head =~= pre + ind@ + "for elem in "@ + e@ + ".iter() {\n"@);
            emit_encode(out, inner, "elem", 1, v, defs, fuel, inner_ind.as_str());
            out.append(ind);
            out.append("}\n");
        },
        IdlType::MapType { key, value, .. } => {
            out.append(ind);
            out.append("__cdr_put(dst, &mut offset, 4, &(");
            out.append(e);
            out.append(".len() as u32).to_le_bytes())?;\n");
            out.append(ind);
            out.append("for (key, value) in ");
            out.append(e);
            out.append(".iter() {\n");
            let mut inner_ind = ind.to_owned();
            inner_ind.append("    ");
            let ghost head = out@;
            assert(head =~= pre + ind@ + "__cdr_put(dst, &mut offset, 4, &("@ + e@
                + ".len() as u32).to_le_bytes())?;\n"@ + ind@ + "for (key, value) in "@ + e@
                + ".iter() {\n"@);
            emit_encode(out, key, "key", 1, v, defs, fuel, inner_ind.as_str());
            emit_encode(out, value, "value", 1, v, defs, fuel, inner_ind.as_str());
            out.append(ind);
            out.append("}\n");
        },
        IdlType::Named(n) => {
            let base = lookup_typedef_base(defs, n.as_str());
            match base {
                Some(b) => {
                    if fuel > 0 {
                        emit_encode(out, b, e, k, v, defs, fuel - 1, ind);
                        return;
                    }
                },
                None => {},
            }
            out.append(ind);
            out.append(e);
            out.append(".encode_");
            out.append(suffix(v));
            out.append("_le_at(dst, &mut offset)?;\n");
            assert(out@ =~= encode_text(pre, *t, e@, k as nat, v, defs@, fuel as nat, ind@));
        },
    }
}

/// An expression that decodes a primitive value.
pub fn emit_prim_decode(p: PrimitiveType, v: CdrVersion) -> (r: String)
    ensures
        r@ == prim_decode_text(p, v),
{
    let a = alignment_in(v, &IdlType::Primitive(p));
    match p {
        PrimitiveType::Boolean => "(__cdr_array::<1>(src, &mut offset, 1)?[0] != 0)".to_owned(),
        PrimitiveType::Char => "char::from(__cdr_array::<1>(src, &mut offset, 1)?[0])".to_owned(),
        PrimitiveType::WChar => {
            let mut out = "char::from_u32(u32::from_le_bytes(__cdr_array(src, &mut offset, ".to_owned();
            append_decimal(&mut out, a as u64);
            out.append(")?)).ok_or(CdrError::InvalidEncoding)?");
            out
        },
        PrimitiveType::String | PrimitiveType::WString => "__cdr_get_string(src, &mut offset)?".to_owned(),
        PrimitiveType::Fixed { digits, scale } => {
            let mut out = "Fixed::<".to_owned();
            append_decimal(&mut out, digits as u64);
            out.append(", ");
            append_decimal(&mut out, scale as u64);
            out.append(">::from_raw(i64::from_le_bytes(__cdr_array(src, &mut offset, ");
            append_decimal(&mut out, a as u64);
            out.append(")?))");
            assert(out@ =~= prim_decode_text(p, v));
            out
        },
        _ => {
            let mut out = prim_rust(p);
            out.append("::from_le_bytes(__cdr_array(src, &mut offset, ");
            append_decimal(&mut out, a as u64);
            out.append(")?)");
            assert(out@ =~= prim_decode_text(p, v));
            out
        },
    }
}

/// An expression that decodes a value of type `t`.
pub fn emit_decode(t: &IdlType, v: CdrVersion, defs: &Vec<Definition>, fuel: usize, direct: bool) -> (r: String)
    ensures
        r@ == decode_text(*t, v, defs@, fuel as nat, direct),
    decreases fuel, *t,
{
    match t {
        IdlType::Primitive(p) => emit_prim_decode(*p, v),
        IdlType::Sequence { inner, .. } => {
            if let IdlType::Primitive(PrimitiveType::Char | PrimitiveType::WChar) = **inner {
                return "__cdr_get_string(src, &mut offset)?".to_owned();
            }
            let mut out = "{ let n = __cdr_len(src, &mut offset)?; let mut items = Vec::with_capacity(n); for _ in 0..n { items.push(".to_owned();
            let i = emit_decode(inner, v, defs, fuel, false);
            out.append(i.as_str());
            out.append("); } items }");
            out
        },
        IdlType::Array { inner, size } => {
            let mut out = "{ let mut items = Vec::with_capacity(".to_owned();
            append_decimal(&mut out, *size as u64);
            out.append("); for _ in 0..");
            append_decimal(&mut out, *size as u64);
            out.append(" { items.push(");
            let i = emit_decode(inner, v, defs, fuel, false);
            out.append(i.as_str());
            out.append("); } items.try_into().map_err(|_| CdrError::InvalidEncoding)? }");
            assert(out@ =~= decode_text(*t, v, defs@, fuel as nat, direct));
            out
        },
        IdlType::MapType { key, value, .. } => {
            let mut out = "{ let n = __cdr_len(src, &mut offset)?; let mut items = std::collections::HashMap::new(); for _ in 0..n { let key = ".to_owned();
            let kd = emit_decode(key, v, defs, fuel, false);
            out.append(kd.as_str());
            out.append("; items.insert(key, ");
            let vd = emit_decode(value, v, defs, fuel, false);
            out.append(vd.as_str());
            out.append("); } items }");
            out
        },
        IdlType::Named(n) => {
            let base = lookup_typedef_base(defs, n.as_str());
            match base {
                Some(b) => {
                    if fuel > 0 {
                        return emit_decode(b, v, defs, fuel - 1, direct);
                    }
                },
                None => {},
            }
            let mut out = String::new();
            if direct {
                out.append(n.as_str());
                out.append("::decode_");
            } else {
                out.append("<");
                out.append(n.as_str());
                out.append(">::decode_");
            }
            out.append(suffix(v));
            out.append("_le_at(src, &mut offset)?");
            assert(out@ =~= decode_text(*t, v, defs@, fuel as nat, direct));
            out
        },
    }
}

} // verus!
