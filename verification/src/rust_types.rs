//! Rust spelling of IDL types and names.

use vstd::prelude::*;
use crate::ast::Definition;
use crate::layout::is_char_prim;
use crate::text::{append_decimal, decimal, push_char, upper_char};
use crate::types::{IdlType, PrimitiveType};

verus! {

/// The Rust type of a primitive IDL type.
pub open spec fn prim_rust_text(p: PrimitiveType) -> Seq<char> {
    match p {
        PrimitiveType::Boolean => "bool"@,
        PrimitiveType::Char | PrimitiveType::WChar => "char"@,
        PrimitiveType::Octet | PrimitiveType::UInt8 => "u8"@,
        PrimitiveType::Int8 => "i8"@,
        PrimitiveType::Short | PrimitiveType::Int16 => "i16"@,
        PrimitiveType::UnsignedShort | PrimitiveType::UInt16 => "u16"@,
        PrimitiveType::Long | PrimitiveType::Int32 => "i32"@,
        PrimitiveType::UnsignedLong | PrimitiveType::UInt32 | PrimitiveType::Void => "u32"@,
        PrimitiveType::LongLong | PrimitiveType::Int64 => "i64"@,
        PrimitiveType::UnsignedLongLong | PrimitiveType::UInt64 => "u64"@,
        PrimitiveType::Float => "f32"@,
        PrimitiveType::Double | PrimitiveType::LongDouble => "f64"@,
        PrimitiveType::String | PrimitiveType::WString => "String"@,
        PrimitiveType::Fixed { digits, scale } => "Fixed<"@ + decimal(digits as nat) + ", "@
            + decimal(scale as nat) + ">"@,
    }
}

/// The Rust type of an IDL type: bounded strings are `String`, sequences
/// `Vec`, arrays fixed-size arrays, maps `HashMap`, named types their name.
pub open spec fn rust_type_text(t: IdlType) -> Seq<char>
    decreases t,
{
    match t {
        IdlType::Primitive(p) => prim_rust_text(p),
        IdlType::Sequence { inner, .. } => if is_char_prim(*inner) {
            "String"@
        } else {
            "Vec<"@ + rust_type_text(*inner) + ">"@
        },
        IdlType::Array { inner, size } => "["@ + rust_type_text(*inner) + "; "@ + decimal(size as nat)
            + "]"@,
        IdlType::MapType { key, value, .. } => "std::collections::HashMap<"@ + rust_type_text(*key)
            + ", "@ + rust_type_text(*value) + ">"@,
        IdlType::Named(n) => n@,
    }
}

/// The Rust type of a member: `Box` when `@external`, `Option` when `@optional`.
pub open spec fn member_type_text(t: IdlType, external: bool, optional: bool) -> Seq<char> {
    let base = rust_type_text(t);
    let boxed = if external { "Box<"@ + base + ">"@ } else { base };
    if optional { "Option<"@ + boxed + ">"@ } else { boxed }
}

/// An expression for the default value of a type.
pub open spec fn default_value_text(t: IdlType) -> Seq<char> {
    match t {
        IdlType::Primitive(p) => match p {
            PrimitiveType::Boolean => "false"@,
            PrimitiveType::Char | PrimitiveType::WChar => "'\\0'"@,
            PrimitiveType::Float | PrimitiveType::Double | PrimitiveType::LongDouble => "0.0"@,
            PrimitiveType::String | PrimitiveType::WString => "String::new()"@,
            PrimitiveType::Fixed { .. } => "Default::default()"@,
            _ => "0"@,
        },
        IdlType::Sequence { inner, .. } => if is_char_prim(*inner) {
            "String::new()"@
        } else {
            "Vec::new()"@
        },
        _ => "Default::default()"@,
    }
}

/// Whether the character before position `i` is `_` (or `i` is the start).
pub open spec fn starts_word(s: Seq<char>, i: int) -> bool {
    i == 0 || s[i - 1] == '_'
}

/// `snake_case` to `CamelCase`: underscores dropped, the first letter and
/// each letter after an underscore upper-cased.
pub open spec fn camel_text(s: Seq<char>) -> Seq<char>
    decreases s.len(),
{
    if s.len() == 0 {
        Seq::empty()
    } else {
        let i = s.len() - 1;
        let p = camel_text(s.drop_last());
        if s[i] == '_' {
            p
        } else if starts_word(s, i) {
            p.push(upper_char(s[i]))
        } else {
            p.push(s[i])
        }
    }
}

/// The Rust type of a primitive IDL type.
pub fn prim_rust(p: PrimitiveType) -> (r: String)
    ensures
        r@ == prim_rust_text(p),
{
    match p {
        PrimitiveType::Boolean => "bool".to_owned(),
        PrimitiveType::Char | PrimitiveType::WChar => "char".to_owned(),
        PrimitiveType::Octet | PrimitiveType::UInt8 => "u8".to_owned(),
        PrimitiveType::Int8 => "i8".to_owned(),
        PrimitiveType::Short | PrimitiveType::Int16 => "i16".to_owned(),
        PrimitiveType::UnsignedShort | PrimitiveType::UInt16 => "u16".to_owned(),
        PrimitiveType::Long | PrimitiveType::Int32 => "i32".to_owned(),
        PrimitiveType::UnsignedLong | PrimitiveType::UInt32 | PrimitiveType::Void => "u32".to_owned(),
        PrimitiveType::LongLong | PrimitiveType::Int64 => "i64".to_owned(),
        PrimitiveType::UnsignedLongLong | PrimitiveType::UInt64 => "u64".to_owned(),
        PrimitiveType::Float => "f32".to_owned(),
        PrimitiveType::Double | PrimitiveType::LongDouble => "f64".to_owned(),
        PrimitiveType::String | PrimitiveType::WString => "String".to_owned(),
        PrimitiveType::Fixed { digits, scale } => {
            let mut out = "Fixed<".to_owned();
            append_decimal(&mut out, digits as u64);
            out.append(", ");
            append_decimal(&mut out, scale as u64);
            out.append(">");
            assert(out@ =~= prim_rust_text(p));
            out
        },
    }
}

/// The Rust type of an IDL type.
pub fn rust_type(t: &IdlType) -> (r: String)
    ensures
        r@ == rust_type_text(*t),
    decreases t,
{
    match t {
        IdlType::Primitive(p) => prim_rust(*p),
        IdlType::Sequence { inner, .. } => {
            if let IdlType::Primitive(PrimitiveType::Char | PrimitiveType::WChar) = **inner {
                return "String".to_owned();
            }
            let mut out = "Vec<".to_owned();
            let i = rust_type(inner);
            out.append(i.as_str());
            out.append(">");
            out
        },
        IdlType::Array { inner, size } => {
            let mut out = "[".to_owned();
            let i = rust_type(inner);
            out.append(i.as_str());
            out.append("; ");
            append_decimal(&mut out, *size as u64);
            out.append("]");
            assert(out@ =~= rust_type_text(*t));
            out
        },
        IdlType::MapType { key, value, .. } => {
            let mut out = "std::collections::HashMap<".to_owned();
            let k = rust_type(key);
            out.append(k.as_str());
            out.append(", ");
            let v = rust_type(value);
            out.append(v.as_str());
            out.append(">");
            out
        },
        IdlType::Named(n) => n.clone(),
    }
}

/// The Rust type of a member.
pub fn member_type(t: &IdlType, external: bool, optional: bool) -> (r: String)
    ensures
        r@ == member_type_text(*t, external, optional),
{
    let base = rust_type(t);
    let boxed = if external {
        let mut b = "Box<".to_owned();
        b.append(base.as_str());
        b.append(">");
        b
    } else {
        base
    };
    if optional {
        let mut o = "Option<".to_owned();
        o.append(boxed.as_str());
        o.append(">");
        o
    } else {
        boxed
    }
}

/// An expression for the default value of a type.
pub fn default_value(t: &IdlType) -> (r: String)
    ensures
        r@ == default_value_text(*t),
{
    match t {
        IdlType::Primitive(p) => match p {
            PrimitiveType::Boolean => "false".to_owned(),
            PrimitiveType::Char | PrimitiveType::WChar => "'\\0'".to_owned(),
            PrimitiveType::Float | PrimitiveType::Double | PrimitiveType::LongDouble => "0.0".to_owned(),
            PrimitiveType::String | PrimitiveType::WString => "String::new()".to_owned(),
            PrimitiveType::Fixed { .. } => "Default::default()".to_owned(),
            _ => "0".to_owned(),
        },
        IdlType::Sequence { inner, .. } => {
            if let IdlType::Primitive(PrimitiveType::Char | PrimitiveType::WChar) = **inner {
                "String::new()".to_owned()
            } else {
                "Vec::new()".to_owned()
            }
        },
        _ => "Default::default()".to_owned(),
    }
}

/// `snake_case` to `CamelCase`.
pub fn to_camel(name: &str) -> (r: String)
    ensures
        r@ == camel_text(name@),
{
    let n = name.unicode_len();
    let mut out = String::new();
    let mut i: usize = 0;
    let mut prev_underscore = true;
    while i < n
        invariant
            n == name@.len(),
            i <= n,
            out@ == camel_text(name@.take(i as int)),
            prev_underscore == (i == 0 || name@[i - 1] == '_'),
        decreases n - i,
    {
        let c = name.get_char(i);
        let ghost pre = name@.take(i + 1);
        proof {
            assert(pre.drop_last() =~= name@.take(i as int));
            assert(pre[i as int] == c);
            assert(starts_word(pre, i as int) == prev_underscore);
        }
        if c == '_' {
            prev_underscore = true;
        } else {
            let u = if prev_underscore && 'a' <= c && c <= 'z' {
                ((c as u8) - 32) as char
            } else {
                c
            };
            assert(u == (if prev_underscore { upper_char(c) } else { c })) by {
                if prev_underscore && 'a' <= c && c <= 'z' {
                    assert((c as u8) as u32 == c as u32);
                }
            }
            push_char(&mut out, u);
            prev_underscore = false;
        }
        i = i + 1;
    }
    assert(name@.take(n as int) =~= name@);
    out
}

} // verus!
