//! Rust declarations emitted for IDL structs, enums and typedefs, with
//! their builders, XCDR1/XCDR2 encode and decode methods, and the
//! `Cdr2Encode`/`Cdr2Decode` delegators.

use vstd::prelude::*;
use crate::ast::{Definition, Enum, EnumVariant, Field, Struct, Typedef};
use crate::cdr_codegen::{CdrVersion, decode_text, emit_decode, emit_encode, encode_text, suffix, suffix_text};
use crate::dds_trait::enum_value;
use crate::rust_types::{member_type, member_type_text, rust_type, rust_type_text};
use crate::text::{append_signed_decimal, signed_decimal, str_eq};
use crate::types::{Annotation, any_external, any_optional, has_external, has_optional};

verus! {

/// The preamble of a generated file: imports and the private encoding
/// helpers the generated methods call.
pub open spec fn header_text() -> Seq<char> {
    Seq::empty() + "use hdds::core::ser::{Cdr2Decode, Cdr2Encode, CdrError};\n\n"@
        + "#[allow(dead_code)]\n"@ + "fn __cdr_align(offset: usize, align: usize) -> usize {\n"@
        + "    (offset + align - 1) & !(align - 1)\n"@ + "}\n"@ + "\n"@ + "#[allow(dead_code)]\n"@
        + "fn __cdr_put(dst: &mut [u8], offset: &mut usize, align: usize, bytes: &[u8]) -> Result<(), CdrError> {\n"@
        + "    let start = __cdr_align(*offset, align);\n"@ + "    let end = start + bytes.len();\n"@
        + "    if dst.len() < end {\n"@ + "        return Err(CdrError::BufferTooSmall);\n"@
        + "    }\n"@ + "    dst[*offset..start].fill(0);\n"@
        + "    dst[start..end].copy_from_slice(bytes);\n"@ + "    *offset = end;\n"@ + "    Ok(())\n"@
        + "}\n"@ + "\n"@ + "#[allow(dead_code)]\n"@
        + "fn __cdr_put_string(dst: &mut [u8], offset: &mut usize, value: &str) -> Result<(), CdrError> {\n"@
        + "    let len = u32::try_from(value.len() + 1).map_err(|_| CdrError::InvalidEncoding)?;\n"@
        + "    __cdr_put(dst, offset, 4, &len.to_le_bytes())?;\n"@
        + "    __cdr_put(dst, offset, 1, value.as_bytes())?;\n"@
        + "    __cdr_put(dst, offset, 1, &[0])\n"@ + "}\n"@ + "\n"@ + "#[allow(dead_code)]\n"@
        + "fn __cdr_array<const N: usize>(src: &[u8], offset: &mut usize, align: usize) -> Result<[u8; N], CdrError> {\n"@
        + "    let start = __cdr_align(*offset, align);\n"@ + "    let end = start + N;\n"@
        + "    if src.len() < end {\n"@ + "        return Err(CdrError::UnexpectedEof);\n"@ + "    }\n"@
        + "    let mut out = [0u8; N];\n"@ + "    out.copy_from_slice(&src[start..end]);\n"@
        + "    *offset = end;\n"@ + "    Ok(out)\n"@ + "}\n"@ + "\n"@ + "#[allow(dead_code)]\n"@
        + "fn __cdr_len(src: &[u8], offset: &mut usize) -> Result<usize, CdrError> {\n"@
        + "    Ok(u32::from_le_bytes(__cdr_array(src, offset, 4)?) as usize)\n"@ + "}\n"@ + "\n"@
        + "#[allow(dead_code)]\n"@
        + "fn __cdr_get_string(src: &[u8], offset: &mut usize) -> Result<String, CdrError> {\n"@
        + "    let len = __cdr_len(src, offset)?;\n"@
        + "    if len == 0 || src.len() < *offset + len {\n"@
        + "        return Err(CdrError::InvalidEncoding);\n"@ + "    }\n"@
        + "    let bytes = &src[*offset..*offset + len - 1];\n"@ + "    *offset += len;\n"@
        + "    String::from_utf8(bytes.to_vec()).map_err(|_| CdrError::InvalidEncoding)\n"@ + "}\n"@
        + "\n"@
}

/// The `Fixed<D, S>` fixed-point type, emitted when a declaration uses `fixed`.
pub open spec fn fixed_support_text() -> Seq<char> {
    Seq::empty() + "/// Fixed-point decimal `fixed<D, S>`: `raw` in units of 10^-S.\n"@
        + "#[derive(Debug, Clone, Copy, PartialEq, Eq, Default)]\n"@
        + "pub struct Fixed<const D: u32, const S: u32> {\n"@ + "    raw: i64,\n"@ + "}\n"@ + "\n"@
        + "impl<const D: u32, const S: u32> Fixed<D, S> {\n"@
        + "    pub const fn from_raw(raw: i64) -> Self {\n"@ + "        Self { raw }\n"@ + "    }\n"@
        + "\n"@ + "    pub const fn raw(&self) -> i64 {\n"@ + "        self.raw\n"@ + "    }\n"@ + "\n"@
        + "    /// `int_part + frac_part * 10^-S`.\n"@
        + "    pub fn from_parts(int_part: i64, frac_part: i64) -> Self {\n"@
        + "        Self { raw: int_part * 10i64.pow(S) + frac_part }\n"@ + "    }\n"@ + "}\n"@ + "\n"@
        + "impl<const D: u32, const S: u32> core::fmt::Display for Fixed<D, S> {\n"@
        + "    fn fmt(&self, f: &mut core::fmt::Formatter<'_>) -> core::fmt::Result {\n"@
        + "        let scale = 10u64.pow(S);\n"@
        + "        let sign = if self.raw < 0 { \"-\" } else { \"\" };\n"@
        + "        let abs = self.raw.unsigned_abs();\n"@ + "        if S == 0 {\n"@
        + "            write!(f, \"{}{}\", sign, abs)\n"@ + "        } else {\n"@
        + "            write!(f, \"{}{}.{:0width$}\", sign, abs / scale, abs % scale, width = S as usize)\n"@
        + "        }\n"@ + "    }\n"@ + "}\n"@ + "\n"@
}

/// `pre` followed by the offset-aware encode wrapper of a version.
pub open spec fn encode_at_text(pre: Seq<char>, v: CdrVersion) -> Seq<char> {
    pre + "    pub fn encode_"@ + suffix_text(v)
        + "_le_at(\n        &self,\n        dst: &mut [u8],\n        offset: &mut usize,\n    ) -> Result<(), CdrError> {\n"@
        + "        let len = self.encode_"@ + suffix_text(v) + "_le(&mut dst[*offset..])?;\n"@
        + "        *offset += len;\n"@ + "        Ok(())\n"@ + "    }\n"@
}

/// `pre` followed by the offset-aware decode wrapper of a version.
pub open spec fn decode_at_text(pre: Seq<char>, v: CdrVersion) -> Seq<char> {
    pre + "    pub fn decode_"@ + suffix_text(v)
        + "_le_at(\n        src: &[u8],\n        offset: &mut usize,\n    ) -> Result<Self, CdrError> {\n"@
        + "        let (value, used) = Self::decode_"@ + suffix_text(v) + "_le(&src[*offset..])?;\n"@
        + "        *offset += used;\n"@ + "        Ok(value)\n"@ + "    }\n"@
}

/// The `Cdr2Encode`/`Cdr2Decode` impls of a type, routed to the methods of
/// its primary version `v`.
pub open spec fn delegators_text(name: Seq<char>, v: CdrVersion) -> Seq<char> {
    Seq::empty() + "impl Cdr2Encode for "@ + name + " {\n"@
        + "    fn encode_cdr2_le(&self, dst: &mut [u8]) -> Result<usize, CdrError> {\n"@
        + "        self.encode_"@ + suffix_text(v) + "_le(dst)\n"@ + "    }\n"@ + "\n"@
        + "    fn encode_cdr2_le_at(\n        &self,\n        dst: &mut [u8],\n        offset: &mut usize,\n    ) -> Result<(), CdrError> {\n"@
        + "        let len = self.encode_"@ + suffix_text(v) + "_le(&mut dst[*offset..])?;\n"@
        + "        *offset += len;\n"@ + "        Ok(())\n"@ + "    }\n"@ + "}\n\n"@
        + "impl Cdr2Decode for "@ + name + " {\n"@
        + "    fn decode_cdr2_le(src: &[u8]) -> Result<(Self, usize), CdrError> {\n"@
        + "        Self::decode_"@ + suffix_text(v) + "_le(src)\n"@ + "    }\n"@ + "\n"@
        + "    fn decode_cdr2_le_at(\n        src: &[u8],\n        offset: &mut usize,\n    ) -> Result<Self, CdrError> {\n"@
        + "        let (value, used) = Self::decode_"@ + suffix_text(v) + "_le(&src[*offset..])?;\n"@
        + "        *offset += used;\n"@ + "        Ok(value)\n"@ + "    }\n"@ + "}\n\n"@
}

/// Whether `@data_representation(XCDR1)` is among the annotations.
pub open spec fn prefers_xcdr1(anns: Seq<Annotation>) -> bool {
    exists|i: int| 0 <= i < anns.len() && (#[trigger] anns[i] matches Annotation::DataRepresentation(r) && r@ == "XCDR1"@)
}

/// The version the delegators of a struct route to: XCDR1 under
/// `@data_representation(XCDR1)`, XCDR2 otherwise.
pub open spec fn primary_version(anns: Seq<Annotation>) -> CdrVersion {
    if prefers_xcdr1(anns) { CdrVersion::Xcdr1 } else { CdrVersion::Xcdr2 }
}

/// `pre` followed by the member declarations of a struct.
pub open spec fn decl_fields_text(pre: Seq<char>, fields: Seq<Field>) -> Seq<char>
    decreases fields.len(),
{
    if fields.len() == 0 {
        pre
    } else {
        let f = fields.last();
        let pre = decl_fields_text(pre, fields.drop_last());
        pre + "    pub "@ + f.name@ + ": "@
        + member_type_text(f.field_type, has_external(f.annotations@), has_optional(f.annotations@))
        + ",\n"@
    }
}

/// The Rust struct declaration: the base struct as a `base` member first.
pub open spec fn struct_decl_text(s: Struct) -> Seq<char> {
    let h = Seq::empty() + "#[derive(Debug, Clone, PartialEq)]\n"@ + "pub struct "@ + s.name@ + " {\n"@;
    let h = match s.base_struct {
        Some(b) => h + "    pub base: "@ + b@ + ",\n"@,
        None => h,
    };
    decl_fields_text(h, s.fields@) + "}\n\n"@
}

/// The value a builder gives a member in `build()`.
pub open spec fn build_value_text(f: Field) -> Seq<char> {
    let ext = has_external(f.annotations@);
    let opt = has_optional(f.annotations@);
    if opt && ext {
        "self."@ + f.name@ + ".map(Box::new)"@
    } else if opt {
        "self."@ + f.name@
    } else if ext {
        "Box::new(self."@ + f.name@ + "?)"@
    } else {
        "self."@ + f.name@ + "?"@
    }
}

/// `pre` followed by the builder's member slots.
pub open spec fn builder_fields_text(pre: Seq<char>, fields: Seq<Field>) -> Seq<char>
    decreases fields.len(),
{
    if fields.len() == 0 {
        pre
    } else {
        let f = fields.last();
        let pre = builder_fields_text(pre, fields.drop_last());
        pre + "    "@ + f.name@ + ": Option<"@ + rust_type_text(f.field_type) + ">,\n"@
    }
}

/// `pre` followed by the builder's setters.
pub open spec fn builder_setters_text(pre: Seq<char>, fields: Seq<Field>) -> Seq<char>
    decreases fields.len(),
{
    if fields.len() == 0 {
        pre
    } else {
        let f = fields.last();
        let pre = builder_setters_text(pre, fields.drop_last());
        pre + "    pub fn "@ + f.name@ + "(mut self, value: "@ + rust_type_text(f.field_type)
        + ") -> Self {\n        self."@ + f.name@ + " = Some(value);\n        self\n    }\n\n"@
    }
}

/// `pre` followed by the members of the value `build()` returns.
pub open spec fn builder_build_text(pre: Seq<char>, fields: Seq<Field>) -> Seq<char>
    decreases fields.len(),
{
    if fields.len() == 0 {
        pre
    } else {
        let f = fields.last();
        let pre = builder_build_text(pre, fields.drop_last());
        pre + "            "@ + f.name@ + ": "@ + build_value_text(f) + ",\n"@
    }
}

/// The builder of a struct: a slot and a setter per member; `build()`
/// gives `None` while a required member is unset.
pub open spec fn builder_text(s: Struct) -> Seq<char> {
    let h = Seq::empty() + "#[derive(Debug, Default)]\n"@ + "pub struct "@ + s.name@ + "Builder {\n"@;
    let h = match s.base_struct {
        Some(b) => h + "    base: Option<"@ + b@ + ">,\n"@,
        None => h,
    };
    let h = builder_fields_text(h, s.fields@);
    let h = h + "}\n\n"@ + "impl "@ + s.name@ + "Builder {\n"@;
    let h = match s.base_struct {
        Some(b) => h + "    pub fn base(mut self, value: "@ + b@
            + ") -> Self {\n        self.base = Some(value);\n        self\n    }\n\n"@,
        None => h,
    };
    let h = builder_setters_text(h, s.fields@);
    let h = h + "    pub fn build(self) -> Option<"@ + s.name@ + "> {\n"@ + "        Some("@ + s.name@
        + " {\n"@;
    let h = match s.base_struct {
        Some(b) => h + "            base: self.base?,\n"@,
        None => h,
    };
    builder_build_text(h, s.fields@) + "        })\n"@ + "    }\n"@ + "}\n\n"@ + "impl "@ + s.name@
    + " {\n"@ + "    pub fn builder() -> "@ + s.name@ + "Builder {\n"@ + "        "@ + s.name@
    + "Builder::default()\n"@ + "    }\n"@ + "}\n\n"@
}

/// `pre` followed by the statements that encode one member: an `@optional`
/// member is a presence byte, then the value when present.
pub open spec fn field_encode_text(pre: Seq<char>, f: Field, v: CdrVersion, defs: Seq<Definition>) -> Seq<char> {
    let ext = has_external(f.annotations@);
    if has_optional(f.annotations@) {
        let h = pre + "        match &self."@ + f.name@ + " {\n"@ + "            Some(v) => {\n"@
            + "                __cdr_put(dst, &mut offset, 1, &[1])?;\n"@;
        encode_text(h, f.field_type, "v"@, if ext { 2 } else { 1 }, v, defs, defs.len(), "                "@)
            + "            }\n"@ + "            None => __cdr_put(dst, &mut offset, 1, &[0])?,\n"@
            + "        }\n"@
    } else {
        encode_text(pre, f.field_type, "self."@ + f.name@, if ext { 1 } else { 0 }, v, defs, defs.len(), "        "@)
    }
}

/// `pre` followed by the statements that encode the members in order.
pub open spec fn encode_fields_text(pre: Seq<char>, fields: Seq<Field>, v: CdrVersion, defs: Seq<Definition>) -> Seq<char>
    decreases fields.len(),
{
    if fields.len() == 0 {
        pre
    } else {
        field_encode_text(encode_fields_text(pre, fields.drop_last(), v, defs), fields.last(), v, defs)
    }
}

/// The inherent `encode_<version>_le` method block of a struct (base
/// struct first, then the members in order) with its offset-aware wrapper.
pub open spec fn struct_encode_text(s: Struct, v: CdrVersion, defs: Seq<Definition>) -> Seq<char> {
    let h = Seq::empty() + "impl "@ + s.name@ + " {\n"@ + "    pub fn encode_"@ + suffix_text(v)
        + "_le(&self, dst: &mut [u8]) -> Result<usize, CdrError> {\n"@
        + "        let mut offset: usize = 0;\n"@;
    let h = match s.base_struct {
        Some(b) => h + "        self.base.encode_"@ + suffix_text(v) + "_le_at(dst, &mut offset)?;\n"@,
        None => h,
    };
    let h = encode_fields_text(h, s.fields@, v, defs) + "        Ok(offset)\n"@ + "    }\n"@ + "\n"@;
    encode_at_text(h, v) + "}\n\n"@
}

/// The expression that decodes one member.
pub open spec fn field_decode_text(f: Field, v: CdrVersion, defs: Seq<Definition>) -> Seq<char> {
    let d = decode_text(f.field_type, v, defs, defs.len(), true);
    if has_optional(f.annotations@) {
        "if __cdr_array::<1>(src, &mut offset, 1)?[0] != 0 { Some("@ + d + ") } else { None }"@
    } else {
        d
    }
}

/// The value a decoded member takes in the result: boxed when `@external`.
pub open spec fn ctor_value_text(f: Field) -> Seq<char> {
    let ext = has_external(f.annotations@);
    if ext && has_optional(f.annotations@) {
        f.name@ + ".map(Box::new)"@
    } else if ext {
        "Box::new("@ + f.name@ + ")"@
    } else {
        f.name@
    }
}

/// `pre` followed by the statements that decode the members in order.
pub open spec fn decode_fields_text(pre: Seq<char>, fields: Seq<Field>, v: CdrVersion, defs: Seq<Definition>) -> Seq<char>
    decreases fields.len(),
{
    if fields.len() == 0 {
        pre
    } else {
        let f = fields.last();
        let pre = decode_fields_text(pre, fields.drop_last(), v, defs);
        pre + "        let "@ + f.name@ + " = "@ + field_decode_text(f, v, defs) + ";\n"@
    }
}

/// `pre` followed by the member initializers of the decoded value.
pub open spec fn ctor_fields_text(pre: Seq<char>, fields: Seq<Field>) -> Seq<char>
    decreases fields.len(),
{
    if fields.len() == 0 {
        pre
    } else {
        let f = fields.last();
        let pre = ctor_fields_text(pre, fields.drop_last());
        pre + "            "@ + f.name@ + ": "@ + ctor_value_text(f) + ",\n"@
    }
}

/// The inherent `decode_<version>_le` method block of a struct with its
/// offset-aware wrapper.
pub open spec fn struct_decode_text(s: Struct, v: CdrVersion, defs: Seq<Definition>) -> Seq<char> {
    let h = Seq::empty() + "impl "@ + s.name@ + " {\n"@ + "    pub fn decode_"@ + suffix_text(v)
        + "_le(src: &[u8]) -> Result<(Self, usize), CdrError> {\n"@
        + "        let mut offset: usize = 0;\n"@;
    let h = match s.base_struct {
        Some(b) => h + "        let base = "@ + b@ + "::decode_"@ + suffix_text(v)
            + "_le_at(src, &mut offset)?;\n"@,
        None => h,
    };
    let h = decode_fields_text(h, s.fields@, v, defs) + "        Ok((Self {\n"@;
    let h = match s.base_struct {
        Some(b) => h + "            base,\n"@,
        None => h,
    };
    let h = ctor_fields_text(h, s.fields@) + "        }, offset))\n"@ + "    }\n"@ + "\n"@;
    decode_at_text(h, v) + "}\n\n"@
}

/// `pre` followed by the enumerators of an enum declaration.
pub open spec fn enum_variants_text(pre: Seq<char>, vs: Seq<EnumVariant>) -> Seq<char>
    decreases vs.len(),
{
    if vs.len() == 0 {
        pre
    } else {
        let vr = vs.last();
        let pre = enum_variants_text(pre, vs.drop_last());
        let pre = if vs.len() == 1 { pre + "    #[default]\n"@ } else { pre };
        pre + "    "@ + vr.name@ + " = "@
        + signed_decimal(enum_value(vr.value, (vs.len() - 1) as int) as int) + ",\n"@
    }
}

/// The Rust enum declaration: the first enumerator is the default; an
/// enumerator without explicit value takes its index.
pub open spec fn enum_decl_text(e: Enum) -> Seq<char> {
    enum_variants_text(Seq::empty() + "#[derive(Debug, Clone, Copy, PartialEq, Eq, Default)]\n"@ + "#[repr(i32)]\n"@
        + "pub enum "@ + e.name@ + " {\n"@, e.variants@) + "}\n\n"@
}

/// The `encode_<version>_le` block of an enum: the value as a 4-byte integer.
pub open spec fn enum_encode_text(e: Enum, v: CdrVersion) -> Seq<char> {
    encode_at_text(Seq::empty() + "impl "@ + e.name@ + " {\n"@ + "    pub fn encode_"@ + suffix_text(v)
        + "_le(&self, dst: &mut [u8]) -> Result<usize, CdrError> {\n"@
        + "        let mut offset: usize = 0;\n"@
        + "        __cdr_put(dst, &mut offset, 4, &(*self as i32).to_le_bytes())?;\n"@
        + "        Ok(offset)\n"@ + "    }\n"@ + "\n"@, v) + "}\n\n"@
}

/// `pre` followed by the match arms from value to enumerator.
pub open spec fn enum_arms_text(pre: Seq<char>, vs: Seq<EnumVariant>) -> Seq<char>
    decreases vs.len(),
{
    if vs.len() == 0 {
        pre
    } else {
        let vr = vs.last();
        let pre = enum_arms_text(pre, vs.drop_last());
        pre + "            "@ + signed_decimal(enum_value(vr.value, (vs.len() - 1) as int) as int)
        + " => Self::"@ + vr.name@ + ",\n"@
    }
}

/// The `decode_<version>_le` block of an enum: an unknown value is an error.
pub open spec fn enum_decode_text(e: Enum, v: CdrVersion) -> Seq<char> {
    let h = enum_arms_text(Seq::empty() + "impl "@ + e.name@ + " {\n"@ + "    pub fn decode_"@ + suffix_text(v)
        + "_le(src: &[u8]) -> Result<(Self, usize), CdrError> {\n"@
        + "        let mut offset: usize = 0;\n"@
        + "        let value = i32::from_le_bytes(__cdr_array(src, &mut offset, 4)?);\n"@
        + "        let result = match value {\n"@, e.variants@);
    decode_at_text(h + "            _ => return Err(CdrError::InvalidEncoding),\n"@ + "        };\n"@
        + "        Ok((result, offset))\n"@ + "    }\n"@ + "\n"@, v) + "}\n\n"@
}

/// All the code emitted for an enum.
pub open spec fn enum_text(e: Enum) -> Seq<char> {
    enum_decl_text(e) + enum_encode_text(e, CdrVersion::Xcdr1) + enum_encode_text(e, CdrVersion::Xcdr2)
        + enum_decode_text(e, CdrVersion::Xcdr1) + enum_decode_text(e, CdrVersion::Xcdr2)
        + delegators_text(e.name@, CdrVersion::Xcdr2)
}

/// A typedef: a type alias.
pub open spec fn typedef_text(td: Typedef) -> Seq<char> {
    Seq::empty() + "pub type "@ + td.name@ + " = "@ + rust_type_text(td.base_type) + ";\n\n"@
}

/// The preamble of a generated file.
pub fn emit_header() -> (r: String)
    ensures
        r@ == header_text(),
{
    let mut out = String::new();
        out.append("use hdds::core::ser::{Cdr2Decode, Cdr2Encode, CdrError};\n\n");
        out.append("#[allow(dead_code)]\n");
        out.append("fn __cdr_align(offset: usize, align: usize) -> usize {\n");
        out.append("    (offset + align - 1) & !(align - 1)\n");
        out.append("}\n");
        out.append("\n");
        out.append("#[allow(dead_code)]\n");
        out.append("fn __cdr_put(dst: &mut [u8], offset: &mut usize, align: usize, bytes: &[u8]) -> Result<(), CdrError> {\n");
        out.append("    let start = __cdr_align(*offset, align);\n");
        out.append("    let end = start + bytes.len();\n");
        out.append("    if dst.len() < end {\n");
        out.append("        return Err(CdrError::BufferTooSmall);\n");
        out.append("    }\n");
        out.append("    dst[*offset..start].fill(0);\n");
        out.append("    dst[start..end].copy_from_slice(bytes);\n");
        out.append("    *offset = end;\n");
        out.append("    Ok(())\n");
        out.append("}\n");
        out.append("\n");
        out.append("#[allow(dead_code)]\n");
        out.append("fn __cdr_put_string(dst: &mut [u8], offset: &mut usize, value: &str) -> Result<(), CdrError> {\n");
        out.append("    let len = u32::try_from(value.len() + 1).map_err(|_| CdrError::InvalidEncoding)?;\n");
        out.append("    __cdr_put(dst, offset, 4, &len.to_le_bytes())?;\n");
        out.append("    __cdr_put(dst, offset, 1, value.as_bytes())?;\n");
        out.append("    __cdr_put(dst, offset, 1, &[0])\n");
        out.append("}\n");
        out.append("\n");
        out.append("#[allow(dead_code)]\n");
        out.append("fn __cdr_array<const N: usize>(src: &[u8], offset: &mut usize, align: usize) -> Result<[u8; N], CdrError> {\n");
        out.append("    let start = __cdr_align(*offset, align);\n");
        out.append("    let end = start + N;\n");
        out.append("    if src.len() < end {\n");
        out.append("        return Err(CdrError::UnexpectedEof);\n");
        out.append("    }\n");
        out.append("    let mut out = [0u8; N];\n");
        out.append("    out.copy_from_slice(&src[start..end]);\n");
        out.append("    *offset = end;\n");
        out.append("    Ok(out)\n");
        out.append("}\n");
        out.append("\n");
        out.append("#[allow(dead_code)]\n");
        out.append("fn __cdr_len(src: &[u8], offset: &mut usize) -> Result<usize, CdrError> {\n");
        out.append("    Ok(u32::from_le_bytes(__cdr_array(src, offset, 4)?) as usize)\n");
        out.append("}\n");
        out.append("\n");
        out.append("#[allow(dead_code)]\n");
        out.append("fn __cdr_get_string(src: &[u8], offset: &mut usize) -> Result<String, CdrError> {\n");
        out.append("    let len = __cdr_len(src, offset)?;\n");
        out.append("    if len == 0 || src.len() < *offset + len {\n");
        out.append("        return Err(CdrError::InvalidEncoding);\n");
        out.append("    }\n");
        out.append("    let bytes = &src[*offset..*offset + len - 1];\n");
        out.append("    *offset += len;\n");
        out.append("    String::from_utf8(bytes.to_vec()).map_err(|_| CdrError::InvalidEncoding)\n");
        out.append("}\n");
        out.append("\n");
    out
}

/// The `Fixed<D, S>` support type.
pub fn emit_fixed_support() -> (r: String)
    ensures
        r@ == fixed_support_text(),
{
    let mut out = String::new();
        out.append("/// Fixed-point decimal `fixed<D, S>`: `raw` in units of 10^-S.\n");
        out.append("#[derive(Debug, Clone, Copy, PartialEq, Eq, Default)]\n");
        out.append("pub struct Fixed<const D: u32, const S: u32> {\n");
        out.append("    raw: i64,\n");
        out.append("}\n");
        out.append("\n");
        out.append("impl<const D: u32, const S: u32> Fixed<D, S> {\n");
        out.append("    pub const fn from_raw(raw: i64) -> Self {\n");
        out.append("        Self { raw }\n");
        out.append("    }\n");
        out.append("\n");
        out.append("    pub const fn raw(&self) -> i64 {\n");
        out.append("        self.raw\n");
        out.append("    }\n");
        out.append("\n");
        out.append("    /// `int_part + frac_part * 10^-S`.\n");
        out.append("    pub fn from_parts(int_part: i64, frac_part: i64) -> Self {\n");
        out.append("        Self { raw: int_part * 10i64.pow(S) + frac_part }\n");
        out.append("    }\n");
        out.append("}\n");
        out.append("\n");
        out.append("impl<const D: u32, const S: u32> core::fmt::Display for Fixed<D, S> {\n");
        out.append("    fn fmt(&self, f: &mut core::fmt::Formatter<'_>) -> core::fmt::Result {\n");
        out.append("        let scale = 10u64.pow(S);\n");
        out.append("        let sign = if self.raw < 0 { \"-\" } else { \"\" };\n");
        out.append("        let abs = self.raw.unsigned_abs();\n");
        out.append("        if S == 0 {\n");
        out.append("            write!(f, \"{}{}\", sign, abs)\n");
        out.append("        } else {\n");
        out.append("            write!(f, \"{}{}.{:0width$}\", sign, abs / scale, abs % scale, width = S as usize)\n");
        out.append("        }\n");
        out.append("    }\n");
        out.append("}\n");
        out.append("\n");
    out
}

/// Appends the offset-aware encode wrapper.
pub fn emit_encode_at(out: &mut String, v: CdrVersion)
    ensures
        final(out)@ == encode_at_text(old(out)@, v),
{
    out.append("    pub fn encode_");
    out.append(suffix(v));
    out.append("_le_at(\n        &self,\n        dst: &mut [u8],\n        offset: &mut usize,\n    ) -> Result<(), CdrError> {\n");
    out.append("        let len = self.encode_");
    out.append(suffix(v));
    out.append("_le(&mut dst[*offset..])?;\n");
    out.append("        *offset += len;\n");
    out.append("        Ok(())\n");
    out.append("    }\n");
}

/// Appends the offset-aware decode wrapper.
pub fn emit_decode_at(out: &mut String, v: CdrVersion)
    ensures
        final(out)@ == decode_at_text(old(out)@, v),
{
    out.append("    pub fn decode_");
    out.append(suffix(v));
    out.append("_le_at(\n        src: &[u8],\n        offset: &mut usize,\n    ) -> Result<Self, CdrError> {\n");
    out.append("        let (value, used) = Self::decode_");
    out.append(suffix(v));
    out.append("_le(&src[*offset..])?;\n");
    out.append("        *offset += used;\n");
    out.append("        Ok(value)\n");
    out.append("    }\n");
}

/// The `Cdr2Encode`/`Cdr2Decode` impls of a type, routed to version `v`.
pub fn emit_delegators(name: &str, v: CdrVersion) -> (r: String)
    ensures
        r@ == delegators_text(name@, v),
{
    let mut out = String::new();
        out.append("impl Cdr2Encode for ");
        out.append(name);
        out.append(" {\n");
        out.append("    fn encode_cdr2_le(&self, dst: &mut [u8]) -> Result<usize, CdrError> {\n");
        out.append("        self.encode_");
        out.append(suffix(v));
        out.append("_le(dst)\n");
        out.append("    }\n");
        out.append("\n");
        out.append("    fn encode_cdr2_le_at(\n        &self,\n        dst: &mut [u8],\n        offset: &mut usize,\n    ) -> Result<(), CdrError> {\n");
        out.append("        let len = self.encode_");
        out.append(suffix(v));
        out.append("_le(&mut dst[*offset..])?;\n");
        out.append("        *offset += len;\n");
        out.append("        Ok(())\n");
        out.append("    }\n");
        out.append("}\n\n");
        out.append("impl Cdr2Decode for ");
        out.append(name);
        out.append(" {\n");
        out.append("    fn decode_cdr2_le(src: &[u8]) -> Result<(Self, usize), CdrError> {\n");
        out.append("        Self::decode_");
        out.append(suffix(v));
        out.append("_le(src)\n");
        out.append("    }\n");
        out.append("\n");
        out.append("    fn decode_cdr2_le_at(\n        src: &[u8],\n        offset: &mut usize,\n    ) -> Result<Self, CdrError> {\n");
        out.append("        let (value, used) = Self::decode_");
        out.append(suffix(v));
        out.append("_le(&src[*offset..])?;\n");
        out.append("        *offset += used;\n");
        out.append("        Ok(value)\n");
        out.append("    }\n");
        out.append("}\n\n");
    out
}

/// The primary version of a struct.
pub fn primary_version_of(anns: &Vec<Annotation>) -> (r: CdrVersion)
    ensures
        r == primary_version(anns@),
{
    let mut i: usize = 0;
    while i < anns.len()
        invariant
            i <= anns@.len(),
            forall|j: int| 0 <= j < i ==> !(#[trigger] anns@[j] matches Annotation::DataRepresentation(r) && r@ == "XCDR1"@),
        decreases anns.len() - i,
    {
        if let Annotation::DataRepresentation(r) = &anns[i] {
            if str_eq(r.as_str(), "XCDR1") {
                return CdrVersion::Xcdr1;
            }
        }
        i = i + 1;
    }
    CdrVersion::Xcdr2
}

/// The Rust struct declaration.
pub fn emit_struct_decl(s: &Struct) -> (r: String)
    ensures
        r@ == struct_decl_text(*s),
{
    let mut out = String::new();
        out.append("#[derive(Debug, Clone, PartialEq)]\n");
        out.append("pub struct ");
        out.append(s.name.as_str());
        out.append(" {\n");
    match &s.base_struct {
        Some(b) => {
            out.append("    pub base: ");
            out.append(b.as_str());
            out.append(",\n");
        },
        None => {},
    }
    let ghost h = out@;
    let mut i: usize = 0;
    assert(s.fields@.take(0) =~= Seq::<Field>::empty());
    while i < s.fields.len()
        invariant
            i <= s.fields@.len(),
            out@ == decl_fields_text(h, s.fields@.take(i as int)),
        decreases s.fields.len() - i,
    {
        let f = &s.fields[i];
        proof {
            assert(s.fields@.take(i + 1).drop_last() =~= s.fields@.take(i as int));
            assert(s.fields@.take(i + 1).last() == s.fields@[i as int]);
        }
        out.append("    pub ");
        out.append(f.name.as_str());
        out.append(": ");
        { let mt = member_type(&f.field_type, any_external(&f.annotations), any_optional(&f.annotations)); out.append(mt.as_str()); }
        out.append(",\n");
        i = i + 1;
    }
    assert(s.fields@.take(s.fields@.len() as int) =~= s.fields@);
    out.append("}\n\n");
    out
}

/// The value a builder gives a member in `build()`.
pub fn build_value(f: &Field) -> (r: String)
    ensures
        r@ == build_value_text(*f),
{
    let ext = any_external(&f.annotations);
    let opt = any_optional(&f.annotations);
    let mut out = String::new();
    if opt && ext {
        out.append("self.");
        out.append(f.name.as_str());
        out.append(".map(Box::new)");
    } else if opt {
        out.append("self.");
        out.append(f.name.as_str());
    } else if ext {
        out.append("Box::new(self.");
        out.append(f.name.as_str());
        out.append("?)");
    } else {
        out.append("self.");
        out.append(f.name.as_str());
        out.append("?");
    }
    assert(out@ =~= build_value_text(*f));
    out
}

/// The builder of a struct.
pub fn emit_builder(s: &Struct) -> (r: String)
    ensures
        r@ == builder_text(*s),
{
    let mut out = String::new();
        out.append("#[derive(Debug, Default)]\n");
        out.append("pub struct ");
        out.append(s.name.as_str());
        out.append("Builder {\n");
    match &s.base_struct {
        Some(b) => {
            out.append("    base: Option<");
            out.append(b.as_str());
            out.append(">,\n");
        },
        None => {},
    }
    let ghost h = out@;
    let mut i: usize = 0;
    assert(s.fields@.take(0) =~= Seq::<Field>::empty());
    while i < s.fields.len()
        invariant
            i <= s.fields@.len(),
            out@ == builder_fields_text(h, s.fields@.take(i as int)),
        decreases s.fields.len() - i,
    {
        let f = &s.fields[i];
        proof {
            assert(s.fields@.take(i + 1).drop_last() =~= s.fields@.take(i as int));
            assert(s.fields@.take(i + 1).last() == s.fields@[i as int]);
        }
        out.append("    ");
        out.append(f.name.as_str());
        out.append(": Option<");
        { let rt = rust_type(&f.field_type); out.append(rt.as_str()); }
        out.append(">,\n");
        i = i + 1;
    }
    assert(s.fields@.take(s.fields@.len() as int) =~= s.fields@);
    out.append("}\n\n");
    out.append("impl ");
    out.append(s.name.as_str());
    out.append("Builder {\n");
    match &s.base_struct {
        Some(b) => {
            out.append("    pub fn base(mut self, value: ");
            out.append(b.as_str());
            out.append(") -> Self {\n        self.base = Some(value);\n        self\n    }\n\n");
        },
        None => {},
    }
    let ghost h = out@;
    let mut i: usize = 0;
    while i < s.fields.len()
        invariant
            i <= s.fields@.len(),
            out@ == builder_setters_text(h, s.fields@.take(i as int)),
        decreases s.fields.len() - i,
    {
        let f = &s.fields[i];
        proof {
            assert(s.fields@.take(i + 1).drop_last() =~= s.fields@.take(i as int));
            assert(s.fields@.take(i + 1).last() == s.fields@[i as int]);
        }
        out.append("    pub fn ");
        out.append(f.name.as_str());
        out.append("(mut self, value: ");
        { let rt = rust_type(&f.field_type); out.append(rt.as_str()); }
        out.append(") -> Self {\n        self.");
        out.append(f.name.as_str());
        out.append(" = Some(value);\n        self\n    }\n\n");
        i = i + 1;
    }
    out.append("    pub fn build(self) -> Option<");
    out.append(s.name.as_str());
    out.append("> {\n");
    out.append("        Some(");
    out.append(s.name.as_str());
    out.append(" {\n");
    match &s.base_struct {
        Some(b) => {
            out.append("            base: self.base?,\n");
        },
        None => {},
    }
    let ghost h = out@;
    let mut i: usize = 0;
    while i < s.fields.len()
        invariant
            i <= s.fields@.len(),
            out@ == builder_build_text(h, s.fields@.take(i as int)),
        decreases s.fields.len() - i,
    {
        let f = &s.fields[i];
        proof {
            assert(s.fields@.take(i + 1).drop_last() =~= s.fields@.take(i as int));
            assert(s.fields@.take(i + 1).last() == s.fields@[i as int]);
        }
        out.append("            ");
        out.append(f.name.as_str());
        out.append(": ");
        { let bv = build_value(f); out.append(bv.as_str()); }
        out.append(",\n");
        i = i + 1;
    }
    out.append("        })\n");
    out.append("    }\n");
    out.append("}\n\n");
    out.append("impl ");
    out.append(s.name.as_str());
    out.append(" {\n");
    out.append("    pub fn builder() -> ");
    out.append(s.name.as_str());
    out.append("Builder {\n");
    out.append("        ");
    out.append(s.name.as_str());
    out.append("Builder::default()\n");
    out.append("    }\n");
    out.append("}\n\n");
    out
}

/// Appends the statements that encode one member.
pub fn emit_field_encode(out: &mut String, f: &Field, v: CdrVersion, defs: &Vec<Definition>)
    ensures
        final(out)@ == field_encode_text(old(out)@, *f, v, defs@),
{
    let ext = any_external(&f.annotations);
    if any_optional(&f.annotations) {
        out.append("        match &self.");
        out.append(f.name.as_str());
        out.append(" {\n");
        out.append("            Some(v) => {\n");
        out.append("                __cdr_put(dst, &mut offset, 1, &[1])?;\n");
        emit_encode(out, &f.field_type, "v", if ext { 2 } else { 1 }, v, defs, defs.len(), "                ");
        out.append("            }\n");
        out.append("            None => __cdr_put(dst, &mut offset, 1, &[0])?,\n");
        out.append("        }\n");
    } else {
        let mut e = "self.".to_owned();
        e.append(f.name.as_str());
        emit_encode(out, &f.field_type, e.as_str(), if ext { 1 } else { 0 }, v, defs, defs.len(), "        ");
    }
}

/// The inherent encode method block of a struct for one version.
pub fn emit_struct_encode(s: &Struct, v: CdrVersion, defs: &Vec<Definition>) -> (r: String)
    ensures
        r@ == struct_encode_text(*s, v, defs@),
{
    let mut out = String::new();
        out.append("impl ");
        out.append(s.name.as_str());
        out.append(" {\n");
        out.append("    pub fn encode_");
        out.append(suffix(v));
        out.append("_le(&self, dst: &mut [u8]) -> Result<usize, CdrError> {\n");
        out.append("        let mut offset: usize = 0;\n");
    match &s.base_struct {
        Some(b) => {
            out.append("        self.base.encode_");
            out.append(suffix(v));
            out.append("_le_at(dst, &mut offset)?;\n");
        },
        None => {},
    }
    let ghost h = out@;
    let mut i: usize = 0;
    assert(s.fields@.take(0) =~= Seq::<Field>::empty());
    while i < s.fields.len()
        invariant
            i <= s.fields@.len(),
            out@ == encode_fields_text(h, s.fields@.take(i as int), v, defs@),
        decreases s.fields.len() - i,
    {
        proof {
            assert(s.fields@.take(i + 1).drop_last() =~= s.fields@.take(i as int));
            assert(s.fields@.take(i + 1).last() == s.fields@[i as int]);
        }
        emit_field_encode(&mut out, &s.fields[i], v, defs);
        i = i + 1;
    }
    assert(s.fields@.take(s.fields@.len() as int) =~= s.fields@);
    out.append("        Ok(offset)\n");
    out.append("    }\n");
    out.append("\n");
    emit_encode_at(&mut out, v);
    out.append("}\n\n");
    out
}

/// The expression that decodes one member.
pub fn field_decode(f: &Field, v: CdrVersion, defs: &Vec<Definition>) -> (r: String)
    ensures
        r@ == field_decode_text(*f, v, defs@),
{
    let d = emit_decode(&f.field_type, v, defs, defs.len(), true);
    if any_optional(&f.annotations) {
        let mut out = "if __cdr_array::<1>(src, &mut offset, 1)?[0] != 0 { Some(".to_owned();
        out.append(d.as_str());
        out.append(") } else { None }");
        out
    } else {
        d
    }
}

/// The value a decoded member takes in the result.
pub fn ctor_value(f: &Field) -> (r: String)
    ensures
        r@ == ctor_value_text(*f),
{
    let ext = any_external(&f.annotations);
    if ext && any_optional(&f.annotations) {
        let mut out = f.name.clone();
        out.append(".map(Box::new)");
        out
    } else if ext {
        let mut out = "Box::new(".to_owned();
        out.append(f.name.as_str());
        out.append(")");
        out
    } else {
        f.name.clone()
    }
}

/// The inherent decode method block of a struct for one version.
pub fn emit_struct_decode(s: &Struct, v: CdrVersion, defs: &Vec<Definition>) -> (r: String)
    ensures
        r@ == struct_decode_text(*s, v, defs@),
{
    let mut out = String::new();
        out.append("impl ");
        out.append(s.name.as_str());
        out.append(" {\n");
        out.append("    pub fn decode_");
        out.append(suffix(v));
        out.append("_le(src: &[u8]) -> Result<(Self, usize), CdrError> {\n");
        out.append("        let mut offset: usize = 0;\n");
    match &s.base_struct {
        Some(b) => {
            out.append("        let base = ");
            out.append(b.as_str());
            out.append("::decode_");
            out.append(suffix(v));
            out.append("_le_at(src, &mut offset)?;\n");
        },
        None => {},
    }
    let ghost h = out@;
    let mut i: usize = 0;
    assert(s.fields@.take(0) =~= Seq::<Field>::empty());
    while i < s.fields.len()
        invariant
            i <= s.fields@.len(),
            out@ == decode_fields_text(h, s.fields@.take(i as int), v, defs@),
        decreases s.fields.len() - i,
    {
        let f = &s.fields[i];
        proof {
            assert(s.fields@.take(i + 1).drop_last() =~= s.fields@.take(i as int));
            assert(s.fields@.take(i + 1).last() == s.fields@[i as int]);
        }
        out.append("        let ");
        out.append(f.name.as_str());
        out.append(" = ");
        { let fd = field_decode(f, v, defs); out.append(fd.as_str()); }
        out.append(";\n");
        i = i + 1;
    }
    assert(s.fields@.take(s.fields@.len() as int) =~= s.fields@);
    out.append("        Ok((Self {\n");
    match &s.base_struct {
        Some(b) => {
            out.append("            base,\n");
        },
        None => {},
    }
    let ghost h = out@;
    let mut i: usize = 0;
    while i < s.fields.len()
        invariant
            i <= s.fields@.len(),
            out@ == ctor_fields_text(h, s.fields@.take(i as int)),
        decreases s.fields.len() - i,
    {
        let f = &s.fields[i];
        proof {
            assert(s.fields@.take(i + 1).drop_last() =~= s.fields@.take(i as int));
            assert(s.fields@.take(i + 1).last() == s.fields@[i as int]);
        }
        out.append("            ");
        out.append(f.name.as_str());
        out.append(": ");
        { let cv = ctor_value(f); out.append(cv.as_str()); }
        out.append(",\n");
        i = i + 1;
    }
    assert(s.fields@.take(s.fields@.len() as int) =~= s.fields@);
    out.append("        }, offset))\n");
    out.append("    }\n");
    out.append("\n");
    emit_decode_at(&mut out, v);
    out.append("}\n\n");
    out
}

/// The Rust enum declaration.
pub fn emit_enum_decl(e: &Enum) -> (r: String)
    ensures
        r@ == enum_decl_text(*e),
{
    let mut out = String::new();
        out.append("#[derive(Debug, Clone, Copy, PartialEq, Eq, Default)]\n");
        out.append("#[repr(i32)]\n");
        out.append("pub enum ");
        out.append(e.name.as_str());
        out.append(" {\n");
    let ghost h = out@;
    let mut i: usize = 0;
    assert(e.variants@.take(0) =~= Seq::<EnumVariant>::empty());
    while i < e.variants.len()
        invariant
            i <= e.variants@.len(),
            out@ == enum_variants_text(h, e.variants@.take(i as int)),
        decreases e.variants.len() - i,
    {
        let vr = &e.variants[i];
        let value: i64 = match vr.value {
            Some(x) => x,
            None => if (i as u64) <= 0x7fff_ffff_ffff_ffffu64 { i as i64 } else { 0 },
        };
        proof {
            assert(e.variants@.take(i + 1).drop_last() =~= e.variants@.take(i as int));
            assert(e.variants@.take(i + 1).last() == e.variants@[i as int]);
        }
        if i == 0 {
            out.append("    #[default]\n");
        }
        out.append("    ");
        out.append(vr.name.as_str());
        out.append(" = ");
        append_signed_decimal(&mut out, value);
        out.append(",\n");
        i = i + 1;
    }
    assert(e.variants@.take(e.variants@.len() as int) =~= e.variants@);
    out.append("}\n\n");
    out
}

/// The encode method block of an enum for one version.
pub fn emit_enum_encode(e: &Enum, v: CdrVersion) -> (r: String)
    ensures
        r@ == enum_encode_text(*e, v),
{
    let mut out = String::new();
    out.append("impl ");
    out.append(e.name.as_str());
    out.append(" {\n");
    out.append("    pub fn encode_");
    out.append(suffix(v));
    out.append("_le(&self, dst: &mut [u8]) -> Result<usize, CdrError> {\n");
    out.append("        let mut offset: usize = 0;\n");
    out.append("        __cdr_put(dst, &mut offset, 4, &(*self as i32).to_le_bytes())?;\n");
    out.append("        Ok(offset)\n");
    out.append("    }\n");
    out.append("\n");
    emit_encode_at(&mut out, v);
    out.append("}\n\n");
    out
}

/// The decode method block of an enum for one version.
pub fn emit_enum_decode(e: &Enum, v: CdrVersion) -> (r: String)
    ensures
        r@ == enum_decode_text(*e, v),
{
    let mut out = String::new();
    out.append("impl ");
    out.append(e.name.as_str());
    out.append(" {\n");
    out.append("    pub fn decode_");
    out.append(suffix(v));
    out.append("_le(src: &[u8]) -> Result<(Self, usize), CdrError> {\n");
    out.append("        let mut offset: usize = 0;\n");
    out.append("        let value = i32::from_le_bytes(__cdr_array(src, &mut offset, 4)?);\n");
    out.append("        let result = match value {\n");
    let ghost h = out@;
    let mut i: usize = 0;
    assert(e.variants@.take(0) =~= Seq::<EnumVariant>::empty());
    while i < e.variants.len()
        invariant
            i <= e.variants@.len(),
            out@ == enum_arms_text(h, e.variants@.take(i as int)),
        decreases e.variants.len() - i,
    {
        let vr = &e.variants[i];
        let value: i64 = match vr.value {
            Some(x) => x,
            None => if (i as u64) <= 0x7fff_ffff_ffff_ffffu64 { i as i64 } else { 0 },
        };
        proof {
            assert(e.variants@.take(i + 1).drop_last() =~= e.variants@.take(i as int));
            assert(e.variants@.take(i + 1).last() == e.variants@[i as int]);
        }
        out.append("            ");
        append_signed_decimal(&mut out, value);
        out.append(" => Self::");
        out.append(vr.name.as_str());
        out.append(",\n");
        i = i + 1;
    }
    assert(e.variants@.take(e.variants@.len() as int) =~= e.variants@);
    out.append("            _ => return Err(CdrError::InvalidEncoding),\n");
    out.append("        };\n");
    out.append("        Ok((result, offset))\n");
    out.append("    }\n");
    out.append("\n");
    emit_decode_at(&mut out, v);
    out.append("}\n\n");
    out
}

/// All the code emitted for an enum.
pub fn emit_enum(e: &Enum) -> (r: String)
    ensures
        r@ == enum_text(*e),
{
    let mut out = emit_enum_decl(e);
    let a = emit_enum_encode(e, CdrVersion::Xcdr1);
    out.append(a.as_str());
    let b = emit_enum_encode(e, CdrVersion::Xcdr2);
    out.append(b.as_str());
    let c = emit_enum_decode(e, CdrVersion::Xcdr1);
    out.append(c.as_str());
    let d = emit_enum_decode(e, CdrVersion::Xcdr2);
    out.append(d.as_str());
    let g = emit_delegators(e.name.as_str(), CdrVersion::Xcdr2);
    out.append(g.as_str());
    out
}

/// A typedef: a type alias.
pub fn emit_typedef(td: &Typedef) -> (r: String)
    ensures
        r@ == typedef_text(*td),
{
    let mut out = String::new();
    out.append("pub type ");
    out.append(td.name.as_str());
    out.append(" = ");
    { let rt = rust_type(&td.base_type); out.append(rt.as_str()); }
    out.append(";\n\n");
    out
}

} // verus!
