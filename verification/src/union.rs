//! Discriminated unions: discriminator kinds, case label values, the
//! default discriminant, and the emitted Rust enum with its encode and
//! decode methods.

use vstd::prelude::*;
use vstd::set_lib::{lemma_int_range, lemma_len_subset, set_int_range};
use crate::ast::{Definition, EnumVariant, Field, Union, UnionCase, UnionLabel, find_type, lookup_type_def};
use crate::cdr_codegen::{
    CdrVersion, decode_text, emit_decode, emit_encode, emit_prim_decode, encode_text, lookup_typedef_base,
    prim_decode_text, suffix, suffix_text, typedef_base, version_align, alignment_in,
};
use crate::dds_trait::enum_value;
use crate::decls::{decode_at_text, delegators_text, emit_decode_at, emit_delegators, emit_encode_at, encode_at_text};
use crate::rust_types::{
    camel_text, default_value, default_value_text, member_type, member_type_text, prim_rust, prim_rust_text,
    to_camel,
};
use crate::text::{
    append_bool, append_decimal, append_signed_decimal, bool_text, decimal, digit_char, signed_decimal, str_eq,
};
use crate::types::{IdlType, PrimitiveType, any_external, has_external};

verus! {

/// How a union discriminator is encoded.
#[derive(Debug, Clone, Copy, PartialEq, Eq)]
pub enum DiscKind {
    /// `boolean`: one byte.
    Bool,
    /// An integer type.
    Int(PrimitiveType),
    /// The enum at this index of the declarations: a 4-byte integer.
    Enum(usize),
}

/// Why code generation failed.
#[derive(Debug, Clone, Copy, PartialEq, Eq)]
pub enum GenErrorKind {
    /// A union discriminator that is not boolean, integer or enum.
    InvalidDiscriminator,
    /// A union case label that is not a value of the discriminator type.
    InvalidUnionLabel,
    /// A boolean union with a default case and both values taken.
    UnionDefaultExhausted,
    /// A bitfield of width 0, or one that reaches past bit 64.
    InvalidBitfield,
    /// A struct whose layout does not fit in the address space.
    LayoutOverflow,
}

/// A type with typedef names followed to their base type while `fuel` lasts.
pub open spec fn resolve_type(t: IdlType, defs: Seq<Definition>, fuel: nat) -> IdlType
    decreases fuel,
{
    match t {
        IdlType::Named(n) => match typedef_base(defs, n@) {
            Some(b) if fuel > 0 => resolve_type(b, defs, (fuel - 1) as nat),
            _ => t,
        },
        _ => t,
    }
}

/// The integer primitive types.
pub open spec fn is_int_prim(p: PrimitiveType) -> bool {
    match p {
        PrimitiveType::Octet | PrimitiveType::UInt8 | PrimitiveType::Int8 | PrimitiveType::Short
        | PrimitiveType::UnsignedShort | PrimitiveType::Int16 | PrimitiveType::UInt16
        | PrimitiveType::Long | PrimitiveType::UnsignedLong | PrimitiveType::Int32
        | PrimitiveType::UInt32 | PrimitiveType::LongLong | PrimitiveType::UnsignedLongLong
        | PrimitiveType::Int64 | PrimitiveType::UInt64 => true,
        _ => false,
    }
}

/// The kind of a discriminator type (typedefs followed), if it can be one.
pub open spec fn disc_kind_of(t: IdlType, defs: Seq<Definition>) -> Option<DiscKind> {
    match resolve_type(t, defs, defs.len()) {
        IdlType::Primitive(p) => if p is Boolean {
            Some(DiscKind::Bool)
        } else if is_int_prim(p) {
            Some(DiscKind::Int(p))
        } else {
            None
        },
        IdlType::Named(n) => match find_type(defs, n@) {
            Some(i) => if defs[i] is Enum { Some(DiscKind::Enum(i as usize)) } else { None },
            None => None,
        },
        _ => None,
    }
}

/// Whether a character is a decimal digit.
pub open spec fn is_digit(c: char) -> bool {
    '0' <= c && c <= '9'
}

/// The value of a string of decimal digits.
pub open spec fn digits_value(s: Seq<char>) -> nat
    decreases s.len(),
{
    if s.len() == 0 {
        0
    } else {
        digits_value(s.drop_last()) * 10 + ((s.last() as int) - ('0' as int)) as nat
    }
}

/// The value of a non-empty string of decimal digits, when it is at most
/// `limit`.
pub open spec fn parse_digits(s: Seq<char>, limit: nat) -> Option<nat> {
    if s.len() > 0 && (forall|i: int| 0 <= i < s.len() ==> is_digit(#[trigger] s[i])) && digits_value(s) <= limit {
        Some(digits_value(s))
    } else {
        None
    }
}

/// A decimal integer literal, with an optional leading `-`, whose value is
/// an `i64`.
pub open spec fn parse_int(s: Seq<char>) -> Option<i64> {
    if s.len() > 0 && s[0] == '-' {
        match parse_digits(s.drop_first(), (i64::MAX + 1) as nat) {
            Some(v) => Some((-v) as i64),
            None => None,
        }
    } else {
        match parse_digits(s, i64::MAX as nat) {
            Some(v) => Some(v as i64),
            None => None,
        }
    }
}

/// Index of the first enumerator called `name`.
pub open spec fn find_variant(vs: Seq<EnumVariant>, name: Seq<char>) -> Option<int>
    decreases vs.len(),
{
    if vs.len() == 0 {
        None
    } else {
        match find_variant(vs.drop_last(), name) {
            Some(i) => Some(i),
            None => if vs.last().name@ == name { Some(vs.len() - 1) } else { None },
        }
    }
}

/// The discriminant a case label denotes: `TRUE`/`FALSE` for a boolean,
/// a decimal literal for an integer, an enumerator name for an enum.
pub open spec fn label_value(label: Seq<char>, k: DiscKind, defs: Seq<Definition>) -> Option<i64> {
    match k {
        DiscKind::Bool => if label == "TRUE"@ || label == "true"@ {
            Some(1)
        } else if label == "FALSE"@ || label == "false"@ {
            Some(0)
        } else {
            None
        },
        DiscKind::Int(_) => parse_int(label),
        DiscKind::Enum(i) => match defs[i as int] {
            Definition::Enum(e) => match find_variant(e.variants@, label) {
                Some(j) => Some(enum_value(e.variants@[j].value, j)),
                None => None,
            },
            _ => None,
        },
    }
}

/// The values of the explicit labels of a case, in order; `None` when one
/// is invalid.
pub open spec fn case_values(labels: Seq<UnionLabel>, k: DiscKind, defs: Seq<Definition>) -> Option<Seq<i64>>
    decreases labels.len(),
{
    if labels.len() == 0 {
        Some(Seq::empty())
    } else {
        match case_values(labels.drop_last(), k, defs) {
            None => None,
            Some(vs) => match labels.last() {
                UnionLabel::Default => Some(vs),
                UnionLabel::Value(l) => match label_value(l@, k, defs) {
                    Some(x) => Some(vs.push(x)),
                    None => None,
                },
            },
        }
    }
}

/// The label values of every case.
pub open spec fn all_case_values(cases: Seq<UnionCase>, k: DiscKind, defs: Seq<Definition>) -> Option<Seq<Seq<i64>>>
    decreases cases.len(),
{
    if cases.len() == 0 {
        Some(Seq::empty())
    } else {
        match all_case_values(cases.drop_last(), k, defs) {
            None => None,
            Some(vss) => match case_values(cases.last().labels@, k, defs) {
                Some(vs) => Some(vss.push(vs)),
                None => None,
            },
        }
    }
}

/// All label values, case after case.
pub open spec fn flatten(vss: Seq<Seq<i64>>) -> Seq<i64>
    decreases vss.len(),
{
    if vss.len() == 0 {
        Seq::empty()
    } else {
        flatten(vss.drop_last()) + vss.last()
    }
}

/// Whether a case has the `default` label.
pub open spec fn has_default_label(labels: Seq<UnionLabel>) -> bool {
    exists|i: int| 0 <= i < labels.len() && labels[i] is Default
}

/// Index of the first case with the `default` label.
pub open spec fn default_case_index(cases: Seq<UnionCase>) -> Option<int>
    decreases cases.len(),
{
    if cases.len() == 0 {
        None
    } else {
        match default_case_index(cases.drop_last()) {
            Some(i) => Some(i),
            None => if has_default_label(cases.last().labels@) { Some(cases.len() - 1) } else { None },
        }
    }
}

/// The least value from `n` on that is not in `used`, looking at most
/// `fuel` values ahead.
pub open spec fn min_free_from(used: Seq<i64>, n: int, fuel: nat) -> int
    decreases fuel,
{
    if fuel == 0 {
        n
    } else if used.contains(n as i64) {
        min_free_from(used, n + 1, (fuel - 1) as nat)
    } else {
        n
    }
}

/// The discriminant of the default case: the least non-negative value no
/// label uses.
pub open spec fn default_discriminant(vss: Seq<Seq<i64>>) -> int {
    min_free_from(flatten(vss), 0, flatten(vss).len())
}

/// What generating a union needs: the discriminator kind, the label values
/// of each case, the default case, and the default discriminant.
pub open spec fn union_plan(u: Union, defs: Seq<Definition>) -> Result<(DiscKind, Seq<Seq<i64>>, Option<int>, i64), GenErrorKind> {
    match disc_kind_of(u.discriminator, defs) {
        None => Err(GenErrorKind::InvalidDiscriminator),
        Some(k) => match all_case_values(u.cases@, k, defs) {
            None => Err(GenErrorKind::InvalidUnionLabel),
            Some(vss) => {
                let dc = default_case_index(u.cases@);
                let dv = default_discriminant(vss) as i64;
                if dc is Some && k is Bool && dv > 1 {
                    Err(GenErrorKind::UnionDefaultExhausted)
                } else {
                    Ok((k, vss, dc, dv))
                }
            },
        },
    }
}

/// The literal of a discriminant value.
pub open spec fn disc_lit_text(n: i64, k: DiscKind) -> Seq<char> {
    match k {
        DiscKind::Bool => bool_text(n != 0),
        _ => signed_decimal(n as int),
    }
}

/// `pre` followed by the statement that encodes discriminant `n`.
pub open spec fn disc_put_text(pre: Seq<char>, k: DiscKind, n: i64, v: CdrVersion) -> Seq<char> {
    match k {
        DiscKind::Bool => pre + "                __cdr_put(dst, &mut offset, 1, &[u8::from("@
            + disc_lit_text(n, k) + ")])?;\n"@,
        DiscKind::Int(p) => pre + "                __cdr_put(dst, &mut offset, "@
            + decimal(version_align(v, IdlType::Primitive(p))) + ", &("@ + disc_lit_text(n, k) + " as "@
            + prim_rust_text(p) + ").to_le_bytes())?;\n"@,
        DiscKind::Enum(_) => pre + "                __cdr_put(dst, &mut offset, 4, &("@ + disc_lit_text(n, k)
            + " as i32).to_le_bytes())?;\n"@,
    }
}

/// The expression that decodes the discriminant.
pub open spec fn disc_read_text(k: DiscKind, v: CdrVersion) -> Seq<char> {
    match k {
        DiscKind::Bool => "(__cdr_array::<1>(src, &mut offset, 1)?[0] != 0)"@,
        DiscKind::Int(p) => prim_decode_text(p, v),
        DiscKind::Enum(_) => "i32::from_le_bytes(__cdr_array(src, &mut offset, 4)?)"@,
    }
}

/// The label values of a case as a match pattern: `a | b | ...`.
pub open spec fn labels_text(vals: Seq<i64>, k: DiscKind) -> Seq<char>
    decreases vals.len(),
{
    if vals.len() == 0 {
        Seq::empty()
    } else if vals.len() == 1 {
        disc_lit_text(vals[0], k)
    } else {
        labels_text(vals.drop_last(), k) + " | "@ + disc_lit_text(vals.last(), k)
    }
}

/// The decoded value of a case member: boxed when `@external`.
pub open spec fn case_ctor_text(f: Field, v: CdrVersion, defs: Seq<Definition>) -> Seq<char> {
    let d = decode_text(f.field_type, v, defs, defs.len(), true);
    if has_external(f.annotations@) { "Box::new("@ + d + ")"@ } else { d }
}

/// The default value of a case member: boxed when `@external`.
pub open spec fn default_ctor_text(f: Field) -> Seq<char> {
    let d = default_value_text(f.field_type);
    if has_external(f.annotations@) { "Box::new("@ + d + ")"@ } else { d }
}

/// `pre` followed by the variants of the union's Rust enum.
pub open spec fn union_variants_text(pre: Seq<char>, cases: Seq<UnionCase>) -> Seq<char>
    decreases cases.len(),
{
    if cases.len() == 0 {
        pre
    } else {
        let c = cases.last();
        let pre = union_variants_text(pre, cases.drop_last());
        pre + "    "@ + camel_text(c.field.name@) + "("@
        + member_type_text(c.field.field_type, has_external(c.field.annotations@), false) + "),\n"@
    }
}

/// The Rust enum of a union, and its `Default`: the default case, else the
/// first case.
pub open spec fn union_decl_text(u: Union, dc: Option<int>) -> Seq<char> {
    let h = union_variants_text(Seq::empty() + "#[derive(Debug, Clone, PartialEq)]\n"@ + "pub enum "@ + u.name@ + " {\n"@, u.cases@) + "}\n\n"@;
    if u.cases@.len() == 0 {
        h
    } else {
        let c = u.cases@[match dc { Some(j) => j, None => 0 }];
        h + "impl Default for "@ + u.name@ + " {\n"@ + "    fn default() -> Self {\n"@
        + "        Self::"@ + camel_text(c.field.name@) + "("@ + default_ctor_text(c.field) + ")\n"@
        + "    }\n"@ + "}\n\n"@
    }
}

/// The discriminant a case is encoded with: its first label value, or the
/// default discriminant for a case with only the `default` label.
pub open spec fn case_disc(vals: Seq<i64>, dv: i64) -> i64 {
    if vals.len() > 0 { vals[0] } else { dv }
}

/// `pre` followed by the encode match arms.
pub open spec fn union_enc_arms_text(pre: Seq<char>, cases: Seq<UnionCase>, vss: Seq<Seq<i64>>, k: DiscKind, dv: i64, v: CdrVersion, defs: Seq<Definition>) -> Seq<char>
    decreases cases.len(),
{
    if cases.len() == 0 {
        pre
    } else {
        let c = cases.last();
        let pre = union_enc_arms_text(pre, cases.drop_last(), vss.drop_last(), k, dv, v, defs);
        let h = disc_put_text(pre + "            Self::"@ + camel_text(c.field.name@) + "(v) => {\n"@, k, case_disc(vss.last(), dv), v);
        let h = encode_text(h, c.field.field_type, "v"@, if has_external(c.field.annotations@) { 2 } else { 1 }, v, defs, defs.len(), "                "@);
        h + "            }\n"@
    }
}

/// The encode method block of a union: the discriminant, then the member
/// of the active case.
pub open spec fn union_encode_text(u: Union, vss: Seq<Seq<i64>>, k: DiscKind, dv: i64, v: CdrVersion, defs: Seq<Definition>) -> Seq<char> {
    let h = union_enc_arms_text(Seq::empty() + "impl "@ + u.name@ + " {\n"@ + "    pub fn encode_"@ + suffix_text(v)
            + "_le(&self, dst: &mut [u8]) -> Result<usize, CdrError> {\n"@
            + "        let mut offset: usize = 0;\n"@ + "        match self {\n"@, u.cases@, vss, k, dv, v, defs);
    encode_at_text(h + "        }\n"@ + "        Ok(offset)\n"@ + "    }\n"@ + "\n"@, v) + "}\n\n"@
}

/// `pre` followed by the decode match arms of the cases with explicit labels.
pub open spec fn union_dec_arms_text(pre: Seq<char>, cases: Seq<UnionCase>, vss: Seq<Seq<i64>>, k: DiscKind, v: CdrVersion, defs: Seq<Definition>) -> Seq<char>
    decreases cases.len(),
{
    if cases.len() == 0 {
        pre
    } else {
        let c = cases.last();
        let vals = vss.last();
        let pre = union_dec_arms_text(pre, cases.drop_last(), vss.drop_last(), k, v, defs);
        if vals.len() == 0 {
            pre
        } else {
            pre + "            "@ + labels_text(vals, k) + " => Self::"@ + camel_text(c.field.name@) + "("@
            + case_ctor_text(c.field, v, defs) + "),\n"@
        }
    }
}

/// The decode method block of a union: an unlisted discriminant selects the
/// default case, or is an error without one.
pub open spec fn union_decode_text(u: Union, vss: Seq<Seq<i64>>, k: DiscKind, dc: Option<int>, v: CdrVersion, defs: Seq<Definition>) -> Seq<char> {
    let h = union_dec_arms_text(Seq::empty() + "impl "@ + u.name@ + " {\n"@ + "    pub fn decode_"@ + suffix_text(v)
            + "_le(src: &[u8]) -> Result<(Self, usize), CdrError> {\n"@
            + "        let mut offset: usize = 0;\n"@ + "        let disc = "@ + disc_read_text(k, v)
            + ";\n"@ + "        let value = match disc {\n"@, u.cases@, vss, k, v, defs);
    let h = match dc {
        Some(j) => {
            let c = u.cases@[j];
            h + "            _ => Self::"@ + camel_text(c.field.name@) + "("@
            + case_ctor_text(c.field, v, defs) + "),\n"@
        },
        None => h + "            _ => return Err(CdrError::InvalidEncoding),\n"@,
    };
    decode_at_text(h + "        };\n"@ + "        Ok((value, offset))\n"@ + "    }\n"@ + "\n"@, v) + "}\n\n"@
}

/// All the code emitted for a union.
pub open spec fn union_text(u: Union, defs: Seq<Definition>) -> Result<Seq<char>, GenErrorKind> {
    match union_plan(u, defs) {
        Err(e) => Err(e),
        Ok((k, vss, dc, dv)) => Ok(union_decl_text(u, dc)
            + union_encode_text(u, vss, k, dv, CdrVersion::Xcdr1, defs)
            + union_encode_text(u, vss, k, dv, CdrVersion::Xcdr2, defs)
            + union_decode_text(u, vss, k, dc, CdrVersion::Xcdr1, defs)
            + union_decode_text(u, vss, k, dc, CdrVersion::Xcdr2, defs)
            + delegators_text(u.name@, CdrVersion::Xcdr2)),
    }
}

/// What generating a union needs (see `union_plan`).
pub struct UnionPlan {
    pub kind: DiscKind,
    pub values: Vec<Vec<i64>>,
    pub default_case: Option<usize>,
    pub default_value: i64,
}

/// The label values of a plan, as sequences.
pub open spec fn values_view(values: Seq<Vec<i64>>) -> Seq<Seq<i64>> {
    values.map_values(|v: Vec<i64>| v@)
}

/// A plan, as the tuple `union_plan` gives.
pub open spec fn plan_view(p: UnionPlan) -> (DiscKind, Seq<Seq<i64>>, Option<int>, i64) {
    (p.kind, values_view(p.values@), match p.default_case { Some(j) => Some(j as int), None => None }, p.default_value)
}

proof fn lemma_digits_prefix(s: Seq<char>, k: int)
    requires
        0 <= k <= s.len(),
    ensures
        digits_value(s.take(k)) <= digits_value(s),
    decreases s.len() - k,
{
    if k < s.len() {
        lemma_digits_prefix(s, k + 1);
        assert(s.take(k + 1).drop_last() =~= s.take(k));
    } else {
        assert(s.take(k) =~= s);
    }
}

/// The value of a decimal integer literal (optional leading `-`) that
/// fits an `i64`.
pub fn parse_int_label(s: &str) -> (r: Option<i64>)
    ensures
        r == parse_int(s@),
{
    let n = s.unicode_len();
    if n == 0 {
        return None;
    }
    let first = s.get_char(0);
    let neg = first == '-';
    let start: usize = if neg { 1 } else { 0 };
    let limit: u64 = if neg { 0x8000_0000_0000_0000u64 } else { 0x7fff_ffff_ffff_ffffu64 };
    let ghost body = if neg { s@.drop_first() } else { s@ };
    let ghost outcome = match parse_digits(body, limit as nat) {
        Some(v) => Some((if neg { -v } else { v as int }) as i64),
        None => None::<i64>,
    };
    assert(first == s@[0]);
    assert(parse_int(s@) == outcome);
    assert(body =~= s@.subrange(start as int, n as int));
    if start == n {
        return None;
    }
    let mut acc: u64 = 0;
    let mut i: usize = start;
    assert(body.take(0) =~= Seq::<char>::empty());
    while i < n
        invariant
            n == s@.len(),
            start <= i <= n,
            body == s@.subrange(start as int, n as int),
            acc == digits_value(body.take(i - start)),
            acc <= limit,
            0x7fff_ffff_ffff_ffffu64 <= limit <= 0x8000_0000_0000_0000u64,
            forall|j: int| 0 <= j < i - start ==> is_digit(#[trigger] body[j]),
            parse_int(s@) == outcome,
            outcome == match parse_digits(body, limit as nat) {
                Some(v) => Some((if neg { -v } else { v as int }) as i64),
                None => None::<i64>,
            },
        decreases n - i,
    {
        let c = s.get_char(i);
        assert(c == body[i - start]);
        if !('0' <= c && c <= '9') {
            assert(!is_digit(body[i - start]));
            assert(parse_digits(body, limit as nat) is None);
            return None;
        }
        let d: u64 = ((c as u32) - ('0' as u32)) as u64;
        proof {
            assert(body.take(i - start + 1).drop_last() =~= body.take(i - start));
        }
        if acc > (limit - d) / 10 {
            proof {
                assert(digits_value(body.take(i - start + 1)) > limit) by (nonlinear_arith)
                    requires
                        acc > (limit - d) / 10,
                        digits_value(body.take(i - start + 1)) == acc * 10 + d,
                        d <= 9;
                lemma_digits_prefix(body, i - start + 1);
                assert(parse_digits(body, limit as nat) is None);
            }
            return None;
        }
        assert(acc * 10 + d <= limit) by (nonlinear_arith)
            requires
                acc <= (limit - d) / 10,
                d <= 9,
                limit <= 0x8000_0000_0000_0000u64;
        acc = acc * 10 + d;
        i = i + 1;
    }
    assert(body.take(n - start) =~= body);
    if neg {
        if acc == 0x8000_0000_0000_0000u64 {
            Some(i64::MIN)
        } else {
            Some(-(acc as i64))
        }
    } else {
        Some(acc as i64)
    }
}

proof fn lemma_find_variant(vs: Seq<EnumVariant>, name: Seq<char>)
    ensures
        find_variant(vs, name) matches Some(i) ==> 0 <= i < vs.len(),
    decreases vs.len(),
{
    if vs.len() > 0 {
        lemma_find_variant(vs.drop_last(), name);
    }
}

proof fn lemma_find_variant_prefix(vs: Seq<EnumVariant>, name: Seq<char>, k: int)
    requires
        0 <= k <= vs.len(),
        find_variant(vs.take(k), name) is Some,
    ensures
        find_variant(vs, name) == find_variant(vs.take(k), name),
    decreases vs.len() - k,
{
    if k < vs.len() {
        assert(vs.take(k + 1).drop_last() =~= vs.take(k));
        lemma_find_variant_prefix(vs, name, k + 1);
    } else {
        assert(vs.take(k) =~= vs);
    }
}

/// The index of the first enumerator called `name`.
pub fn lookup_variant(vs: &Vec<EnumVariant>, name: &str) -> (r: Option<usize>)
    ensures
        r matches Some(i) ==> find_variant(vs@, name@) == Some(i as int),
        r is None ==> find_variant(vs@, name@) is None,
{
    let mut i: usize = 0;
    assert(vs@.take(0) =~= Seq::<EnumVariant>::empty());
    while i < vs.len()
        invariant
            i <= vs@.len(),
            find_variant(vs@.take(i as int), name@) is None,
        decreases vs.len() - i,
    {
        let hit = str_eq(vs[i].name.as_str(), name);
        proof {
            assert(vs@.take(i + 1).drop_last() =~= vs@.take(i as int));
            assert(vs@.take(i + 1).last() == vs@[i as int]);
        }
        if hit {
            proof {
                lemma_find_variant_prefix(vs@, name@, i + 1);
            }
            return Some(i);
        }
        i = i + 1;
    }
    assert(vs@.take(vs@.len() as int) =~= vs@);
    None
}

/// A type with typedef names followed while `fuel` lasts.
pub fn resolve<'a>(t: &'a IdlType, defs: &'a Vec<Definition>, fuel: usize) -> (r: &'a IdlType)
    ensures
        *r == resolve_type(*t, defs@, fuel as nat),
    decreases fuel,
{
    match t {
        IdlType::Named(n) => {
            match lookup_typedef_base(defs, n.as_str()) {
                Some(b) => {
                    if fuel > 0 {
                        return resolve(b, defs, fuel - 1);
                    }
                    t
                },
                None => t,
            }
        },
        _ => t,
    }
}

/// The kind of a discriminator type.
pub fn disc_kind(t: &IdlType, defs: &Vec<Definition>) -> (r: Option<DiscKind>)
    ensures
        r == disc_kind_of(*t, defs@),
        r matches Some(DiscKind::Enum(i)) ==> i < defs@.len(),
{
    let rt = resolve(t, defs, defs.len());
    match rt {
        IdlType::Primitive(p) => {
            match p {
                PrimitiveType::Boolean => Some(DiscKind::Bool),
                PrimitiveType::Octet | PrimitiveType::UInt8 | PrimitiveType::Int8 | PrimitiveType::Short
                | PrimitiveType::UnsignedShort | PrimitiveType::Int16 | PrimitiveType::UInt16
                | PrimitiveType::Long | PrimitiveType::UnsignedLong | PrimitiveType::Int32
                | PrimitiveType::UInt32 | PrimitiveType::LongLong | PrimitiveType::UnsignedLongLong
                | PrimitiveType::Int64 | PrimitiveType::UInt64 => Some(DiscKind::Int(*p)),
                _ => None,
            }
        },
        IdlType::Named(n) => {
            match lookup_type_def(defs, n.as_str()) {
                Some(i) => {
                    proof {
                        crate::ast::lemma_find_type(defs@, n@);
                    }
                    if let Definition::Enum(_) = &defs[i] {
                        Some(DiscKind::Enum(i))
                    } else {
                        None
                    }
                },
                None => None,
            }
        },
        _ => None,
    }
}

/// The discriminant a case label denotes.
pub fn label_value_of(label: &str, k: DiscKind, defs: &Vec<Definition>) -> (r: Option<i64>)
    requires
        k matches DiscKind::Enum(i) ==> i < defs@.len(),
    ensures
        r == label_value(label@, k, defs@),
{
    match k {
        DiscKind::Bool => {
            if str_eq(label, "TRUE") || str_eq(label, "true") {
                Some(1)
            } else if str_eq(label, "FALSE") || str_eq(label, "false") {
                Some(0)
            } else {
                None
            }
        },
        DiscKind::Int(_) => parse_int_label(label),
        DiscKind::Enum(i) => {
            match &defs[i] {
                Definition::Enum(e) => {
                    match lookup_variant(&e.variants, label) {
                        Some(j) => {
                            proof {
                                lemma_find_variant(e.variants@, label@);
                            }
                            let vr = &e.variants[j];
                            Some(match vr.value {
                                Some(x) => x,
                                None => if (j as u64) <= 0x7fff_ffff_ffff_ffffu64 { j as i64 } else { 0 },
                            })
                        },
                        None => None,
                    }
                },
                _ => None,
            }
        },
    }
}

proof fn lemma_case_values_prefix_none(labels: Seq<UnionLabel>, k: DiscKind, defs: Seq<Definition>, i: int)
    requires
        0 <= i <= labels.len(),
        case_values(labels.take(i), k, defs) is None,
    ensures
        case_values(labels, k, defs) is None,
    decreases labels.len() - i,
{
    if i < labels.len() {
        assert(labels.take(i + 1).drop_last() =~= labels.take(i));
        lemma_case_values_prefix_none(labels, k, defs, i + 1);
    } else {
        assert(labels.take(i) =~= labels);
    }
}

/// The values of the explicit labels of a case.
pub fn case_values_of(labels: &Vec<UnionLabel>, k: DiscKind, defs: &Vec<Definition>) -> (r: Option<Vec<i64>>)
    requires
        k matches DiscKind::Enum(i) ==> i < defs@.len(),
    ensures
        r matches Some(vs) ==> case_values(labels@, k, defs@) == Some(vs@),
        r is None ==> case_values(labels@, k, defs@) is None,
{
    let mut vals: Vec<i64> = Vec::new();
    let mut i: usize = 0;
    assert(labels@.take(0) =~= Seq::<UnionLabel>::empty());
    while i < labels.len()
        invariant
            k matches DiscKind::Enum(j) ==> j < defs@.len(),
            i <= labels@.len(),
            case_values(labels@.take(i as int), k, defs@) == Some(vals@),
        decreases labels.len() - i,
    {
        proof {
            assert(labels@.take(i + 1).drop_last() =~= labels@.take(i as int));
            assert(labels@.take(i + 1).last() == labels@[i as int]);
        }
        match &labels[i] {
            UnionLabel::Default => {},
            UnionLabel::Value(l) => {
                match label_value_of(l.as_str(), k, defs) {
                    Some(x) => vals.push(x),
                    None => {
                        proof {
                            lemma_case_values_prefix_none(labels@, k, defs@, i + 1);
                        }
                        return None;
                    },
                }
            },
        }
        i = i + 1;
    }
    assert(labels@.take(labels@.len() as int) =~= labels@);
    Some(vals)
}

proof fn lemma_all_values_prefix_none(cases: Seq<UnionCase>, k: DiscKind, defs: Seq<Definition>, i: int)
    requires
        0 <= i <= cases.len(),
        all_case_values(cases.take(i), k, defs) is None,
    ensures
        all_case_values(cases, k, defs) is None,
    decreases cases.len() - i,
{
    if i < cases.len() {
        assert(cases.take(i + 1).drop_last() =~= cases.take(i));
        lemma_all_values_prefix_none(cases, k, defs, i + 1);
    } else {
        assert(cases.take(i) =~= cases);
    }
}

proof fn lemma_default_prefix(cases: Seq<UnionCase>, k: int)
    requires
        0 <= k <= cases.len(),
        default_case_index(cases.take(k)) is Some,
    ensures
        default_case_index(cases) == default_case_index(cases.take(k)),
    decreases cases.len() - k,
{
    if k < cases.len() {
        assert(cases.take(k + 1).drop_last() =~= cases.take(k));
        lemma_default_prefix(cases, k + 1);
    } else {
        assert(cases.take(k) =~= cases);
    }
}

/// Whether some case has `v` among its label values.
pub open spec fn some_case_has(vss: Seq<Seq<i64>>, v: i64) -> bool {
    exists|c: int| 0 <= c < vss.len() && (#[trigger] vss[c]).contains(v)
}

/// A value is among the flattened label values exactly when some case has it.
proof fn lemma_flatten_contains(vss: Seq<Seq<i64>>, x: i64)
    ensures
        flatten(vss).contains(x) <==> some_case_has(vss, x),
    decreases vss.len(),
{
    if vss.len() > 0 {
        let init = vss.drop_last();
        lemma_flatten_contains(init, x);
        let f0 = flatten(init);
        let l = vss.last();
        let f = f0 + l;
        assert(flatten(vss) == f);
        if f.contains(x) {
            let j = choose|j: int| 0 <= j < f.len() && f[j] == x;
            if j < f0.len() {
                assert(f0[j] == x);
                let c = choose|c: int| 0 <= c < init.len() && (#[trigger] init[c]).contains(x);
                assert(vss[c] == init[c]);
            } else {
                assert(l[j - f0.len()] == x);
                assert(vss[vss.len() - 1].contains(x));
            }
        }
        if exists|c: int| 0 <= c < vss.len() && (#[trigger] vss[c]).contains(x) {
            let c = choose|c: int| 0 <= c < vss.len() && (#[trigger] vss[c]).contains(x);
            if c < vss.len() - 1 {
                assert(init[c] == vss[c]);
                assert(f0.contains(x));
                let j = choose|j: int| 0 <= j < f0.len() && f0[j] == x;
                assert(f[j] == x);
            } else {
                let j = choose|j: int| 0 <= j < l.len() && l[j] == x;
                assert(f[f0.len() + j] == x);
            }
        }
    }
}

/// The search for a free value from `n` stops at a value not below `n` and
/// at most `fuel` ahead; every value it passed is used, and the value it
/// stops at is free unless the fuel ran out.
proof fn lemma_min_free_from(used: Seq<i64>, n: int, fuel: nat)
    requires
        0 <= n,
        n + fuel <= i64::MAX,
    ensures
        n <= min_free_from(used, n, fuel) <= n + fuel,
        forall|k: int| n <= k < min_free_from(used, n, fuel) ==> #[trigger] used.contains(k as i64),
        min_free_from(used, n, fuel) < n + fuel ==> !used.contains(min_free_from(used, n, fuel) as i64),
    decreases fuel,
{
    if fuel > 0 && used.contains(n as i64) {
        lemma_min_free_from(used, n + 1, (fuel - 1) as nat);
    }
}

/// Among `len + 1` distinct values at most `len` can be in a sequence of
/// length `len`: if every value from 0 to `len - 1` is used, `len` is not.
proof fn lemma_range_exhausts(used: Seq<i64>)
    requires
        used.len() < i64::MAX,
        forall|k: int| 0 <= k < used.len() ==> #[trigger] used.contains(k as i64),
    ensures
        !used.contains(used.len() as i64),
{
    let ints = used.map_values(|x: i64| x as int);
    let l = used.len() as int;
    if used.contains(l as i64) {
        assert(set_int_range(0, l + 1).subset_of(ints.to_set())) by {
            assert forall|k: int| set_int_range(0, l + 1).contains(k) implies ints.to_set().contains(k) by {
                assert(used.contains(k as i64));
                let j = choose|j: int| 0 <= j < used.len() && used[j] == k as i64;
                assert(ints[j] == k);
            }
        }
        ints.lemma_cardinality_of_set();
        lemma_int_range(0, l + 1);
        lemma_len_subset(set_int_range(0, l + 1), ints.to_set());
        assert(false);
    }
}

/// The default discriminant of a union is the least non-negative value that
/// no case label uses: no case has it, and each smaller non-negative value
/// is the label value of some case.
pub proof fn law_default_discriminant_unused(vss: Seq<Seq<i64>>)
    requires
        flatten(vss).len() < i64::MAX,
    ensures
        0 <= default_discriminant(vss) < i64::MAX,
        !some_case_has(vss, default_discriminant(vss) as i64),
        forall|k: int| 0 <= k < default_discriminant(vss) ==> #[trigger] some_case_has(vss, k as i64),
{
    let used = flatten(vss);
    let d = default_discriminant(vss);
    lemma_min_free_from(used, 0, used.len());
    if d == used.len() {
        lemma_range_exhausts(used);
    }
    assert(!used.contains(d as i64));
    lemma_flatten_contains(vss, d as i64);
    assert forall|k: int| 0 <= k < d implies #[trigger] some_case_has(vss, k as i64) by {
        assert(used.contains(k as i64));
        lemma_flatten_contains(vss, k as i64);
    }
}

/// The decimal numeral of `n` is a non-empty string of digits whose value
/// is `n`.
proof fn lemma_decimal_digits(n: nat)
    ensures
        decimal(n).len() > 0,
        forall|i: int| 0 <= i < decimal(n).len() ==> is_digit(#[trigger] decimal(n)[i]),
        digits_value(decimal(n)) == n,
    decreases n,
{
    if n >= 10 {
        lemma_decimal_digits(n / 10);
        let d = decimal(n);
        assert(d.drop_last() =~= decimal(n / 10));
        assert forall|i: int| 0 <= i < d.len() implies is_digit(#[trigger] d[i]) by {
            if i < d.len() - 1 {
                assert(d[i] == decimal(n / 10)[i]);
            }
        }
        lemma_digit_char_value(n % 10);
        assert(digits_value(d) == digits_value(decimal(n / 10)) * 10 + n % 10);
    } else {
        lemma_digit_char_value(n);
        assert(decimal(n).drop_last() =~= Seq::<char>::empty());
        assert(digits_value(Seq::<char>::empty()) == 0);
    }
}

/// The character of a decimal digit is a digit with that value.
proof fn lemma_digit_char_value(k: nat)
    requires
        k < 10,
    ensures
        is_digit(digit_char(k)),
        (digit_char(k) as int) - ('0' as int) == k,
{
}

/// A discriminant value written as the literal the generated code uses for
/// an integer label reads back, as a label, as the same value.
pub proof fn law_label_literal_round_trip(n: i64)
    ensures
        parse_int(signed_decimal(n as int)) == Some(n),
{
    if n < 0 {
        let m = (-(n as int)) as nat;
        lemma_decimal_digits(m);
        let s = signed_decimal(n as int);
        assert(s.drop_first() =~= decimal(m));
        assert(s[0] == '-');
    } else {
        lemma_decimal_digits(n as nat);
        assert(is_digit(decimal(n as nat)[0]));
    }
}

/// Whether a case has the `default` label.
fn any_default_label(labels: &Vec<UnionLabel>) -> (r: bool)
    ensures
        r == has_default_label(labels@),
{
    let mut i: usize = 0;
    while i < labels.len()
        invariant
            i <= labels@.len(),
            forall|j: int| 0 <= j < i ==> !(labels@[j] is Default),
        decreases labels.len() - i,
    {
        if let UnionLabel::Default = &labels[i] {
            return true;
        }
        i = i + 1;
    }
    false
}

/// Whether `n` is among the values.
fn contains_value(used: &Vec<i64>, n: i64) -> (r: bool)
    ensures
        r == used@.contains(n),
{
    let mut i: usize = 0;
    while i < used.len()
        invariant
            i <= used@.len(),
            forall|j: int| 0 <= j < i ==> used@[j] != n,
        decreases used.len() - i,
    {
        if used[i] == n {
            return true;
        }
        i = i + 1;
    }
    false
}

/// The least non-negative value not among `used`.
pub fn min_free(used: &Vec<i64>) -> (r: i64)
    ensures
        r == #[verifier::truncate] (min_free_from(used@, 0, used@.len()) as i64),
{
    let mut n: usize = 0;
    let mut fuel: usize = used.len();
    while fuel > 0
        invariant
            n + fuel == used@.len(),
            used@.len() == used.len(),
            min_free_from(used@, n as int, fuel as nat) == min_free_from(used@, 0, used@.len()),
        decreases fuel,
    {
        if !contains_value(used, #[verifier::truncate] (n as i64)) {
            return #[verifier::truncate] (n as i64);
        }
        n = n + 1;
        fuel = fuel - 1;
    }
    #[verifier::truncate] (n as i64)
}

/// Computes the plan of a union, or why it cannot be generated.
pub fn plan_union(u: &Union, defs: &Vec<Definition>) -> (r: Result<UnionPlan, GenErrorKind>)
    ensures
        r matches Ok(p) ==> union_plan(*u, defs@) == Ok::<(DiscKind, Seq<Seq<i64>>, Option<int>, i64), GenErrorKind>(plan_view(p)),
        r matches Err(e) ==> union_plan(*u, defs@) == Err::<(DiscKind, Seq<Seq<i64>>, Option<int>, i64), GenErrorKind>(e),
        r matches Ok(p) ==> p.values@.len() == u.cases@.len() && (p.kind matches DiscKind::Enum(i) ==> i < defs@.len())
            && (p.default_case matches Some(j) ==> j < u.cases@.len()),
{
    let k = match disc_kind(&u.discriminator, defs) {
        Some(k) => k,
        None => {
            return Err(GenErrorKind::InvalidDiscriminator);
        },
    };
    let mut values: Vec<Vec<i64>> = Vec::new();
    let mut flat: Vec<i64> = Vec::new();
    let mut dc: Option<usize> = None;
    let mut i: usize = 0;
    assert(u.cases@.take(0) =~= Seq::<UnionCase>::empty());
    while i < u.cases.len()
        invariant
            k matches DiscKind::Enum(j) ==> j < defs@.len(),
            disc_kind_of(u.discriminator, defs@) == Some(k),
            i <= u.cases@.len(),
            all_case_values(u.cases@.take(i as int), k, defs@) == Some(values_view(values@)),
            values@.len() == i,
            flat@ == flatten(values_view(values@)),
            dc matches Some(j) ==> default_case_index(u.cases@.take(i as int)) == Some(j as int) && j < i,
            dc is None ==> default_case_index(u.cases@.take(i as int)) is None,
        decreases u.cases.len() - i,
    {
        let c = &u.cases[i];
        proof {
            assert(u.cases@.take(i + 1).drop_last() =~= u.cases@.take(i as int));
            assert(u.cases@.take(i + 1).last() == u.cases@[i as int]);
        }
        let vs = match case_values_of(&c.labels, k, defs) {
            Some(vs) => vs,
            None => {
                proof {
                    assert(all_case_values(u.cases@.take(i + 1), k, defs@) is None);
                    lemma_all_values_prefix_none(u.cases@, k, defs@, i + 1);
                }
                return Err(GenErrorKind::InvalidUnionLabel);
            },
        };
        if dc.is_none() && any_default_label(&c.labels) {
            dc = Some(i);
        }
        let ghost old_values = values@;
        let mut j: usize = 0;
        let ghost flat0 = flat@;
        while j < vs.len()
            invariant
                j <= vs@.len(),
                flat@ == flat0 + vs@.take(j as int),
            decreases vs.len() - j,
        {
            flat.push(vs[j]);
            j = j + 1;
            assert(flat@ =~= flat0 + vs@.take(j as int));
        }
        assert(vs@.take(vs@.len() as int) =~= vs@);
        values.push(vs);
        proof {
            assert(values_view(values@) =~= values_view(old_values).push(values@[i as int]@));
            assert(values_view(values@).drop_last() =~= values_view(old_values));
        }
        i = i + 1;
    }
    assert(u.cases@.take(u.cases@.len() as int) =~= u.cases@);
    proof {
        match dc {
            Some(j) => {
                lemma_default_prefix(u.cases@, u.cases@.len() as int);
            },
            None => {},
        }
    }
    let dv = min_free(&flat);
    let is_bool = match k {
        DiscKind::Bool => true,
        _ => false,
    };
    if dc.is_some() && is_bool && dv > 1 {
        return Err(GenErrorKind::UnionDefaultExhausted);
    }
    let plan = UnionPlan { kind: k, values, default_case: dc, default_value: dv };
    assert(plan_view(plan).1 == values_view(plan.values@));
    Ok(plan)
}

/// The literal of a discriminant value.
pub fn disc_lit(out: &mut String, n: i64, k: DiscKind)
    ensures
        final(out)@ == old(out)@ + disc_lit_text(n, k),
{
    match k {
        DiscKind::Bool => append_bool(out, n != 0),
        _ => append_signed_decimal(out, n),
    }
}

/// Appends the statement that encodes discriminant `n`.
pub fn disc_put(out: &mut String, k: DiscKind, n: i64, v: CdrVersion)
    ensures
        final(out)@ == disc_put_text(old(out)@, k, n, v),
{
    let ghost pre = old(out)@;
    match k {
        DiscKind::Bool => {
            out.append("                __cdr_put(dst, &mut offset, 1, &[u8::from(");
            disc_lit(out, n, k);
            out.append(")])?;\n");
        },
        DiscKind::Int(p) => {
            out.append("                __cdr_put(dst, &mut offset, ");
            let a = alignment_in(v, &IdlType::Primitive(p));
            append_decimal(out, a as u64);
            out.append(", &(");
            disc_lit(out, n, k);
            out.append(" as ");
            let rt = prim_rust(p);
            out.append(rt.as_str());
            out.append(").to_le_bytes())?;\n");
        },
        DiscKind::Enum(_) => {
            out.append("                __cdr_put(dst, &mut offset, 4, &(");
            disc_lit(out, n, k);
            out.append(" as i32).to_le_bytes())?;\n");
        },
    }
    assert(out@ =~= disc_put_text(pre, k, n, v));
}

/// The expression that decodes the discriminant.
pub fn disc_read(k: DiscKind, v: CdrVersion) -> (r: String)
    ensures
        r@ == disc_read_text(k, v),
{
    match k {
        DiscKind::Bool => "(__cdr_array::<1>(src, &mut offset, 1)?[0] != 0)".to_owned(),
        DiscKind::Int(p) => emit_prim_decode(p, v),
        DiscKind::Enum(_) => "i32::from_le_bytes(__cdr_array(src, &mut offset, 4)?)".to_owned(),
    }
}

/// The label values of a case as a match pattern.
pub fn labels_list(vals: &Vec<i64>, k: DiscKind) -> (r: String)
    ensures
        r@ == labels_text(vals@, k),
{
    let mut out = String::new();
    let mut i: usize = 0;
    assert(vals@.take(0) =~= Seq::<i64>::empty());
    while i < vals.len()
        invariant
            i <= vals@.len(),
            out@ == labels_text(vals@.take(i as int), k),
        decreases vals.len() - i,
    {
        proof {
            assert(vals@.take(i + 1).drop_last() =~= vals@.take(i as int));
            assert(vals@.take(i + 1).last() == vals@[i as int]);
        }
        if i > 0 {
            out.append(" | ");
        } else {
            assert(out@ =~= Seq::<char>::empty());
            assert(vals@.take(1)[0] == vals@[0]);
        }
        disc_lit(&mut out, vals[i], k);
        i = i + 1;
    }
    assert(vals@.take(vals@.len() as int) =~= vals@);
    out
}

/// The decoded value of a case member.
pub fn case_ctor(f: &Field, v: CdrVersion, defs: &Vec<Definition>) -> (r: String)
    ensures
        r@ == case_ctor_text(*f, v, defs@),
{
    let d = emit_decode(&f.field_type, v, defs, defs.len(), true);
    if any_external(&f.annotations) {
        let mut out = "Box::new(".to_owned();
        out.append(d.as_str());
        out.append(")");
        out
    } else {
        d
    }
}

/// The default value of a case member.
pub fn default_ctor(f: &Field) -> (r: String)
    ensures
        r@ == default_ctor_text(*f),
{
    let d = default_value(&f.field_type);
    if any_external(&f.annotations) {
        let mut out = "Box::new(".to_owned();
        out.append(d.as_str());
        out.append(")");
        out
    } else {
        d
    }
}

/// The Rust enum of a union and its `Default`.
pub fn emit_union_decl(u: &Union, dc: Option<usize>) -> (r: String)
    requires
        dc matches Some(j) ==> j < u.cases@.len(),
    ensures
        r@ == union_decl_text(*u, match dc { Some(j) => Some(j as int), None => None }),
{
    let mut out = String::new();
    out.append("#[derive(Debug, Clone, PartialEq)]\n");
    out.append("pub enum ");
    out.append(u.name.as_str());
    out.append(" {\n");
    let ghost h = out@;
    let mut i: usize = 0;
    assert(u.cases@.take(0) =~= Seq::<UnionCase>::empty());
    while i < u.cases.len()
        invariant
            i <= u.cases@.len(),
            out@ == union_variants_text(h, u.cases@.take(i as int)),
        decreases u.cases.len() - i,
    {
        let c = &u.cases[i];
        proof {
            assert(u.cases@.take(i + 1).drop_last() =~= u.cases@.take(i as int));
            assert(u.cases@.take(i + 1).last() == u.cases@[i as int]);
        }
        out.append("    ");
        { let cn = to_camel(c.field.name.as_str()); out.append(cn.as_str()); }
        out.append("(");
        { let mt = member_type(&c.field.field_type, any_external(&c.field.annotations), false); out.append(mt.as_str()); }
        out.append("),\n");
        i = i + 1;
    }
    assert(u.cases@.take(u.cases@.len() as int) =~= u.cases@);
    out.append("}\n\n");
    if u.cases.len() > 0 {
        let idx = match dc {
            Some(j) => j,
            None => 0,
        };
        let c = &u.cases[idx];
        out.append("impl Default for ");
        out.append(u.name.as_str());
        out.append(" {\n");
        out.append("    fn default() -> Self {\n");
        out.append("        Self::");
        { let cn = to_camel(c.field.name.as_str()); out.append(cn.as_str()); }
        out.append("(");
        { let dc = default_ctor(&c.field); out.append(dc.as_str()); }
        out.append(")\n");
        out.append("    }\n");
        out.append("}\n\n");
    }
    out
}

/// The encode method block of a union for one version.
pub fn emit_union_encode(u: &Union, plan: &UnionPlan, v: CdrVersion, defs: &Vec<Definition>) -> (r: String)
    requires
        plan.values@.len() == u.cases@.len(),
    ensures
        r@ == union_encode_text(*u, values_view(plan.values@), plan.kind, plan.default_value, v, defs@),
{
    let ghost vss = values_view(plan.values@);
    let mut out = String::new();
    out.append("impl ");
    out.append(u.name.as_str());
    out.append(" {\n");
    out.append("    pub fn encode_");
    out.append(suffix(v));
    out.append("_le(&self, dst: &mut [u8]) -> Result<usize, CdrError> {\n");
    out.append("        let mut offset: usize = 0;\n");
    out.append("        match self {\n");
    let ghost h = out@;
    let mut i: usize = 0;
    assert(u.cases@.take(0) =~= Seq::<UnionCase>::empty());
    assert(vss.take(0) =~= Seq::<Seq<i64>>::empty());
    while i < u.cases.len()
        invariant
            i <= u.cases@.len(),
            plan.values@.len() == u.cases@.len(),
            vss == values_view(plan.values@),
            out@ == union_enc_arms_text(h, u.cases@.take(i as int), vss.take(i as int), plan.kind, plan.default_value, v, defs@),
        decreases u.cases.len() - i,
    {
        let c = &u.cases[i];
        let vals = &plan.values[i];
        proof {
            assert(u.cases@.take(i + 1).drop_last() =~= u.cases@.take(i as int));
            assert(u.cases@.take(i + 1).last() == u.cases@[i as int]);
            assert(vss.take(i + 1).drop_last() =~= vss.take(i as int));
            assert(vss.take(i + 1).last() == vals@);
        }
        out.append("            Self::");
        { let cn = to_camel(c.field.name.as_str()); out.append(cn.as_str()); }
        out.append("(v) => {\n");
        let n = if vals.len() > 0 { vals[0] } else { plan.default_value };
        disc_put(&mut out, plan.kind, n, v);
        emit_encode(&mut out, &c.field.field_type, "v", if any_external(&c.field.annotations) { 2 } else { 1 }, v, defs, defs.len(), "                ");
        out.append("            }\n");
        i = i + 1;
    }
    assert(u.cases@.take(u.cases@.len() as int) =~= u.cases@);
    assert(vss.take(vss.len() as int) =~= vss);
    out.append("        }\n");
    out.append("        Ok(offset)\n");
    out.append("    }\n");
    out.append("\n");
    emit_encode_at(&mut out, v);
    out.append("}\n\n");
    out
}

/// The decode method block of a union for one version.
pub fn emit_union_decode(u: &Union, plan: &UnionPlan, v: CdrVersion, defs: &Vec<Definition>) -> (r: String)
    requires
        plan.values@.len() == u.cases@.len(),
        plan.default_case matches Some(j) ==> j < u.cases@.len(),
    ensures
        r@ == union_decode_text(*u, values_view(plan.values@), plan.kind, match plan.default_case { Some(j) => Some(j as int), None => None }, v, defs@),
{
    let ghost vss = values_view(plan.values@);
    let k = plan.kind;
    let mut out = String::new();
    out.append("impl ");
    out.append(u.name.as_str());
    out.append(" {\n");
    out.append("    pub fn decode_");
    out.append(suffix(v));
    out.append("_le(src: &[u8]) -> Result<(Self, usize), CdrError> {\n");
    out.append("        let mut offset: usize = 0;\n");
    out.append("        let disc = ");
    { let dr = disc_read(k, v); out.append(dr.as_str()); }
    out.append(";\n");
    out.append("        let value = match disc {\n");
    let ghost h = out@;
    let mut i: usize = 0;
    assert(u.cases@.take(0) =~= Seq::<UnionCase>::empty());
    assert(vss.take(0) =~= Seq::<Seq<i64>>::empty());
    while i < u.cases.len()
        invariant
            i <= u.cases@.len(),
            plan.values@.len() == u.cases@.len(),
            vss == values_view(plan.values@),
            k == plan.kind,
            out@ == union_dec_arms_text(h, u.cases@.take(i as int), vss.take(i as int), k, v, defs@),
        decreases u.cases.len() - i,
    {
        let c = &u.cases[i];
        let vals = &plan.values[i];
        proof {
            assert(u.cases@.take(i + 1).drop_last() =~= u.cases@.take(i as int));
            assert(u.cases@.take(i + 1).last() == u.cases@[i as int]);
            assert(vss.take(i + 1).drop_last() =~= vss.take(i as int));
            assert(vss.take(i + 1).last() == vals@);
        }
        if vals.len() > 0 {
            out.append("            ");
            { let lt = labels_list(vals, k); out.append(lt.as_str()); }
            out.append(" => Self::");
            { let cn = to_camel(c.field.name.as_str()); out.append(cn.as_str()); }
            out.append("(");
            { let cc = case_ctor(&c.field, v, defs); out.append(cc.as_str()); }
            out.append("),\n");
        }
        i = i + 1;
    }
    assert(u.cases@.take(u.cases@.len() as int) =~= u.cases@);
    assert(vss.take(vss.len() as int) =~= vss);
    match plan.default_case {
        Some(j) => {
            let c = &u.cases[j];
            out.append("            _ => Self::");
            { let cn = to_camel(c.field.name.as_str()); out.append(cn.as_str()); }
            out.append("(");
            { let cc = case_ctor(&c.field, v, defs); out.append(cc.as_str()); }
            out.append("),\n");
        },
        None => {
            out.append("            _ => return Err(CdrError::InvalidEncoding),\n");
        },
    }
    out.append("        };\n");
    out.append("        Ok((value, offset))\n");
    out.append("    }\n");
    out.append("\n");
    emit_decode_at(&mut out, v);
    out.append("}\n\n");
    out
}

/// All the code emitted for a union, or why it cannot be generated.
pub fn emit_union(u: &Union, defs: &Vec<Definition>) -> (r: Result<String, GenErrorKind>)
    ensures
        r matches Ok(t) ==> union_text(*u, defs@) == Ok::<Seq<char>, GenErrorKind>(t@),
        r matches Err(e) ==> union_text(*u, defs@) == Err::<Seq<char>, GenErrorKind>(e),
{
    let plan = match plan_union(u, defs) {
        Ok(p) => p,
        Err(e) => {
            return Err(e);
        },
    };
    let mut out = emit_union_decl(u, plan.default_case);
    let a = emit_union_encode(u, &plan, CdrVersion::Xcdr1, defs);
    out.append(a.as_str());
    let b = emit_union_encode(u, &plan, CdrVersion::Xcdr2, defs);
    out.append(b.as_str());
    let c = emit_union_decode(u, &plan, CdrVersion::Xcdr1, defs);
    out.append(c.as_str());
    let d = emit_union_decode(u, &plan, CdrVersion::Xcdr2, defs);
    out.append(d.as_str());
    let g = emit_delegators(u.name.as_str(), CdrVersion::Xcdr2);
    out.append(g.as_str());
    Ok(out)
}

} // verus!
