//! In-memory layout of generated types, XCDR alignment, and type hashing.

use vstd::prelude::*;
use crate::ast::Field;
use crate::generator::RustGenerator;
use crate::types::{IdlType, PrimitiveType, has_optional};
use vstd::string::StringSliceAdditionalSpecFns;
use vstd::arithmetic::div_mod::{
    lemma_fundamental_div_mod, lemma_fundamental_div_mod_converse, lemma_mod_multiples_basic, lemma_small_mod,
};
use vstd::arithmetic::power::pow;
use vstd::arithmetic::power2::{is_pow2, is_pow2_equiv, lemma_pow2_strictly_increases, pow2};
use vstd::bits::{lemma_usize_low_bits_mask_is_mod, low_bits_mask};
use vstd::layout::unsigned_int_max_values;
use vstd::arithmetic::mul::{
    lemma_mul_inequality, lemma_mul_is_associative, lemma_mul_is_commutative, lemma_mul_is_distributive_add_other_way,
};

verus! {

/// Size, alignment and `PrimitiveKind` name of a primitive type.
pub open spec fn primitive_info(p: PrimitiveType) -> (nat, nat, Seq<char>) {
    match p {
        PrimitiveType::Octet | PrimitiveType::UInt8 | PrimitiveType::Int8
        | PrimitiveType::Char | PrimitiveType::Boolean => (1, 1, "U8"@),
        PrimitiveType::Short | PrimitiveType::Int16 => (2, 2, "I16"@),
        PrimitiveType::UnsignedShort | PrimitiveType::UInt16 => (2, 2, "U16"@),
        PrimitiveType::Long | PrimitiveType::Int32 => (4, 4, "I32"@),
        PrimitiveType::UnsignedLong | PrimitiveType::UInt32 | PrimitiveType::Void
        | PrimitiveType::WChar => (4, 4, "U32"@),
        PrimitiveType::LongLong | PrimitiveType::Int64 => (8, 8, "I64"@),
        PrimitiveType::UnsignedLongLong | PrimitiveType::UInt64 => (8, 8, "U64"@),
        PrimitiveType::Float => (4, 4, "F32"@),
        PrimitiveType::Double => (8, 8, "F64"@),
        PrimitiveType::LongDouble => (16, 8, "F64"@),
        PrimitiveType::String | PrimitiveType::WString => (24, 8, "String"@),
        PrimitiveType::Fixed { .. } => (16, 8, "I64"@),
    }
}

/// Whether a type is `char` or `wchar` (the element type of a bounded string).
pub open spec fn is_char_prim(t: IdlType) -> bool {
    t matches IdlType::Primitive(p) && (p is Char || p is WChar)
}

/// Size in bytes of the generated Rust representation of a type.
pub open spec fn type_size(t: IdlType) -> nat
    decreases t,
{
    match t {
        IdlType::Primitive(p) => primitive_info(p).0,
        IdlType::Sequence { .. } => 24,
        IdlType::Array { inner, size } => type_size(*inner) * (size as nat),
        IdlType::MapType { .. } => 48,
        IdlType::Named(_) => 4,
    }
}

/// Alignment of the generated Rust representation of a type.
pub open spec fn type_align(t: IdlType) -> nat
    decreases t,
{
    match t {
        IdlType::Primitive(p) => primitive_info(p).1,
        IdlType::Sequence { .. } => 8,
        IdlType::Array { inner, .. } => type_align(*inner),
        IdlType::MapType { .. } => 8,
        IdlType::Named(_) => 4,
    }
}

/// `PrimitiveKind` name used in a type descriptor for a type.
pub open spec fn type_kind(t: IdlType) -> Seq<char>
    decreases t,
{
    match t {
        IdlType::Primitive(p) => primitive_info(p).2,
        IdlType::Sequence { inner, .. } => if is_char_prim(*inner) { "String"@ } else { "U64"@ },
        IdlType::Array { inner, .. } => type_kind(*inner),
        IdlType::MapType { .. } => "U64"@,
        IdlType::Named(_) => "U32"@,
    }
}

/// Whether the sizes of a type and of every array element type inside it fit
/// in a `usize`.
pub open spec fn size_fits(t: IdlType) -> bool
    decreases t,
{
    type_size(t) <= usize::MAX && match t {
        IdlType::Array { inner, .. } => size_fits(*inner),
        _ => true,
    }
}

/// The alignments used by the layout: 1, 2, 4 or 8.
pub open spec fn is_layout_align(a: nat) -> bool {
    a == 1 || a == 2 || a == 4 || a == 8
}

/// The least multiple of `a` that is not below `offset`.
pub open spec fn round_up(offset: nat, a: nat) -> nat
    recommends
        a > 0,
{
    offset + (((a as int) - (offset % a) as int) % (a as int)) as nat
}

/// Offset just past the last member, when members are laid out in order,
/// each at the next multiple of its alignment.
pub open spec fn fields_end(fields: Seq<Field>) -> nat
    decreases fields.len(),
{
    if fields.len() == 0 {
        0
    } else {
        round_up(fields_end(fields.drop_last()), type_align(fields.last().field_type))
            + type_size(fields.last().field_type)
    }
}

/// Offset of member `i`.
pub open spec fn field_offset(fields: Seq<Field>, i: int) -> nat {
    round_up(fields_end(fields.take(i)), type_align(fields[i].field_type))
}

/// The largest member alignment, and 1 for a struct without members.
pub open spec fn fields_max_align(fields: Seq<Field>) -> nat
    decreases fields.len(),
{
    if fields.len() == 0 {
        1
    } else {
        let m = fields_max_align(fields.drop_last());
        let a = type_align(fields.last().field_type);
        if a > m { a } else { m }
    }
}

/// XCDR version 1 alignment of a type (DDS-XTypes 1.3, 7.4.1.1.1, Table 31).
pub open spec fn xcdr1_align(t: IdlType) -> nat
    decreases t,
{
    match t {
        IdlType::Primitive(p) => match p {
            PrimitiveType::Octet | PrimitiveType::UInt8 | PrimitiveType::Int8
            | PrimitiveType::Boolean | PrimitiveType::Char | PrimitiveType::Void
            | PrimitiveType::Fixed { .. } => 1,
            PrimitiveType::Short | PrimitiveType::UnsignedShort | PrimitiveType::Int16
            | PrimitiveType::UInt16 => 2,
            PrimitiveType::Long | PrimitiveType::UnsignedLong | PrimitiveType::Int32
            | PrimitiveType::UInt32 | PrimitiveType::Float | PrimitiveType::WChar
            | PrimitiveType::String | PrimitiveType::WString => 4,
            PrimitiveType::LongLong | PrimitiveType::UnsignedLongLong | PrimitiveType::Int64
            | PrimitiveType::UInt64 | PrimitiveType::Double | PrimitiveType::LongDouble => 8,
        },
        IdlType::Array { inner, .. } => xcdr1_align(*inner),
        IdlType::Sequence { .. } | IdlType::MapType { .. } | IdlType::Named(_) => 4,
    }
}

/// XCDR version 2 alignment: version 1's, capped at 4 (DDS-XTypes 1.3, 7.4.2).
pub open spec fn xcdr2_align(t: IdlType) -> nat
    decreases t,
{
    match t {
        IdlType::Array { inner, .. } => xcdr2_align(*inner),
        _ => if xcdr1_align(t) > 4 { 4 } else { xcdr1_align(t) },
    }
}

/// Whether a type has a variable encoded size.
pub open spec fn variable_size(t: IdlType) -> bool
    decreases t,
{
    match t {
        IdlType::Primitive(p) => p is String || p is WString,
        IdlType::Sequence { .. } | IdlType::MapType { .. } => true,
        IdlType::Array { inner, .. } => variable_size(*inner),
        IdlType::Named(_) => false,
    }
}

/// FNV-1a (32 bit) of a byte string.
pub open spec fn fnv1a(bytes: Seq<u8>) -> u32
    decreases bytes.len(),
{
    if bytes.len() == 0 {
        2166136261u32
    } else {
        (fnv1a(bytes.drop_last()) ^ (bytes.last() as u32)).wrapping_mul(16777619u32)
    }
}

/// Whether every member's size fits in a `usize`, and so does the end of the
/// last member plus the largest alignment (the room that rounding the struct
/// size up may take).
pub open spec fn layout_fits(fields: Seq<Field>) -> bool {
    &&& fields_end(fields) + fields_max_align(fields) <= usize::MAX
    &&& forall|i: int| 0 <= i < fields.len() ==> size_fits(#[trigger] fields[i].field_type)
}

/// Whether a member is optional or of variable size.
pub open spec fn field_is_variable(f: Field) -> bool {
    has_optional(f.annotations@) || variable_size(f.field_type)
}

/// The offset reached after a prefix of the members never exceeds the
/// offset reached after all of them.
pub proof fn lemma_fields_end_monotonic(fields: Seq<Field>, i: int)
    requires
        0 <= i <= fields.len(),
    ensures
        fields_end(fields.take(i)) <= fields_end(fields),
    decreases fields.len() - i,
{
    if i < fields.len() {
        lemma_fields_end_monotonic(fields, i + 1);
        assert(fields.take(i + 1).drop_last() =~= fields.take(i));
    } else {
        assert(fields.take(i) =~= fields);
    }
}

/// Every type's alignment in the generated Rust form is 1, 2, 4 or 8.
pub proof fn lemma_type_align_is_layout_align(t: IdlType)
    ensures
        is_layout_align(type_align(t)),
    decreases t,
{
    if let IdlType::Array { inner, .. } = t {
        lemma_type_align_is_layout_align(*inner);
    }
}

/// Whether a name is one of the `PrimitiveKind` names a type descriptor uses.
pub open spec fn is_primitive_kind_name(k: Seq<char>) -> bool {
    k == "U8"@ || k == "I16"@ || k == "U16"@ || k == "I32"@ || k == "U32"@ || k == "I64"@ || k == "U64"@
        || k == "F32"@ || k == "F64"@ || k == "String"@
}

/// The generated Rust form of every type is aligned to 1, 2, 4 or 8, its
/// size is a multiple of that alignment, and its descriptor kind is one of
/// the `PrimitiveKind` names.
pub proof fn law_type_size_multiple_of_align(t: IdlType)
    ensures
        is_layout_align(type_align(t)),
        type_size(t) % type_align(t) == 0,
        is_primitive_kind_name(type_kind(t)),
    decreases t,
{
    lemma_type_align_is_layout_align(t);
    if let IdlType::Array { inner, size } = t {
        law_type_size_multiple_of_align(*inner);
        let a = type_align(*inner) as int;
        let z = type_size(*inner) as int;
        let k = z / a;
        lemma_fundamental_div_mod(z, a);
        assert(z == k * a) by {
            lemma_mul_is_commutative(a, k);
        }
        assert(z * (size as int) == (k * (size as int)) * a) by {
            lemma_mul_is_associative(k, a, size as int);
            lemma_mul_is_associative(k, size as int, a);
            lemma_mul_is_commutative(a, size as int);
        }
        lemma_mod_multiples_basic(k * (size as int), a);
    }
}

/// The largest member alignment is 1, 2, 4 or 8, and no member's alignment
/// exceeds it.
pub proof fn lemma_fields_max_align(fields: Seq<Field>)
    ensures
        is_layout_align(fields_max_align(fields)),
        forall|i: int| 0 <= i < fields.len() ==> type_align(#[trigger] fields[i].field_type) <= fields_max_align(fields),
    decreases fields.len(),
{
    if fields.len() > 0 {
        lemma_fields_max_align(fields.drop_last());
        lemma_type_align_is_layout_align(fields.last().field_type);
        assert forall|i: int| 0 <= i < fields.len() implies type_align(#[trigger] fields[i].field_type) <= fields_max_align(fields) by {
            if i < fields.len() - 1 {
                assert(fields.drop_last()[i] == fields[i]);
            }
        }
    }
}

/// XCDR version 2 alignment is the version 1 alignment capped at 4: every
/// version 1 alignment is 1, 2, 4 or 8; one of at most 4 is kept, one of 8
/// becomes 4; sequences, maps and named types are aligned to 4 under both
/// versions; and an array is aligned as its element type under both.
pub proof fn law_xcdr2_alignment_caps_xcdr1(t: IdlType)
    ensures
        is_layout_align(xcdr1_align(t)),
        xcdr1_align(t) <= 4 ==> xcdr2_align(t) == xcdr1_align(t),
        xcdr1_align(t) == 8 ==> xcdr2_align(t) == 4,
        (t is Sequence || t is MapType || t is Named) ==> xcdr1_align(t) == 4 && xcdr2_align(t) == 4,
        t matches IdlType::Array { inner, .. } ==> xcdr1_align(t) == xcdr1_align(*inner)
            && xcdr2_align(t) == xcdr2_align(*inner),
    decreases t,
{
    if let IdlType::Array { inner, .. } = t {
        law_xcdr2_alignment_caps_xcdr1(*inner);
    }
}

/// The layout alignments are powers of two.
pub proof fn lemma_layout_align_is_pow2(a: nat)
    requires
        is_layout_align(a),
    ensures
        is_pow2(a as int),
{
    reveal_with_fuel(is_pow2, 5);
    assert(is_pow2(1));
    assert(is_pow2(2));
    assert(is_pow2(4));
    assert(is_pow2(8));
}

/// Rounding up, by the quotient and remainder of the offset: the offset
/// itself when it is a multiple, else the next multiple; and the same value
/// as the offset plus `a - 1` with its remainder removed.
proof fn lemma_round_up_by_parts(o: nat, a: nat)
    requires
        a > 0,
    ensures
        round_up(o, a) == if o % a == 0 { o as int } else { ((o / a + 1) * a) as int },
        (o + a - 1) - (o + a - 1) % (a as int) == round_up(o, a),
{
    let q = (o / a) as int;
    let s = (o % a) as int;
    lemma_fundamental_div_mod(o as int, a as int);
    assert(o == q * a + s) by {
        lemma_mul_is_commutative(a as int, q);
    }
    if s == 0 {
        lemma_fundamental_div_mod_converse(o + a - 1, a as int, q, a - 1);
        lemma_fundamental_div_mod_converse(a as int, a as int, 1, 0);
    } else {
        assert((q + 1) * a == q * a + a) by {
            lemma_mul_is_distributive_add_other_way(a as int, q, 1);
        }
        lemma_fundamental_div_mod_converse(o + a - 1, a as int, q + 1, s - 1);
        lemma_small_mod((a - s) as nat, a);
    }
}

/// Rounding up to a positive alignment gives the least multiple of the
/// alignment that is not below the offset.
pub proof fn law_round_up_least_multiple(offset: nat, a: nat, m: nat)
    requires
        a > 0,
    ensures
        round_up(offset, a) % a == 0,
        offset <= round_up(offset, a) < offset + a,
        offset <= m && m % a == 0 ==> round_up(offset, a) <= m,
{
    lemma_round_up_by_parts(offset, a);
    let q = (offset / a) as int;
    let s = (offset % a) as int;
    lemma_fundamental_div_mod(offset as int, a as int);
    assert(offset == q * a + s) by {
        lemma_mul_is_commutative(a as int, q);
    }
    if s != 0 {
        assert((q + 1) * a == q * a + a) by {
            lemma_mul_is_distributive_add_other_way(a as int, q, 1);
        }
        lemma_fundamental_div_mod_converse((q + 1) * a, a as int, q + 1, 0);
        if offset <= m && m % a == 0 {
            let k = (m / a) as int;
            lemma_fundamental_div_mod(m as int, a as int);
            assert(m == k * a) by {
                lemma_mul_is_commutative(a as int, k);
            }
            assert(k * a > q * a);
            assert(k > q) by {
                if k <= q {
                    lemma_mul_inequality(k, q, a as int);
                }
            }
            assert(k * a >= (q + 1) * a) by {
                lemma_mul_inequality(q + 1, k, a as int);
            }
        }
    }
}

/// In the struct layout each member starts at a multiple of its alignment,
/// at or after the end of the member before it, and ends at or before the
/// end of the last member; the struct size (that end rounded up to the
/// largest member alignment) is a multiple of every member's alignment and
/// not below that end.
pub proof fn law_struct_layout_members(fields: Seq<Field>, i: int)
    requires
        0 <= i < fields.len(),
    ensures
        field_offset(fields, i) % type_align(fields[i].field_type) == 0,
        i > 0 ==> field_offset(fields, i - 1) + type_size(fields[i - 1].field_type) <= field_offset(fields, i),
        field_offset(fields, i) + type_size(fields[i].field_type) <= fields_end(fields),
        round_up(fields_end(fields), fields_max_align(fields)) % type_align(fields[i].field_type) == 0,
        fields_end(fields) <= round_up(fields_end(fields), fields_max_align(fields)),
{
    let a = type_align(fields[i].field_type);
    lemma_type_align_is_layout_align(fields[i].field_type);
    lemma_fields_max_align(fields);
    let m = fields_max_align(fields);
    law_round_up_least_multiple(fields_end(fields.take(i)), a, 0);
    lemma_fields_end_monotonic(fields, i + 1);
    assert(fields.take(i + 1).drop_last() =~= fields.take(i));
    assert(fields.take(i + 1).last() == fields[i]);
    if i > 0 {
        assert(fields.take(i).drop_last() =~= fields.take(i - 1));
        assert(fields.take(i).last() == fields[i - 1]);
        lemma_type_align_is_layout_align(fields[i - 1].field_type);
        law_round_up_least_multiple(fields_end(fields.take(i - 1)), type_align(fields[i - 1].field_type), 0);
    }
    law_round_up_least_multiple(fields_end(fields), m, 0);
    let r = round_up(fields_end(fields), m);
    assert(type_align(fields[i].field_type) <= m);
    lemma_divides_smaller_align(r, a, m);
}

/// A multiple of one layout alignment is a multiple of every smaller one.
proof fn lemma_divides_smaller_align(r: nat, a: nat, m: nat)
    requires
        is_layout_align(a),
        is_layout_align(m),
        a <= m,
        r % m == 0,
    ensures
        r % a == 0,
{
    if m == 8 {
        assert(r % 8 == 0);
        assert(r % 4 == 0 && r % 2 == 0 && r % 1 == 0);
    } else if m == 4 {
        assert(r % 4 == 0);
        assert(r % 2 == 0 && r % 1 == 0);
    } else if m == 2 {
        assert(r % 2 == 0);
        assert(r % 1 == 0);
    }
}

impl RustGenerator {
    /// Rounds `offset` up to the next multiple of `alignment` by clearing the
    /// low bits of `offset + alignment - 1`; for a power of two that is the
    /// least multiple of it not below `offset`.
    pub fn align_to(offset: usize, alignment: usize) -> (r: usize)
        requires
            alignment > 0,
            offset + alignment <= usize::MAX,
        ensures
            r == ((offset + alignment - 1) as usize) & !((alignment - 1) as usize),
            is_pow2(alignment as int) ==> r == round_up(offset as nat, alignment as nat),
    {
        let x = offset + alignment - 1;
        let m = alignment - 1;
        let r = x & !m;
        proof {
            if is_pow2(alignment as int) {
                is_pow2_equiv(alignment as int);
                let n = choose|i: nat| pow(2, i) == alignment;
                assert(pow2(n) == alignment);
                unsigned_int_max_values();
                if n >= usize::BITS {
                    if n > usize::BITS {
                        lemma_pow2_strictly_increases(usize::BITS as nat, n);
                    }
                    assert(false);
                }
                assert(m == low_bits_mask(n) as usize);
                lemma_usize_low_bits_mask_is_mod(x, n);
                assert(x & !m == x - (x & m)) by (bit_vector);
                lemma_round_up_by_parts(offset as nat, alignment as nat);
            }
        }
        r
    }

    /// Lays out the members in order, each at the next multiple of its
    /// alignment. Returns the struct size (the end of the last member rounded
    /// up to the largest alignment), the largest alignment, and for each
    /// member its name, offset and type.
    pub fn compute_struct_layout(fields: &[Field]) -> (r: (usize, usize, Vec<(String, usize, IdlType)>))
        requires
            layout_fits(fields@),
        ensures
            r.2@.len() == fields@.len(),
            forall|i: int| 0 <= i < fields@.len() ==> {
                &&& (#[trigger] r.2@[i]).0@ == fields@[i].name@
                &&& r.2@[i].1 == field_offset(fields@, i)
                &&& r.2@[i].2 == fields@[i].field_type
            },
            r.1 == fields_max_align(fields@),
            r.0 == round_up(fields_end(fields@), fields_max_align(fields@)),
    {
        let mut current_offset: usize = 0;
        let mut max_alignment: usize = 1;
        let mut layouts: Vec<(String, usize, IdlType)> = Vec::new();
        let mut i: usize = 0;
        assert(fields@.take(0) =~= Seq::<Field>::empty());
        while i < fields.len()
            invariant
                layout_fits(fields@),
                i <= fields@.len(),
                current_offset == fields_end(fields@.take(i as int)),
                max_alignment == fields_max_align(fields@.take(i as int)),
                is_layout_align(max_alignment as nat),
                layouts@.len() == i,
                forall|j: int| 0 <= j < i ==> {
                    &&& (#[trigger] layouts@[j]).0@ == fields@[j].name@
                    &&& layouts@[j].1 == field_offset(fields@, j)
                    &&& layouts@[j].2 == fields@[j].field_type
                },
            decreases fields.len() - i,
        {
            let field = &fields[i];
            assert(size_fits(fields@[i as int].field_type));
            let (size, alignment, _) = Self::field_type_info(&field.field_type);
            proof {
                lemma_fields_end_monotonic(fields@, i + 1);
                lemma_fields_max_align(fields@);
                assert(fields@.take(i + 1).drop_last() =~= fields@.take(i as int));
                assert(fields@.take(i + 1).last() == fields@[i as int]);
                lemma_layout_align_is_pow2(alignment as nat);
            }
            current_offset = Self::align_to(current_offset, alignment);
            if alignment > max_alignment {
                max_alignment = alignment;
            }
            layouts.push((field.name.clone(), current_offset, field.field_type.duplicate()));
            current_offset = current_offset + size;
            i = i + 1;
        }
        assert(fields@.take(fields@.len() as int) =~= fields@);
        proof {
            lemma_layout_align_is_pow2(max_alignment as nat);
        }
        let total_size = Self::align_to(current_offset, max_alignment);
        (total_size, max_alignment, layouts)
    }

    /// Whether a type has a variable encoded size (strings, sequences, maps,
    /// and arrays of those).
    pub fn is_variable_size_type(ty: &IdlType) -> (r: bool)
        ensures
            r == variable_size(*ty),
        decreases ty,
    {
        match ty {
            IdlType::Primitive(PrimitiveType::String | PrimitiveType::WString)
            | IdlType::Sequence { .. }
            | IdlType::MapType { .. } => true,
            IdlType::Array { inner, .. } => Self::is_variable_size_type(inner),
            _ => false,
        }
    }

    /// Whether any member is optional or of variable size.
    pub fn has_variable_size_field(fields: &[Field]) -> (r: bool)
        ensures
            r == exists|i: int| 0 <= i < fields@.len() && #[trigger] field_is_variable(fields@[i]),
    {
        let mut i: usize = 0;
        while i < fields.len()
            invariant
                i <= fields@.len(),
                forall|j: int| 0 <= j < i ==> !#[trigger] field_is_variable(fields@[j]),
            decreases fields.len() - i,
        {
            let f = &fields[i];
            if f.is_optional() || Self::is_variable_size_type(&f.field_type) {
                assert(field_is_variable(fields@[i as int]));
                return true;
            }
            assert(!field_is_variable(fields@[i as int]));
            i = i + 1;
        }
        false
    }

    /// FNV-1a (32 bit) hash of the UTF-8 bytes of a string; the type id of
    /// a generated type is this hash of its fully qualified name.
    pub fn compute_fnv1a_hash(s: &str) -> (r: u32)
        ensures
            r == fnv1a(s.spec_bytes()),
    {
        let bytes = s.as_bytes();
        let mut hash: u32 = 2_166_136_261u32;
        let mut i: usize = 0;
        while i < bytes.len()
            invariant
                bytes@ == s.spec_bytes(),
                i <= bytes@.len(),
                hash == fnv1a(bytes@.take(i as int)),
            decreases bytes.len() - i,
        {
            let byte = bytes[i];
            hash = hash ^ (byte as u32);
            hash = hash.wrapping_mul(16_777_619u32);
            assert(bytes@.take(i + 1).drop_last() =~= bytes@.take(i as int));
            i = i + 1;
        }
        assert(bytes@.take(bytes@.len() as int) =~= bytes@);
        hash
    }

    /// XCDR version 1 alignment of a type (DDS-XTypes 1.3, Table 31):
    /// primitives align to their size, strings, sequences, maps and named
    /// types to their 4-byte length or header, arrays to their element.
    pub fn xcdr1_alignment(ty: &IdlType) -> (r: usize)
        ensures
            r == xcdr1_align(*ty),
        decreases ty,
    {
        match ty {
            IdlType::Primitive(p) => match p {
                PrimitiveType::Octet | PrimitiveType::UInt8 | PrimitiveType::Int8
                | PrimitiveType::Boolean | PrimitiveType::Char | PrimitiveType::Void
                | PrimitiveType::Fixed { .. } => 1,
                PrimitiveType::Short | PrimitiveType::UnsignedShort | PrimitiveType::Int16
                | PrimitiveType::UInt16 => 2,
                PrimitiveType::Long | PrimitiveType::UnsignedLong | PrimitiveType::Int32
                | PrimitiveType::UInt32 | PrimitiveType::Float | PrimitiveType::WChar
                | PrimitiveType::String | PrimitiveType::WString => 4,
                PrimitiveType::LongLong | PrimitiveType::UnsignedLongLong
                | PrimitiveType::Int64 | PrimitiveType::UInt64 | PrimitiveType::Double
                | PrimitiveType::LongDouble => 8,
            },
            IdlType::Array { inner, .. } => Self::xcdr1_alignment(inner),
            IdlType::Sequence { .. } | IdlType::MapType { .. } | IdlType::Named(_) => 4,
        }
    }

    /// XCDR version 2 alignment of a type: the version 1 alignment capped at
    /// 4 (DDS-XTypes 1.3, 7.4.2, `MAXALIGN(VERSION2) = 4`).
    pub fn xcdr2_alignment(ty: &IdlType) -> (r: usize)
        ensures
            r == xcdr2_align(*ty),
        decreases ty,
    {
        match ty {
            IdlType::Array { inner, .. } => Self::xcdr2_alignment(inner),
            _ => {
                let a = Self::xcdr1_alignment(ty);
                if a > 4 { 4 } else { a }
            },
        }
    }

    /// Size, alignment and `PrimitiveKind` name of a type's generated Rust form.
    pub fn field_type_info(idl_type: &IdlType) -> (r: (usize, usize, &'static str))
        requires
            size_fits(*idl_type),
        ensures
            r.0 == type_size(*idl_type),
            r.1 == type_align(*idl_type),
            r.2@ == type_kind(*idl_type),
            is_layout_align(r.1 as nat),
        decreases idl_type,
    {
        match idl_type {
            IdlType::Primitive(prim) => match prim {
                PrimitiveType::Octet | PrimitiveType::UInt8 | PrimitiveType::Int8
                | PrimitiveType::Char | PrimitiveType::Boolean => (1, 1, "U8"),
                PrimitiveType::Short | PrimitiveType::Int16 => (2, 2, "I16"),
                PrimitiveType::UnsignedShort | PrimitiveType::UInt16 => (2, 2, "U16"),
                PrimitiveType::Long | PrimitiveType::Int32 => (4, 4, "I32"),
                PrimitiveType::UnsignedLong | PrimitiveType::UInt32 | PrimitiveType::Void
                | PrimitiveType::WChar => (4, 4, "U32"),
                PrimitiveType::LongLong | PrimitiveType::Int64 => (8, 8, "I64"),
                PrimitiveType::UnsignedLongLong | PrimitiveType::UInt64 => (8, 8, "U64"),
                PrimitiveType::Float => (4, 4, "F32"),
                PrimitiveType::Double => (8, 8, "F64"),
                PrimitiveType::LongDouble => (16, 8, "F64"),
                PrimitiveType::String | PrimitiveType::WString => (24, 8, "String"),
                PrimitiveType::Fixed { .. } => (16, 8, "I64"),
            },
            IdlType::Sequence { inner, .. } => {
                if let IdlType::Primitive(PrimitiveType::Char | PrimitiveType::WChar) = **inner {
                    return (24, 8, "String");
                }
                (24, 8, "U64")
            },
            IdlType::Array { inner, size } => {
                let (inner_size, inner_align, inner_kind) = Self::field_type_info(inner);
                (inner_size * (*size as usize), inner_align, inner_kind)
            },
            IdlType::MapType { .. } => (48, 8, "U64"),
            IdlType::Named(_) => (4, 4, "U32"),
        }
    }
}

} // verus!
