//! The Rust code generator: the code of a whole IDL file.

use vstd::prelude::*;
use crate::ast::{Definition, Field, IdlFile, Struct, UnionCase, def_name, definition_name};
use crate::bitset::{bitset_text, emit_bitset};
use crate::dds_trait::dds_impl_text;
use crate::decls::{
    builder_text, delegators_text, emit_builder, emit_delegators, emit_enum, emit_fixed_support,
    emit_header, emit_struct_decl, emit_struct_decode, emit_struct_encode, emit_typedef, enum_text,
    fixed_support_text, header_text, primary_version, primary_version_of, struct_decl_text,
    struct_decode_text, struct_encode_text, typedef_text,
};
use crate::cdr_codegen::CdrVersion;
use crate::layout::{
    fields_end, fields_max_align, is_layout_align, law_round_up_least_multiple, layout_fits, lemma_fields_end_monotonic,
    lemma_fields_max_align, size_fits, type_align, type_size,
};
use crate::types::{IdlType, PrimitiveType};
use crate::union::{GenErrorKind, emit_union, union_text};

verus! {

/// Generates Rust source for the declarations of an IDL file.
pub struct RustGenerator {}

/// Why generating a declaration failed, and which declaration.
#[derive(Debug)]
pub struct GenError {
    pub kind: GenErrorKind,
    /// The name of the declaration.
    pub name: String,
}

/// All the code emitted for a struct: declaration, builder, the XCDR1 and
/// XCDR2 encode and decode methods, the delegators and the DDS impl.
pub open spec fn struct_text(s: Struct, defs: Seq<Definition>) -> Seq<char> {
    struct_decl_text(s) + builder_text(s) + struct_encode_text(s, CdrVersion::Xcdr1, defs)
        + struct_encode_text(s, CdrVersion::Xcdr2, defs) + struct_decode_text(s, CdrVersion::Xcdr1, defs)
        + struct_decode_text(s, CdrVersion::Xcdr2, defs)
        + delegators_text(s.name@, primary_version(s.annotations@)) + dds_impl_text(s, None, defs)
        + "\n"@
}

/// The code of one declaration, or why it cannot be generated.
#[verifier::opaque]
pub open spec fn def_text(d: Definition, defs: Seq<Definition>) -> Result<Seq<char>, GenErrorKind> {
    match d {
        Definition::Struct(s) => if layout_fits(s.fields@) {
            Ok(struct_text(s, defs))
        } else {
            Err(GenErrorKind::LayoutOverflow)
        },
        Definition::Enum(e) => Ok(enum_text(e)),
        Definition::Union(u) => union_text(u, defs),
        Definition::Typedef(td) => Ok(typedef_text(td)),
        Definition::Bitset(b) => bitset_text(b),
    }
}

/// `pre` followed by the code of the declarations `ds` in order; the first
/// failure, with the declaration's name, otherwise.
pub open spec fn defs_text(pre: Seq<char>, ds: Seq<Definition>, defs: Seq<Definition>) -> Result<Seq<char>, (GenErrorKind, Seq<char>)>
    decreases ds.len(),
{
    if ds.len() == 0 {
        Ok(pre)
    } else {
        match defs_text(pre, ds.drop_last(), defs) {
            Err(e) => Err(e),
            Ok(p) => match def_text(ds.last(), defs) {
                Ok(t) => Ok(p + t),
                Err(k) => Err((k, def_name(ds.last()))),
            },
        }
    }
}

/// Whether a type mentions `fixed`.
pub open spec fn contains_fixed(t: IdlType) -> bool
    decreases t,
{
    match t {
        IdlType::Primitive(p) => p is Fixed,
        IdlType::Sequence { inner, .. } => contains_fixed(*inner),
        IdlType::Array { inner, .. } => contains_fixed(*inner),
        IdlType::MapType { key, value, .. } => contains_fixed(*key) || contains_fixed(*value),
        IdlType::Named(_) => false,
    }
}

/// Whether a declaration mentions `fixed` (a member, case or typedef base).
pub open spec fn def_uses_fixed(d: Definition) -> bool {
    match d {
        Definition::Struct(s) => exists|i: int|
            0 <= i < s.fields@.len() && contains_fixed(#[trigger] s.fields@[i].field_type),
        Definition::Union(u) => exists|i: int|
            0 <= i < u.cases@.len() && contains_fixed(#[trigger] u.cases@[i].field.field_type),
        Definition::Typedef(td) => contains_fixed(td.base_type),
        _ => false,
    }
}

/// Whether some declaration mentions `fixed`.
pub open spec fn file_uses_fixed(defs: Seq<Definition>) -> bool {
    exists|i: int| 0 <= i < defs.len() && def_uses_fixed(#[trigger] defs[i])
}

/// The code of a whole file: the preamble, `Fixed` when used, then each
/// declaration in order.
pub open spec fn file_text(defs: Seq<Definition>) -> Result<Seq<char>, (GenErrorKind, Seq<char>)> {
    let pre = if file_uses_fixed(defs) { header_text() + fixed_support_text() } else { header_text() };
    defs_text(pre, defs, defs)
}

/// The outcome of emitting a run of declarations: success exactly when
/// each of them can be generated, otherwise the failure of the first one
/// that cannot, under its name.
proof fn lemma_defs_text_outcome(pre: Seq<char>, ds: Seq<Definition>, defs: Seq<Definition>)
    ensures
        defs_text(pre, ds, defs) is Ok <==> forall|i: int| 0 <= i < ds.len() ==> #[trigger] def_text(ds[i], defs) is Ok,
        defs_text(pre, ds, defs) matches Err((k, n)) ==> exists|i: int| 0 <= i < ds.len()
            && #[trigger] def_text(ds[i], defs) == Err::<Seq<char>, GenErrorKind>(k) && n == def_name(ds[i])
            && forall|j: int| 0 <= j < i ==> #[trigger] def_text(ds[j], defs) is Ok,
    decreases ds.len(),
{
    if ds.len() > 0 {
        let init = ds.drop_last();
        lemma_defs_text_outcome(pre, init, defs);
        assert forall|i: int| 0 <= i < init.len() implies init[i] == ds[i] by {}
        if defs_text(pre, init, defs) is Err {
            let (k, n) = defs_text(pre, init, defs)->Err_0;
            let i = choose|i: int| 0 <= i < init.len()
                && #[trigger] def_text(init[i], defs) == Err::<Seq<char>, GenErrorKind>(k) && n == def_name(init[i])
                && forall|j: int| 0 <= j < i ==> #[trigger] def_text(init[j], defs) is Ok;
            assert(def_text(ds[i], defs) is Err);
            assert forall|j: int| 0 <= j < i implies #[trigger] def_text(ds[j], defs) is Ok by {
                assert(def_text(init[j], defs) is Ok);
            }
        } else {
            assert forall|j: int| 0 <= j < ds.len() - 1 implies #[trigger] def_text(ds[j], defs) is Ok by {
                assert(def_text(init[j], defs) is Ok);
            }
        }
    }
}

/// Generating a file succeeds exactly when every declaration can be
/// generated; otherwise it fails with the kind of failure and the name of
/// the first declaration that cannot be.
pub proof fn law_generation_fails_on_first_bad_declaration(defs: Seq<Definition>)
    ensures
        file_text(defs) is Ok <==> forall|i: int| 0 <= i < defs.len() ==> #[trigger] def_text(defs[i], defs) is Ok,
        file_text(defs) matches Err((k, n)) ==> exists|i: int| 0 <= i < defs.len()
            && #[trigger] def_text(defs[i], defs) == Err::<Seq<char>, GenErrorKind>(k) && n == def_name(defs[i])
            && forall|j: int| 0 <= j < i ==> #[trigger] def_text(defs[j], defs) is Ok,
{
    let pre = if file_uses_fixed(defs) { header_text() + fixed_support_text() } else { header_text() };
    lemma_defs_text_outcome(pre, defs, defs);
}

/// Enums and typedefs can always be generated; a struct can exactly when
/// its layout fits in the address space.
pub proof fn law_which_declarations_generate(d: Definition, defs: Seq<Definition>)
    ensures
        (d is Enum || d is Typedef) ==> def_text(d, defs) is Ok,
        d matches Definition::Struct(s) ==> (def_text(d, defs) is Ok <==> layout_fits(s.fields@)),
{
    reveal(def_text);
}

/// Whether a type mentions `fixed`.
fn type_uses_fixed(t: &IdlType) -> (r: bool)
    ensures
        r == contains_fixed(*t),
    decreases t,
{
    match t {
        IdlType::Primitive(PrimitiveType::Fixed { .. }) => true,
        IdlType::Primitive(_) => false,
        IdlType::Sequence { inner, .. } => type_uses_fixed(inner),
        IdlType::Array { inner, .. } => type_uses_fixed(inner),
        IdlType::MapType { key, value, .. } => type_uses_fixed(key) || type_uses_fixed(value),
        IdlType::Named(_) => false,
    }
}

/// Whether some member mentions `fixed`.
fn fields_use_fixed(fields: &Vec<Field>) -> (r: bool)
    ensures
        r == exists|i: int| 0 <= i < fields@.len() && contains_fixed(#[trigger] fields@[i].field_type),
{
    let mut i: usize = 0;
    while i < fields.len()
        invariant
            i <= fields@.len(),
            forall|j: int| 0 <= j < i ==> !contains_fixed(#[trigger] fields@[j].field_type),
        decreases fields.len() - i,
    {
        if type_uses_fixed(&fields[i].field_type) {
            return true;
        }
        i = i + 1;
    }
    false
}

/// Whether some union case mentions `fixed`.
fn cases_use_fixed(cases: &Vec<UnionCase>) -> (r: bool)
    ensures
        r == exists|i: int| 0 <= i < cases@.len() && contains_fixed(#[trigger] cases@[i].field.field_type),
{
    let mut i: usize = 0;
    while i < cases.len()
        invariant
            i <= cases@.len(),
            forall|j: int| 0 <= j < i ==> !contains_fixed(#[trigger] cases@[j].field.field_type),
        decreases cases.len() - i,
    {
        if type_uses_fixed(&cases[i].field.field_type) {
            return true;
        }
        i = i + 1;
    }
    false
}

/// Whether some declaration mentions `fixed`.
fn any_uses_fixed(defs: &Vec<Definition>) -> (r: bool)
    ensures
        r == file_uses_fixed(defs@),
{
    let mut i: usize = 0;
    while i < defs.len()
        invariant
            i <= defs@.len(),
            forall|j: int| 0 <= j < i ==> !def_uses_fixed(#[trigger] defs@[j]),
        decreases defs.len() - i,
    {
        let uses = match &defs[i] {
            Definition::Struct(s) => fields_use_fixed(&s.fields),
            Definition::Union(u) => cases_use_fixed(&u.cases),
            Definition::Typedef(td) => type_uses_fixed(&td.base_type),
            _ => false,
        };
        if uses {
            return true;
        }
        i = i + 1;
    }
    false
}

/// The size of a type's generated Rust form, if it and the sizes of the
/// array element types in it fit in a `usize`.
fn checked_type_size(t: &IdlType) -> (r: Option<usize>)
    ensures
        r matches Some(n) ==> size_fits(*t) && n == type_size(*t),
        r is None ==> !size_fits(*t),
    decreases t,
{
    match t {
        IdlType::Array { inner, size } => {
            match checked_type_size(inner) {
                Some(n) => {
                    let total = n.checked_mul(*size as usize);
                    match total {
                        Some(x) => Some(x),
                        None => None,
                    }
                },
                None => None,
            }
        },
        _ => {
            let (size, _, _) = RustGenerator::field_type_info(t);
            Some(size)
        },
    }
}

/// Whether the layout of the members, with room for the final rounding,
/// fits in a `usize`.
fn check_layout(fields: &Vec<Field>) -> (r: bool)
    ensures
        r == layout_fits(fields@),
{
    let mut cur: usize = 0;
    let mut max_align: usize = 1;
    let mut i: usize = 0;
    assert(fields@.take(0) =~= Seq::<Field>::empty());
    proof {
        lemma_fields_max_align(fields@);
    }
    while i < fields.len()
        invariant
            i <= fields@.len(),
            cur == fields_end(fields@.take(i as int)),
            max_align == fields_max_align(fields@.take(i as int)),
            is_layout_align(max_align as nat),
            forall|j: int| 0 <= j < i ==> size_fits(#[trigger] fields@[j].field_type),
            forall|j: int| 0 <= j < fields@.len() ==> type_align(#[trigger] fields@[j].field_type) <= fields_max_align(fields@),
        decreases fields.len() - i,
    {
        let f = &fields[i];
        proof {
            assert(fields@.take(i + 1).drop_last() =~= fields@.take(i as int));
            assert(fields@.take(i + 1).last() == fields@[i as int]);
            lemma_fields_end_monotonic(fields@, i as int);
            lemma_fields_end_monotonic(fields@, i + 1);
        }
        let size = match checked_type_size(&f.field_type) {
            Some(n) => n,
            None => {
                return false;
            },
        };
        let (_, align, _) = RustGenerator::field_type_info(&f.field_type);
        if cur > usize::MAX - align {
            proof {
                law_round_up_least_multiple(cur as nat, align as nat, 0);
            }
            return false;
        }
        proof {
            crate::layout::lemma_layout_align_is_pow2(align as nat);
        }
        let aligned = RustGenerator::align_to(cur, align);
        if aligned > usize::MAX - size {
            return false;
        }
        cur = aligned + size;
        if align > max_align {
            max_align = align;
        }
        i = i + 1;
    }
    assert(fields@.take(fields@.len() as int) =~= fields@);
    cur <= usize::MAX - max_align
}

impl RustGenerator {
    /// A generator (it holds no configuration).
    pub fn new() -> (r: RustGenerator)
        ensures
            r == (RustGenerator {}),
    {
        RustGenerator {}
    }

    /// The code of a struct.
    pub fn emit_struct(s: &Struct, defs: &Vec<Definition>) -> (r: String)
        requires
            layout_fits(s.fields@),
        ensures
            r@ == struct_text(*s, defs@),
    {
        let mut out = emit_struct_decl(s);
        let b = emit_builder(s);
        out.append(b.as_str());
        let e1 = emit_struct_encode(s, CdrVersion::Xcdr1, defs);
        out.append(e1.as_str());
        let e2 = emit_struct_encode(s, CdrVersion::Xcdr2, defs);
        out.append(e2.as_str());
        let d1 = emit_struct_decode(s, CdrVersion::Xcdr1, defs);
        out.append(d1.as_str());
        let d2 = emit_struct_decode(s, CdrVersion::Xcdr2, defs);
        out.append(d2.as_str());
        let g = emit_delegators(s.name.as_str(), primary_version_of(&s.annotations));
        out.append(g.as_str());
        let dds = Self::emit_dds_trait_impl(s, None, defs);
        out.append(dds.as_str());
        out.append("\n");
        out
    }

    /// The code of one declaration, or why it cannot be generated.
    pub fn emit_definition(d: &Definition, defs: &Vec<Definition>) -> (r: Result<String, GenErrorKind>)
        ensures
            r matches Ok(t) ==> def_text(*d, defs@) == Ok::<Seq<char>, GenErrorKind>(t@),
            r matches Err(e) ==> def_text(*d, defs@) == Err::<Seq<char>, GenErrorKind>(e),
    {
        reveal(def_text);
        match d {
            Definition::Struct(s) => {
                if check_layout(&s.fields) {
                    Ok(Self::emit_struct(s, defs))
                } else {
                    Err(GenErrorKind::LayoutOverflow)
                }
            },
            Definition::Enum(e) => Ok(emit_enum(e)),
            Definition::Union(u) => emit_union(u, defs),
            Definition::Typedef(td) => Ok(emit_typedef(td)),
            Definition::Bitset(b) => emit_bitset(b),
        }
    }

    /// The Rust code of a whole IDL file: the preamble, the `Fixed` type when
    /// a declaration uses `fixed`, then each declaration in order. Fails on
    /// the first declaration that cannot be generated.
    pub fn generate(&self, file: &IdlFile) -> (r: Result<String, GenError>)
        ensures
            r matches Ok(t) ==> file_text(file.definitions@) == Ok::<Seq<char>, (GenErrorKind, Seq<char>)>(t@),
            r matches Err(e) ==> file_text(file.definitions@) == Err::<Seq<char>, (GenErrorKind, Seq<char>)>((e.kind, e.name@)),
    {
        let defs = &file.definitions;
        let mut out = emit_header();
        if any_uses_fixed(defs) {
            let f = emit_fixed_support();
            out.append(f.as_str());
        }
        let ghost pre = out@;
        let mut i: usize = 0;
        assert(defs@.take(0) =~= Seq::<Definition>::empty());
        while i < defs.len()
            invariant
                i <= defs@.len(),
                file_text(defs@) == defs_text(pre, defs@, defs@),
                defs@ == file.definitions@,
                defs_text(pre, defs@.take(i as int), defs@) == Ok::<Seq<char>, (GenErrorKind, Seq<char>)>(out@),
            decreases defs.len() - i,
        {
            proof {
                assert(defs@.take(i + 1).drop_last() =~= defs@.take(i as int));
                assert(defs@.take(i + 1).last() == defs@[i as int]);
            }
            match Self::emit_definition(&defs[i], defs) {
                Ok(t) => out.append(t.as_str()),
                Err(kind) => {
                    let name = definition_name(&defs[i]).clone();
                    proof {
                        assert(name@ == def_name(defs@[i as int]));
                        assert(def_text(defs@[i as int], defs@) == Err::<Seq<char>, GenErrorKind>(kind));
                        assert(defs_text(pre, defs@.take(i + 1), defs@) == Err::<Seq<char>, (GenErrorKind, Seq<char>)>((kind, name@)));
                        lemma_defs_text_err(pre, defs@, defs@, i + 1);
                        assert(defs_text(pre, defs@, defs@) == Err::<Seq<char>, (GenErrorKind, Seq<char>)>((kind, name@)));
                        assert(file_text(defs@) == Err::<Seq<char>, (GenErrorKind, Seq<char>)>((kind, name@)));
                    }
                    let e = GenError { kind, name };
                    assert(e.kind == kind && e.name@ == name@);
                    return Err(e);
                },
            }
            i = i + 1;
        }
        assert(defs@.take(defs@.len() as int) =~= defs@);
        Ok(out)
    }
}

proof fn lemma_defs_text_err(pre: Seq<char>, ds: Seq<Definition>, defs: Seq<Definition>, k: int)
    requires
        0 <= k <= ds.len(),
        defs_text(pre, ds.take(k), defs) is Err,
    ensures
        defs_text(pre, ds, defs) == defs_text(pre, ds.take(k), defs),
    decreases ds.len() - k,
{
    if k < ds.len() {
        assert(ds.take(k + 1).drop_last() =~= ds.take(k));
        lemma_defs_text_err(pre, ds, defs, k + 1);
    } else {
        assert(ds.take(k) =~= ds);
    }
}

} // verus!
