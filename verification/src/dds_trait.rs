//! The `::hdds::api::DDS` impl emitted for each struct: type descriptor,
//! version-dispatching encode/decode, XTypes type object, key hashing.

use vstd::prelude::*;
use crate::ast::{Definition, Enum, EnumVariant, Field, Struct, def_name, find_type, lemma_find_type, lookup_type_def, names_type};
use crate::generator::RustGenerator;
use crate::layout::{
    field_is_variable, field_offset, fields_end, fields_max_align, fnv1a, is_char_prim, layout_fits,
    round_up, size_fits, type_align, type_kind, type_size,
};
use crate::text::{
    ends_with, is_infix, lemma_concat_assoc, lemma_concat_ends, lemma_infix_between, lemma_infix_grow, lemma_starts_with_grow, starts_with,
    append_bool, append_decimal, append_hex_u32, append_signed_decimal, bool_text, decimal, hex_u32,
    signed_decimal, str_eq,
};
use crate::types::{
    Annotation, IdlType, PrimitiveType, any_appendable, any_key, any_mutable, has_appendable, has_key, has_mutable,
};
use vstd::utf8::encode_utf8;
use crate::member_hash::{hashed_member_id, member_name_hash};

verus! {

/// How a `@key` member is fed to the key hash in `compute_key()`.
#[derive(Debug)]
pub enum KeyHashKind {
    /// A string: its bytes (`as_bytes()`).
    String,
    /// A numeric primitive: its little-endian bytes (`to_le_bytes()`).
    Numeric,
    /// Cast to the named integer type, then its little-endian bytes
    /// (booleans as `u8`, characters and enums as `u32`).
    Cast(&'static str),
    /// A complex type: its CDR2 encoding.
    Cdr2,
}

/// How a `@key` member of type `t` is hashed.
pub open spec fn key_kind(t: IdlType, defs: Seq<Definition>) -> KeyHashKind {
    match t {
        IdlType::Primitive(PrimitiveType::String) => KeyHashKind::String,
        IdlType::Primitive(PrimitiveType::WString) => KeyHashKind::String,
        IdlType::Sequence { inner, .. } => if is_char_prim(*inner) {
            KeyHashKind::String
        } else {
            KeyHashKind::Numeric
        },
        IdlType::Named(name) => if find_type(defs, name@) matches Some(i) && defs[i] is Enum {
            KeyHashKind::Cast("u32")
        } else {
            KeyHashKind::Cdr2
        },
        IdlType::Primitive(PrimitiveType::Boolean) => KeyHashKind::Cast("u8"),
        IdlType::Primitive(PrimitiveType::Char) => KeyHashKind::Cast("u32"),
        IdlType::Primitive(PrimitiveType::WChar) => KeyHashKind::Cast("u32"),
        IdlType::Primitive(PrimitiveType::Fixed { .. }) => KeyHashKind::Cdr2,
        _ => KeyHashKind::Numeric,
    }
}

/// `pre` followed by the hashing code for one `@key` member.
pub open spec fn key_hash_text(pre: Seq<char>, field: Seq<char>, kind: KeyHashKind) -> Seq<char> {
    let head = pre + "            // Hash @key field: "@ + field + "\n"@;
    match kind {
        KeyHashKind::String => head + "            for &b in self."@ + field
            + ".as_bytes() {\n"@ + key_hash_suffix(),
        KeyHashKind::Numeric => head + "            for b in self."@ + field
            + ".to_le_bytes() {\n"@ + key_hash_suffix(),
        KeyHashKind::Cast(ty) => head + "            for b in (self."@ + field + " as "@ + ty@
            + ").to_le_bytes() {\n"@ + key_hash_suffix(),
        KeyHashKind::Cdr2 => head + "            {\n"@
            + "                use ::hdds::core::ser::Cdr2Encode;\n"@
            + "                let mut _kbuf = [0u8; 4096];\n"@
            + "                let mut _koffset: usize = 0;\n"@ + "                if self."@ + field
            + ".encode_cdr2_le_at(&mut _kbuf, &mut _koffset).is_ok() {\n"@
            + "                    for &b in &_kbuf[.._koffset] {\n"@
            + "                        hash ^= b as u64;\n"@
            + "                        hash = hash.wrapping_mul(PRIME);\n"@
            + "                    }\n"@ + "                }\n"@ + "            }\n\n"@,
    }
}

/// The loop tail shared by the byte-wise hashing forms.
pub open spec fn key_hash_suffix() -> Seq<char> {
    "                hash ^= b as u64;\n"@ + "                hash = hash.wrapping_mul(PRIME);\n"@
        + "            }\n\n"@
}

/// `pre` followed by the hashing code of every `@key` member, in order.
pub open spec fn key_fields_text(pre: Seq<char>, fields: Seq<Field>, defs: Seq<Definition>) -> Seq<char>
    decreases fields.len(),
{
    if fields.len() == 0 {
        pre
    } else {
        let before = key_fields_text(pre, fields.drop_last(), defs);
        let f = fields.last();
        if has_key(f.annotations@) {
            key_hash_text(before, f.name@, key_kind(f.field_type, defs))
        } else {
            before
        }
    }
}

/// Whether some member is `@key`.
pub open spec fn struct_has_key(fields: Seq<Field>) -> bool {
    exists|i: int| 0 <= i < fields.len() && has_key(#[trigger] fields[i].annotations@)
}

/// The `compute_key()` method: a zeroed hash without `@key` members, else
/// FNV-1a (64 bit) over the key members, expanded to 16 bytes.
pub open spec fn compute_key_text(fields: Seq<Field>, defs: Seq<Definition>) -> Seq<char> {
    let head = Seq::empty() + "\n        /// Compute instance key hash from @key fields (FNV-1a, 16 bytes)\n"@
        + "        fn compute_key(&self) -> [u8; 16] {\n"@;
    if !struct_has_key(fields) {
        head + "            // No @key fields - return zeroed hash\n"@ + "            [0u8; 16]\n"@
            + "        }\n"@
    } else {
        key_fields_text(
            head + "            // FNV-1a hash of @key fields\n"@
                + "            let mut hash: u64 = 14695981039346656037;\n"@
                + "            const PRIME: u64 = 1099511628211;\n\n"@,
            fields,
            defs,
        ) + "            // Expand to 16 bytes\n"@ + "            let mut key = [0u8; 16];\n"@
            + "            key[..8].copy_from_slice(&hash.to_le_bytes());\n"@
            + "            hash = hash.wrapping_mul(PRIME);\n"@
            + "            key[8..].copy_from_slice(&hash.to_le_bytes());\n"@ + "            key\n"@
            + "        }\n"@
    }
}

/// The `has_key()` method.
pub open spec fn has_key_text(fields: Seq<Field>) -> Seq<char> {
    Seq::empty() + "\n        /// Returns true if this type has @key fields\n"@
        + "        fn has_key() -> bool { "@ + bool_text(struct_has_key(fields))
        + " }\n"@
}

/// How a `@key` member of the given type is hashed.
pub fn classify_key_field(field_type: &IdlType, defs: &Vec<Definition>) -> (r: KeyHashKind)
    ensures
        r == key_kind(*field_type, defs@),
{
    match field_type {
        IdlType::Primitive(PrimitiveType::String | PrimitiveType::WString) => KeyHashKind::String,
        IdlType::Sequence { inner, .. } => {
            if let IdlType::Primitive(PrimitiveType::Char | PrimitiveType::WChar) = **inner {
                KeyHashKind::String
            } else {
                KeyHashKind::Numeric
            }
        },
        IdlType::Named(name) => {
            match lookup_type_def(defs, name.as_str()) {
                Some(i) => {
                    proof {
                        crate::ast::lemma_find_type(defs@, name@);
                    }
                    if let Definition::Enum(_) = &defs[i] {
                        KeyHashKind::Cast("u32")
                    } else {
                        KeyHashKind::Cdr2
                    }
                },
                None => KeyHashKind::Cdr2,
            }
        },
        IdlType::Primitive(PrimitiveType::Boolean) => KeyHashKind::Cast("u8"),
        IdlType::Primitive(PrimitiveType::Char | PrimitiveType::WChar) => KeyHashKind::Cast("u32"),
        IdlType::Primitive(PrimitiveType::Fixed { .. }) => KeyHashKind::Cdr2,
        _ => KeyHashKind::Numeric,
    }
}

/// Appends the hashing code for one `@key` member to `output`.
pub fn emit_key_field_hash(output: &mut String, field: &str, kind: &KeyHashKind)
    ensures
        final(output)@ == key_hash_text(old(output)@, field@, *kind),
{
    output.append("            // Hash @key field: ");
    output.append(field);
    output.append("\n");
    match kind {
        KeyHashKind::String => {
            output.append("            for &b in self.");
            output.append(field);
            output.append(".as_bytes() {\n");
        },
        KeyHashKind::Numeric => {
            output.append("            for b in self.");
            output.append(field);
            output.append(".to_le_bytes() {\n");
        },
        KeyHashKind::Cast(ty) => {
            output.append("            for b in (self.");
            output.append(field);
            output.append(" as ");
            output.append(ty);
            output.append(").to_le_bytes() {\n");
        },
        KeyHashKind::Cdr2 => {
            output.append("            {\n");
            output.append("                use ::hdds::core::ser::Cdr2Encode;\n");
            output.append("                let mut _kbuf = [0u8; 4096];\n");
            output.append("                let mut _koffset: usize = 0;\n");
            output.append("                if self.");
            output.append(field);
            output.append(".encode_cdr2_le_at(&mut _kbuf, &mut _koffset).is_ok() {\n");
            output.append("                    for &b in &_kbuf[.._koffset] {\n");
            output.append("                        hash ^= b as u64;\n");
            output.append("                        hash = hash.wrapping_mul(PRIME);\n");
            output.append("                    }\n");
            output.append("                }\n");
            output.append("            }\n\n");
            return;
        },
    }
    output.append("                hash ^= b as u64;\n");
    output.append("                hash = hash.wrapping_mul(PRIME);\n");
    output.append("            }\n\n");
}

impl RustGenerator {
    /// The `compute_key()` method of the DDS impl.
    pub fn emit_compute_key_method(s: &Struct, defs: &Vec<Definition>) -> (r: String)
        ensures
            r@ == compute_key_text(s.fields@, defs@),
    {
        let mut output = String::new();
        output.append("\n        /// Compute instance key hash from @key fields (FNV-1a, 16 bytes)\n");
        output.append("        fn compute_key(&self) -> [u8; 16] {\n");
        let has_key_field = Self::any_key_field(&s.fields);
        if !has_key_field {
            output.append("            // No @key fields - return zeroed hash\n");
            output.append("            [0u8; 16]\n");
        } else {
            output.append("            // FNV-1a hash of @key fields\n");
            output.append("            let mut hash: u64 = 14695981039346656037;\n");
            output.append("            const PRIME: u64 = 1099511628211;\n\n");
            let ghost start = output@;
            let mut i: usize = 0;
            assert(s.fields@.take(0) =~= Seq::<Field>::empty());
            while i < s.fields.len()
                invariant
                    i <= s.fields@.len(),
                    output@ == key_fields_text(start, s.fields@.take(i as int), defs@),
                decreases s.fields.len() - i,
            {
                let f = &s.fields[i];
                proof {
                    assert(s.fields@.take(i + 1).drop_last() =~= s.fields@.take(i as int));
                    assert(s.fields@.take(i + 1).last() == s.fields@[i as int]);
                }
                if any_key(&f.annotations) {
                    let kind = classify_key_field(&f.field_type, defs);
                    emit_key_field_hash(&mut output, f.name.as_str(), &kind);
                }
                i = i + 1;
            }
            assert(s.fields@.take(s.fields@.len() as int) =~= s.fields@);
            output.append("            // Expand to 16 bytes\n");
            output.append("            let mut key = [0u8; 16];\n");
            output.append("            key[..8].copy_from_slice(&hash.to_le_bytes());\n");
            output.append("            hash = hash.wrapping_mul(PRIME);\n");
            output.append("            key[8..].copy_from_slice(&hash.to_le_bytes());\n");
            output.append("            key\n");
        }
        output.append("        }\n");
        output
    }

    /// The `has_key()` method of the DDS impl.
    pub fn emit_has_key_method(s: &Struct) -> (r: String)
        ensures
            r@ == has_key_text(s.fields@),
    {
        let has_key_field = Self::any_key_field(&s.fields);
        let mut output = String::new();
        output.append("\n        /// Returns true if this type has @key fields\n");
        output.append("        fn has_key() -> bool { ");
        append_bool(&mut output, has_key_field);
        output.append(" }\n");
        output
    }

    /// Whether some member is `@key`.
    pub fn any_key_field(fields: &Vec<Field>) -> (r: bool)
        ensures
            r == struct_has_key(fields@),
    {
        let mut i: usize = 0;
        while i < fields.len()
            invariant
                i <= fields@.len(),
                forall|j: int| 0 <= j < i ==> !has_key(#[trigger] fields@[j].annotations@),
            decreases fields.len() - i,
        {
            if any_key(&fields[i].annotations) {
                return true;
            }
            i = i + 1;
        }
        false
    }
}


/// The XTypes `TypeIdentifier` suffix of a primitive type.
pub open spec fn tk_suffix(p: PrimitiveType) -> Seq<char> {
    match p {
        PrimitiveType::Octet | PrimitiveType::UInt8 | PrimitiveType::Void => "TK_BYTE"@,
        PrimitiveType::Char => "TK_CHAR8"@,
        PrimitiveType::WChar => "TK_CHAR16"@,
        PrimitiveType::Boolean => "TK_BOOLEAN"@,
        PrimitiveType::Short | PrimitiveType::Int16 => "TK_INT16"@,
        PrimitiveType::UnsignedShort | PrimitiveType::UInt16 => "TK_UINT16"@,
        PrimitiveType::Long | PrimitiveType::Int32 => "TK_INT32"@,
        PrimitiveType::UnsignedLong | PrimitiveType::UInt32 => "TK_UINT32"@,
        PrimitiveType::LongLong | PrimitiveType::Int64 | PrimitiveType::Fixed { .. } => "TK_INT64"@,
        PrimitiveType::UnsignedLongLong | PrimitiveType::UInt64 => "TK_UINT64"@,
        PrimitiveType::Float => "TK_FLOAT32"@,
        PrimitiveType::Double | PrimitiveType::LongDouble => "TK_FLOAT64"@,
        PrimitiveType::Int8 => "TK_INT8"@,
        PrimitiveType::String => "TK_STRING8"@,
        PrimitiveType::WString => "TK_STRING16"@,
    }
}

/// Nesting depth of a type expression.
pub open spec fn type_depth(t: IdlType) -> nat
    decreases t,
{
    match t {
        IdlType::Array { inner, .. } => 1 + type_depth(*inner),
        _ => 0,
    }
}

/// The views of a list of names.
pub open spec fn names_of(v: Seq<String>) -> Seq<Seq<char>> {
    v.map_values(|s: String| s@)
}

/// Whether `name` is in the list.
pub open spec fn in_names(vis: Seq<Seq<char>>, name: Seq<char>) -> bool {
    exists|k: int| 0 <= k < vis.len() && vis[k] == name
}

/// The number of declarations that are a struct or enum whose name is not in
/// `vis`: what is left to emit, which bounds how deep type objects nest.
pub open spec fn unvisited_count(defs: Seq<Definition>, vis: Seq<Seq<char>>) -> nat
    decreases defs.len(),
{
    if defs.len() == 0 {
        0
    } else {
        let d = defs.last();
        unvisited_count(defs.drop_last(), vis) + if (d is Struct || d is Enum) && !in_names(vis, def_name(d)) {
            1nat
        } else {
            0nat
        }
    }
}

/// Adding a name to those being emitted never raises what is left to emit,
/// and lowers it when a struct or enum has that name and it was not there.
pub proof fn lemma_unvisited_push(defs: Seq<Definition>, vis: Seq<Seq<char>>, name: Seq<char>)
    ensures
        unvisited_count(defs, vis.push(name)) <= unvisited_count(defs, vis),
        (!in_names(vis, name) && find_type(defs, name) is Some) ==> unvisited_count(defs, vis.push(name))
            < unvisited_count(defs, vis),
    decreases defs.len(),
{
    if defs.len() > 0 {
        let init = defs.drop_last();
        lemma_unvisited_push(init, vis, name);
        let d = defs.last();
        let n = def_name(d);
        if in_names(vis, n) {
            let k = choose|k: int| 0 <= k < vis.len() && vis[k] == n;
            assert(vis.push(name)[k] == n);
        }
        if n == name {
            assert(vis.push(name)[vis.len() as int] == name);
        }
        if in_names(vis.push(name), n) && !in_names(vis, n) {
            let k = choose|k: int| 0 <= k < vis.push(name).len() && vis.push(name)[k] == n;
            if k < vis.len() {
                assert(vis[k] == n);
            }
        }
        if !in_names(vis, name) && find_type(defs, name) is Some {
            if find_type(init, name) is None {
                assert(names_type(d, name));
                assert(n == name);
            }
        }
    }
}

/// The `TypeIdentifier` expression of a member type; `vis` holds the named
/// types whose type objects are being emitted around this one.
pub open spec fn member_type_id_text(t: IdlType, defs: Seq<Definition>, vis: Seq<Seq<char>>) -> Seq<char>
    decreases unvisited_count(defs, vis), 1int, type_depth(t),
{
    match t {
        IdlType::Primitive(p) => "::hdds::xtypes::TypeIdentifier::"@ + tk_suffix(p),
        IdlType::Sequence { inner, .. } => if is_char_prim(*inner) {
            "::hdds::xtypes::TypeIdentifier::TK_STRING8"@
        } else {
            "::hdds::xtypes::TypeIdentifier::TK_UINT32"@
        },
        IdlType::Array { inner, .. } => member_type_id_text(*inner, defs, vis),
        IdlType::MapType { .. } => "::hdds::xtypes::TypeIdentifier::TK_UINT32"@,
        IdlType::Named(name) => inline_type_object_text(name@, defs, vis),
    }
}

/// The `TypeIdentifier::Complete(hash)` block for a named type: the hash of
/// its nested type object, computed once at run time. `TK_UINT32` when the
/// name is not a struct or enum, or names a type already being emitted
/// (a recursive type).
pub open spec fn inline_type_object_text(name: Seq<char>, defs: Seq<Definition>, vis: Seq<Seq<char>>) -> Seq<char>
    decreases unvisited_count(defs, vis), 0int, 0nat,
{
    if in_names(vis, name) {
        "::hdds::xtypes::TypeIdentifier::TK_UINT32"@
    } else {
        match find_type(defs, name) {
            None => "::hdds::xtypes::TypeIdentifier::TK_UINT32"@,
            Some(i) => {
                proof {
                    lemma_unvisited_push(defs, vis, name);
                    lemma_find_type(defs, name);
                }
                let nested = match defs[i] {
                    Definition::Struct(s) => struct_object_text(s, name, defs, vis.push(name)),
                    Definition::Enum(e) => enum_object_text(e, name),
                    _ => "::hdds::xtypes::TypeIdentifier::TK_UINT32"@,
                };
                Seq::empty() + "{\n"@
                + "                                        static __HASH: ::std::sync::OnceLock<::hdds::xtypes::EquivalenceHash> = ::std::sync::OnceLock::new();\n"@
                + "                                        ::hdds::xtypes::TypeIdentifier::Complete(*__HASH.get_or_init(|| {\n"@
                + "                                            let __nested_to = "@ + nested + ";\n"@
                + "                                            __nested_to.compute_equivalence_hash().expect(\"CDR2 encoding of nested CompleteTypeObject\")\n"@
                + "                                        }))\n"@ + "                                    }"@
            },
        }
    }
}

/// The nested `CompleteTypeObject::Struct(...)` expression of a struct.
pub open spec fn struct_object_text(s: Struct, fqn: Seq<char>, defs: Seq<Definition>, vis: Seq<Seq<char>>) -> Seq<char>
    decreases unvisited_count(defs, vis), 3int, 0nat,
{
    let head = Seq::empty() + "::hdds::xtypes::CompleteTypeObject::Struct(\n"@
        + "                                                ::hdds::xtypes::CompleteStructType {\n"@
        + "                                                    struct_flags: ::hdds::xtypes::StructTypeFlag::IS_FINAL,\n"@
        + "                                                    header: ::hdds::xtypes::CompleteStructHeader {\n"@
        + "                                                        base_type: None,\n"@
        + "                                                        detail: ::hdds::xtypes::CompleteTypeDetail::new(\""@
        + fqn + "\"),\n"@ + "                                                    },\n"@
        + "                                                    member_seq: vec![\n"@;
    struct_members_text(head, s.fields@, defs, vis)
    + "                                                    ],\n"@
    + "                                                }\n"@
    + "                                            )"@
}

/// `pre` followed by the `CompleteStructMember` entries of the members.
pub open spec fn struct_members_text(pre: Seq<char>, fields: Seq<Field>, defs: Seq<Definition>, vis: Seq<Seq<char>>) -> Seq<char>
    decreases unvisited_count(defs, vis), 2int, fields.len(),
{
    if fields.len() == 0 {
        pre
    } else {
        let pre = struct_members_text(pre, fields.drop_last(), defs, vis);
        pre
        + "                                                        ::hdds::xtypes::CompleteStructMember {\n"@
        + "                                                            common: ::hdds::xtypes::CommonStructMember {\n"@
        + "                                                                member_id: "@
        + decimal((fields.len() - 1) as nat) + ",\n"@
        + "                                                                member_flags: ::hdds::xtypes::MemberFlag::empty(),\n"@
        + "                                                                member_type_id: "@
        + member_type_id_text(fields.last().field_type, defs, vis) + ",\n"@
        + "                                                            },\n"@
        + "                                                            detail: ::hdds::xtypes::CompleteMemberDetail::new(\""@
        + fields.last().name@ + "\"),\n"@
        + "                                                        },\n"@
    }
}

/// The value of enumerator number `idx`: its explicit value, else its index.
pub open spec fn enum_value(value: Option<i64>, idx: int) -> i64 {
    match value {
        Some(v) => v,
        None => if idx <= i64::MAX { idx as i64 } else { 0 },
    }
}

/// The nested `CompleteTypeObject::Enumerated(...)` expression of an enum.
pub open spec fn enum_object_text(e: Enum, fqn: Seq<char>) -> Seq<char> {
    let head = Seq::empty() + "::hdds::xtypes::CompleteTypeObject::Enumerated(\n"@
        + "                                                ::hdds::xtypes::CompleteEnumeratedType {\n"@
        + "                                                    header: ::hdds::xtypes::CompleteEnumeratedHeader {\n"@
        + "                                                        bit_bound: 32,\n"@
        + "                                                        detail: ::hdds::xtypes::CompleteTypeDetail::new(\""@
        + fqn + "\"),\n"@ + "                                                    },\n"@
        + "                                                    literal_seq: vec![\n"@;
    enum_literals_text(head, e.variants@)
    + "                                                    ],\n"@
    + "                                                }\n"@
    + "                                            )"@
}

/// `pre` followed by the `CompleteEnumeratedLiteral` entries.
pub open spec fn enum_literals_text(pre: Seq<char>, variants: Seq<EnumVariant>) -> Seq<char>
    decreases variants.len(),
{
    if variants.len() == 0 {
        pre
    } else {
        let pre = enum_literals_text(pre, variants.drop_last());
        pre
        + "                                                        ::hdds::xtypes::CompleteEnumeratedLiteral {\n"@
        + "                                                            common: ::hdds::xtypes::CommonEnumeratedLiteral {\n"@
        + "                                                                value: "@
        + signed_decimal(enum_value(variants.last().value, (variants.len() - 1) as int) as int) + ",\n"@
        + "                                                                flags: ::hdds::xtypes::EnumeratedLiteralFlag::empty(),\n"@
        + "                                                            },\n"@
        + "                                                            detail: ::hdds::xtypes::CompleteMemberDetail::new(\""@
        + variants.last().name@ + "\"),\n"@
        + "                                                        },\n"@
    }
}

/// The explicit `@id` of a member, if it has one (the first).
pub open spec fn explicit_id(anns: Seq<Annotation>) -> Option<u32>
    decreases anns.len(),
{
    if anns.len() == 0 {
        None
    } else {
        match explicit_id(anns.drop_last()) {
            Some(v) => Some(v),
            None => match anns.last() {
                Annotation::Id(v) => Some(v),
                _ => None,
            },
        }
    }
}

/// The `MemberId` of member number `idx`: its index; in a `@mutable`
/// struct (whose members are encoded with their ids) its explicit `@id`, or
/// else the hash of its name.
pub open spec fn member_id(mutable: bool, f: Field, idx: int) -> u32 {
    if mutable {
        match explicit_id(f.annotations@) {
            Some(v) => v,
            None => hashed_member_id(encode_utf8(f.name@)),
        }
    } else {
        #[verifier::truncate] (idx as u32)
    }
}

/// The extensibility flag of a struct: `IS_MUTABLE` for `@mutable`,
/// `IS_APPENDABLE` for `@appendable` (and not `@mutable`), else `IS_FINAL`.
pub open spec fn struct_flag(anns: Seq<Annotation>) -> Seq<char> {
    if has_mutable(anns) {
        "IS_MUTABLE"@
    } else if has_appendable(anns) {
        "IS_APPENDABLE"@
    } else {
        "IS_FINAL"@
    }
}

/// The `struct_flags` line of `get_type_object()`.
pub open spec fn struct_flags_line(anns: Seq<Annotation>) -> Seq<char> {
    "                    struct_flags: ::hdds::xtypes::StructTypeFlag::"@ + struct_flag(anns) + ",\n"@
}

/// The members `get_type_object()` lists for layout entries: each entry's
/// name and type.
pub open spec fn layout_members(layouts: Seq<(String, usize, IdlType)>) -> Seq<(Seq<char>, IdlType)> {
    layouts.map_values(|l: (String, usize, IdlType)| (l.0@, l.2))
}

/// The name and type of each member of a struct.
pub open spec fn field_members(fields: Seq<Field>) -> Seq<(Seq<char>, IdlType)> {
    fields.map_values(|f: Field| (f.name@, f.field_type))
}

/// The `get_type_object()` method of the DDS impl, listing `members` (names
/// and types); in a `@mutable` struct member `i`'s id is read from the
/// struct's member `i`.
pub open spec fn xtypes_text(s: Struct, fqn: Seq<char>, members: Seq<(Seq<char>, IdlType)>, defs: Seq<Definition>) -> Seq<char> {
    let mutable = has_mutable(s.annotations@);
    let head = Seq::empty() + "        fn get_type_object() -> Option<::hdds::xtypes::CompleteTypeObject> {\n"@
        + "            Some(::hdds::xtypes::CompleteTypeObject::Struct(\n"@
        + "                ::hdds::xtypes::CompleteStructType {\n"@;
    let head = head + struct_flags_line(s.annotations@);
    let head = head + "                    header: ::hdds::xtypes::CompleteStructHeader {\n"@
        + "                        base_type: None,\n"@
        + "                        detail: ::hdds::xtypes::CompleteTypeDetail::new(\""@ + fqn
        + "\"),\n"@ + "                    },\n"@ + "                    member_seq: vec![\n"@;
    xtypes_members_text(head, members, s.fields@, mutable, defs) + "                    ],\n"@
    + "                }\n"@ + "            ))\n"@ + "        }\n"@
}

/// `pre` followed by the `CompleteStructMember` entries of `get_type_object()`
/// for `members`; entry `k`'s id is `member_id` of the struct's member `k`.
pub open spec fn xtypes_members_text(
    pre: Seq<char>,
    members: Seq<(Seq<char>, IdlType)>,
    fields: Seq<Field>,
    mutable: bool,
    defs: Seq<Definition>,
) -> Seq<char>
    decreases members.len(),
{
    if members.len() == 0 {
        pre
    } else {
        let k = members.len() - 1;
        let pre = xtypes_members_text(pre, members.drop_last(), fields, mutable, defs);
        pre + "                        ::hdds::xtypes::CompleteStructMember {\n"@
        + "                            common: ::hdds::xtypes::CommonStructMember {\n"@
        + "                                member_id: "@
        + decimal(member_id(mutable, fields[k], k) as nat) + ",\n"@
        + "                                member_flags: ::hdds::xtypes::MemberFlag::empty(),\n"@
        + "                                member_type_id: "@
        + member_type_id_text(members.last().1, defs, Seq::empty()) + ",\n"@
        + "                            },\n"@
        + "                            detail: ::hdds::xtypes::CompleteMemberDetail::new(\""@
        + members.last().0 + "\"),\n"@ + "                        },\n"@
    }
}

/// The fully qualified name of a struct: `module::name`, or its name.
pub open spec fn fqn_text(name: Seq<char>, module: Option<Seq<char>>) -> Seq<char> {
    match module {
        Some(m) => m + "::"@ + name,
        None => name,
    }
}

/// Whether some member is optional or of variable size.
pub open spec fn any_field_variable(fields: Seq<Field>) -> bool {
    exists|i: int| 0 <= i < fields.len() && #[trigger] field_is_variable(fields[i])
}

/// `pre` followed by the `FieldLayout` entries of the type descriptor.
pub open spec fn layout_entries_text(pre: Seq<char>, fields: Seq<Field>) -> Seq<char>
    decreases fields.len(),
{
    if fields.len() == 0 {
        pre
    } else {
        let pre = layout_entries_text(pre, fields.drop_last());
        pre + "                    ::hdds::core::types::FieldLayout {\n"@
        + "                        name: \""@ + fields.last().name@ + "\",\n"@
        + "                        offset_bytes: "@ + decimal(field_offset(fields, fields.len() - 1))
        + ",\n"@ + "                        field_type: ::hdds::core::types::FieldType::Primitive(\n"@
        + "                            ::hdds::core::types::PrimitiveKind::"@
        + type_kind(fields.last().field_type) + "\n"@ + "                        ),\n"@
        + "                        alignment: "@ + decimal(type_align(fields.last().field_type))
        + ",\n"@ + "                        size_bytes: "@
        + decimal(type_size(fields.last().field_type)) + ",\n"@
        + "                        element_type: None,\n"@ + "                    },\n"@
    }
}

/// The `impl ::hdds::api::DDS` block emitted for a struct.
pub open spec fn dds_impl_text(s: Struct, module: Option<Seq<char>>, defs: Seq<Definition>) -> Seq<char> {
    let fqn = fqn_text(s.name@, module);
    let fields = s.fields@;
    let head = Seq::empty() + "    // === DDS Trait (auto-generated by hddsgen) ===\n"@
        + "    impl ::hdds::api::DDS for "@ + s.name@ + " {\n"@
        + "        fn type_descriptor() -> &'static ::hdds::core::types::TypeDescriptor {\n"@
        + "            static DESC: ::hdds::core::types::TypeDescriptor = ::hdds::core::types::TypeDescriptor {\n"@
        + "                type_id: "@ + hex_u32(fnv1a(encode_utf8(fqn))) + ",  // FNV-1a hash of \""@
        + fqn + "\"\n"@ + "                type_name: \""@ + fqn + "\",\n"@
        + "                size_bytes: "@
        + decimal(round_up(fields_end(fields), fields_max_align(fields))) + ",\n"@
        + "                alignment: "@ + decimal(fields_max_align(fields)) + ",\n"@
        + "                is_variable_size: "@ + bool_text(any_field_variable(fields)) + ",\n"@
        + "                fields: &[\n"@;
    let body = layout_entries_text(head, fields) + "                ],\n"@ + "            };\n"@
        + "            &DESC\n"@ + "        }\n\n"@
        + "        fn encode(&self, buf: &mut [u8], version: ::hdds::CdrVersion) -> ::hdds::api::Result<usize> {\n"@
        + "            match version {\n"@
        + "                ::hdds::CdrVersion::Xcdr1 => self.encode_xcdr1_le(buf).map_err(Into::into),\n"@
        + "                ::hdds::CdrVersion::Xcdr2 => self.encode_xcdr2_le(buf).map_err(Into::into),\n"@
        + "            }\n"@ + "        }\n\n"@
        + "        fn decode(buf: &[u8], version: ::hdds::CdrVersion) -> ::hdds::api::Result<Self> {\n"@
        + "            match version {\n"@
        + "                ::hdds::CdrVersion::Xcdr1 => Self::decode_xcdr1_le(buf).map(|(val, _)| val).map_err(Into::into),\n"@
        + "                ::hdds::CdrVersion::Xcdr2 => Self::decode_xcdr2_le(buf).map(|(val, _)| val).map_err(Into::into),\n"@
        + "            }\n"@ + "        }\n\n"@;
    body + xtypes_text(s, fqn, field_members(fields), defs) + compute_key_text(fields, defs) + has_key_text(fields)
        + "    }\n    \n"@
}

/// The `FieldLayout` entry of member `i` in the type descriptor.
pub open spec fn layout_entry_text(fields: Seq<Field>, i: int) -> Seq<char> {
    "                    ::hdds::core::types::FieldLayout {\n"@
    + "                        name: \""@ + fields[i].name@ + "\",\n"@
    + "                        offset_bytes: "@ + decimal(field_offset(fields, i))
    + ",\n"@ + "                        field_type: ::hdds::core::types::FieldType::Primitive(\n"@
    + "                            ::hdds::core::types::PrimitiveKind::"@
    + type_kind(fields[i].field_type) + "\n"@ + "                        ),\n"@
    + "                        alignment: "@ + decimal(type_align(fields[i].field_type))
    + ",\n"@ + "                        size_bytes: "@
    + decimal(type_size(fields[i].field_type)) + ",\n"@
    + "                        element_type: None,\n"@ + "                    },\n"@
}

/// The `CompleteStructMember` entry of member `i` in `get_type_object()`:
/// the id of the struct's member `i`, the type and name of `members[i]`.
pub open spec fn xtypes_member_text(
    members: Seq<(Seq<char>, IdlType)>,
    i: int,
    fields: Seq<Field>,
    mutable: bool,
    defs: Seq<Definition>,
) -> Seq<char> {
    "                        ::hdds::xtypes::CompleteStructMember {\n"@
    + "                            common: ::hdds::xtypes::CommonStructMember {\n"@
    + "                                member_id: "@
    + decimal(member_id(mutable, fields[i], i) as nat) + ",\n"@
    + "                                member_flags: ::hdds::xtypes::MemberFlag::empty(),\n"@
    + "                                member_type_id: "@
    + member_type_id_text(members[i].1, defs, Seq::empty()) + ",\n"@
    + "                            },\n"@
    + "                            detail: ::hdds::xtypes::CompleteMemberDetail::new(\""@
    + members[i].0 + "\"),\n"@ + "                        },\n"@
}

/// A member keeps its offset when members after it are dropped.
proof fn lemma_field_offset_prefix(fields: Seq<Field>, i: int)
    requires
        0 <= i < fields.len() - 1,
    ensures
        field_offset(fields.drop_last(), i) == field_offset(fields, i),
{
    assert(fields.drop_last().take(i) =~= fields.take(i));
}

/// The layout entries after `pre` are `pre` followed by the entries alone,
/// the last member's entry last.
#[verifier::rlimit(50)]
proof fn lemma_layout_entries_acc(pre: Seq<char>, fields: Seq<Field>)
    ensures
        layout_entries_text(pre, fields) == pre + layout_entries_text(Seq::empty(), fields),
        fields.len() > 0 ==> layout_entries_text(Seq::empty(), fields) == layout_entries_text(Seq::empty(), fields.drop_last())
            + layout_entry_text(fields, fields.len() - 1),
    decreases fields.len(),
{
    broadcast use lemma_concat_assoc;
    if fields.len() > 0 {
        lemma_layout_entries_acc(pre, fields.drop_last());
        lemma_layout_entries_acc(Seq::empty(), fields.drop_last());
        assert(layout_entries_text(Seq::empty(), fields) =~= layout_entries_text(Seq::empty(), fields.drop_last())
            + layout_entry_text(fields, fields.len() - 1));
        assert(layout_entries_text(pre, fields) =~= pre + layout_entries_text(Seq::empty(), fields));
    } else {
        assert(pre + Seq::<char>::empty() =~= pre);
    }
}

/// The entry of every member occurs among the layout entries.
proof fn lemma_layout_entry_in(fields: Seq<Field>, i: int)
    requires
        0 <= i < fields.len(),
    ensures
        is_infix(layout_entry_text(fields, i), layout_entries_text(Seq::empty(), fields)),
    decreases fields.len(),
{
    lemma_layout_entries_acc(Seq::empty(), fields);
    let init = layout_entries_text(Seq::empty(), fields.drop_last());
    if i == fields.len() - 1 {
        lemma_concat_ends(init, layout_entry_text(fields, i));
    } else {
        lemma_layout_entry_in(fields.drop_last(), i);
        lemma_field_offset_prefix(fields, i);
        assert(layout_entry_text(fields.drop_last(), i) == layout_entry_text(fields, i));
        lemma_infix_grow(layout_entry_text(fields, i), init, layout_entry_text(fields, fields.len() - 1));
    }
}

/// The members of `get_type_object()` after `pre` are `pre` followed by the
/// members alone, the last member's entry last.
#[verifier::rlimit(50)]
proof fn lemma_xtypes_members_acc(
    pre: Seq<char>,
    members: Seq<(Seq<char>, IdlType)>,
    fields: Seq<Field>,
    mutable: bool,
    defs: Seq<Definition>,
)
    ensures
        xtypes_members_text(pre, members, fields, mutable, defs) == pre + xtypes_members_text(Seq::empty(), members, fields, mutable, defs),
        members.len() > 0 ==> xtypes_members_text(Seq::empty(), members, fields, mutable, defs) == xtypes_members_text(
            Seq::empty(),
            members.drop_last(),
            fields,
            mutable,
            defs,
        ) + xtypes_member_text(members, members.len() - 1, fields, mutable, defs),
    decreases members.len(),
{
    broadcast use lemma_concat_assoc;

    if members.len() > 0 {
        lemma_xtypes_members_acc(pre, members.drop_last(), fields, mutable, defs);
        lemma_xtypes_members_acc(Seq::empty(), members.drop_last(), fields, mutable, defs);
    } else {
        assert(pre + Seq::<char>::empty() =~= pre);
    }
}

/// The entry of every member occurs among the members of `get_type_object()`.
proof fn lemma_xtypes_member_in(
    members: Seq<(Seq<char>, IdlType)>,
    i: int,
    fields: Seq<Field>,
    mutable: bool,
    defs: Seq<Definition>,
)
    requires
        0 <= i < members.len(),
    ensures
        is_infix(
            xtypes_member_text(members, i, fields, mutable, defs),
            xtypes_members_text(Seq::empty(), members, fields, mutable, defs),
        ),
    decreases members.len(),
{
    lemma_xtypes_members_acc(Seq::empty(), members, fields, mutable, defs);
    let init = xtypes_members_text(Seq::empty(), members.drop_last(), fields, mutable, defs);
    if i == members.len() - 1 {
        lemma_concat_ends(init, xtypes_member_text(members, i, fields, mutable, defs));
    } else {
        lemma_xtypes_member_in(members.drop_last(), i, fields, mutable, defs);
        assert(xtypes_member_text(members.drop_last(), i, fields, mutable, defs) == xtypes_member_text(
            members,
            i,
            fields,
            mutable,
            defs,
        ));
        lemma_infix_grow(
            xtypes_member_text(members, i, fields, mutable, defs),
            init,
            xtypes_member_text(members, members.len() - 1, fields, mutable, defs),
        );
    }
}

/// The key-hashing code after `pre` is `pre` followed by that code alone.
#[verifier::rlimit(50)]
proof fn lemma_key_fields_acc(pre: Seq<char>, fields: Seq<Field>, defs: Seq<Definition>)
    ensures
        key_fields_text(pre, fields, defs) == pre + key_fields_text(Seq::empty(), fields, defs),
    decreases fields.len(),
{
    broadcast use lemma_concat_assoc;
    if fields.len() > 0 {
        lemma_key_fields_acc(pre, fields.drop_last(), defs);
        lemma_key_fields_acc(Seq::empty(), fields.drop_last(), defs);
        let f = fields.last();
        let before = key_fields_text(Seq::empty(), fields.drop_last(), defs);
        if has_key(f.annotations@) {
            assert(key_hash_text(pre + before, f.name@, key_kind(f.field_type, defs)) =~= pre + key_hash_text(
                before,
                f.name@,
                key_kind(f.field_type, defs),
            ));
        }
    } else {
        assert(pre + Seq::<char>::empty() =~= pre);
    }
}

/// The DDS impl of a struct opens with `impl ::hdds::api::DDS for` its name;
/// its type descriptor holds the FNV-1a type id of the fully qualified name
/// and that name, the struct size, alignment and variable-size flag, and the
/// `FieldLayout` entry of every member (one per member, in order); and it
/// ends with `get_type_object()`, `compute_key()` and `has_key()`.
pub proof fn law_dds_impl_descriptor(s: Struct, module: Option<Seq<char>>, defs: Seq<Definition>)
    ensures
        starts_with(
            dds_impl_text(s, module, defs),
            "    // === DDS Trait (auto-generated by hddsgen) ===\n"@ + "    impl ::hdds::api::DDS for "@ + s.name@ + " {\n"@,
        ),
        is_infix(
            "                type_id: "@ + hex_u32(fnv1a(encode_utf8(fqn_text(s.name@, module)))) + ",  // FNV-1a hash of \""@
                + fqn_text(s.name@, module) + "\"\n"@,
            dds_impl_text(s, module, defs),
        ),
        is_infix("                type_name: \""@ + fqn_text(s.name@, module) + "\",\n"@, dds_impl_text(s, module, defs)),
        is_infix(
            "                size_bytes: "@ + decimal(round_up(fields_end(s.fields@), fields_max_align(s.fields@))) + ",\n"@
                + "                alignment: "@ + decimal(fields_max_align(s.fields@)) + ",\n"@
                + "                is_variable_size: "@ + bool_text(any_field_variable(s.fields@)) + ",\n"@,
            dds_impl_text(s, module, defs),
        ),
        layout_entries_text(Seq::empty(), s.fields@.take(0)) == Seq::<char>::empty(),
        forall|i: int| 0 <= i < s.fields@.len() ==> layout_entries_text(Seq::empty(), #[trigger] s.fields@.take(i + 1))
            == layout_entries_text(Seq::empty(), s.fields@.take(i)) + layout_entry_text(s.fields@, i),
        forall|i: int| 0 <= i < s.fields@.len() ==> is_infix(#[trigger] layout_entry_text(s.fields@, i), dds_impl_text(s, module, defs)),
        ends_with(
            dds_impl_text(s, module, defs),
            xtypes_text(s, fqn_text(s.name@, module), field_members(s.fields@), defs) + compute_key_text(s.fields@, defs) + has_key_text(s.fields@)
                + "    }\n    \n"@,
        ),
{
    let fqn = fqn_text(s.name@, module);
    let fields = s.fields@;
    let t = dds_impl_text(s, module, defs);
    let spec_head = Seq::empty() + "    // === DDS Trait (auto-generated by hddsgen) ===\n"@
        + "    impl ::hdds::api::DDS for "@ + s.name@ + " {\n"@
        + "        fn type_descriptor() -> &'static ::hdds::core::types::TypeDescriptor {\n"@
        + "            static DESC: ::hdds::core::types::TypeDescriptor = ::hdds::core::types::TypeDescriptor {\n"@
        + "                type_id: "@ + hex_u32(fnv1a(encode_utf8(fqn))) + ",  // FNV-1a hash of \""@
        + fqn + "\"\n"@ + "                type_name: \""@ + fqn + "\",\n"@
        + "                size_bytes: "@
        + decimal(round_up(fields_end(fields), fields_max_align(fields))) + ",\n"@
        + "                alignment: "@ + decimal(fields_max_align(fields)) + ",\n"@
        + "                is_variable_size: "@ + bool_text(any_field_variable(fields)) + ",\n"@
        + "                fields: &[\n"@;
    lemma_head_groups(Seq::empty(), "    // === DDS Trait (auto-generated by hddsgen) ===\n"@, "    impl ::hdds::api::DDS for "@, s.name@, " {\n"@, "        fn type_descriptor() -> &'static ::hdds::core::types::TypeDescriptor {\n"@, "            static DESC: ::hdds::core::types::TypeDescriptor = ::hdds::core::types::TypeDescriptor {\n"@, "                type_id: "@, hex_u32(fnv1a(encode_utf8(fqn))), ",  // FNV-1a hash of \""@, fqn, "\"\n"@, "                type_name: \""@, fqn, "\",\n"@, "                size_bytes: "@, decimal(round_up(fields_end(fields), fields_max_align(fields))), ",\n"@, "                alignment: "@, decimal(fields_max_align(fields)), ",\n"@, "                is_variable_size: "@, bool_text(any_field_variable(fields)), ",\n"@, "                fields: &[\n"@);
    let h1 = (Seq::empty() + "    // === DDS Trait (auto-generated by hddsgen) ===\n"@ + "    impl ::hdds::api::DDS for "@ + s.name@ + " {\n"@);
    let le = layout_entries_text(Seq::empty(), fields);
    let rest = ("                ],\n"@ + "            };\n"@ + "            &DESC\n"@ + "        }\n\n"@ + "        fn encode(&self, buf: &mut [u8], version: ::hdds::CdrVersion) -> ::hdds::api::Result<usize> {\n"@ + "            match version {\n"@ + "                ::hdds::CdrVersion::Xcdr1 => self.encode_xcdr1_le(buf).map_err(Into::into),\n"@ + "                ::hdds::CdrVersion::Xcdr2 => self.encode_xcdr2_le(buf).map_err(Into::into),\n"@ + "            }\n"@ + "        }\n\n"@ + "        fn decode(buf: &[u8], version: ::hdds::CdrVersion) -> ::hdds::api::Result<Self> {\n"@ + "            match version {\n"@ + "                ::hdds::CdrVersion::Xcdr1 => Self::decode_xcdr1_le(buf).map(|(val, _)| val).map_err(Into::into),\n"@ + "                ::hdds::CdrVersion::Xcdr2 => Self::decode_xcdr2_le(buf).map(|(val, _)| val).map_err(Into::into),\n"@ + "            }\n"@ + "        }\n\n"@);
    let xt = xtypes_text(s, fqn, field_members(fields), defs);
    let ck = compute_key_text(fields, defs);
    let hk = has_key_text(fields);
    let en = "    }\n    \n"@;
    lemma_rest_groups(layout_entries_text(spec_head, fields), "                ],\n"@, "            };\n"@, "            &DESC\n"@, "        }\n\n"@, "        fn encode(&self, buf: &mut [u8], version: ::hdds::CdrVersion) -> ::hdds::api::Result<usize> {\n"@, "            match version {\n"@, "                ::hdds::CdrVersion::Xcdr1 => self.encode_xcdr1_le(buf).map_err(Into::into),\n"@, "                ::hdds::CdrVersion::Xcdr2 => self.encode_xcdr2_le(buf).map_err(Into::into),\n"@, "            }\n"@, "        }\n\n"@, "        fn decode(buf: &[u8], version: ::hdds::CdrVersion) -> ::hdds::api::Result<Self> {\n"@, "            match version {\n"@, "                ::hdds::CdrVersion::Xcdr1 => Self::decode_xcdr1_le(buf).map(|(val, _)| val).map_err(Into::into),\n"@, "                ::hdds::CdrVersion::Xcdr2 => Self::decode_xcdr2_le(buf).map(|(val, _)| val).map_err(Into::into),\n"@, "            }\n"@, "        }\n\n"@, xt, ck, hk, en);
    lemma_layout_entries_acc(spec_head, fields);
    assert(t == (Seq::empty() + "    // === DDS Trait (auto-generated by hddsgen) ===\n"@ + "    impl ::hdds::api::DDS for "@ + s.name@ + " {\n"@) + ("        fn type_descriptor() -> &'static ::hdds::core::types::TypeDescriptor {\n"@ + "            static DESC: ::hdds::core::types::TypeDescriptor = ::hdds::core::types::TypeDescriptor {\n"@) + ("                type_id: "@ + hex_u32(fnv1a(encode_utf8(fqn))) + ",  // FNV-1a hash of \""@ + fqn + "\"\n"@) + ("                type_name: \""@ + fqn + "\",\n"@) + ("                size_bytes: "@ + decimal(round_up(fields_end(fields), fields_max_align(fields))) + ",\n"@ + "                alignment: "@ + decimal(fields_max_align(fields)) + ",\n"@ + "                is_variable_size: "@ + bool_text(any_field_variable(fields)) + ",\n"@) + ("                fields: &[\n"@) + le + rest + (xt + ck + hk + en));
    lemma_nine_parts((Seq::empty() + "    // === DDS Trait (auto-generated by hddsgen) ===\n"@ + "    impl ::hdds::api::DDS for "@ + s.name@ + " {\n"@), ("        fn type_descriptor() -> &'static ::hdds::core::types::TypeDescriptor {\n"@ + "            static DESC: ::hdds::core::types::TypeDescriptor = ::hdds::core::types::TypeDescriptor {\n"@), ("                type_id: "@ + hex_u32(fnv1a(encode_utf8(fqn))) + ",  // FNV-1a hash of \""@ + fqn + "\"\n"@), ("                type_name: \""@ + fqn + "\",\n"@), ("                size_bytes: "@ + decimal(round_up(fields_end(fields), fields_max_align(fields))) + ",\n"@ + "                alignment: "@ + decimal(fields_max_align(fields)) + ",\n"@ + "                is_variable_size: "@ + bool_text(any_field_variable(fields)) + ",\n"@), ("                fields: &[\n"@), le, rest, xt + ck + hk + en, le);
    assert(h1 =~= "    // === DDS Trait (auto-generated by hddsgen) ===\n"@ + "    impl ::hdds::api::DDS for "@ + s.name@ + " {\n"@);
    assert(fields.take(0) =~= Seq::<Field>::empty());
    assert forall|i: int| 0 <= i < fields.len() implies layout_entries_text(Seq::empty(), #[trigger] fields.take(i + 1))
        == layout_entries_text(Seq::empty(), fields.take(i)) + layout_entry_text(fields, i) by {
        lemma_layout_entries_acc(Seq::empty(), fields.take(i + 1));
        assert(fields.take(i + 1).drop_last() =~= fields.take(i));
        assert(fields.take(i + 1).take(i) =~= fields.take(i));
        assert(fields.take(i + 1)[i] == fields[i]);
    }
    assert forall|i: int| 0 <= i < fields.len() implies is_infix(#[trigger] layout_entry_text(fields, i), t) by {
        lemma_layout_entry_in(fields, i);
        lemma_nine_parts((Seq::empty() + "    // === DDS Trait (auto-generated by hddsgen) ===\n"@ + "    impl ::hdds::api::DDS for "@ + s.name@ + " {\n"@), ("        fn type_descriptor() -> &'static ::hdds::core::types::TypeDescriptor {\n"@ + "            static DESC: ::hdds::core::types::TypeDescriptor = ::hdds::core::types::TypeDescriptor {\n"@), ("                type_id: "@ + hex_u32(fnv1a(encode_utf8(fqn))) + ",  // FNV-1a hash of \""@ + fqn + "\"\n"@), ("                type_name: \""@ + fqn + "\",\n"@), ("                size_bytes: "@ + decimal(round_up(fields_end(fields), fields_max_align(fields))) + ",\n"@ + "                alignment: "@ + decimal(fields_max_align(fields)) + ",\n"@ + "                is_variable_size: "@ + bool_text(any_field_variable(fields)) + ",\n"@), ("                fields: &[\n"@), le, rest, xt + ck + hk + en, layout_entry_text(fields, i));
    }
}

/// The opening of the type descriptor, regrouped into its lines.
proof fn lemma_head_groups(p0: Seq<char>, p1: Seq<char>, p2: Seq<char>, p3: Seq<char>, p4: Seq<char>, p5: Seq<char>, p6: Seq<char>, p7: Seq<char>, p8: Seq<char>, p9: Seq<char>, p10: Seq<char>, p11: Seq<char>, p12: Seq<char>, p13: Seq<char>, p14: Seq<char>, p15: Seq<char>, p16: Seq<char>, p17: Seq<char>, p18: Seq<char>, p19: Seq<char>, p20: Seq<char>, p21: Seq<char>, p22: Seq<char>, p23: Seq<char>, p24: Seq<char>)
    ensures
        p0 + p1 + p2 + p3 + p4 + p5 + p6 + p7 + p8 + p9 + p10 + p11 + p12 + p13 + p14 + p15 + p16 + p17 + p18 + p19 + p20 + p21 + p22 + p23 + p24 == (p0 + p1 + p2 + p3 + p4) + (p5 + p6) + (p7 + p8 + p9 + p10 + p11) + (p12 + p13 + p14) + (p15 + p16 + p17 + p18 + p19 + p20 + p21 + p22 + p23) + (p24),
{
    broadcast use lemma_concat_assoc;

}

/// The DDS impl after the descriptor's opening, regrouped into the
/// descriptor, the `encode`/`decode` dispatch and the closing methods.
proof fn lemma_rest_groups(x: Seq<char>, r0: Seq<char>, r1: Seq<char>, r2: Seq<char>, r3: Seq<char>, r4: Seq<char>, r5: Seq<char>, r6: Seq<char>, r7: Seq<char>, r8: Seq<char>, r9: Seq<char>, r10: Seq<char>, r11: Seq<char>, r12: Seq<char>, r13: Seq<char>, r14: Seq<char>, r15: Seq<char>, xt: Seq<char>, ck: Seq<char>, hk: Seq<char>, en: Seq<char>)
    ensures
        x + r0 + r1 + r2 + r3 + r4 + r5 + r6 + r7 + r8 + r9 + r10 + r11 + r12 + r13 + r14 + r15 + xt + ck + hk + en == x + (r0 + r1 + r2 + r3 + r4 + r5 + r6 + r7 + r8 + r9 + r10 + r11 + r12 + r13 + r14 + r15) + (xt + ck + hk + en),
{
    broadcast use lemma_concat_assoc;

}

/// The `get_type_object()` method of a struct opens with its signature,
/// gives the struct's extensibility flag (`IS_MUTABLE` for `@mutable`,
/// `IS_APPENDABLE` for `@appendable`, else `IS_FINAL`), a header with no base
/// type and the fully qualified name, and the `CompleteStructMember` entry of
/// every listed member, one per member in order, with its name and type and a
/// member id that is its index, or in a `@mutable` struct the `@id` or the
/// name hash of the struct's member at that index.
pub proof fn law_xtypes_type_object(s: Struct, fqn: Seq<char>, members: Seq<(Seq<char>, IdlType)>, defs: Seq<Definition>)
    ensures
        starts_with(xtypes_text(s, fqn, members, defs), "        fn get_type_object() -> Option<::hdds::xtypes::CompleteTypeObject> {\n"@),
        is_infix(struct_flags_line(s.annotations@), xtypes_text(s, fqn, members, defs)),
        struct_flags_line(s.annotations@) == "                    struct_flags: ::hdds::xtypes::StructTypeFlag::"@ + (if has_mutable(
            s.annotations@,
        ) {
            "IS_MUTABLE"@
        } else if has_appendable(s.annotations@) {
            "IS_APPENDABLE"@
        } else {
            "IS_FINAL"@
        }) + ",\n"@,
        is_infix(
            "                        base_type: None,\n"@ + "                        detail: ::hdds::xtypes::CompleteTypeDetail::new(\""@ + fqn
                + "\"),\n"@,
            xtypes_text(s, fqn, members, defs),
        ),
        xtypes_members_text(Seq::empty(), members.take(0), s.fields@, has_mutable(s.annotations@), defs) == Seq::<char>::empty(),
        forall|i: int| 0 <= i < members.len() ==> xtypes_members_text(Seq::empty(), #[trigger] members.take(i + 1), s.fields@, has_mutable(s.annotations@), defs)
            == xtypes_members_text(Seq::empty(), members.take(i), s.fields@, has_mutable(s.annotations@), defs)
                + xtypes_member_text(members, i, s.fields@, has_mutable(s.annotations@), defs),
        forall|i: int| 0 <= i < members.len() ==> is_infix(
            #[trigger] xtypes_member_text(members, i, s.fields@, has_mutable(s.annotations@), defs),
            xtypes_text(s, fqn, members, defs),
        ),
        forall|i: int| 0 <= i < members.len() ==> #[trigger] member_id(has_mutable(s.annotations@), s.fields@[i], i) == if has_mutable(s.annotations@) {
            match explicit_id(s.fields@[i].annotations@) {
                Some(v) => v,
                None => hashed_member_id(encode_utf8(s.fields@[i].name@)),
            }
        } else {
            #[verifier::truncate] (i as u32)
        },
{
    let mutable = has_mutable(s.annotations@);
    let fields = s.fields@;
    let t = xtypes_text(s, fqn, members, defs);
    let spec_head = Seq::empty() + "        fn get_type_object() -> Option<::hdds::xtypes::CompleteTypeObject> {\n"@ + "            Some(::hdds::xtypes::CompleteTypeObject::Struct(\n"@ + "                ::hdds::xtypes::CompleteStructType {\n"@ + struct_flags_line(s.annotations@) + "                    header: ::hdds::xtypes::CompleteStructHeader {\n"@ + "                        base_type: None,\n"@ + "                        detail: ::hdds::xtypes::CompleteTypeDetail::new(\""@ + fqn + "\"),\n"@ + "                    },\n"@ + "                    member_seq: vec![\n"@;
    lemma_twelve_groups(Seq::empty(), "        fn get_type_object() -> Option<::hdds::xtypes::CompleteTypeObject> {\n"@, "            Some(::hdds::xtypes::CompleteTypeObject::Struct(\n"@, "                ::hdds::xtypes::CompleteStructType {\n"@, struct_flags_line(s.annotations@), "                    header: ::hdds::xtypes::CompleteStructHeader {\n"@, "                        base_type: None,\n"@, "                        detail: ::hdds::xtypes::CompleteTypeDetail::new(\""@, fqn, "\"),\n"@, "                    },\n"@, "                    member_seq: vec![\n"@);
    let m = xtypes_members_text(Seq::empty(), members, fields, mutable, defs);
    lemma_xtypes_members_acc(spec_head, members, fields, mutable, defs);
    lemma_rest4_groups(xtypes_members_text(spec_head, members, fields, mutable, defs), "                    ],\n"@, "                }\n"@, "            ))\n"@, "        }\n"@);
    let r = ("                    ],\n"@ + "                }\n"@);
    let tl = ("            ))\n"@ + "        }\n"@);
    assert(t == (Seq::empty() + "        fn get_type_object() -> Option<::hdds::xtypes::CompleteTypeObject> {\n"@) + ("            Some(::hdds::xtypes::CompleteTypeObject::Struct(\n"@ + "                ::hdds::xtypes::CompleteStructType {\n"@) + (struct_flags_line(s.annotations@)) + ("                    header: ::hdds::xtypes::CompleteStructHeader {\n"@) + ("                        base_type: None,\n"@ + "                        detail: ::hdds::xtypes::CompleteTypeDetail::new(\""@ + fqn + "\"),\n"@) + ("                    },\n"@ + "                    member_seq: vec![\n"@) + m + r + tl);
    lemma_nine_parts((Seq::empty() + "        fn get_type_object() -> Option<::hdds::xtypes::CompleteTypeObject> {\n"@), ("            Some(::hdds::xtypes::CompleteTypeObject::Struct(\n"@ + "                ::hdds::xtypes::CompleteStructType {\n"@), (struct_flags_line(s.annotations@)), ("                    header: ::hdds::xtypes::CompleteStructHeader {\n"@), ("                        base_type: None,\n"@ + "                        detail: ::hdds::xtypes::CompleteTypeDetail::new(\""@ + fqn + "\"),\n"@), ("                    },\n"@ + "                    member_seq: vec![\n"@), m, r, tl, m);
    assert((Seq::empty() + "        fn get_type_object() -> Option<::hdds::xtypes::CompleteTypeObject> {\n"@) =~= "        fn get_type_object() -> Option<::hdds::xtypes::CompleteTypeObject> {\n"@);
    assert(members.take(0) =~= Seq::<(Seq<char>, IdlType)>::empty());
    assert forall|i: int| 0 <= i < members.len() implies xtypes_members_text(Seq::empty(), #[trigger] members.take(i + 1), fields, mutable, defs)
        == xtypes_members_text(Seq::empty(), members.take(i), fields, mutable, defs) + xtypes_member_text(members, i, fields, mutable, defs) by {
        lemma_xtypes_members_acc(Seq::empty(), members.take(i + 1), fields, mutable, defs);
        assert(members.take(i + 1).drop_last() =~= members.take(i));
        assert(members.take(i + 1)[i] == members[i]);
    }
    assert forall|i: int| 0 <= i < members.len() implies is_infix(#[trigger] xtypes_member_text(members, i, fields, mutable, defs), t) by {
        lemma_xtypes_member_in(members, i, fields, mutable, defs);
        lemma_nine_parts((Seq::empty() + "        fn get_type_object() -> Option<::hdds::xtypes::CompleteTypeObject> {\n"@), ("            Some(::hdds::xtypes::CompleteTypeObject::Struct(\n"@ + "                ::hdds::xtypes::CompleteStructType {\n"@), (struct_flags_line(s.annotations@)), ("                    header: ::hdds::xtypes::CompleteStructHeader {\n"@), ("                        base_type: None,\n"@ + "                        detail: ::hdds::xtypes::CompleteTypeDetail::new(\""@ + fqn + "\"),\n"@), ("                    },\n"@ + "                    member_seq: vec![\n"@), m, r, tl, xtypes_member_text(members, i, fields, mutable, defs));
    }
}

/// A twelve-part text regrouped into six groups.
proof fn lemma_twelve_groups(p0: Seq<char>, p1: Seq<char>, p2: Seq<char>, p3: Seq<char>, p4: Seq<char>, p5: Seq<char>, p6: Seq<char>, p7: Seq<char>, p8: Seq<char>, p9: Seq<char>, p10: Seq<char>, p11: Seq<char>)
    ensures
        p0 + p1 + p2 + p3 + p4 + p5 + p6 + p7 + p8 + p9 + p10 + p11 == (p0 + p1) + (p2 + p3) + (p4) + (p5) + (p6 + p7 + p8 + p9) + (p10 + p11),
{
    broadcast use lemma_concat_assoc;

}

/// A text followed by four closing parts, regrouped into two pairs.
proof fn lemma_rest4_groups(x: Seq<char>, c0: Seq<char>, c1: Seq<char>, c2: Seq<char>, c3: Seq<char>)
    ensures
        x + c0 + c1 + c2 + c3 == x + (c0 + c1) + (c2 + c3),
{
    broadcast use lemma_concat_assoc;

}

/// The opening of `compute_key()`.
pub open spec fn key_method_head() -> Seq<char> {
    Seq::empty() + "\n        /// Compute instance key hash from @key fields (FNV-1a, 16 bytes)\n"@ + "        fn compute_key(&self) -> [u8; 16] {\n"@
}

/// `compute_key()` of a struct without `@key` members: a zeroed key.
pub open spec fn zeroed_key_text() -> Seq<char> {
    key_method_head() + "            // No @key fields - return zeroed hash\n"@ + "            [0u8; 16]\n"@ + "        }\n"@
}

/// The start of the FNV-1a hashing in `compute_key()`.
pub open spec fn key_hash_start() -> Seq<char> {
    "            // FNV-1a hash of @key fields\n"@ + "            let mut hash: u64 = 14695981039346656037;\n"@ + "            const PRIME: u64 = 1099511628211;\n\n"@
}

/// The 16-byte expansion that ends `compute_key()`.
pub open spec fn key_expand_text() -> Seq<char> {
    "            // Expand to 16 bytes\n"@ + "            let mut key = [0u8; 16];\n"@ + "            key[..8].copy_from_slice(&hash.to_le_bytes());\n"@ + "            hash = hash.wrapping_mul(PRIME);\n"@ + "            key[8..].copy_from_slice(&hash.to_le_bytes());\n"@ + "            key\n"@ + "        }\n"@
}

/// The hashing code of one member after `pre` is `pre` followed by that code.
proof fn lemma_key_hash_acc(pre: Seq<char>, field: Seq<char>, kind: KeyHashKind)
    ensures
        key_hash_text(pre, field, kind) == pre + key_hash_text(Seq::empty(), field, kind),
{
    broadcast use lemma_concat_assoc;

    assert(pre + Seq::<char>::empty() =~= pre);
}

/// `has_key()` returns whether some member is `@key`. `compute_key()` is the
/// zeroed key exactly when no member is; otherwise it starts the FNV-1a hash,
/// feeds it the hashing code of each `@key` member in order (the code
/// `emit_key_field_hash` appends, by `classify_key_field`'s kind; members
/// without `@key` add nothing), and expands it to 16 bytes.
pub proof fn law_key_methods(fields: Seq<Field>, defs: Seq<Definition>)
    ensures
        has_key_text(fields) == "\n        /// Returns true if this type has @key fields\n"@ + "        fn has_key() -> bool { "@
            + bool_text(struct_has_key(fields)) + " }\n"@,
        (compute_key_text(fields, defs) == zeroed_key_text()) <==> !struct_has_key(fields),
        struct_has_key(fields) ==> compute_key_text(fields, defs) == key_method_head() + key_hash_start()
            + key_fields_text(Seq::empty(), fields, defs) + key_expand_text(),
        key_fields_text(Seq::empty(), fields.take(0), defs) == Seq::<char>::empty(),
        forall|i: int| 0 <= i < fields.len() ==> key_fields_text(Seq::empty(), #[trigger] fields.take(i + 1), defs)
            == key_fields_text(Seq::empty(), fields.take(i), defs) + if has_key(fields[i].annotations@) {
                key_hash_text(Seq::empty(), fields[i].name@, key_kind(fields[i].field_type, defs))
            } else {
                Seq::<char>::empty()
            },
{
    assert(has_key_text(fields) =~= "\n        /// Returns true if this type has @key fields\n"@ + "        fn has_key() -> bool { "@
        + bool_text(struct_has_key(fields)) + " }\n"@);
    let head = key_method_head();
    if struct_has_key(fields) {
        let kf = key_fields_text(Seq::empty(), fields, defs);
        lemma_key_fields_acc(head + key_hash_start(), fields, defs);
        assert(compute_key_text(fields, defs) == head + key_hash_start() + kf + key_expand_text()) by {
            broadcast use lemma_concat_assoc;

        }
        let z0 = "            // No @key fields - return zeroed hash\n"@;
        let f0 = "            // FNV-1a hash of @key fields\n"@;
        reveal_strlit("            // No @key fields - return zeroed hash\n");
        reveal_strlit("            // FNV-1a hash of @key fields\n");
        assert(z0[15] == 'N' && f0[15] == 'F');
        let n: int = head.len() as int + 15;
        assert(zeroed_key_text() == (head + z0) + ("            [0u8; 16]\n"@ + "        }\n"@)) by {
            broadcast use lemma_concat_assoc;

        }
        assert(compute_key_text(fields, defs) == (head + f0) + ("            let mut hash: u64 = 14695981039346656037;\n"@
            + "            const PRIME: u64 = 1099511628211;\n\n"@ + kf + key_expand_text())) by {
            broadcast use lemma_concat_assoc;

        }
        assert((head + z0)[n] == 'N');
        assert((head + f0)[n] == 'F');
        assert(zeroed_key_text()[n] == 'N');
        assert(compute_key_text(fields, defs)[n] == 'F');
    }
    assert(fields.take(0) =~= Seq::<Field>::empty());
    assert forall|i: int| 0 <= i < fields.len() implies key_fields_text(Seq::empty(), #[trigger] fields.take(i + 1), defs)
        == key_fields_text(Seq::empty(), fields.take(i), defs) + if has_key(fields[i].annotations@) {
            key_hash_text(Seq::empty(), fields[i].name@, key_kind(fields[i].field_type, defs))
        } else {
            Seq::<char>::empty()
        } by {
        assert(fields.take(i + 1).drop_last() =~= fields.take(i));
        assert(fields.take(i + 1).last() == fields[i]);
        let before = key_fields_text(Seq::empty(), fields.take(i), defs);
        lemma_key_hash_acc(before, fields[i].name@, key_kind(fields[i].field_type, defs));
        assert(before + Seq::<char>::empty() =~= before);
    }
}

/// The type identifier of a named type: `TK_UINT32` when the name is one
/// being emitted or names no struct or enum; otherwise a block that opens
/// with `{`, declares the `OnceLock` of the hash,
/// computes the hash with `get_or_init` from `let __nested_to = ` the nested
/// type object (the struct's, emitted with the name added to those being
/// emitted, or the enum's), and closes with `}`.
pub proof fn law_inline_type_object(name: Seq<char>, defs: Seq<Definition>, vis: Seq<Seq<char>>)
    ensures
        (in_names(vis, name) || find_type(defs, name) is None) ==> inline_type_object_text(name, defs, vis)
            == "::hdds::xtypes::TypeIdentifier::TK_UINT32"@,
        (!in_names(vis, name) && find_type(defs, name) is Some) ==> ({
            let r = inline_type_object_text(name, defs, vis);
            let nested = match defs[find_type(defs, name)->0] {
                Definition::Struct(s) => struct_object_text(s, name, defs, vis.push(name)),
                Definition::Enum(e) => enum_object_text(e, name),
                _ => "::hdds::xtypes::TypeIdentifier::TK_UINT32"@,
            };
            &&& starts_with(r, "{\n"@)
            &&& is_infix("                                        static __HASH: ::std::sync::OnceLock<::hdds::xtypes::EquivalenceHash> = ::std::sync::OnceLock::new();\n"@, r)
            &&& is_infix("                                        ::hdds::xtypes::TypeIdentifier::Complete(*__HASH.get_or_init(|| {\n"@, r)
            &&& is_infix("                                            let __nested_to = "@ + nested + ";\n"@, r)
            &&& ends_with(r, "                                    }"@)
        }),
{
    if !in_names(vis, name) && find_type(defs, name) is Some {
        let nested = match defs[find_type(defs, name)->0] {
            Definition::Struct(s) => struct_object_text(s, name, defs, vis.push(name)),
            Definition::Enum(e) => enum_object_text(e, name),
            _ => "::hdds::xtypes::TypeIdentifier::TK_UINT32"@,
        };
        lemma_block_parts(Seq::empty(), "{\n"@, "                                        static __HASH: ::std::sync::OnceLock<::hdds::xtypes::EquivalenceHash> = ::std::sync::OnceLock::new();\n"@, "                                        ::hdds::xtypes::TypeIdentifier::Complete(*__HASH.get_or_init(|| {\n"@, "                                            let __nested_to = "@, nested, ";\n"@, "                                            __nested_to.compute_equivalence_hash().expect(\"CDR2 encoding of nested CompleteTypeObject\")\n"@, "                                        }))\n"@, "                                    }"@);
        assert(Seq::<char>::empty() + "{\n"@ =~= "{\n"@);
    }
}

/// Where the parts of a ten-part block stand in it: the first two begin it,
/// the third, fourth and the fifth to seventh together occur in it, and the
/// last ends it.
proof fn lemma_block_parts(p0: Seq<char>, p1: Seq<char>, p2: Seq<char>, p3: Seq<char>, p4: Seq<char>, p5: Seq<char>, p6: Seq<char>, p7: Seq<char>, p8: Seq<char>, p9: Seq<char>)
    ensures
        starts_with(p0 + p1 + p2 + p3 + p4 + p5 + p6 + p7 + p8 + p9, p0 + p1),
        is_infix(p2, p0 + p1 + p2 + p3 + p4 + p5 + p6 + p7 + p8 + p9),
        is_infix(p3, p0 + p1 + p2 + p3 + p4 + p5 + p6 + p7 + p8 + p9),
        is_infix(p4 + p5 + p6, p0 + p1 + p2 + p3 + p4 + p5 + p6 + p7 + p8 + p9),
        ends_with(p0 + p1 + p2 + p3 + p4 + p5 + p6 + p7 + p8 + p9, p9),
{
    broadcast use lemma_concat_assoc;

    lemma_concat_ends(p0 + p1, p2 + p3 + p4 + p5 + p6 + p7 + p8 + p9);
    lemma_infix_between(p0 + p1, p2, p3 + p4 + p5 + p6 + p7 + p8 + p9);
    lemma_infix_between(p0 + p1 + p2, p3, p4 + p5 + p6 + p7 + p8 + p9);
    lemma_infix_between(p0 + p1 + p2 + p3, p4 + p5 + p6, p7 + p8 + p9);
    lemma_concat_ends(p0 + p1 + p2 + p3 + p4 + p5 + p6 + p7 + p8, p9);
}

/// Where the parts of a nested type object stand in it: its opening, its
/// header lines, its closing, and what occurs among its entries.
proof fn lemma_struct_object_parts(p0: Seq<char>, p1: Seq<char>, p2: Seq<char>, p3: Seq<char>, p4: Seq<char>, p5: Seq<char>, p6: Seq<char>, p7: Seq<char>, p8: Seq<char>, p9: Seq<char>, p10: Seq<char>, m: Seq<char>, c0: Seq<char>, c1: Seq<char>, c2: Seq<char>, e: Seq<char>)
    ensures
        starts_with(p0 + p1 + p2 + p3 + p4 + p5 + p6 + p7 + p8 + p9 + p10 + m + c0 + c1 + c2, p0 + p1),
        is_infix(p3, p0 + p1 + p2 + p3 + p4 + p5 + p6 + p7 + p8 + p9 + p10 + m + c0 + c1 + c2),
        is_infix(p5, p0 + p1 + p2 + p3 + p4 + p5 + p6 + p7 + p8 + p9 + p10 + m + c0 + c1 + c2),
        is_infix(p6 + p7 + p8, p0 + p1 + p2 + p3 + p4 + p5 + p6 + p7 + p8 + p9 + p10 + m + c0 + c1 + c2),
        ends_with(p0 + p1 + p2 + p3 + p4 + p5 + p6 + p7 + p8 + p9 + p10 + m + c0 + c1 + c2, c2),
        is_infix(e, m) ==> is_infix(e, p0 + p1 + p2 + p3 + p4 + p5 + p6 + p7 + p8 + p9 + p10 + m + c0 + c1 + c2),
{
    broadcast use lemma_concat_assoc;

    lemma_concat_ends(p0 + p1, p2 + p3 + p4 + p5 + p6 + p7 + p8 + p9 + p10 + m + c0 + c1 + c2);
    lemma_infix_between(p0 + p1 + p2, p3, p4 + p5 + p6 + p7 + p8 + p9 + p10 + m + c0 + c1 + c2);
    lemma_infix_between(p0 + p1 + p2 + p3 + p4, p5, p6 + p7 + p8 + p9 + p10 + m + c0 + c1 + c2);
    lemma_infix_between(p0 + p1 + p2 + p3 + p4 + p5, p6 + p7 + p8, p9 + p10 + m + c0 + c1 + c2);
    lemma_concat_ends(p0 + p1 + p2 + p3 + p4 + p5 + p6 + p7 + p8 + p9 + p10 + m + c0 + c1, c2);
    if is_infix(e, m) {
        lemma_infix_grow(e, m, p0 + p1 + p2 + p3 + p4 + p5 + p6 + p7 + p8 + p9 + p10);
        lemma_infix_grow(e, p0 + p1 + p2 + p3 + p4 + p5 + p6 + p7 + p8 + p9 + p10 + m, c0 + c1 + c2);
    }
}

/// Where the parts of a nested type object stand in it: its opening, its
/// header lines, its closing, and what occurs among its entries.
proof fn lemma_enum_object_parts(p0: Seq<char>, p1: Seq<char>, p2: Seq<char>, p3: Seq<char>, p4: Seq<char>, p5: Seq<char>, p6: Seq<char>, p7: Seq<char>, p8: Seq<char>, p9: Seq<char>, m: Seq<char>, c0: Seq<char>, c1: Seq<char>, c2: Seq<char>, e: Seq<char>)
    ensures
        starts_with(p0 + p1 + p2 + p3 + p4 + p5 + p6 + p7 + p8 + p9 + m + c0 + c1 + c2, p0 + p1),
        is_infix(p4, p0 + p1 + p2 + p3 + p4 + p5 + p6 + p7 + p8 + p9 + m + c0 + c1 + c2),
        is_infix(p5 + p6 + p7, p0 + p1 + p2 + p3 + p4 + p5 + p6 + p7 + p8 + p9 + m + c0 + c1 + c2),
        ends_with(p0 + p1 + p2 + p3 + p4 + p5 + p6 + p7 + p8 + p9 + m + c0 + c1 + c2, c2),
        is_infix(e, m) ==> is_infix(e, p0 + p1 + p2 + p3 + p4 + p5 + p6 + p7 + p8 + p9 + m + c0 + c1 + c2),
{
    broadcast use lemma_concat_assoc;

    lemma_concat_ends(p0 + p1, p2 + p3 + p4 + p5 + p6 + p7 + p8 + p9 + m + c0 + c1 + c2);
    lemma_infix_between(p0 + p1 + p2 + p3, p4, p5 + p6 + p7 + p8 + p9 + m + c0 + c1 + c2);
    lemma_infix_between(p0 + p1 + p2 + p3 + p4, p5 + p6 + p7, p8 + p9 + m + c0 + c1 + c2);
    lemma_concat_ends(p0 + p1 + p2 + p3 + p4 + p5 + p6 + p7 + p8 + p9 + m + c0 + c1, c2);
    if is_infix(e, m) {
        lemma_infix_grow(e, m, p0 + p1 + p2 + p3 + p4 + p5 + p6 + p7 + p8 + p9);
        lemma_infix_grow(e, p0 + p1 + p2 + p3 + p4 + p5 + p6 + p7 + p8 + p9 + m, c0 + c1 + c2);
    }
}

/// The `CompleteStructMember` entry of member `i` of a nested struct object.
pub open spec fn struct_member_text(fields: Seq<Field>, i: int, defs: Seq<Definition>, vis: Seq<Seq<char>>) -> Seq<char> {
    "                                                        ::hdds::xtypes::CompleteStructMember {\n"@
    + "                                                            common: ::hdds::xtypes::CommonStructMember {\n"@
    + "                                                                member_id: "@
    + decimal(i as nat) + ",\n"@
    + "                                                                member_flags: ::hdds::xtypes::MemberFlag::empty(),\n"@
    + "                                                                member_type_id: "@
    + member_type_id_text(fields[i].field_type, defs, vis) + ",\n"@
    + "                                                            },\n"@
    + "                                                            detail: ::hdds::xtypes::CompleteMemberDetail::new(\""@
    + fields[i].name@ + "\"),\n"@
    + "                                                        },\n"@
}

/// The `CompleteEnumeratedLiteral` entry of enumerator `i`.
pub open spec fn enum_literal_text(variants: Seq<EnumVariant>, i: int) -> Seq<char> {
    "                                                        ::hdds::xtypes::CompleteEnumeratedLiteral {\n"@
    + "                                                            common: ::hdds::xtypes::CommonEnumeratedLiteral {\n"@
    + "                                                                value: "@
    + signed_decimal(enum_value(variants[i].value, i) as int) + ",\n"@
    + "                                                                flags: ::hdds::xtypes::EnumeratedLiteralFlag::empty(),\n"@
    + "                                                            },\n"@
    + "                                                            detail: ::hdds::xtypes::CompleteMemberDetail::new(\""@
    + variants[i].name@ + "\"),\n"@
    + "                                                        },\n"@
}

/// The members of a nested struct object after `pre` are `pre` followed by
/// the members alone, the last member's entry last.
#[verifier::rlimit(50)]
proof fn lemma_struct_members_acc(pre: Seq<char>, fields: Seq<Field>, defs: Seq<Definition>, vis: Seq<Seq<char>>)
    ensures
        struct_members_text(pre, fields, defs, vis) == pre + struct_members_text(Seq::empty(), fields, defs, vis),
        fields.len() > 0 ==> struct_members_text(Seq::empty(), fields, defs, vis) == struct_members_text(
            Seq::empty(),
            fields.drop_last(),
            defs,
            vis,
        ) + struct_member_text(fields, fields.len() - 1, defs, vis),
    decreases fields.len(),
{
    broadcast use lemma_concat_assoc;

    if fields.len() > 0 {
        lemma_struct_members_acc(pre, fields.drop_last(), defs, vis);
        lemma_struct_members_acc(Seq::empty(), fields.drop_last(), defs, vis);
    } else {
        assert(pre + Seq::<char>::empty() =~= pre);
    }
}

/// The literals of an enum object after `pre` are `pre` followed by the
/// literals alone, the last enumerator's entry last.
#[verifier::rlimit(50)]
proof fn lemma_enum_literals_acc(pre: Seq<char>, variants: Seq<EnumVariant>)
    ensures
        enum_literals_text(pre, variants) == pre + enum_literals_text(Seq::empty(), variants),
        variants.len() > 0 ==> enum_literals_text(Seq::empty(), variants) == enum_literals_text(Seq::empty(), variants.drop_last())
            + enum_literal_text(variants, variants.len() - 1),
    decreases variants.len(),
{
    broadcast use lemma_concat_assoc;

    if variants.len() > 0 {
        lemma_enum_literals_acc(pre, variants.drop_last());
        lemma_enum_literals_acc(Seq::empty(), variants.drop_last());
    } else {
        assert(pre + Seq::<char>::empty() =~= pre);
    }
}

/// The entry of every member occurs among the members of a nested struct object.
proof fn lemma_struct_member_in(fields: Seq<Field>, i: int, defs: Seq<Definition>, vis: Seq<Seq<char>>)
    requires
        0 <= i < fields.len(),
    ensures
        is_infix(struct_member_text(fields, i, defs, vis), struct_members_text(Seq::empty(), fields, defs, vis)),
    decreases fields.len(),
{
    lemma_struct_members_acc(Seq::empty(), fields, defs, vis);
    let init = struct_members_text(Seq::empty(), fields.drop_last(), defs, vis);
    if i == fields.len() - 1 {
        lemma_concat_ends(init, struct_member_text(fields, i, defs, vis));
    } else {
        lemma_struct_member_in(fields.drop_last(), i, defs, vis);
        assert(struct_member_text(fields.drop_last(), i, defs, vis) == struct_member_text(fields, i, defs, vis));
        lemma_infix_grow(struct_member_text(fields, i, defs, vis), init, struct_member_text(fields, fields.len() - 1, defs, vis));
    }
}

/// The entry of every enumerator occurs among the literals of an enum object.
proof fn lemma_enum_literal_in(variants: Seq<EnumVariant>, i: int)
    requires
        0 <= i < variants.len(),
    ensures
        is_infix(enum_literal_text(variants, i), enum_literals_text(Seq::empty(), variants)),
    decreases variants.len(),
{
    lemma_enum_literals_acc(Seq::empty(), variants);
    let init = enum_literals_text(Seq::empty(), variants.drop_last());
    if i == variants.len() - 1 {
        lemma_concat_ends(init, enum_literal_text(variants, i));
    } else {
        lemma_enum_literal_in(variants.drop_last(), i);
        assert(enum_literal_text(variants.drop_last(), i) == enum_literal_text(variants, i));
        lemma_infix_grow(enum_literal_text(variants, i), init, enum_literal_text(variants, variants.len() - 1));
    }
}

/// A nested struct type object opens with `CompleteTypeObject::Struct(`, is
/// `IS_FINAL`, has no base type and the fully qualified name, lists one
/// `CompleteStructMember` per member in order (member id its index, the type
/// identifier of its type under the same types being emitted, its name), and
/// closes with `)`.
pub proof fn law_struct_type_object(s: Struct, fqn: Seq<char>, defs: Seq<Definition>, vis: Seq<Seq<char>>)
    ensures
        starts_with(struct_object_text(s, fqn, defs, vis), "::hdds::xtypes::CompleteTypeObject::Struct(\n"@),
        is_infix("                                                    struct_flags: ::hdds::xtypes::StructTypeFlag::IS_FINAL,\n"@, struct_object_text(s, fqn, defs, vis)),
        is_infix("                                                        base_type: None,\n"@, struct_object_text(s, fqn, defs, vis)),
        is_infix("                                                        detail: ::hdds::xtypes::CompleteTypeDetail::new(\""@ + fqn + "\"),\n"@, struct_object_text(s, fqn, defs, vis)),
        ends_with(struct_object_text(s, fqn, defs, vis), "                                            )"@),
        struct_members_text(Seq::empty(), s.fields@.take(0), defs, vis) == Seq::<char>::empty(),
        forall|i: int| 0 <= i < s.fields@.len() ==> struct_members_text(Seq::empty(), #[trigger] s.fields@.take(i + 1), defs, vis)
            == struct_members_text(Seq::empty(), s.fields@.take(i), defs, vis) + struct_member_text(s.fields@, i, defs, vis),
        forall|i: int| 0 <= i < s.fields@.len() ==> is_infix(#[trigger] struct_member_text(s.fields@, i, defs, vis), struct_object_text(s, fqn, defs, vis)),
{
    let fields = s.fields@;
    let head = Seq::empty() + "::hdds::xtypes::CompleteTypeObject::Struct(\n"@ + "                                                ::hdds::xtypes::CompleteStructType {\n"@ + "                                                    struct_flags: ::hdds::xtypes::StructTypeFlag::IS_FINAL,\n"@ + "                                                    header: ::hdds::xtypes::CompleteStructHeader {\n"@ + "                                                        base_type: None,\n"@ + "                                                        detail: ::hdds::xtypes::CompleteTypeDetail::new(\""@ + fqn + "\"),\n"@ + "                                                    },\n"@ + "                                                    member_seq: vec![\n"@;
    let m = struct_members_text(Seq::empty(), fields, defs, vis);
    lemma_struct_members_acc(head, fields, defs, vis);
    assert(struct_object_text(s, fqn, defs, vis) == Seq::empty() + "::hdds::xtypes::CompleteTypeObject::Struct(\n"@ + "                                                ::hdds::xtypes::CompleteStructType {\n"@ + "                                                    struct_flags: ::hdds::xtypes::StructTypeFlag::IS_FINAL,\n"@ + "                                                    header: ::hdds::xtypes::CompleteStructHeader {\n"@ + "                                                        base_type: None,\n"@ + "                                                        detail: ::hdds::xtypes::CompleteTypeDetail::new(\""@ + fqn + "\"),\n"@ + "                                                    },\n"@ + "                                                    member_seq: vec![\n"@ + m + "                                                    ],\n"@ + "                                                }\n"@ + "                                            )"@) by {
        broadcast use lemma_concat_assoc;

    }
    lemma_struct_object_parts(Seq::empty(), "::hdds::xtypes::CompleteTypeObject::Struct(\n"@, "                                                ::hdds::xtypes::CompleteStructType {\n"@, "                                                    struct_flags: ::hdds::xtypes::StructTypeFlag::IS_FINAL,\n"@, "                                                    header: ::hdds::xtypes::CompleteStructHeader {\n"@, "                                                        base_type: None,\n"@, "                                                        detail: ::hdds::xtypes::CompleteTypeDetail::new(\""@, fqn, "\"),\n"@, "                                                    },\n"@, "                                                    member_seq: vec![\n"@, m, "                                                    ],\n"@, "                                                }\n"@, "                                            )"@, m);
    assert(Seq::<char>::empty() + "::hdds::xtypes::CompleteTypeObject::Struct(\n"@ =~= "::hdds::xtypes::CompleteTypeObject::Struct(\n"@);
    assert(fields.take(0) =~= Seq::<Field>::empty());
    assert forall|i: int| 0 <= i < fields.len() implies struct_members_text(Seq::empty(), #[trigger] fields.take(i + 1), defs, vis)
        == struct_members_text(Seq::empty(), fields.take(i), defs, vis) + struct_member_text(fields, i, defs, vis) by {
        lemma_struct_members_acc(Seq::empty(), fields.take(i + 1), defs, vis);
        assert(fields.take(i + 1).drop_last() =~= fields.take(i));
        assert(fields.take(i + 1)[i] == fields[i]);
    }
    assert forall|i: int| 0 <= i < fields.len() implies is_infix(#[trigger] struct_member_text(fields, i, defs, vis), struct_object_text(s, fqn, defs, vis)) by {
        lemma_struct_member_in(fields, i, defs, vis);
        lemma_struct_object_parts(Seq::empty(), "::hdds::xtypes::CompleteTypeObject::Struct(\n"@, "                                                ::hdds::xtypes::CompleteStructType {\n"@, "                                                    struct_flags: ::hdds::xtypes::StructTypeFlag::IS_FINAL,\n"@, "                                                    header: ::hdds::xtypes::CompleteStructHeader {\n"@, "                                                        base_type: None,\n"@, "                                                        detail: ::hdds::xtypes::CompleteTypeDetail::new(\""@, fqn, "\"),\n"@, "                                                    },\n"@, "                                                    member_seq: vec![\n"@, m, "                                                    ],\n"@, "                                                }\n"@, "                                            )"@, struct_member_text(fields, i, defs, vis));
    }
}

/// An enum type object opens with `CompleteTypeObject::Enumerated(`, has a
/// 32-bit bound and the fully qualified name, lists one
/// `CompleteEnumeratedLiteral` per enumerator in order (value its explicit
/// value, else its index; its name), and closes with `)`.
pub proof fn law_enum_type_object(e: Enum, fqn: Seq<char>)
    ensures
        starts_with(enum_object_text(e, fqn), "::hdds::xtypes::CompleteTypeObject::Enumerated(\n"@),
        is_infix("                                                        bit_bound: 32,\n"@, enum_object_text(e, fqn)),
        is_infix("                                                        detail: ::hdds::xtypes::CompleteTypeDetail::new(\""@ + fqn + "\"),\n"@, enum_object_text(e, fqn)),
        ends_with(enum_object_text(e, fqn), "                                            )"@),
        enum_literals_text(Seq::empty(), e.variants@.take(0)) == Seq::<char>::empty(),
        forall|i: int| 0 <= i < e.variants@.len() ==> enum_literals_text(Seq::empty(), #[trigger] e.variants@.take(i + 1))
            == enum_literals_text(Seq::empty(), e.variants@.take(i)) + enum_literal_text(e.variants@, i),
        forall|i: int| 0 <= i < e.variants@.len() ==> is_infix(#[trigger] enum_literal_text(e.variants@, i), enum_object_text(e, fqn)),
        forall|i: int| 0 <= i < e.variants@.len() && i <= i64::MAX ==> #[trigger] enum_value(e.variants@[i].value, i) == match e.variants@[i].value {
            Some(v) => v,
            None => i as i64,
        },
{
    let variants = e.variants@;
    let head = Seq::empty() + "::hdds::xtypes::CompleteTypeObject::Enumerated(\n"@ + "                                                ::hdds::xtypes::CompleteEnumeratedType {\n"@ + "                                                    header: ::hdds::xtypes::CompleteEnumeratedHeader {\n"@ + "                                                        bit_bound: 32,\n"@ + "                                                        detail: ::hdds::xtypes::CompleteTypeDetail::new(\""@ + fqn + "\"),\n"@ + "                                                    },\n"@ + "                                                    literal_seq: vec![\n"@;
    let m = enum_literals_text(Seq::empty(), variants);
    lemma_enum_literals_acc(head, variants);
    assert(enum_object_text(e, fqn) == Seq::empty() + "::hdds::xtypes::CompleteTypeObject::Enumerated(\n"@ + "                                                ::hdds::xtypes::CompleteEnumeratedType {\n"@ + "                                                    header: ::hdds::xtypes::CompleteEnumeratedHeader {\n"@ + "                                                        bit_bound: 32,\n"@ + "                                                        detail: ::hdds::xtypes::CompleteTypeDetail::new(\""@ + fqn + "\"),\n"@ + "                                                    },\n"@ + "                                                    literal_seq: vec![\n"@ + m + "                                                    ],\n"@ + "                                                }\n"@ + "                                            )"@) by {
        broadcast use lemma_concat_assoc;

    }
    lemma_enum_object_parts(Seq::empty(), "::hdds::xtypes::CompleteTypeObject::Enumerated(\n"@, "                                                ::hdds::xtypes::CompleteEnumeratedType {\n"@, "                                                    header: ::hdds::xtypes::CompleteEnumeratedHeader {\n"@, "                                                        bit_bound: 32,\n"@, "                                                        detail: ::hdds::xtypes::CompleteTypeDetail::new(\""@, fqn, "\"),\n"@, "                                                    },\n"@, "                                                    literal_seq: vec![\n"@, m, "                                                    ],\n"@, "                                                }\n"@, "                                            )"@, m);
    assert(Seq::<char>::empty() + "::hdds::xtypes::CompleteTypeObject::Enumerated(\n"@ =~= "::hdds::xtypes::CompleteTypeObject::Enumerated(\n"@);
    assert(variants.take(0) =~= Seq::<EnumVariant>::empty());
    assert forall|i: int| 0 <= i < variants.len() implies enum_literals_text(Seq::empty(), #[trigger] variants.take(i + 1))
        == enum_literals_text(Seq::empty(), variants.take(i)) + enum_literal_text(variants, i) by {
        lemma_enum_literals_acc(Seq::empty(), variants.take(i + 1));
        assert(variants.take(i + 1).drop_last() =~= variants.take(i));
        assert(variants.take(i + 1)[i] == variants[i]);
    }
    assert forall|i: int| 0 <= i < variants.len() implies is_infix(#[trigger] enum_literal_text(variants, i), enum_object_text(e, fqn)) by {
        lemma_enum_literal_in(variants, i);
        lemma_enum_object_parts(Seq::empty(), "::hdds::xtypes::CompleteTypeObject::Enumerated(\n"@, "                                                ::hdds::xtypes::CompleteEnumeratedType {\n"@, "                                                    header: ::hdds::xtypes::CompleteEnumeratedHeader {\n"@, "                                                        bit_bound: 32,\n"@, "                                                        detail: ::hdds::xtypes::CompleteTypeDetail::new(\""@, fqn, "\"),\n"@, "                                                    },\n"@, "                                                    literal_seq: vec![\n"@, m, "                                                    ],\n"@, "                                                }\n"@, "                                            )"@, enum_literal_text(variants, i));
    }
}

/// Where the parts of a nine-part text stand in it: the first begins it,
/// the third, fourth and fifth occur in it, the last ends it, and what
/// occurs in the seventh occurs in it.
proof fn lemma_nine_parts(
    h1: Seq<char>,
    h2: Seq<char>,
    a: Seq<char>,
    b: Seq<char>,
    c: Seq<char>,
    o: Seq<char>,
    m: Seq<char>,
    r: Seq<char>,
    tail: Seq<char>,
    e: Seq<char>,
)
    ensures
        starts_with(h1 + h2 + a + b + c + o + m + r + tail, h1),
        is_infix(a, h1 + h2 + a + b + c + o + m + r + tail),
        is_infix(b, h1 + h2 + a + b + c + o + m + r + tail),
        is_infix(c, h1 + h2 + a + b + c + o + m + r + tail),
        ends_with(h1 + h2 + a + b + c + o + m + r + tail, tail),
        is_infix(e, m) ==> is_infix(e, h1 + h2 + a + b + c + o + m + r + tail),
{
    broadcast use lemma_concat_assoc;

    let t = h1 + h2 + a + b + c + o + m + r + tail;
    lemma_concat_ends(h1, h2 + a + b + c + o + m + r + tail);
    lemma_infix_between(h1 + h2, a, b + c + o + m + r + tail);
    lemma_infix_between(h1 + h2 + a, b, c + o + m + r + tail);
    lemma_infix_between(h1 + h2 + a + b, c, o + m + r + tail);
    lemma_concat_ends(h1 + h2 + a + b + c + o + m + r, tail);
    if is_infix(e, m) {
        lemma_infix_grow(e, m, h1 + h2 + a + b + c + o);
        lemma_infix_grow(e, h1 + h2 + a + b + c + o + m, r + tail);
    }
}

proof fn lemma_explicit_id_prefix(anns: Seq<Annotation>, k: int)
    requires
        0 <= k <= anns.len(),
        explicit_id(anns.take(k)) is Some,
    ensures
        explicit_id(anns) == explicit_id(anns.take(k)),
    decreases anns.len() - k,
{
    if k < anns.len() {
        assert(anns.take(k + 1).drop_last() =~= anns.take(k));
        lemma_explicit_id_prefix(anns, k + 1);
    } else {
        assert(anns.take(k) =~= anns);
    }
}

/// A copy of a list of names.
fn copy_names(v: &Vec<String>) -> (r: Vec<String>)
    ensures
        r@ == v@,
{
    let mut r: Vec<String> = Vec::new();
    let mut i: usize = 0;
    while i < v.len()
        invariant
            i <= v@.len(),
            r@ == v@.take(i as int),
        decreases v.len() - i,
    {
        r.push(v[i].clone());
        i = i + 1;
        assert(r@ =~= v@.take(i as int));
    }
    assert(v@.take(v@.len() as int) =~= v@);
    r
}

/// Whether `name` is in the list.
fn contains_name(v: &Vec<String>, name: &str) -> (r: bool)
    ensures
        r == in_names(names_of(v@), name@),
{
    let mut i: usize = 0;
    while i < v.len()
        invariant
            i <= v@.len(),
            forall|k: int| 0 <= k < i ==> v@[k]@ != name@,
        decreases v.len() - i,
    {
        if str_eq(v[i].as_str(), name) {
            assert(names_of(v@)[i as int] == name@);
            return true;
        }
        i = i + 1;
    }
    false
}

impl RustGenerator {
    /// The `TypeIdentifier` expression of a member type. `visiting` holds
    /// the named types whose type objects are being emitted around this one.
    pub fn emit_member_type_id(idl_type: &IdlType, defs: &Vec<Definition>, visiting: &Vec<String>) -> (r: String)
        ensures
            r@ == member_type_id_text(*idl_type, defs@, names_of(visiting@)),
        decreases unvisited_count(defs@, names_of(visiting@)), 1int, type_depth(*idl_type),
    {
        match idl_type {
            IdlType::Primitive(prim) => {
                let suffix = match prim {
                    PrimitiveType::Octet | PrimitiveType::UInt8 | PrimitiveType::Void => "TK_BYTE",
                    PrimitiveType::Char => "TK_CHAR8",
                    PrimitiveType::WChar => "TK_CHAR16",
                    PrimitiveType::Boolean => "TK_BOOLEAN",
                    PrimitiveType::Short | PrimitiveType::Int16 => "TK_INT16",
                    PrimitiveType::UnsignedShort | PrimitiveType::UInt16 => "TK_UINT16",
                    PrimitiveType::Long | PrimitiveType::Int32 => "TK_INT32",
                    PrimitiveType::UnsignedLong | PrimitiveType::UInt32 => "TK_UINT32",
                    PrimitiveType::LongLong | PrimitiveType::Int64 | PrimitiveType::Fixed { .. } => "TK_INT64",
                    PrimitiveType::UnsignedLongLong | PrimitiveType::UInt64 => "TK_UINT64",
                    PrimitiveType::Float => "TK_FLOAT32",
                    PrimitiveType::Double | PrimitiveType::LongDouble => "TK_FLOAT64",
                    PrimitiveType::Int8 => "TK_INT8",
                    PrimitiveType::String => "TK_STRING8",
                    PrimitiveType::WString => "TK_STRING16",
                };
                let mut out = "::hdds::xtypes::TypeIdentifier::".to_owned();
                out.append(suffix);
                out
            },
            IdlType::Sequence { inner, .. } => {
                if let IdlType::Primitive(PrimitiveType::Char | PrimitiveType::WChar) = **inner {
                    return "::hdds::xtypes::TypeIdentifier::TK_STRING8".to_owned();
                }
                "::hdds::xtypes::TypeIdentifier::TK_UINT32".to_owned()
            },
            IdlType::Array { inner, .. } => Self::emit_member_type_id(inner, defs, visiting),
            IdlType::MapType { .. } => "::hdds::xtypes::TypeIdentifier::TK_UINT32".to_owned(),
            IdlType::Named(name) => Self::emit_inline_type_object(name.as_str(), defs, visiting),
        }
    }

    /// The `TypeIdentifier::Complete(hash)` block for a named type, whose hash
    /// is computed once at run time from the nested type object. A name that
    /// is not a struct or enum, or a type already being emitted (recursion),
    /// gives `TK_UINT32`.
    pub fn emit_inline_type_object(name: &str, defs: &Vec<Definition>, visiting: &Vec<String>) -> (r: String)
        ensures
            r@ == inline_type_object_text(name@, defs@, names_of(visiting@)),
        decreases unvisited_count(defs@, names_of(visiting@)), 0int, 0nat,
    {
        if contains_name(visiting, name) {
            return "::hdds::xtypes::TypeIdentifier::TK_UINT32".to_owned();
        }
        let found = lookup_type_def(defs, name);
        let i = match found {
            Some(i) => i,
            None => {
                return "::hdds::xtypes::TypeIdentifier::TK_UINT32".to_owned();
            },
        };
        proof {
            crate::ast::lemma_find_type(defs@, name@);
        }
        let fqn = name.to_owned();
        let mut inner_visiting = copy_names(visiting);
        inner_visiting.push(name.to_owned());
        assert(names_of(inner_visiting@) =~= names_of(visiting@).push(name@));
        proof {
            lemma_unvisited_push(defs@, names_of(visiting@), name@);
        }
        let nested = match &defs[i] {
            Definition::Struct(st) => Self::emit_complete_struct_type_object(st, fqn.as_str(), defs, &inner_visiting),
            Definition::Enum(e) => Self::emit_complete_enum_type_object(e, fqn.as_str()),
            _ => "::hdds::xtypes::TypeIdentifier::TK_UINT32".to_owned(),
        };
        let mut out = String::new();
        out.append("{\n");
        out.append("                                        static __HASH: ::std::sync::OnceLock<::hdds::xtypes::EquivalenceHash> = ::std::sync::OnceLock::new();\n");
        out.append("                                        ::hdds::xtypes::TypeIdentifier::Complete(*__HASH.get_or_init(|| {\n");
        out.append("                                            let __nested_to = ");
        out.append(nested.as_str());
        out.append(";\n");
        out.append("                                            __nested_to.compute_equivalence_hash().expect(\"CDR2 encoding of nested CompleteTypeObject\")\n");
        out.append("                                        }))\n");
        out.append("                                    }");
        out
    }

    /// The nested `CompleteTypeObject::Struct(...)` expression of a struct.
    pub fn emit_complete_struct_type_object(s: &Struct, fqn: &str, defs: &Vec<Definition>, visiting: &Vec<String>) -> (r: String)
        ensures
            r@ == struct_object_text(*s, fqn@, defs@, names_of(visiting@)),
        decreases unvisited_count(defs@, names_of(visiting@)), 3int, 0nat,
    {
        let ghost vis = names_of(visiting@);
        let mut out = String::new();
        out.append("::hdds::xtypes::CompleteTypeObject::Struct(\n");
        out.append("                                                ::hdds::xtypes::CompleteStructType {\n");
        out.append("                                                    struct_flags: ::hdds::xtypes::StructTypeFlag::IS_FINAL,\n");
        out.append("                                                    header: ::hdds::xtypes::CompleteStructHeader {\n");
        out.append("                                                        base_type: None,\n");
        out.append("                                                        detail: ::hdds::xtypes::CompleteTypeDetail::new(\"");
        out.append(fqn);
        out.append("\"),\n");
        out.append("                                                    },\n");
        out.append("                                                    member_seq: vec![\n");
        let ghost head = out@;
        let mut i: usize = 0;
        assert(s.fields@.take(0) =~= Seq::<Field>::empty());
        while i < s.fields.len()
            invariant
                i <= s.fields@.len(),
                vis == names_of(visiting@),
                out@ == struct_members_text(head, s.fields@.take(i as int), defs@, vis),
            decreases s.fields.len() - i,
        {
            let field = &s.fields[i];
            let inner_type_id = Self::emit_member_type_id(&field.field_type, defs, visiting);
            proof {
                assert(s.fields@.take(i + 1).drop_last() =~= s.fields@.take(i as int));
                assert(s.fields@.take(i + 1).last() == s.fields@[i as int]);
            }
            out.append("                                                        ::hdds::xtypes::CompleteStructMember {\n");
            out.append("                                                            common: ::hdds::xtypes::CommonStructMember {\n");
            out.append("                                                                member_id: ");
            append_decimal(&mut out, i as u64);
            out.append(",\n");
            out.append("                                                                member_flags: ::hdds::xtypes::MemberFlag::empty(),\n");
            out.append("                                                                member_type_id: ");
            out.append(inner_type_id.as_str());
            out.append(",\n");
            out.append("                                                            },\n");
            out.append("                                                            detail: ::hdds::xtypes::CompleteMemberDetail::new(\"");
            out.append(field.name.as_str());
            out.append("\"),\n");
            out.append("                                                        },\n");
            i = i + 1;
        }
        assert(s.fields@.take(s.fields@.len() as int) =~= s.fields@);
        out.append("                                                    ],\n");
        out.append("                                                }\n");
        out.append("                                            )");
        out
    }

    /// The nested `CompleteTypeObject::Enumerated(...)` expression of an enum;
    /// an enumerator without explicit value takes its index.
    pub fn emit_complete_enum_type_object(e: &Enum, fqn: &str) -> (r: String)
        ensures
            r@ == enum_object_text(*e, fqn@),
    {
        let mut out = String::new();
        out.append("::hdds::xtypes::CompleteTypeObject::Enumerated(\n");
        out.append("                                                ::hdds::xtypes::CompleteEnumeratedType {\n");
        out.append("                                                    header: ::hdds::xtypes::CompleteEnumeratedHeader {\n");
        out.append("                                                        bit_bound: 32,\n");
        out.append("                                                        detail: ::hdds::xtypes::CompleteTypeDetail::new(\"");
        out.append(fqn);
        out.append("\"),\n");
        out.append("                                                    },\n");
        out.append("                                                    literal_seq: vec![\n");
        let ghost head = out@;
        let mut i: usize = 0;
        assert(e.variants@.take(0) =~= Seq::<EnumVariant>::empty());
        while i < e.variants.len()
            invariant
                i <= e.variants@.len(),
                out@ == enum_literals_text(head, e.variants@.take(i as int)),
            decreases e.variants.len() - i,
        {
            let variant = &e.variants[i];
            let value: i64 = match variant.value {
                Some(v) => v,
                None => if (i as u64) <= 0x7fff_ffff_ffff_ffffu64 { i as i64 } else { 0 },
            };
            proof {
                assert(e.variants@.take(i + 1).drop_last() =~= e.variants@.take(i as int));
                assert(e.variants@.take(i + 1).last() == e.variants@[i as int]);
            }
            out.append("                                                        ::hdds::xtypes::CompleteEnumeratedLiteral {\n");
            out.append("                                                            common: ::hdds::xtypes::CommonEnumeratedLiteral {\n");
            out.append("                                                                value: ");
            append_signed_decimal(&mut out, value);
            out.append(",\n");
            out.append("                                                                flags: ::hdds::xtypes::EnumeratedLiteralFlag::empty(),\n");
            out.append("                                                            },\n");
            out.append("                                                            detail: ::hdds::xtypes::CompleteMemberDetail::new(\"");
            out.append(variant.name.as_str());
            out.append("\"),\n");
            out.append("                                                        },\n");
            i = i + 1;
        }
        assert(e.variants@.take(e.variants@.len() as int) =~= e.variants@);
        out.append("                                                    ],\n");
        out.append("                                                }\n");
        out.append("                                            )");
        out
    }

    /// The `MemberId` of member number `idx`: its index; in a `@mutable`
    /// struct its explicit `@id`, or else the hash of its name (DDS-XTypes
    /// 1.3, 7.3.1.2.1.1).
    pub fn compute_member_id(s: &Struct, idx: usize, field: &Field) -> (r: u32)
        ensures
            r == member_id(has_mutable(s.annotations@), *field, idx as int),
    {
        if !any_mutable(&s.annotations) {
            return #[verifier::truncate] (idx as u32);
        }
        let mut i: usize = 0;
        assert(field.annotations@.take(0) =~= Seq::<Annotation>::empty());
        while i < field.annotations.len()
            invariant
                i <= field.annotations@.len(),
                explicit_id(field.annotations@.take(i as int)) is None,
                has_mutable(s.annotations@),
            decreases field.annotations.len() - i,
        {
            proof {
                assert(field.annotations@.take(i + 1).drop_last() =~= field.annotations@.take(i as int));
                assert(field.annotations@.take(i + 1).last() == field.annotations@[i as int]);
            }
            if let Annotation::Id(v) = field.annotations[i] {
                proof {
                    lemma_explicit_id_prefix(field.annotations@, i + 1);
                }
                return v;
            }
            i = i + 1;
        }
        assert(field.annotations@.take(field.annotations@.len() as int) =~= field.annotations@);
        member_name_hash(field.name.as_str())
    }

    /// The `get_type_object()` method of the DDS impl: the struct's
    /// `CompleteTypeObject`, `IS_MUTABLE` for a `@mutable` struct,
    /// `IS_APPENDABLE` for an `@appendable` one, and `IS_FINAL` otherwise.
    pub fn emit_xtypes_type_object(s: &Struct, fqn: &str, field_layouts: &Vec<(String, usize, IdlType)>, defs: &Vec<Definition>) -> (r: String)
        requires
            has_mutable(s.annotations@) ==> field_layouts@.len() <= s.fields@.len(),
        ensures
            r@ == xtypes_text(*s, fqn@, layout_members(field_layouts@), defs@),
    {
        let mutable = any_mutable(&s.annotations);
        let mut out = String::new();
        out.append("        fn get_type_object() -> Option<::hdds::xtypes::CompleteTypeObject> {\n");
        out.append("            Some(::hdds::xtypes::CompleteTypeObject::Struct(\n");
        out.append("                ::hdds::xtypes::CompleteStructType {\n");
        let appendable = any_appendable(&s.annotations);
        out.append("                    struct_flags: ::hdds::xtypes::StructTypeFlag::");
        if mutable {
            out.append("IS_MUTABLE");
        } else if appendable {
            out.append("IS_APPENDABLE");
        } else {
            out.append("IS_FINAL");
        }
        out.append(",\n");
        out.append("                    header: ::hdds::xtypes::CompleteStructHeader {\n");
        out.append("                        base_type: None,\n");
        out.append("                        detail: ::hdds::xtypes::CompleteTypeDetail::new(\"");
        out.append(fqn);
        out.append("\"),\n");
        out.append("                    },\n");
        out.append("                    member_seq: vec![\n");
        let ghost head = out@;
        assert(head =~= Seq::empty() + "        fn get_type_object() -> Option<::hdds::xtypes::CompleteTypeObject> {\n"@
            + "            Some(::hdds::xtypes::CompleteTypeObject::Struct(\n"@
            + "                ::hdds::xtypes::CompleteStructType {\n"@ + struct_flags_line(s.annotations@)
            + "                    header: ::hdds::xtypes::CompleteStructHeader {\n"@
            + "                        base_type: None,\n"@
            + "                        detail: ::hdds::xtypes::CompleteTypeDetail::new(\""@ + fqn@
            + "\"),\n"@ + "                    },\n"@ + "                    member_seq: vec![\n"@);
        let empty: Vec<String> = Vec::new();
        assert(names_of(empty@) =~= Seq::<Seq<char>>::empty());
        let ghost members = layout_members(field_layouts@);
        let mut i: usize = 0;
        assert(members.take(0) =~= Seq::<(Seq<char>, IdlType)>::empty());
        while i < field_layouts.len()
            invariant
                mutable ==> field_layouts@.len() <= s.fields@.len(),
                members == layout_members(field_layouts@),
                mutable == has_mutable(s.annotations@),
                empty@.len() == 0,
                names_of(empty@) == Seq::<Seq<char>>::empty(),
                i <= field_layouts@.len(),
                out@ == xtypes_members_text(head, members.take(i as int), s.fields@, mutable, defs@),
            decreases field_layouts.len() - i,
        {
            let field_name = &field_layouts[i].0;
            let field_type = &field_layouts[i].2;
            let member_id_val = if mutable {
                let field = &s.fields[i];
                Self::compute_member_id(s, i, field)
            } else {
                #[verifier::truncate] (i as u32)
            };
            let type_id_code = Self::emit_member_type_id(field_type, defs, &empty);
            proof {
                assert(members.take(i + 1).drop_last() =~= members.take(i as int));
                assert(members.take(i + 1).last() == members[i as int]);
                assert(members[i as int] == (field_name@, *field_type));
            }
            out.append("                        ::hdds::xtypes::CompleteStructMember {\n");
            out.append("                            common: ::hdds::xtypes::CommonStructMember {\n");
            out.append("                                member_id: ");
            append_decimal(&mut out, member_id_val as u64);
            out.append(",\n");
            out.append("                                member_flags: ::hdds::xtypes::MemberFlag::empty(),\n");
            out.append("                                member_type_id: ");
            out.append(type_id_code.as_str());
            out.append(",\n");
            out.append("                            },\n");
            out.append("                            detail: ::hdds::xtypes::CompleteMemberDetail::new(\"");
            out.append(field_name.as_str());
            out.append("\"),\n");
            out.append("                        },\n");
            i = i + 1;
        }
        assert(members.take(members.len() as int) =~= members);
        out.append("                    ],\n");
        out.append("                }\n");
        out.append("            ))\n");
        out.append("        }\n");
        out
    }

    /// The `impl ::hdds::api::DDS` block for a struct: the type descriptor
    /// (FNV-1a type id of the fully qualified name, layout of each member),
    /// `encode`/`decode` dispatching on the CDR version to the XCDR1 or
    /// XCDR2 inherent methods, the XTypes type object, `compute_key()` and
    /// `has_key()`.
    pub fn emit_dds_trait_impl(s: &Struct, module_name: Option<&str>, defs: &Vec<Definition>) -> (r: String)
        requires
            layout_fits(s.fields@),
        ensures
            r@ == dds_impl_text(*s, match module_name { Some(m) => Some(m@), None => None }, defs@),
    {
        let mut output = String::new();
        let fqn = match module_name {
            Some(module) => {
                let mut f = module.to_owned();
                f.append("::");
                f.append(s.name.as_str());
                f
            },
            None => s.name.clone(),
        };
        let type_id = Self::compute_fnv1a_hash(fqn.as_str());
        let (size_bytes, alignment, field_layouts) = Self::compute_struct_layout(s.fields.as_slice());
        let is_variable = Self::has_variable_size_field(s.fields.as_slice());
        output.append("    // === DDS Trait (auto-generated by hddsgen) ===\n");
        output.append("    impl ::hdds::api::DDS for ");
        output.append(s.name.as_str());
        output.append(" {\n");
        output.append("        fn type_descriptor() -> &'static ::hdds::core::types::TypeDescriptor {\n");
        output.append("            static DESC: ::hdds::core::types::TypeDescriptor = ::hdds::core::types::TypeDescriptor {\n");
        output.append("                type_id: ");
        append_hex_u32(&mut output, type_id);
        output.append(",  // FNV-1a hash of \"");
        output.append(fqn.as_str());
        output.append("\"\n");
        output.append("                type_name: \"");
        output.append(fqn.as_str());
        output.append("\",\n");
        output.append("                size_bytes: ");
        append_decimal(&mut output, size_bytes as u64);
        output.append(",\n");
        output.append("                alignment: ");
        append_decimal(&mut output, alignment as u64);
        output.append(",\n");
        output.append("                is_variable_size: ");
        append_bool(&mut output, is_variable);
        output.append(",\n");
        output.append("                fields: &[\n");
        let ghost head = output@;
        let mut i: usize = 0;
        assert(s.fields@.take(0) =~= Seq::<Field>::empty());
        while i < field_layouts.len()
            invariant
                layout_fits(s.fields@),
                field_layouts@.len() == s.fields@.len(),
                forall|j: int| 0 <= j < s.fields@.len() ==> {
                    &&& (#[trigger] field_layouts@[j]).0@ == s.fields@[j].name@
                    &&& field_layouts@[j].1 == field_offset(s.fields@, j)
                    &&& field_layouts@[j].2 == s.fields@[j].field_type
                },
                i <= field_layouts@.len(),
                output@ == layout_entries_text(head, s.fields@.take(i as int)),
            decreases field_layouts.len() - i,
        {
            let field_name = &field_layouts[i].0;
            let offset = field_layouts[i].1;
            let field_type = &field_layouts[i].2;
            assert(size_fits(s.fields@[i as int].field_type));
            let (size, align, prim_kind) = Self::field_type_info(field_type);
            proof {
                let pre = s.fields@.take(i + 1);
                assert(pre.drop_last() =~= s.fields@.take(i as int));
                assert(pre.last() == s.fields@[i as int]);
                assert(pre.take(i as int) =~= s.fields@.take(i as int));
            }
            output.append("                    ::hdds::core::types::FieldLayout {\n");
            output.append("                        name: \"");
            output.append(field_name.as_str());
            output.append("\",\n");
            output.append("                        offset_bytes: ");
            append_decimal(&mut output, offset as u64);
            output.append(",\n");
            output.append("                        field_type: ::hdds::core::types::FieldType::Primitive(\n");
            output.append("                            ::hdds::core::types::PrimitiveKind::");
            output.append(prim_kind);
            output.append("\n");
            output.append("                        ),\n");
            output.append("                        alignment: ");
            append_decimal(&mut output, align as u64);
            output.append(",\n");
            output.append("                        size_bytes: ");
            append_decimal(&mut output, size as u64);
            output.append(",\n");
            output.append("                        element_type: None,\n");
            output.append("                    },\n");
            i = i + 1;
        }
        assert(s.fields@.take(s.fields@.len() as int) =~= s.fields@);
        output.append("                ],\n");
        output.append("            };\n");
        output.append("            &DESC\n");
        output.append("        }\n\n");
        output.append("        fn encode(&self, buf: &mut [u8], version: ::hdds::CdrVersion) -> ::hdds::api::Result<usize> {\n");
        output.append("            match version {\n");
        output.append("                ::hdds::CdrVersion::Xcdr1 => self.encode_xcdr1_le(buf).map_err(Into::into),\n");
        output.append("                ::hdds::CdrVersion::Xcdr2 => self.encode_xcdr2_le(buf).map_err(Into::into),\n");
        output.append("            }\n");
        output.append("        }\n\n");
        output.append("        fn decode(buf: &[u8], version: ::hdds::CdrVersion) -> ::hdds::api::Result<Self> {\n");
        output.append("            match version {\n");
        output.append("                ::hdds::CdrVersion::Xcdr1 => Self::decode_xcdr1_le(buf).map(|(val, _)| val).map_err(Into::into),\n");
        output.append("                ::hdds::CdrVersion::Xcdr2 => Self::decode_xcdr2_le(buf).map(|(val, _)| val).map_err(Into::into),\n");
        output.append("            }\n");
        output.append("        }\n\n");
        proof {
            assert(layout_members(field_layouts@) =~= field_members(s.fields@));
        }
        let xt = Self::emit_xtypes_type_object(s, fqn.as_str(), &field_layouts, defs);
        output.append(xt.as_str());
        let ck = Self::emit_compute_key_method(s, defs);
        output.append(ck.as_str());
        let hk = Self::emit_has_key_method(s);
        output.append(hk.as_str());
        output.append("    }\n    \n");
        output
    }
}

} // verus!
