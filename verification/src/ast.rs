//! The declarations of an IDL file.

use vstd::prelude::*;
use crate::types::{Annotation, IdlType, has_optional, any_optional};
use crate::text::str_eq;

verus! {

/// A struct member (or a union case's member).
#[derive(Debug)]
pub struct Field {
    pub name: String,
    pub field_type: IdlType,
    pub annotations: Vec<Annotation>,
}

impl Field {
    /// A member with no annotation.
    pub fn new(name: &str, field_type: IdlType) -> (r: Field)
        ensures
            r.name@ == name@,
            r.field_type == field_type,
            r.annotations@.len() == 0,
    {
        Field { name: name.to_owned(), field_type, annotations: Vec::new() }
    }

    /// The same member with one more annotation.
    pub fn with_annotation(self, annotation: Annotation) -> (r: Field)
        ensures
            r.name == self.name,
            r.field_type == self.field_type,
            r.annotations@ == self.annotations@.push(annotation),
    {
        let mut f = self;
        f.annotations.push(annotation);
        f
    }

    /// Whether the member is `@optional`.
    pub fn is_optional(&self) -> (r: bool)
        ensures
            r == has_optional(self.annotations@),
    {
        any_optional(&self.annotations)
    }
}

/// A struct declaration.
#[derive(Debug)]
pub struct Struct {
    pub name: String,
    pub fields: Vec<Field>,
    /// The struct it inherits from, if any.
    pub base_struct: Option<String>,
    pub annotations: Vec<Annotation>,
}

impl Struct {
    /// An empty struct.
    pub fn new(name: &str) -> (r: Struct)
        ensures
            r.name@ == name@,
            r.fields@.len() == 0,
            r.base_struct is None,
            r.annotations@.len() == 0,
    {
        Struct {
            name: name.to_owned(),
            fields: Vec::new(),
            base_struct: None,
            annotations: Vec::new(),
        }
    }

    /// Appends a member.
    pub fn add_field(&mut self, field: Field)
        ensures
            final(self).name == old(self).name,
            final(self).fields@ == old(self).fields@.push(field),
            final(self).base_struct == old(self).base_struct,
            final(self).annotations == old(self).annotations,
    {
        self.fields.push(field);
    }

    /// Appends an annotation on the struct itself.
    pub fn add_annotation(&mut self, annotation: Annotation)
        ensures
            final(self).name == old(self).name,
            final(self).fields == old(self).fields,
            final(self).base_struct == old(self).base_struct,
            final(self).annotations@ == old(self).annotations@.push(annotation),
    {
        self.annotations.push(annotation);
    }
}

/// An enumerator.
#[derive(Debug)]
pub struct EnumVariant {
    pub name: String,
    /// The explicit value, if one was given.
    pub value: Option<i64>,
}

impl EnumVariant {
    pub fn new(name: &str, value: Option<i64>) -> (r: EnumVariant)
        ensures
            r.name@ == name@,
            r.value == value,
    {
        EnumVariant { name: name.to_owned(), value }
    }
}

/// An enum declaration.
#[derive(Debug)]
pub struct Enum {
    pub name: String,
    pub variants: Vec<EnumVariant>,
}

impl Enum {
    pub fn new(name: &str) -> (r: Enum)
        ensures
            r.name@ == name@,
            r.variants@.len() == 0,
    {
        Enum { name: name.to_owned(), variants: Vec::new() }
    }

    /// Appends an enumerator.
    pub fn add_variant(&mut self, variant: EnumVariant)
        ensures
            final(self).name == old(self).name,
            final(self).variants@ == old(self).variants@.push(variant),
    {
        self.variants.push(variant);
    }
}

/// A union case label.
#[derive(Debug)]
pub enum UnionLabel {
    /// `default:`
    Default,
    /// `case <value>:`, the value as written.
    Value(String),
}

/// A union case: its labels and its member.
#[derive(Debug)]
pub struct UnionCase {
    pub labels: Vec<UnionLabel>,
    pub field: Field,
}

/// A discriminated union.
#[derive(Debug)]
pub struct Union {
    pub name: String,
    pub discriminator: IdlType,
    pub cases: Vec<UnionCase>,
}

impl Union {
    pub fn new(name: &str, discriminator: IdlType) -> (r: Union)
        ensures
            r.name@ == name@,
            r.discriminator == discriminator,
            r.cases@.len() == 0,
    {
        Union { name: name.to_owned(), discriminator, cases: Vec::new() }
    }

    /// Appends a case.
    pub fn add_case(&mut self, case: UnionCase)
        ensures
            final(self).name == old(self).name,
            final(self).discriminator == old(self).discriminator,
            final(self).cases@ == old(self).cases@.push(case),
    {
        self.cases.push(case);
    }
}

/// `typedef base_type name;`
#[derive(Debug)]
pub struct Typedef {
    pub name: String,
    pub base_type: IdlType,
    pub annotations: Vec<Annotation>,
}

/// One bitfield of a bitset.
#[derive(Debug)]
pub struct BitfieldDecl {
    /// Width in bits.
    pub width: u32,
    pub name: String,
    pub annotations: Vec<Annotation>,
}

impl BitfieldDecl {
    pub fn new(width: u32, name: &str) -> (r: BitfieldDecl)
        ensures
            r.width == width,
            r.name@ == name@,
            r.annotations@.len() == 0,
    {
        BitfieldDecl { width, name: name.to_owned(), annotations: Vec::new() }
    }
}

/// A bitset declaration.
#[derive(Debug)]
pub struct Bitset {
    pub name: String,
    pub fields: Vec<BitfieldDecl>,
}

impl Bitset {
    pub fn new(name: &str) -> (r: Bitset)
        ensures
            r.name@ == name@,
            r.fields@.len() == 0,
    {
        Bitset { name: name.to_owned(), fields: Vec::new() }
    }

    /// Appends a bitfield.
    pub fn add_field(&mut self, field: BitfieldDecl)
        ensures
            final(self).name == old(self).name,
            final(self).fields@ == old(self).fields@.push(field),
    {
        self.fields.push(field);
    }
}

/// A top-level declaration.
#[derive(Debug)]
pub enum Definition {
    Struct(Struct),
    Enum(Enum),
    Union(Union),
    Typedef(Typedef),
    Bitset(Bitset),
}

/// A parsed IDL file: its declarations in order.
#[derive(Debug)]
pub struct IdlFile {
    pub definitions: Vec<Definition>,
}

impl IdlFile {
    pub fn new() -> (r: IdlFile)
        ensures
            r.definitions@.len() == 0,
    {
        IdlFile { definitions: Vec::new() }
    }

    /// Appends a declaration.
    pub fn add_definition(&mut self, definition: Definition)
        ensures
            final(self).definitions@ == old(self).definitions@.push(definition),
    {
        self.definitions.push(definition);
    }
}

/// The declared name of a declaration.
pub open spec fn def_name(d: Definition) -> Seq<char> {
    match d {
        Definition::Struct(s) => s.name@,
        Definition::Enum(e) => e.name@,
        Definition::Union(u) => u.name@,
        Definition::Typedef(t) => t.name@,
        Definition::Bitset(b) => b.name@,
    }
}

/// Index of the first declaration called `name`.
pub open spec fn find_named(defs: Seq<Definition>, name: Seq<char>) -> Option<int>
    decreases defs.len(),
{
    if defs.len() == 0 {
        None
    } else {
        match find_named(defs.drop_last(), name) {
            Some(i) => Some(i),
            None => if def_name(defs.last()) == name { Some(defs.len() - 1) } else { None },
        }
    }
}

/// A declaration found by `find_named` is in range and has that name.
pub proof fn lemma_find_named(defs: Seq<Definition>, name: Seq<char>)
    ensures
        find_named(defs, name) matches Some(i) ==> 0 <= i < defs.len() && def_name(defs[i]) == name,
    decreases defs.len(),
{
    if defs.len() > 0 {
        lemma_find_named(defs.drop_last(), name);
    }
}

proof fn lemma_find_named_prefix(defs: Seq<Definition>, name: Seq<char>, k: int)
    requires
        0 <= k <= defs.len(),
        find_named(defs.take(k), name) is Some,
    ensures
        find_named(defs, name) == find_named(defs.take(k), name),
    decreases defs.len() - k,
{
    if k < defs.len() {
        assert(defs.take(k + 1).drop_last() =~= defs.take(k));
        lemma_find_named_prefix(defs, name, k + 1);
    } else {
        assert(defs.take(k) =~= defs);
    }
}

/// The name of a declaration.
pub fn definition_name(d: &Definition) -> (r: &String)
    ensures
        r@ == def_name(*d),
{
    match d {
        Definition::Struct(s) => &s.name,
        Definition::Enum(e) => &e.name,
        Definition::Union(u) => &u.name,
        Definition::Typedef(t) => &t.name,
        Definition::Bitset(b) => &b.name,
    }
}

/// The index of the first declaration called `name`, if there is one.
pub fn lookup_named(defs: &Vec<Definition>, name: &str) -> (r: Option<usize>)
    ensures
        r matches Some(i) ==> find_named(defs@, name@) == Some(i as int),
        r is None ==> find_named(defs@, name@) is None,
{
    let mut i: usize = 0;
    assert(defs@.take(0) =~= Seq::<Definition>::empty());
    while i < defs.len()
        invariant
            i <= defs@.len(),
            find_named(defs@.take(i as int), name@) is None,
        decreases defs.len() - i,
    {
        let hit = str_eq(definition_name(&defs[i]).as_str(), name);
        proof {
            assert(defs@.take(i + 1).drop_last() =~= defs@.take(i as int));
            assert(defs@.take(i + 1).last() == defs@[i as int]);
        }
        if hit {
            proof {
                lemma_find_named_prefix(defs@, name@, i + 1);
            }
            return Some(i);
        }
        i = i + 1;
    }
    assert(defs@.take(defs@.len() as int) =~= defs@);
    None
}

/// Whether a declaration is the struct or enum called `name`.
pub open spec fn names_type(d: Definition, name: Seq<char>) -> bool {
    match d {
        Definition::Struct(s) => s.name@ == name,
        Definition::Enum(e) => e.name@ == name,
        _ => false,
    }
}

/// Index of the first struct or enum called `name`.
pub open spec fn find_type(defs: Seq<Definition>, name: Seq<char>) -> Option<int>
    decreases defs.len(),
{
    if defs.len() == 0 {
        None
    } else {
        match find_type(defs.drop_last(), name) {
            Some(i) => Some(i),
            None => if names_type(defs.last(), name) { Some(defs.len() - 1) } else { None },
        }
    }
}

/// A struct or enum found by `find_type` has that name, and no earlier
/// declaration does; `None` means no declaration has it.
pub proof fn lemma_find_type(defs: Seq<Definition>, name: Seq<char>)
    ensures
        find_type(defs, name) matches Some(i) ==> 0 <= i < defs.len() && names_type(defs[i], name)
            && forall|j: int| 0 <= j < i ==> !names_type(#[trigger] defs[j], name),
        find_type(defs, name) is None ==> forall|j: int|
            0 <= j < defs.len() ==> !names_type(#[trigger] defs[j], name),
    decreases defs.len(),
{
    if defs.len() > 0 {
        lemma_find_type(defs.drop_last(), name);
        assert(forall|j: int| 0 <= j < defs.len() - 1 ==> defs.drop_last()[j] == defs[j]);
    }
}

proof fn lemma_find_type_prefix(defs: Seq<Definition>, name: Seq<char>, k: int)
    requires
        0 <= k <= defs.len(),
        find_type(defs.take(k), name) is Some,
    ensures
        find_type(defs, name) == find_type(defs.take(k), name),
    decreases defs.len() - k,
{
    if k < defs.len() {
        assert(defs.take(k + 1).drop_last() =~= defs.take(k));
        lemma_find_type_prefix(defs, name, k + 1);
    } else {
        assert(defs.take(k) =~= defs);
    }
}

/// The index of the first struct or enum called `name`, if there is one.
pub fn lookup_type_def(defs: &Vec<Definition>, name: &str) -> (r: Option<usize>)
    ensures
        r matches Some(i) ==> find_type(defs@, name@) == Some(i as int),
        r is None ==> find_type(defs@, name@) is None,
{
    let mut i: usize = 0;
    assert(defs@.take(0) =~= Seq::<Definition>::empty());
    while i < defs.len()
        invariant
            i <= defs@.len(),
            find_type(defs@.take(i as int), name@) is None,
        decreases defs.len() - i,
    {
        let hit = match &defs[i] {
            Definition::Struct(s) => str_eq(s.name.as_str(), name),
            Definition::Enum(e) => str_eq(e.name.as_str(), name),
            _ => false,
        };
        proof {
            assert(defs@.take(i + 1).drop_last() =~= defs@.take(i as int));
            assert(defs@.take(i + 1).last() == defs@[i as int]);
        }
        if hit {
            proof {
                lemma_find_type_prefix(defs@, name@, i + 1);
            }
            return Some(i);
        }
        i = i + 1;
    }
    assert(defs@.take(defs@.len() as int) =~= defs@);
    None
}

} // verus!
