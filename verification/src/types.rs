//! IDL types and annotations.

use vstd::prelude::*;

verus! {

/// The primitive IDL types.
#[derive(Debug, Clone, Copy, PartialEq, Eq)]
pub enum PrimitiveType {
    Void,
    Boolean,
    Char,
    WChar,
    Octet,
    Short,
    UnsignedShort,
    Long,
    UnsignedLong,
    LongLong,
    UnsignedLongLong,
    Float,
    Double,
    LongDouble,
    Int8,
    UInt8,
    Int16,
    UInt16,
    Int32,
    UInt32,
    Int64,
    UInt64,
    String,
    WString,
    /// `fixed<digits, scale>`
    Fixed { digits: u32, scale: u32 },
}

/// An IDL type expression.
#[derive(Debug)]
pub enum IdlType {
    Primitive(PrimitiveType),
    /// A reference to a type declared by name (struct, enum, union, typedef).
    Named(String),
    /// `sequence<inner>` or `sequence<inner, bound>`.
    Sequence { inner: Box<IdlType>, bound: Option<u32> },
    /// `inner name[size]`.
    Array { inner: Box<IdlType>, size: u32 },
    /// `map<key, value>` or `map<key, value, bound>`.
    MapType { key: Box<IdlType>, value: Box<IdlType>, bound: Option<u32> },
}

impl IdlType {
    /// A copy of this type, equal to it.
    pub fn duplicate(&self) -> (r: IdlType)
        ensures
            r == *self,
        decreases self,
    {
        match self {
            IdlType::Primitive(p) => IdlType::Primitive(*p),
            IdlType::Named(n) => IdlType::Named(n.clone()),
            IdlType::Sequence { inner, bound } => IdlType::Sequence {
                inner: Box::new((**inner).duplicate()),
                bound: *bound,
            },
            IdlType::Array { inner, size } => IdlType::Array {
                inner: Box::new((**inner).duplicate()),
                size: *size,
            },
            IdlType::MapType { key, value, bound } => IdlType::MapType {
                key: Box::new((**key).duplicate()),
                value: Box::new((**value).duplicate()),
                bound: *bound,
            },
        }
    }
}

/// An annotation attached to a declaration or a member.
#[derive(Debug, PartialEq, Eq)]
pub enum Annotation {
    /// `@key`: the member is part of the instance key.
    Key,
    /// `@optional`: the member may be absent.
    Optional,
    /// `@external`: the member is held behind a pointer (`Box`).
    External,
    /// `@position(n)`: bit position of a bitfield.
    Position(u32),
    /// `@id(n)`: explicit member id.
    Id(u32),
    /// `@data_representation(...)`: the preferred encoding (`XCDR1` or `XCDR2`).
    DataRepresentation(String),
    /// `@final` extensibility.
    Final,
    /// `@appendable` extensibility.
    Appendable,
    /// `@mutable` extensibility.
    Mutable,
}

/// Whether an annotation list holds `@key`.
pub open spec fn has_key(anns: Seq<Annotation>) -> bool {
    exists|i: int| 0 <= i < anns.len() && anns[i] is Key
}

/// Whether an annotation list holds `@optional`.
pub open spec fn has_optional(anns: Seq<Annotation>) -> bool {
    exists|i: int| 0 <= i < anns.len() && anns[i] is Optional
}

/// Whether an annotation list holds `@external`.
pub open spec fn has_external(anns: Seq<Annotation>) -> bool {
    exists|i: int| 0 <= i < anns.len() && anns[i] is External
}

/// Whether an annotation list holds `@mutable`.
pub open spec fn has_mutable(anns: Seq<Annotation>) -> bool {
    exists|i: int| 0 <= i < anns.len() && anns[i] is Mutable
}

/// Whether `@key` is in the list.
pub fn any_key(anns: &Vec<Annotation>) -> (r: bool)
    ensures
        r == has_key(anns@),
{
    let mut i: usize = 0;
    while i < anns.len()
        invariant
            i <= anns.len(),
            forall|j: int| 0 <= j < i ==> !(anns@[j] is Key),
        decreases anns.len() - i,
    {
        if let Annotation::Key = anns[i] {
            return true;
        }
        i = i + 1;
    }
    false
}

/// Whether `@optional` is in the list.
pub fn any_optional(anns: &Vec<Annotation>) -> (r: bool)
    ensures
        r == has_optional(anns@),
{
    let mut i: usize = 0;
    while i < anns.len()
        invariant
            i <= anns.len(),
            forall|j: int| 0 <= j < i ==> !(anns@[j] is Optional),
        decreases anns.len() - i,
    {
        if let Annotation::Optional = anns[i] {
            return true;
        }
        i = i + 1;
    }
    false
}

/// Whether `@external` is in the list.
pub fn any_external(anns: &Vec<Annotation>) -> (r: bool)
    ensures
        r == has_external(anns@),
{
    let mut i: usize = 0;
    while i < anns.len()
        invariant
            i <= anns.len(),
            forall|j: int| 0 <= j < i ==> !(anns@[j] is External),
        decreases anns.len() - i,
    {
        if let Annotation::External = anns[i] {
            return true;
        }
        i = i + 1;
    }
    false
}

/// Whether `@mutable` is in the list.
/// Whether the annotations include `@appendable`.
pub open spec fn has_appendable(anns: Seq<Annotation>) -> bool {
    exists|i: int| 0 <= i < anns.len() && anns[i] is Appendable
}

/// Whether the annotations include `@appendable`.
pub fn any_appendable(anns: &Vec<Annotation>) -> (r: bool)
    ensures
        r == has_appendable(anns@),
{
    let mut i: usize = 0;
    while i < anns.len()
        invariant
            i <= anns.len(),
            forall|j: int| 0 <= j < i ==> !(anns@[j] is Appendable),
        decreases anns.len() - i,
    {
        if let Annotation::Appendable = anns[i] {
            return true;
        }
        i = i + 1;
    }
    false
}

pub fn any_mutable(anns: &Vec<Annotation>) -> (r: bool)
    ensures
        r == has_mutable(anns@),
{
    let mut i: usize = 0;
    while i < anns.len()
        invariant
            i <= anns.len(),
            forall|j: int| 0 <= j < i ==> !(anns@[j] is Mutable),
        decreases anns.len() - i,
    {
        if let Annotation::Mutable = anns[i] {
            return true;
        }
        i = i + 1;
    }
    false
}

} // verus!
