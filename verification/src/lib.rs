//! Rust code generation for IDL data types: the DDS type-support impls
//! (type descriptors, XTypes type objects, key hashing), the XCDR
//! alignment rules, and the evaluation of IDL constant expressions.

pub mod ast;
pub mod bitset;
pub mod cdr_codegen;
pub mod const_expr;
pub mod dds_trait;
pub mod decls;
pub mod generator;
pub mod layout;
pub mod member_hash;
pub mod primitive_laws;
pub mod rust_types;
pub mod text;
pub mod types;
pub mod union;
