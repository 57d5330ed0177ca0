//! A typed intermediate representation for a compiler middle end: the IR
//! tree, a dropless arena with stable handles, a content interner, a
//! per-target layout engine, indexed containers and a read-only visitor.

pub mod arena;
pub mod codegen;
pub mod ctx;
pub mod idx;
pub mod index_slice;
pub mod index_vec;
pub mod layout;
pub mod layout_ctx;
pub mod tir;
pub mod validate;
pub mod visitor;
