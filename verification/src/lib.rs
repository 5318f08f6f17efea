//! Compilation core of an embeddable scripting language: hierarchical path
//! allocation for nested scopes, lexical name binding, and needs-driven
//! resolution of reference expressions into emitted instructions.

pub mod assemble;
pub mod ast;
pub mod gen;
pub mod item;
pub mod items;
pub mod scopes;
pub mod span;
pub mod text;
