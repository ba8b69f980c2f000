//! A reactive dependency graph: entities in a parent/child tree expose raw
//! stored values and derived values that are recomputed from the current
//! state of the graph whenever they are observed.
//!
//! Derived values are described by first-class signals ([`sig::Sig`]), built
//! once per entity field and memoized ([`memo::MemoSig`]), and evaluated
//! against the current graph state ([`graph::Root`]), so every observer of a
//! field sees the value of one shared signal.

pub mod combinators;
pub mod error;
pub mod graph;
pub mod laws;
pub mod memo;
pub mod model;
pub mod sig;
pub mod square;
