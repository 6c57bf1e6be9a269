//! Inheritance folding for class declarations.
//!
//! Given a class's own syntactic declaration and the folded declarations of
//! its ancestors, this library computes what the class inherits: properties,
//! static properties, methods, static methods, the constructor, and the
//! substitution contexts that record how each ancestor's type parameters are
//! instantiated. Substitutions are recorded, not applied: member maps are
//! taken over verbatim and a later reader resolves types under the recorded
//! contexts.
//!
//! Every map is keyed by the number of an interned name, so that the
//! contracts can speak of map contents exactly.
//!
//! - [`decl_defs`]: the declarations that folding reads and produces.
//! - [`model`]: the merge rules and the fold, as mathematics.
//! - [`inherit`]: the accumulator and the resolver, proved against the
//!   model.
//! - [`laws`]: what follows for every class.
//! - [`allocator`]: interning of names, and the positions that
//!   declarations carry.

pub mod symbol;
pub mod position;
pub mod allocator;
pub mod decl_defs;
pub mod subst;
pub mod traversal;
pub mod model;
pub mod inherit;
pub mod laws;

pub use allocator::Allocator;
pub use decl_defs::{
    Abstraction, ClassishKind, DeclTy, FoldedClass, FoldedElement, ShallowClass, SubstContext,
    Visibility,
};
pub use inherit::Inherited;
pub use position::{FilePos, Pos, Positioned, Prefix, RelativePath};
pub use symbol::{Symbol, SymbolMap, TypeName, TypeNameMap};
