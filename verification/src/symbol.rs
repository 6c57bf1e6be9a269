//! Interned names, and the maps that are keyed by them.

use vstd::prelude::*;
use std::collections::HashMap;

verus! {

/// An interned string, identified by the number the interner gave it.
/// Two symbols are the same name exactly when their numbers are equal.
#[derive(Clone, Copy, PartialEq, Eq, Structural, Debug, Hash)]
pub struct Symbol(pub u64);

/// The name of a class, interface, trait, enum or type parameter.
#[derive(Clone, Copy, PartialEq, Eq, Structural, Debug, Hash)]
pub struct TypeName(pub Symbol);

/// A map from symbols, held under each symbol's number.
pub type SymbolMap<V> = HashMap<u64, V>;

/// A map from type names, held under each name's number.
pub type TypeNameMap<V> = HashMap<u64, V>;

impl Symbol {
    /// The number under which maps hold this name.
    pub open spec fn key(self) -> u64 {
        self.0
    }

    /// The number under which maps hold this name.
    #[verifier::when_used_as_spec(key)]
    pub fn id(self) -> (k: u64)
        ensures
            k == self.key(),
    {
        self.0
    }
}

impl TypeName {
    /// The number under which maps hold this name.
    pub open spec fn key(self) -> u64 {
        self.0.0
    }

    /// The number under which maps hold this name.
    #[verifier::when_used_as_spec(key)]
    pub fn id(self) -> (k: u64)
        ensures
            k == self.key(),
    {
        self.0.0
    }

    /// The type name that the interner numbered `k`.
    pub fn from_id(k: u64) -> (name: TypeName)
        ensures
            name.key() == k,
            name == TypeName(Symbol(k)),
    {
        TypeName(Symbol(k))
    }
}

} // verus!
