//! Substitutions from an ancestor's type parameters to type arguments.

use vstd::prelude::*;
use std::collections::HashMap;
use std::sync::Arc;
use crate::symbol::{TypeName, TypeNameMap};
use crate::decl_defs::{subst_terms, terms_of, DeclTy, TyTerm};

verus! {

/// The map that binds the first `n` parameters to the first `n` arguments,
/// position by position. Where a parameter name occurs twice, the later
/// binding stands.
pub open spec fn bind_prefix(tparams: Seq<TypeName>, targs: Seq<TyTerm>, n: nat) -> Map<
    u64,
    TyTerm,
>
    decreases n,
{
    if n == 0 {
        Map::empty()
    } else {
        bind_prefix(tparams, targs, (n - 1) as nat).insert(tparams[n - 1].key(), targs[n - 1])
    }
}

/// How many positions have both a parameter and an argument.
pub open spec fn bound_len(tparams: Seq<TypeName>, targs: Seq<TyTerm>) -> nat {
    if tparams.len() <= targs.len() {
        tparams.len()
    } else {
        targs.len()
    }
}

/// The substitution of `targs` for `tparams` by position. Arity is not
/// checked: positions that lack a parameter or an argument bind nothing.
pub open spec fn bind(tparams: Seq<TypeName>, targs: Seq<TyTerm>) -> Map<u64, TyTerm> {
    bind_prefix(tparams, targs, bound_len(tparams, targs))
}

/// A key is bound exactly when one of the first `n` parameters has it, and
/// it is bound to the argument at the last such position.
pub proof fn lemma_bind_prefix_lookup(tparams: Seq<TypeName>, targs: Seq<TyTerm>, n: nat, k: u64)
    requires
        n <= tparams.len(),
        n <= targs.len(),
    ensures
        bind_prefix(tparams, targs, n).contains_key(k) <==> exists|i: int|
            0 <= i < n && #[trigger] tparams[i].key() == k,
        forall|i: int|
            0 <= i < n && #[trigger] tparams[i].key() == k && (forall|j: int|
                i < j < n ==> #[trigger] tparams[j].key() != k) ==> bind_prefix(tparams, targs, n)[k]
                == targs[i],
    decreases n,
{
    if n > 0 {
        let m = (n - 1) as nat;
        lemma_bind_prefix_lookup(tparams, targs, m, k);
        if tparams[n - 1].key() == k {
            assert forall|i: int|
                0 <= i < n && #[trigger] tparams[i].key() == k && (forall|j: int|
                    i < j < n ==> #[trigger] tparams[j].key() != k) implies bind_prefix(
                tparams,
                targs,
                n,
            )[k] == targs[i] by {
                if i < n - 1 {
                    assert(tparams[n - 1].key() != k);
                }
            }
        } else {
            assert forall|i: int|
                0 <= i < n && #[trigger] tparams[i].key() == k && (forall|j: int|
                    i < j < n ==> #[trigger] tparams[j].key() != k) implies bind_prefix(
                tparams,
                targs,
                n,
            )[k] == targs[i] by {
                assert(i < m);
                assert(forall|j: int| i < j < m ==> #[trigger] tparams[j].key() != k);
            }
        }
    }
}

/// A substitution under construction.
#[derive(Debug)]
pub struct Subst {
    pub map: TypeNameMap<Arc<DeclTy>>,
}

impl Subst {
    /// Binds each of `tparams` to the argument at its position in `targs`.
    pub fn new(tparams: &[TypeName], targs: &[DeclTy]) -> (s: Subst)
        ensures
            subst_terms(s.map@) == bind(tparams@, terms_of(targs@)),
    {
        let n: usize = if tparams.len() <= targs.len() {
            tparams.len()
        } else {
            targs.len()
        };
        let mut map: TypeNameMap<Arc<DeclTy>> = HashMap::new();
        let mut i: usize = 0;
        assert(subst_terms(map@) =~= bind_prefix(tparams@, terms_of(targs@), 0));
        while i < n
            invariant
                i <= n,
                n == bound_len(tparams@, terms_of(targs@)),
                n <= tparams.len(),
                n <= targs.len(),
                subst_terms(map@) == bind_prefix(tparams@, terms_of(targs@), i as nat),
            decreases n - i,
        {
            let ghost before = map@;
            let arg = Arc::new(targs[i].clone());
            map.insert(tparams[i].id(), arg);
            assert(subst_terms(map@) =~= subst_terms(before).insert(tparams[i as int].key(), arg@));
            i += 1;
        }
        Subst { map }
    }

    /// The finished map, by parameter number.
    pub fn into_map(self) -> (m: TypeNameMap<Arc<DeclTy>>)
        ensures
            m == self.map,
    {
        self.map
    }
}

} // verus!
