//! The mathematical model of inheritance folding: what merging two
//! contributions yields, what one ancestor contributes, and what a class
//! inherits from a list of ancestors.

use vstd::prelude::*;
use std::sync::Arc;
use crate::symbol::TypeName;
use crate::decl_defs::{
    Abstraction, ClassishKind, FoldedClass, FoldedClassView, FoldedElement, ShallowClassView,
    SubstContextView, TyTerm,
};
use crate::subst::bind;

verus! {

/// Whether an existing member signature stands against an incoming one.
/// A concrete member is never displaced by an abstract one. Between two
/// members that are both abstract or both concrete, one that was written
/// out is never displaced by a synthesized one.
pub open spec fn keeps_old_sig(new_sig: FoldedElement, old_sig: FoldedElement) -> bool {
    (!old_sig.is_abstract && new_sig.is_abstract) || (old_sig.is_abstract == new_sig.is_abstract
        && !old_sig.is_synthesized && new_sig.is_synthesized)
}

/// An incoming method as it is installed over an existing one: marked as a
/// genuine override.
pub open spec fn as_override(new_sig: FoldedElement) -> FoldedElement {
    FoldedElement { is_superfluous_override: false, ..new_sig }
}

/// The entry for a method name after `new_sig` has come in where `old_sig`
/// stood (`None`: the name was free).
pub open spec fn merge_method(old_sig: Option<FoldedElement>, new_sig: FoldedElement) -> FoldedElement {
    match old_sig {
        None => new_sig,
        Some(old_sig) => if keeps_old_sig(new_sig, old_sig) {
            old_sig
        } else {
            as_override(new_sig)
        },
    }
}

/// The method map after every entry of `theirs` has come in over `ours`.
pub open spec fn merge_methods(
    ours: Map<u64, FoldedElement>,
    theirs: Map<u64, FoldedElement>,
) -> Map<u64, FoldedElement> {
    Map::new(
        |k: u64| ours.contains_key(k) || theirs.contains_key(k),
        |k: u64|
            if theirs.contains_key(k) {
                merge_method(ours.get(k), theirs[k])
            } else {
                ours[k]
            },
    )
}

/// The property map after every entry of `theirs` has come in over
/// `ours`: on a shared name the incoming entry replaces the existing one.
pub open spec fn merge_props(
    ours: Map<u64, FoldedElement>,
    theirs: Map<u64, FoldedElement>,
) -> Map<u64, FoldedElement> {
    ours.union_prefer_right(theirs)
}

/// Whether an incoming substitution context displaces an existing one for
/// the same ancestor: only a genuine relationship displaces one that a
/// trait merely required.
pub open spec fn displaces_context(old_sc: SubstContextView, new_sc: SubstContextView) -> bool {
    old_sc.from_req_extends && !new_sc.from_req_extends
}

/// The substitution contexts after every entry of `theirs` has come in
/// over `ours`.
pub open spec fn merge_substs(
    ours: Map<u64, SubstContextView>,
    theirs: Map<u64, SubstContextView>,
) -> Map<u64, SubstContextView> {
    Map::new(
        |k: u64| ours.contains_key(k) || theirs.contains_key(k),
        |k: u64|
            if !ours.contains_key(k) {
                theirs[k]
            } else if theirs.contains_key(k) && displaces_context(ours[k], theirs[k]) {
                theirs[k]
            } else {
                ours[k]
            },
    )
}

/// The constructor after `theirs` has come in over `ours`.
pub open spec fn merge_constructor(
    ours: Option<FoldedElement>,
    theirs: Option<FoldedElement>,
) -> Option<FoldedElement> {
    match (theirs, ours) {
        (None, _) => ours,
        (Some(new_sig), Some(old_sig)) => if keeps_old_sig(new_sig, old_sig) {
            ours
        } else {
            theirs
        },
        (Some(_), None) => theirs,
    }
}

/// The mathematical value of an [`Inherited`].
#[verifier::ext_equal]
pub struct InheritedView {
    pub substs: Map<u64, SubstContextView>,
    pub props: Map<u64, FoldedElement>,
    pub static_props: Map<u64, FoldedElement>,
    pub methods: Map<u64, FoldedElement>,
    pub static_methods: Map<u64, FoldedElement>,
    pub constructor: Option<FoldedElement>,
}

impl InheritedView {
    /// Nothing inherited: all maps empty, no constructor.
    pub open spec fn empty() -> InheritedView {
        InheritedView {
            substs: Map::empty(),
            props: Map::empty(),
            static_props: Map::empty(),
            methods: Map::empty(),
            static_methods: Map::empty(),
            constructor: None,
        }
    }

    /// `self` after `other` has been merged into it.
    pub open spec fn merge(self, other: InheritedView) -> InheritedView {
        InheritedView {
            substs: merge_substs(self.substs, other.substs),
            props: merge_props(self.props, other.props),
            static_props: merge_props(self.static_props, other.static_props),
            methods: merge_methods(self.methods, other.methods),
            static_methods: merge_methods(self.static_methods, other.static_methods),
            constructor: merge_constructor(self.constructor, other.constructor),
        }
    }
}

/// What `child` inherits through one use of the ancestor `parent` with
/// the type arguments `targs`: the ancestor's members as they are, and
/// its substitution contexts with one more, for the ancestor itself.
pub open spec fn instantiate(
    child: TypeName,
    parent_name: TypeName,
    parent: FoldedClassView,
    targs: Seq<TyTerm>,
) -> InheritedView {
    InheritedView {
        substs: parent.substs.insert(
            parent_name.key(),
            SubstContextView {
                subst: bind(parent.tparams, targs),
                class_context: child,
                from_req_extends: false,
            },
        ),
        props: parent.props,
        static_props: parent.static_props,
        methods: parent.methods,
        static_methods: parent.static_methods,
        constructor: parent.constructor,
    }
}

/// What `child` inherits through the ancestor type `ty`. A type that is
/// not a class type, or names a class that `parents` does not hold,
/// contributes nothing.
pub open spec fn contribution(
    child: TypeName,
    parents: Map<u64, FoldedClassView>,
    ty: TyTerm,
) -> InheritedView {
    match ty {
        TyTerm::Apply(name, targs) => if parents.contains_key(name.id.key()) {
            instantiate(child, name.id, parents[name.id.key()], targs)
        } else {
            InheritedView::empty()
        },
        _ => InheritedView::empty(),
    }
}

/// The ancestor types that a class of this kind inherits through, in the
/// order in which they take precedence.
pub open spec fn ancestor_terms(sc: ShallowClassView) -> Seq<TyTerm> {
    match sc.kind {
        ClassishKind::Cclass(Abstraction::Abstract) => sc.implements + sc.extends,
        ClassishKind::Ctrait => sc.implements + sc.extends + sc.req_implements,
        _ => sc.extends,
    }
}

/// The contributions of `tys` merged last to first, so that an earlier
/// type's contribution comes in over those of all later ones.
pub open spec fn fold_ancestors(
    child: TypeName,
    parents: Map<u64, FoldedClassView>,
    tys: Seq<TyTerm>,
) -> InheritedView
    decreases tys.len(),
{
    if tys.len() == 0 {
        InheritedView::empty()
    } else {
        fold_ancestors(child, parents, tys.drop_first()).merge(
            contribution(child, parents, tys.first()),
        )
    }
}

/// Everything the class `sc` inherits, given its folded ancestors.
pub open spec fn inherited(sc: ShallowClassView, parents: Map<u64, FoldedClassView>) -> InheritedView {
    fold_ancestors(sc.name.id, parents, ancestor_terms(sc))
}

/// The values of the folded classes in a table, key by key.
pub open spec fn parent_views(parents: Map<u64, Arc<FoldedClass>>) -> Map<u64, FoldedClassView> {
    parents.map_values(|p: Arc<FoldedClass>| p@)
}

} // verus!
