//! What holds of inheritance folding and of interning, whatever the
//! classes and names are.
//!
//! The laws about a list of ancestors speak of the list in declared order:
//! position 0 is the ancestor that the class names first.

use vstd::prelude::*;
use crate::symbol::TypeName;
use crate::allocator::AllocatorView;
use crate::subst::{bind, bound_len, lemma_bind_prefix_lookup};
use crate::decl_defs::{FoldedClassView, FoldedElement, ShallowClassView, SubstContextView, TyTerm};
use crate::model::{
    ancestor_terms, as_override, contribution, displaces_context, fold_ancestors, inherited,
    keeps_old_sig, merge_constructor, InheritedView,
};

verus! {

/// The instance methods of `inh`, or its static methods.
pub open spec fn methods_of(inh: InheritedView, is_static: bool) -> Map<u64, FoldedElement> {
    if is_static {
        inh.static_methods
    } else {
        inh.methods
    }
}

/// The instance properties of `inh`, or its static properties.
pub open spec fn props_of(inh: InheritedView, is_static: bool) -> Map<u64, FoldedElement> {
    if is_static {
        inh.static_props
    } else {
        inh.props
    }
}

/// The entry for the method `m` that the ancestor at position `j`
/// contributes, if it contributes one.
pub open spec fn method_from(
    child: TypeName,
    parents: Map<u64, FoldedClassView>,
    tys: Seq<TyTerm>,
    is_static: bool,
    j: int,
    m: u64,
) -> Option<FoldedElement> {
    methods_of(contribution(child, parents, tys[j]), is_static).get(m)
}

/// The entry for the property `p` that the ancestor at position `j`
/// contributes, if it contributes one.
pub open spec fn prop_from(
    child: TypeName,
    parents: Map<u64, FoldedClassView>,
    tys: Seq<TyTerm>,
    is_static: bool,
    j: int,
    p: u64,
) -> Option<FoldedElement> {
    props_of(contribution(child, parents, tys[j]), is_static).get(p)
}

/// The substitution context for the ancestor `x` that the ancestor at
/// position `j` contributes, if it contributes one.
pub open spec fn context_from(
    child: TypeName,
    parents: Map<u64, FoldedClassView>,
    tys: Seq<TyTerm>,
    j: int,
    x: u64,
) -> Option<SubstContextView> {
    contribution(child, parents, tys[j]).substs.get(x)
}

/// The constructor that the ancestor at position `j` contributes, if it
/// contributes one.
pub open spec fn constructor_from(
    child: TypeName,
    parents: Map<u64, FoldedClassView>,
    tys: Seq<TyTerm>,
    j: int,
) -> Option<FoldedElement> {
    contribution(child, parents, tys[j]).constructor
}

/// The standing of a member among entries for the same name: concrete
/// before abstract, and within each, written out before synthesized.
pub open spec fn rank(sig: FoldedElement) -> int {
    (if sig.is_abstract {
        0int
    } else {
        2int
    }) + (if sig.is_synthesized {
        0int
    } else {
        1int
    })
}

/// An existing entry stands against an incoming one exactly when it
/// outranks it. Of two entries of equal rank the incoming one wins.
pub proof fn lemma_keeps_old_iff_outranks(new_sig: FoldedElement, old_sig: FoldedElement)
    ensures
        keeps_old_sig(new_sig, old_sig) <==> rank(old_sig) > rank(new_sig),
        rank(as_override(new_sig)) == rank(new_sig),
{
}

/// Merging nothing in changes nothing.
pub proof fn lemma_merge_empty(inh: InheritedView)
    ensures
        inh.merge(InheritedView::empty()) == inh,
{
    let merged = inh.merge(InheritedView::empty());
    assert(merged.substs =~= inh.substs);
    assert(merged.props =~= inh.props);
    assert(merged.static_props =~= inh.static_props);
    assert(merged.methods =~= inh.methods);
    assert(merged.static_methods =~= inh.static_methods);
}

/// Merging into nothing yields what came in, untouched: no override flag
/// is cleared where nothing is overridden.
pub proof fn lemma_merge_into_empty(inh: InheritedView)
    ensures
        InheritedView::empty().merge(inh) == inh,
{
    let merged = InheritedView::empty().merge(inh);
    assert(merged.substs =~= inh.substs);
    assert(merged.props =~= inh.props);
    assert(merged.static_props =~= inh.static_props);
    assert(merged.methods =~= inh.methods);
    assert(merged.static_methods =~= inh.static_methods);
}

/// The fold over two ancestors: the second's contribution, then the
/// first's merged in over it.
pub proof fn lemma_fold_two(
    child: TypeName,
    parents: Map<u64, FoldedClassView>,
    first: TyTerm,
    second: TyTerm,
)
    ensures
        fold_ancestors(child, parents, seq![first, second]) == contribution(
            child,
            parents,
            second,
        ).merge(contribution(child, parents, first)),
{
    let tys = seq![first, second];
    let rest = tys.drop_first();
    assert(rest =~= seq![second]);
    assert(rest.drop_first() =~= Seq::<TyTerm>::empty());
    assert(fold_ancestors(child, parents, rest.drop_first()) == InheritedView::empty());
    lemma_merge_into_empty(contribution(child, parents, second));
    assert(fold_ancestors(child, parents, rest) == contribution(child, parents, second));
}

/// A class with no ancestors inherits nothing: all maps empty and no
/// constructor.
pub proof fn lemma_no_ancestors(sc: ShallowClassView, parents: Map<u64, FoldedClassView>)
    requires
        sc.extends.len() == 0,
        sc.implements.len() == 0,
        sc.req_implements.len() == 0,
    ensures
        inherited(sc, parents) == InheritedView::empty(),
{
    assert(ancestor_terms(sc).len() == 0);
}

/// Whether the ancestor type `ty` cannot be resolved: it is not a class
/// type, or the table does not hold its class.
pub open spec fn unresolved(parents: Map<u64, FoldedClassView>, ty: TyTerm) -> bool {
    match ty {
        TyTerm::Apply(name, _) => !parents.contains_key(name.id.key()),
        _ => true,
    }
}

/// An ancestor that resolves contributes its folded class's members as
/// they are: no type is rewritten and no flag is touched.
pub proof fn lemma_contribution_is_verbatim(
    child: TypeName,
    parents: Map<u64, FoldedClassView>,
    ty: TyTerm,
)
    requires
        !unresolved(parents, ty),
    ensures
        ({
            let parent = parents[ty->Apply_0.id.key()];
            let c = contribution(child, parents, ty);
            &&& c.props == parent.props
            &&& c.static_props == parent.static_props
            &&& c.methods == parent.methods
            &&& c.static_methods == parent.static_methods
            &&& c.constructor == parent.constructor
        }),
{
}

/// An ancestor that cannot be resolved contributes nothing, and the class
/// inherits what it would inherit were that ancestor not named at all.
pub proof fn lemma_unresolved_ancestor(
    child: TypeName,
    parents: Map<u64, FoldedClassView>,
    tys: Seq<TyTerm>,
    i: int,
)
    requires
        0 <= i < tys.len(),
        unresolved(parents, tys[i]),
    ensures
        contribution(child, parents, tys[i]) == InheritedView::empty(),
        fold_ancestors(child, parents, tys) == fold_ancestors(child, parents, tys.remove(i)),
    decreases tys.len(),
{
    let rest = tys.drop_first();
    if i == 0 {
        lemma_merge_empty(fold_ancestors(child, parents, rest));
        assert(tys.remove(0) =~= rest);
    } else {
        lemma_unresolved_ancestor(child, parents, rest, i - 1);
        let shorter = tys.remove(i);
        assert(shorter.first() == tys.first());
        assert(shorter.drop_first() =~= rest.remove(i - 1));
    }
}

/// A method name is inherited exactly when some ancestor contributes it,
/// and the inherited entry is then some ancestor's entry, as it is or
/// marked as a genuine override.
pub proof fn lemma_method_sources(
    child: TypeName,
    parents: Map<u64, FoldedClassView>,
    tys: Seq<TyTerm>,
    is_static: bool,
    m: u64,
)
    ensures
        ({
            let got = methods_of(fold_ancestors(child, parents, tys), is_static).get(m);
            &&& got is Some <==> exists|j: int|
                0 <= j < tys.len() && #[trigger] method_from(
                    child,
                    parents,
                    tys,
                    is_static,
                    j,
                    m,
                ) is Some
            &&& got is Some ==> exists|j: int|
                0 <= j < tys.len() && {
                    let from = #[trigger] method_from(child, parents, tys, is_static, j, m);
                    from is Some && (got->0 == from->0 || got->0 == as_override(from->0))
                }
        }),
    decreases tys.len(),
{
    if tys.len() > 0 {
        let rest = tys.drop_first();
        lemma_method_sources(child, parents, rest, is_static, m);
        let got = methods_of(fold_ancestors(child, parents, tys), is_static).get(m);
        let below = methods_of(fold_ancestors(child, parents, rest), is_static).get(m);
        let head = method_from(child, parents, tys, is_static, 0, m);
        assert forall|j: int| 0 <= j < rest.len() implies method_from(
            child,
            parents,
            rest,
            is_static,
            j,
            m,
        ) == #[trigger] method_from(child, parents, tys, is_static, j + 1, m) by {}
        if got is Some {
            if head is Some && (got->0 == head->0 || got->0 == as_override(head->0)) {
            } else {
                assert(below is Some && got == below);
                let j = choose|j: int|
                    0 <= j < rest.len() && {
                        let from = #[trigger] method_from(child, parents, rest, is_static, j, m);
                        from is Some && (below->0 == from->0 || below->0 == as_override(from->0))
                    };
                assert(method_from(child, parents, tys, is_static, j + 1, m) is Some);
            }
        }
        if exists|j: int|
            0 <= j < tys.len() && #[trigger] method_from(
                child,
                parents,
                tys,
                is_static,
                j,
                m,
            ) is Some {
            let j = choose|j: int|
                0 <= j < tys.len() && #[trigger] method_from(
                    child,
                    parents,
                    tys,
                    is_static,
                    j,
                    m,
                ) is Some;
            if j > 0 {
                assert(method_from(child, parents, rest, is_static, j - 1, m) == method_from(
                    child,
                    parents,
                    tys,
                    is_static,
                    j,
                    m,
                ));
            }
        }
    }
}

/// Which ancestor's method is inherited: that of the first declared among
/// the ancestors whose entry has the highest rank. Let the ancestor at
/// position `i` contribute the method `m`, let its entry outrank the entry
/// of every contributing ancestor declared before it, and let no entry of
/// a contributing ancestor declared after it outrank its own. Then the
/// class inherits the entry of the ancestor at `i`: as it is where no
/// ancestor declared after it contributes `m`, and marked as a genuine
/// override where one does.
pub proof fn lemma_method_winner(
    child: TypeName,
    parents: Map<u64, FoldedClassView>,
    tys: Seq<TyTerm>,
    is_static: bool,
    i: int,
    m: u64,
)
    requires
        0 <= i < tys.len(),
        method_from(child, parents, tys, is_static, i, m) is Some,
        forall|j: int|
            0 <= j < i && (#[trigger] method_from(child, parents, tys, is_static, j, m)) is Some
                ==> rank(method_from(child, parents, tys, is_static, j, m)->0) < rank(
                method_from(child, parents, tys, is_static, i, m)->0,
            ),
        forall|j: int|
            i < j < tys.len() && (#[trigger] method_from(
                child,
                parents,
                tys,
                is_static,
                j,
                m,
            )) is Some ==> rank(method_from(child, parents, tys, is_static, j, m)->0) <= rank(
                method_from(child, parents, tys, is_static, i, m)->0,
            ),
    ensures
        methods_of(fold_ancestors(child, parents, tys), is_static).get(m) == Some(
            if exists|j: int|
                i < j < tys.len() && #[trigger] method_from(
                    child,
                    parents,
                    tys,
                    is_static,
                    j,
                    m,
                ) is Some {
                as_override(method_from(child, parents, tys, is_static, i, m)->0)
            } else {
                method_from(child, parents, tys, is_static, i, m)->0
            },
        ),
    decreases tys.len(),
{
    let rest = tys.drop_first();
    let mine = method_from(child, parents, tys, is_static, i, m)->0;
    let below = methods_of(fold_ancestors(child, parents, rest), is_static).get(m);
    assert forall|j: int| 0 <= j < rest.len() implies method_from(
        child,
        parents,
        rest,
        is_static,
        j,
        m,
    ) == #[trigger] method_from(child, parents, tys, is_static, j + 1, m) by {}
    if i == 0 {
        lemma_method_sources(child, parents, rest, is_static, m);
        if below is Some {
            let j = choose|j: int|
                0 <= j < rest.len() && {
                    let from = #[trigger] method_from(child, parents, rest, is_static, j, m);
                    from is Some && (below->0 == from->0 || below->0 == as_override(from->0))
                };
            assert(method_from(child, parents, tys, is_static, j + 1, m) is Some);
            assert(!keeps_old_sig(mine, below->0));
        } else {
            if exists|j: int|
                0 < j < tys.len() && #[trigger] method_from(
                    child,
                    parents,
                    tys,
                    is_static,
                    j,
                    m,
                ) is Some {
                let j = choose|j: int|
                    0 < j < tys.len() && #[trigger] method_from(
                        child,
                        parents,
                        tys,
                        is_static,
                        j,
                        m,
                    ) is Some;
                assert(method_from(child, parents, rest, is_static, j - 1, m) is Some);
            }
        }
    } else {
        assert(method_from(child, parents, rest, is_static, i - 1, m) == Some(mine));
        assert forall|j: int|
            0 <= j < i - 1 && (#[trigger] method_from(
                child,
                parents,
                rest,
                is_static,
                j,
                m,
            )) is Some implies rank(method_from(child, parents, rest, is_static, j, m)->0) < rank(
            mine,
        ) by {
            assert(method_from(child, parents, tys, is_static, j + 1, m) is Some);
        }
        assert forall|j: int|
            i - 1 < j < rest.len() && (#[trigger] method_from(
                child,
                parents,
                rest,
                is_static,
                j,
                m,
            )) is Some implies rank(method_from(child, parents, rest, is_static, j, m)->0) <= rank(
            mine,
        ) by {
            assert(method_from(child, parents, tys, is_static, j + 1, m) is Some);
        }
        lemma_method_winner(child, parents, rest, is_static, i - 1, m);
        let later_rest = exists|j: int|
            i - 1 < j < rest.len() && #[trigger] method_from(
                child,
                parents,
                rest,
                is_static,
                j,
                m,
            ) is Some;
        let later = exists|j: int|
            i < j < tys.len() && #[trigger] method_from(
                child,
                parents,
                tys,
                is_static,
                j,
                m,
            ) is Some;
        if later_rest {
            let j = choose|j: int|
                i - 1 < j < rest.len() && #[trigger] method_from(
                    child,
                    parents,
                    rest,
                    is_static,
                    j,
                    m,
                ) is Some;
            assert(method_from(child, parents, tys, is_static, j + 1, m) is Some);
        }
        if later {
            let j = choose|j: int|
                i < j < tys.len() && #[trigger] method_from(
                    child,
                    parents,
                    tys,
                    is_static,
                    j,
                    m,
                ) is Some;
            assert(method_from(child, parents, rest, is_static, j - 1, m) is Some);
        }
        assert(later == later_rest);
        let head = method_from(child, parents, tys, is_static, 0, m);
        if head is Some {
            assert(keeps_old_sig(head->0, mine));
        }
    }
}

/// Where exactly one ancestor in the list contributes the method `m`, the
/// class inherits that ancestor's entry unchanged, its override flag
/// included: the flag is cleared only where an entry displaces another.
pub proof fn lemma_sole_method_source(
    child: TypeName,
    parents: Map<u64, FoldedClassView>,
    tys: Seq<TyTerm>,
    is_static: bool,
    i: int,
    m: u64,
)
    requires
        0 <= i < tys.len(),
        method_from(child, parents, tys, is_static, i, m) is Some,
        forall|j: int|
            0 <= j < tys.len() && j != i ==> (#[trigger] method_from(
                child,
                parents,
                tys,
                is_static,
                j,
                m,
            )) is None,
    ensures
        methods_of(fold_ancestors(child, parents, tys), is_static).get(m) == method_from(
            child,
            parents,
            tys,
            is_static,
            i,
            m,
        ),
{
    lemma_method_winner(child, parents, tys, is_static, i, m);
}

/// Of two ancestors that both contribute the method `m`, one abstract and
/// one concrete, the class inherits the concrete one, in whichever order
/// the two are declared. Where the concrete entry comes in second it
/// displaces the abstract one and is marked as a genuine override.
pub proof fn lemma_concrete_beats_abstract(
    child: TypeName,
    parents: Map<u64, FoldedClassView>,
    a: TyTerm,
    b: TyTerm,
    is_static: bool,
    m: u64,
)
    requires
        methods_of(contribution(child, parents, a), is_static).contains_key(m),
        methods_of(contribution(child, parents, b), is_static).contains_key(m),
        methods_of(contribution(child, parents, a), is_static)[m].is_abstract,
        !methods_of(contribution(child, parents, b), is_static)[m].is_abstract,
    ensures
        methods_of(fold_ancestors(child, parents, seq![a, b]), is_static)[m] == methods_of(
            contribution(child, parents, b),
            is_static,
        )[m],
        methods_of(fold_ancestors(child, parents, seq![b, a]), is_static)[m] == as_override(
            methods_of(contribution(child, parents, b), is_static)[m],
        ),
{
    lemma_fold_two(child, parents, a, b);
    lemma_fold_two(child, parents, b, a);
}

/// Of two ancestors that both contribute the method `m`, both abstract or
/// both concrete, one written out and one synthesized, the class inherits
/// the one written out, in whichever order the two are declared. Where the
/// written-out entry comes in second it displaces the synthesized one and
/// is marked as a genuine override.
pub proof fn lemma_written_beats_synthesized(
    child: TypeName,
    parents: Map<u64, FoldedClassView>,
    a: TyTerm,
    b: TyTerm,
    is_static: bool,
    m: u64,
)
    requires
        methods_of(contribution(child, parents, a), is_static).contains_key(m),
        methods_of(contribution(child, parents, b), is_static).contains_key(m),
        methods_of(contribution(child, parents, a), is_static)[m].is_abstract == methods_of(
            contribution(child, parents, b),
            is_static,
        )[m].is_abstract,
        !methods_of(contribution(child, parents, a), is_static)[m].is_synthesized,
        methods_of(contribution(child, parents, b), is_static)[m].is_synthesized,
    ensures
        methods_of(fold_ancestors(child, parents, seq![a, b]), is_static)[m] == as_override(
            methods_of(contribution(child, parents, a), is_static)[m],
        ),
        methods_of(fold_ancestors(child, parents, seq![b, a]), is_static)[m] == methods_of(
            contribution(child, parents, a),
            is_static,
        )[m],
{
    lemma_fold_two(child, parents, a, b);
    lemma_fold_two(child, parents, b, a);
}

/// A substitution context for the ancestor `x` is inherited exactly when
/// some ancestor in the list contributes one, and it is then one of the
/// contributed contexts, unchanged.
pub proof fn lemma_context_sources(
    child: TypeName,
    parents: Map<u64, FoldedClassView>,
    tys: Seq<TyTerm>,
    x: u64,
)
    ensures
        ({
            let got = fold_ancestors(child, parents, tys).substs.get(x);
            &&& got is Some <==> exists|j: int|
                0 <= j < tys.len() && #[trigger] context_from(child, parents, tys, j, x) is Some
            &&& got is Some ==> exists|j: int|
                0 <= j < tys.len() && #[trigger] context_from(child, parents, tys, j, x) == got
        }),
    decreases tys.len(),
{
    if tys.len() > 0 {
        let rest = tys.drop_first();
        lemma_context_sources(child, parents, rest, x);
        let got = fold_ancestors(child, parents, tys).substs.get(x);
        let below = fold_ancestors(child, parents, rest).substs.get(x);
        let head = context_from(child, parents, tys, 0, x);
        assert forall|j: int| 0 <= j < rest.len() implies context_from(child, parents, rest, j, x)
            == #[trigger] context_from(child, parents, tys, j + 1, x) by {}
        if got is Some {
            if head == got {
            } else {
                assert(below == got);
                let j = choose|j: int|
                    0 <= j < rest.len() && #[trigger] context_from(child, parents, rest, j, x)
                        == below;
                assert(context_from(child, parents, tys, j + 1, x) == got);
            }
        }
        if exists|j: int|
            0 <= j < tys.len() && #[trigger] context_from(child, parents, tys, j, x) is Some {
            let j = choose|j: int|
                0 <= j < tys.len() && #[trigger] context_from(child, parents, tys, j, x) is Some;
            if j > 0 {
                assert(context_from(child, parents, rest, j - 1, x) == context_from(
                    child,
                    parents,
                    tys,
                    j,
                    x,
                ));
            }
        }
    }
}

/// Which ancestor's substitution context is inherited: that of the last
/// declared among the ancestors with a genuine context, or, where every
/// context comes from a requirement, that of the last declared. Let the
/// ancestor at position `i` contribute a context for `x`, let that context
/// displace the context of every contributing ancestor declared after it,
/// and let no context of a contributing ancestor declared before it
/// displace it. Then the class inherits the context of the ancestor at
/// `i`, unchanged.
pub proof fn lemma_context_winner(
    child: TypeName,
    parents: Map<u64, FoldedClassView>,
    tys: Seq<TyTerm>,
    i: int,
    x: u64,
)
    requires
        0 <= i < tys.len(),
        context_from(child, parents, tys, i, x) is Some,
        forall|j: int|
            i < j < tys.len() && (#[trigger] context_from(child, parents, tys, j, x)) is Some
                ==> displaces_context(
                context_from(child, parents, tys, j, x)->0,
                context_from(child, parents, tys, i, x)->0,
            ),
        forall|j: int|
            0 <= j < i && (#[trigger] context_from(child, parents, tys, j, x)) is Some
                ==> !displaces_context(
                context_from(child, parents, tys, i, x)->0,
                context_from(child, parents, tys, j, x)->0,
            ),
    ensures
        fold_ancestors(child, parents, tys).substs.get(x) == context_from(
            child,
            parents,
            tys,
            i,
            x,
        ),
    decreases tys.len(),
{
    let rest = tys.drop_first();
    let mine = context_from(child, parents, tys, i, x)->0;
    let below = fold_ancestors(child, parents, rest).substs.get(x);
    assert forall|j: int| 0 <= j < rest.len() implies context_from(child, parents, rest, j, x)
        == #[trigger] context_from(child, parents, tys, j + 1, x) by {}
    if i == 0 {
        lemma_context_sources(child, parents, rest, x);
        if below is Some {
            let j = choose|j: int|
                0 <= j < rest.len() && #[trigger] context_from(child, parents, rest, j, x)
                    == below;
            assert(context_from(child, parents, tys, j + 1, x) == below);
            assert(displaces_context(below->0, mine));
        }
    } else {
        assert(context_from(child, parents, rest, i - 1, x) == Some(mine));
        assert forall|j: int|
            i - 1 < j < rest.len() && (#[trigger] context_from(
                child,
                parents,
                rest,
                j,
                x,
            )) is Some implies displaces_context(
            context_from(child, parents, rest, j, x)->0,
            mine,
        ) by {
            assert(context_from(child, parents, tys, j + 1, x) is Some);
        }
        assert forall|j: int|
            0 <= j < i - 1 && (#[trigger] context_from(
                child,
                parents,
                rest,
                j,
                x,
            )) is Some implies !displaces_context(
            mine,
            context_from(child, parents, rest, j, x)->0,
        ) by {
            assert(context_from(child, parents, tys, j + 1, x) is Some);
        }
        lemma_context_winner(child, parents, rest, i - 1, x);
        let head = context_from(child, parents, tys, 0, x);
        if head is Some {
            assert(!displaces_context(mine, head->0));
        }
    }
}

/// Where two ancestors both carry a substitution context for the ancestor
/// `x`, one from a genuine relationship and one from a "require extends"
/// constraint, the class keeps the genuine one, in whichever order the
/// two are declared.
pub proof fn lemma_genuine_context_wins(
    child: TypeName,
    parents: Map<u64, FoldedClassView>,
    a: TyTerm,
    b: TyTerm,
    x: u64,
)
    requires
        contribution(child, parents, a).substs.contains_key(x),
        contribution(child, parents, b).substs.contains_key(x),
        contribution(child, parents, a).substs[x].from_req_extends,
        !contribution(child, parents, b).substs[x].from_req_extends,
    ensures
        fold_ancestors(child, parents, seq![a, b]).substs[x] == contribution(
            child,
            parents,
            b,
        ).substs[x],
        fold_ancestors(child, parents, seq![b, a]).substs[x] == contribution(
            child,
            parents,
            b,
        ).substs[x],
        !fold_ancestors(child, parents, seq![a, b]).substs[x].from_req_extends,
        !fold_ancestors(child, parents, seq![b, a]).substs[x].from_req_extends,
{
    lemma_fold_two(child, parents, a, b);
    lemma_fold_two(child, parents, b, a);
}

/// A property is inherited exactly when some ancestor declares it, and it
/// is inherited from the first ancestor in the list that declares it:
/// abstractness and synthesis play no part, and no flag is touched.
pub proof fn lemma_first_declared_property(
    child: TypeName,
    parents: Map<u64, FoldedClassView>,
    tys: Seq<TyTerm>,
    is_static: bool,
    p: u64,
)
    ensures
        ({
            let got = props_of(fold_ancestors(child, parents, tys), is_static).get(p);
            &&& got is None <==> forall|j: int|
                0 <= j < tys.len() ==> (#[trigger] prop_from(
                    child,
                    parents,
                    tys,
                    is_static,
                    j,
                    p,
                )) is None
            &&& forall|i: int|
                0 <= i < tys.len() && (#[trigger] prop_from(child, parents, tys, is_static, i, p))
                    is Some && (forall|j: int|
                    0 <= j < i ==> (#[trigger] prop_from(child, parents, tys, is_static, j, p))
                        is None) ==> got == prop_from(child, parents, tys, is_static, i, p)
        }),
    decreases tys.len(),
{
    if tys.len() > 0 {
        let rest = tys.drop_first();
        lemma_first_declared_property(child, parents, rest, is_static, p);
        let got = props_of(fold_ancestors(child, parents, tys), is_static).get(p);
        let below = props_of(fold_ancestors(child, parents, rest), is_static).get(p);
        let head = prop_from(child, parents, tys, is_static, 0, p);
        assert forall|j: int| 0 <= j < rest.len() implies prop_from(
            child,
            parents,
            rest,
            is_static,
            j,
            p,
        ) == #[trigger] prop_from(child, parents, tys, is_static, j + 1, p) by {}
        assert(got == if head is Some {
            head
        } else {
            below
        });
        if got is None {
            assert forall|j: int| 0 <= j < tys.len() implies (#[trigger] prop_from(
                child,
                parents,
                tys,
                is_static,
                j,
                p,
            )) is None by {
                if j > 0 {
                    assert(prop_from(child, parents, rest, is_static, j - 1, p) is None);
                }
            }
        } else if head is None {
            assert(!(forall|j: int|
                0 <= j < rest.len() ==> (#[trigger] prop_from(
                    child,
                    parents,
                    rest,
                    is_static,
                    j,
                    p,
                )) is None));
            let j = choose|j: int|
                0 <= j < rest.len() && !((#[trigger] prop_from(
                    child,
                    parents,
                    rest,
                    is_static,
                    j,
                    p,
                )) is None);
            assert(prop_from(child, parents, tys, is_static, j + 1, p) is Some);
        }
        assert forall|i: int|
            0 <= i < tys.len() && (#[trigger] prop_from(child, parents, tys, is_static, i, p))
                is Some && (forall|j: int|
                0 <= j < i ==> (#[trigger] prop_from(child, parents, tys, is_static, j, p))
                    is None) implies got == prop_from(child, parents, tys, is_static, i, p) by {
            if i > 0 {
                assert(prop_from(child, parents, tys, is_static, 0, p) is None);
                assert(prop_from(child, parents, rest, is_static, i - 1, p) is Some);
                assert forall|j: int| 0 <= j < i - 1 implies (#[trigger] prop_from(
                    child,
                    parents,
                    rest,
                    is_static,
                    j,
                    p,
                )) is None by {
                    assert(prop_from(child, parents, tys, is_static, j + 1, p) is None);
                }
            }
        }
    }
}

/// A constructor is inherited exactly when some ancestor contributes one,
/// and it is then one of the contributed constructors, unchanged.
pub proof fn lemma_constructor_sources(
    child: TypeName,
    parents: Map<u64, FoldedClassView>,
    tys: Seq<TyTerm>,
)
    ensures
        ({
            let got = fold_ancestors(child, parents, tys).constructor;
            &&& got is Some <==> exists|j: int|
                0 <= j < tys.len() && #[trigger] constructor_from(child, parents, tys, j) is Some
            &&& got is Some ==> exists|j: int|
                0 <= j < tys.len() && #[trigger] constructor_from(child, parents, tys, j) == got
        }),
    decreases tys.len(),
{
    if tys.len() > 0 {
        let rest = tys.drop_first();
        lemma_constructor_sources(child, parents, rest);
        let got = fold_ancestors(child, parents, tys).constructor;
        let below = fold_ancestors(child, parents, rest).constructor;
        let head = constructor_from(child, parents, tys, 0);
        assert forall|j: int| 0 <= j < rest.len() implies constructor_from(child, parents, rest, j)
            == #[trigger] constructor_from(child, parents, tys, j + 1) by {}
        if got is Some {
            if head == got {
            } else {
                assert(below == got);
                let j = choose|j: int|
                    0 <= j < rest.len() && #[trigger] constructor_from(child, parents, rest, j)
                        == below;
                assert(constructor_from(child, parents, tys, j + 1) == got);
            }
        }
        if exists|j: int|
            0 <= j < tys.len() && #[trigger] constructor_from(child, parents, tys, j) is Some {
            let j = choose|j: int|
                0 <= j < tys.len() && #[trigger] constructor_from(child, parents, tys, j) is Some;
            if j > 0 {
                assert(constructor_from(child, parents, rest, j - 1) == constructor_from(
                    child,
                    parents,
                    tys,
                    j,
                ));
            }
        }
    }
}

/// Which ancestor's constructor is inherited: that of the first declared
/// among the ancestors whose constructor has the highest rank. Let the
/// ancestor at position `i` contribute a constructor, let it outrank the
/// constructor of every contributing ancestor declared before it, and let
/// no constructor of a contributing ancestor declared after it outrank its
/// own. Then the class inherits the constructor of the ancestor at `i`,
/// unchanged.
pub proof fn lemma_constructor_winner(
    child: TypeName,
    parents: Map<u64, FoldedClassView>,
    tys: Seq<TyTerm>,
    i: int,
)
    requires
        0 <= i < tys.len(),
        constructor_from(child, parents, tys, i) is Some,
        forall|j: int|
            0 <= j < i && (#[trigger] constructor_from(child, parents, tys, j)) is Some ==> rank(
                constructor_from(child, parents, tys, j)->0,
            ) < rank(constructor_from(child, parents, tys, i)->0),
        forall|j: int|
            i < j < tys.len() && (#[trigger] constructor_from(child, parents, tys, j)) is Some
                ==> rank(constructor_from(child, parents, tys, j)->0) <= rank(
                constructor_from(child, parents, tys, i)->0,
            ),
    ensures
        fold_ancestors(child, parents, tys).constructor == constructor_from(
            child,
            parents,
            tys,
            i,
        ),
    decreases tys.len(),
{
    let rest = tys.drop_first();
    let mine = constructor_from(child, parents, tys, i)->0;
    let below = fold_ancestors(child, parents, rest).constructor;
    assert forall|j: int| 0 <= j < rest.len() implies constructor_from(child, parents, rest, j)
        == #[trigger] constructor_from(child, parents, tys, j + 1) by {}
    if i == 0 {
        lemma_constructor_sources(child, parents, rest);
        if below is Some {
            let j = choose|j: int|
                0 <= j < rest.len() && #[trigger] constructor_from(child, parents, rest, j)
                    == below;
            assert(constructor_from(child, parents, tys, j + 1) == below);
            assert(!keeps_old_sig(mine, below->0));
        }
    } else {
        assert(constructor_from(child, parents, rest, i - 1) == Some(mine));
        assert forall|j: int|
            0 <= j < i - 1 && (#[trigger] constructor_from(
                child,
                parents,
                rest,
                j,
            )) is Some implies rank(constructor_from(child, parents, rest, j)->0) < rank(mine) by {
            assert(constructor_from(child, parents, tys, j + 1) is Some);
        }
        assert forall|j: int|
            i - 1 < j < rest.len() && (#[trigger] constructor_from(
                child,
                parents,
                rest,
                j,
            )) is Some implies rank(constructor_from(child, parents, rest, j)->0) <= rank(
            mine,
        ) by {
            assert(constructor_from(child, parents, tys, j + 1) is Some);
        }
        lemma_constructor_winner(child, parents, rest, i - 1);
        let head = constructor_from(child, parents, tys, 0);
        if head is Some {
            assert(keeps_old_sig(head->0, mine));
        }
    }
}

/// What a substitution binds. A parameter is bound exactly when it stands
/// at a position that also has an argument, and it is bound to the
/// argument at the last such position.
pub proof fn lemma_bind_lookup(tparams: Seq<TypeName>, targs: Seq<TyTerm>, k: u64)
    ensures
        bind(tparams, targs).contains_key(k) <==> exists|i: int|
            0 <= i < bound_len(tparams, targs) && #[trigger] tparams[i].key() == k,
        forall|i: int|
            0 <= i < bound_len(tparams, targs) && #[trigger] tparams[i].key() == k && (forall|
                j: int,
            |
                i < j < bound_len(tparams, targs) ==> #[trigger] tparams[j].key() != k) ==> bind(
                tparams,
                targs,
            )[k] == targs[i],
{
    lemma_bind_prefix_lookup(tparams, targs, bound_len(tparams, targs), k);
}

/// An incoming absence of a constructor leaves the existing constructor,
/// or its absence, as it is.
pub proof fn lemma_absent_constructor_changes_nothing(ours: Option<FoldedElement>)
    ensures
        merge_constructor(ours, None) == ours,
{
}

/// An incoming constructor takes a free slot, and displaces an existing
/// constructor exactly when that one does not stand against it.
pub proof fn lemma_incoming_constructor(ours: Option<FoldedElement>, theirs: FoldedElement)
    ensures
        merge_constructor(ours, Some(theirs)) == if ours is Some && keeps_old_sig(
            theirs,
            ours->0,
        ) {
            ours
        } else {
            Some(theirs)
        },
{
}

/// Interning a name a second time gives the same symbol and changes
/// nothing, as long as the table had room for the name.
pub proof fn lemma_intern_twice(a: AllocatorView, name: Seq<char>)
    requires
        a.wf(),
        a.names.len() < usize::MAX,
    ensures
        a.intern(name).wf(),
        a.intern(name).symbol_of(name) == a.symbol_of(name),
        a.intern(name).intern(name) == a.intern(name),
        a.intern(name).names[a.symbol_of(name).key() as int] == name,
{
    let after = a.intern(name);
    if a.names.contains(name) {
        a.names.index_of_first_ensures(name);
    } else {
        assert(after.names[a.names.len() as int] == name);
        assert(after.names.contains(name));
    }
}

/// Interning another name leaves every symbol given out before as it
/// was.
pub proof fn lemma_intern_keeps_symbols(a: AllocatorView, known: Seq<char>, name: Seq<char>)
    requires
        a.wf(),
        a.names.contains(known),
    ensures
        a.intern(name).symbol_of(known) == a.symbol_of(known),
{
    let after = a.intern(name);
    let i = a.names.index_of(known);
    assert(after.names[i] == known);
    assert(after.names.contains(known));
    let j = after.names.index_of(known);
    assert(after.names[j] == known);
}

/// Two interned names have the same symbol only if they are the same
/// name.
pub proof fn lemma_symbols_distinguish_names(a: AllocatorView, x: Seq<char>, y: Seq<char>)
    requires
        a.wf(),
        a.names.contains(x),
        a.names.contains(y),
    ensures
        a.symbol_of(x) == a.symbol_of(y) <==> x == y,
{
    let i = a.names.index_of(x);
    let j = a.names.index_of(y);
    assert(a.names[i] == x);
    assert(a.names[j] == y);
}

} // verus!
