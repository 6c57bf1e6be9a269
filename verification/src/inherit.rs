//! What a class inherits from its ancestors: the accumulator that the
//! contributions are merged into, and the resolver that selects the
//! ancestors by the kind of the class.

use vstd::prelude::*;
use vstd::std_specs::hash::spec_hash_map_iter;
use vstd::std_specs::iter::IteratorSpec;
use std::collections::HashMap;
use std::collections::hash_map::Entry;
use std::sync::Arc;
use crate::symbol::{Symbol, SymbolMap, TypeName, TypeNameMap};
use crate::decl_defs::{
    context_views, subst_terms, terms_of, Abstraction, ClassishKind, DeclTy, FoldedClass,
    FoldedElement, ShallowClass, SubstContext, SubstContextView, TyTerm,
};
use crate::model::{
    ancestor_terms, contribution, fold_ancestors, inherited, instantiate, keeps_old_sig,
    merge_constructor, merge_method, merge_methods, merge_props, merge_substs, parent_views,
    InheritedView,
};
use crate::subst::{bind, Subst};
use crate::traversal::{lemma_visited_all, lemma_visited_none, lemma_visited_step, visited};

verus! {

/// The values of a list of borrowed types, in order.
pub open spec fn ref_terms(tys: Seq<&DeclTy>) -> Seq<TyTerm> {
    Seq::new(tys.len(), |i: int| tys[i]@)
}

/// Appends a reference to each element of `more` to `tys`, in order.
fn extend_refs<'a>(tys: &mut Vec<&'a DeclTy>, more: &'a Vec<DeclTy>)
    ensures
        ref_terms(final(tys)@) == ref_terms(old(tys)@) + terms_of(more@),
{
    let ghost start = tys@;
    let mut i: usize = 0;
    assert(ref_terms(tys@) =~= ref_terms(start) + terms_of(more@.subrange(0, 0)));
    while i < more.len()
        invariant
            i <= more.len(),
            ref_terms(tys@) == ref_terms(start) + terms_of(more@.subrange(0, i as int)),
        decreases more.len() - i,
    {
        let ghost held = tys@;
        tys.push(&more[i]);
        assert(ref_terms(tys@) =~= ref_terms(held) + seq![more@[i as int]@]);
        assert(terms_of(more@.subrange(0, i + 1)) =~= terms_of(more@.subrange(0, i as int))
            + seq![more@[i as int]@]);
        i += 1;
    }
    assert(more@.subrange(0, more.len() as int) =~= more@);
}

/// Merges every entry of `other` into `methods`, one
/// [`Inherited::add_method`] at a time.
fn add_each_method(methods: &mut SymbolMap<FoldedElement>, other: &SymbolMap<FoldedElement>)
    ensures
        final(methods)@ == merge_methods(old(methods)@, other@),
{
    let ghost before = methods@;
    proof {
        lemma_visited_none(other@, spec_hash_map_iter(other).remaining());
        assert(methods@ =~= merge_methods(before, Map::empty()));
    }
    for entry in it: other.iter()
        invariant
            it.seq() == spec_hash_map_iter(other).remaining(),
            it.seq().no_duplicates(),
            methods@ == merge_methods(before, visited(other@, it.seq(), it.index() as int)),
    {
        let (key, fe) = entry;
        proof {
            lemma_visited_step(other, it.seq(), it.index() as int);
        }
        let ghost covered = visited(other@, it.seq(), it.index() as int);
        Inherited::add_method(methods, (Symbol(*key), *fe));
        assert(methods@ =~= merge_methods(before, covered.insert(*key, *fe)));
    }
    proof {
        lemma_visited_all(other, spec_hash_map_iter(other).remaining());
    }
}

/// Inserts every entry of `other` into `props`; on a shared name the
/// entry of `other` replaces the one that was there.
fn extend_props(props: &mut SymbolMap<FoldedElement>, other: &SymbolMap<FoldedElement>)
    ensures
        final(props)@ == merge_props(old(props)@, other@),
{
    let ghost before = props@;
    proof {
        lemma_visited_none(other@, spec_hash_map_iter(other).remaining());
        assert(props@ =~= merge_props(before, Map::empty()));
    }
    for entry in it: other.iter()
        invariant
            it.seq() == spec_hash_map_iter(other).remaining(),
            it.seq().no_duplicates(),
            props@ == merge_props(before, visited(other@, it.seq(), it.index() as int)),
    {
        let (key, fe) = entry;
        proof {
            lemma_visited_step(other, it.seq(), it.index() as int);
        }
        let ghost covered = visited(other@, it.seq(), it.index() as int);
        props.insert(*key, *fe);
        assert(props@ =~= merge_props(before, covered.insert(*key, *fe)));
    }
    proof {
        lemma_visited_all(other, spec_hash_map_iter(other).remaining());
    }
}

/// One step of merging substitution contexts: with `held` the contexts
/// after the entries `covered` have come in over `before`, and `now` what
/// the entry for `k` has made of `held`, `now` is what `covered` with that
/// entry makes of `before`.
proof fn lemma_context_step(
    before: Map<u64, SubstContextView>,
    covered: Map<u64, SubstContext>,
    held: Map<u64, SubstContext>,
    now: Map<u64, SubstContext>,
    k: u64,
    sc: SubstContext,
    fresh: SubstContext,
)
    requires
        context_views(held) == merge_substs(before, context_views(covered)),
        !covered.contains_key(k),
        fresh@ == sc@,
        now == if !held.contains_key(k) || (held[k].from_req_extends && !sc.from_req_extends) {
            held.insert(k, fresh)
        } else {
            held
        },
    ensures
        context_views(now) == merge_substs(before, context_views(covered.insert(k, sc))),
{
    let target = merge_substs(before, context_views(covered.insert(k, sc)));
    let prior = merge_substs(before, context_views(covered));
    assert forall|x: u64| context_views(now).contains_key(x) <==> target.contains_key(x) by {
        assert(context_views(held).contains_key(x) == held.contains_key(x));
        assert(prior.contains_key(x) == (before.contains_key(x) || covered.contains_key(x)));
    }
    assert forall|x: u64| context_views(now).contains_key(x) implies context_views(now)[x]
        == target[x] by {
        assert(context_views(held).contains_key(x) == held.contains_key(x));
        assert(prior.contains_key(x) == (before.contains_key(x) || covered.contains_key(x)));
        if held.contains_key(x) {
            assert(context_views(held)[x] == held[x]@);
            assert(prior[x] == context_views(held)[x]);
        }
    }
    assert(context_views(now) =~= target);
}

/// The members and substitution contexts gathered for one class while its
/// ancestors are folded in.
#[derive(Debug, PartialEq, Eq)]
pub struct Inherited {
    /// By ancestor name: how that ancestor is instantiated.
    pub substs: TypeNameMap<SubstContext>,
    pub props: SymbolMap<FoldedElement>,
    pub static_props: SymbolMap<FoldedElement>,
    pub methods: SymbolMap<FoldedElement>,
    pub static_methods: SymbolMap<FoldedElement>,
    pub constructor: Option<FoldedElement>,
}

impl View for Inherited {
    type V = InheritedView;

    open spec fn view(&self) -> InheritedView {
        InheritedView {
            substs: context_views(self.substs@),
            props: self.props@,
            static_props: self.static_props@,
            methods: self.methods@,
            static_methods: self.static_methods@,
            constructor: self.constructor,
        }
    }
}

impl Default for Inherited {
    fn default() -> (inh: Self)
        ensures
            inh@ == InheritedView::empty(),
    {
        let inh = Inherited {
            substs: HashMap::new(),
            props: HashMap::new(),
            static_props: HashMap::new(),
            methods: HashMap::new(),
            static_methods: HashMap::new(),
            constructor: None,
        };
        assert(inh@.substs =~= Map::empty());
        inh
    }
}

impl Inherited {
    /// Whether `old_sig` stands against the incoming `new_sig`.
    pub fn should_keep_old_sig(new_sig: &FoldedElement, old_sig: &FoldedElement) -> (keep: bool)
        ensures
            keep == keeps_old_sig(*new_sig, *old_sig),
    {
        (!old_sig.is_abstract() && new_sig.is_abstract()) || (old_sig.is_abstract()
            == new_sig.is_abstract() && !old_sig.is_synthesized() && new_sig.is_synthesized())
    }

    /// Merges an incoming constructor into this one's. An incoming
    /// absence changes nothing.
    pub fn add_constructor(&mut self, constructor: Option<FoldedElement>)
        ensures
            final(self)@ == (InheritedView {
                constructor: merge_constructor(old(self)@.constructor, constructor),
                ..old(self)@
            }),
            constructor is None ==> final(self)@ == old(self)@,
    {
        match constructor {
            None => {},
            Some(other_ctor) => {
                let keep = match &self.constructor {
                    Some(self_ctor) => Self::should_keep_old_sig(&other_ctor, self_ctor),
                    None => false,
                };
                if !keep {
                    self.constructor = constructor;
                }
            },
        }
    }

    /// Merges one incoming method into `methods`. Where the name was
    /// free the entry goes in as it is; its override flag is cleared only
    /// where it displaces an entry.
    pub fn add_method(methods: &mut SymbolMap<FoldedElement>, entry: (Symbol, FoldedElement))
        ensures
            final(methods)@ == old(methods)@.insert(
                entry.0.key(),
                merge_method(old(methods)@.get(entry.0.key()), entry.1),
            ),
            !old(methods)@.contains_key(entry.0.key()) ==> final(methods)@[entry.0.key()]
                == entry.1,
    {
        let (key, mut fe) = entry;
        match methods.entry(key.id()) {
            Entry::Vacant(slot) => {
                slot.insert(fe);
            },
            Entry::Occupied(mut slot) => {
                if !Self::should_keep_old_sig(&fe, slot.get()) {
                    fe.set_is_superfluous_override(false);
                    std::mem::swap(slot.get_mut(), &mut fe);
                } else {
                    assert(old(methods)@.insert(key.key(), old(methods)@[key.key()]) =~= old(methods)@);
                }
            },
        }
    }

    /// Merges incoming methods into this one's.
    pub fn add_methods(&mut self, other_methods: SymbolMap<FoldedElement>)
        ensures
            final(self)@ == (InheritedView {
                methods: merge_methods(old(self)@.methods, other_methods@),
                ..old(self)@
            }),
    {
        add_each_method(&mut self.methods, &other_methods);
    }

    /// Merges incoming static methods into this one's.
    pub fn add_static_methods(&mut self, other_static_methods: SymbolMap<FoldedElement>)
        ensures
            final(self)@ == (InheritedView {
                static_methods: merge_methods(old(self)@.static_methods, other_static_methods@),
                ..old(self)@
            }),
    {
        add_each_method(&mut self.static_methods, &other_static_methods);
    }

    /// Merges incoming properties into this one's.
    pub fn add_props(&mut self, other_props: SymbolMap<FoldedElement>)
        ensures
            final(self)@ == (InheritedView {
                props: merge_props(old(self)@.props, other_props@),
                ..old(self)@
            }),
    {
        extend_props(&mut self.props, &other_props);
    }

    /// Merges incoming static properties into this one's.
    pub fn add_static_props(&mut self, other_static_props: SymbolMap<FoldedElement>)
        ensures
            final(self)@ == (InheritedView {
                static_props: merge_props(old(self)@.static_props, other_static_props@),
                ..old(self)@
            }),
    {
        extend_props(&mut self.static_props, &other_static_props);
    }

    /// Merges incoming substitution contexts into this one's.
    pub fn add_substs(&mut self, other_substs: TypeNameMap<SubstContext>)
        ensures
            final(self)@ == (InheritedView {
                substs: merge_substs(old(self)@.substs, context_views(other_substs@)),
                ..old(self)@
            }),
    {
        let ghost before = context_views(self.substs@);
        proof {
            lemma_visited_none(other_substs@, spec_hash_map_iter(&other_substs).remaining());
            assert(context_views(self.substs@) =~= merge_substs(
                before,
                context_views(Map::empty()),
            ));
        }
        for entry in it: other_substs.iter()
            invariant
                it.seq() == spec_hash_map_iter(&other_substs).remaining(),
                it.seq().no_duplicates(),
                context_views(self.substs@) == merge_substs(
                    before,
                    context_views(visited(other_substs@, it.seq(), it.index() as int)),
                ),
                self.props == old(self).props,
                self.static_props == old(self).static_props,
                self.methods == old(self).methods,
                self.static_methods == old(self).static_methods,
                self.constructor == old(self).constructor,
        {
            let (key, sc) = entry;
            proof {
                lemma_visited_step(&other_substs, it.seq(), it.index() as int);
            }
            let ghost covered = visited(other_substs@, it.seq(), it.index() as int);
            let ghost held = self.substs@;
            let ghost fresh;
            match self.substs.entry(*key) {
                Entry::Vacant(slot) => {
                    let new_sc = sc.clone();
                    proof {
                        fresh = new_sc;
                    }
                    slot.insert(new_sc);
                },
                Entry::Occupied(mut slot) => {
                    if slot.get().from_req_extends && !sc.from_req_extends {
                        // The existing context came from a requirement
                        // and the incoming one is a genuine relationship:
                        // the genuine one takes its place.
                        let mut new_sc = sc.clone();
                        proof {
                            fresh = new_sc;
                        }
                        std::mem::swap(slot.get_mut(), &mut new_sc);
                    } else {
                        proof {
                            fresh = *sc;
                        }
                        assert(held.insert(*key, held[*key]) =~= held);
                    }
                },
            }
            proof {
                lemma_context_step(before, covered, held, self.substs@, *key, *sc, fresh);
            }
        }
        proof {
            lemma_visited_all(&other_substs, spec_hash_map_iter(&other_substs).remaining());
        }
    }

    /// Merges everything `other` holds into this one: substitution
    /// contexts, properties, static properties, methods, static methods
    /// and the constructor.
    pub fn add_inherited(&mut self, other: Inherited)
        ensures
            final(self)@ == old(self)@.merge(other@),
    {
        let Inherited { substs, props, static_props, methods, static_methods, constructor } = other;
        self.add_substs(substs);
        self.add_props(props);
        self.add_static_props(static_props);
        self.add_methods(methods);
        self.add_static_methods(static_methods);
        self.add_constructor(constructor);
    }

    /// The substitution of the type arguments `params` for the type
    /// parameters of `cls`, by parameter number.
    pub fn make_substitution(cls: &FoldedClass, params: &[DeclTy]) -> (subst: TypeNameMap<
        Arc<DeclTy>,
    >)
        ensures
            subst_terms(subst@) == bind(cls@.tparams, terms_of(params@)),
    {
        Subst::new(cls.tparams.as_slice(), params).into_map()
    }

    /// What `child` inherits through one use of the ancestor `parent`,
    /// named `parent_name`, with the type arguments `argl`. The ancestor's
    /// members are taken over as they are; the substitution is recorded,
    /// not applied.
    pub fn inherit_hack_class(
        child: &ShallowClass,
        parent_name: TypeName,
        parent: &FoldedClass,
        argl: &[DeclTy],
    ) -> (inh: Inherited)
        ensures
            inh@ == instantiate(child@.name.id, parent_name, parent@, terms_of(argl@)),
    {
        let subst = Self::make_substitution(parent, argl);
        let mut substs = parent.substs.clone();
        let context = SubstContext {
            subst,
            class_context: child.name.id(),
            from_req_extends: false,
        };
        substs.insert(parent_name.id(), context);
        let inh = Inherited {
            substs,
            props: parent.props.clone(),
            static_props: parent.static_props.clone(),
            methods: parent.methods.clone(),
            static_methods: parent.static_methods.clone(),
            constructor: parent.constructor,
        };
        assert(inh@.substs =~= context_views(parent.substs@).insert(parent_name.key(), context@));
        inh
    }

    /// What the class `sc` inherits through the ancestor type `parent_ty`.
    /// A type that is not a class type, or whose class `parents` does not
    /// hold, contributes nothing.
    pub fn from_class(
        sc: &ShallowClass,
        parents: &TypeNameMap<Arc<FoldedClass>>,
        parent_ty: &DeclTy,
    ) -> (inh: Inherited)
        ensures
            inh@ == contribution(sc@.name.id, parent_views(parents@), parent_ty@),
    {
        if let Some((parent_pos_id, parent_tyl)) = parent_ty.unwrap_class_type() {
            if let Some(parent_folded_decl) = parents.get(&parent_pos_id.id().id()) {
                return Self::inherit_hack_class(
                    sc,
                    parent_pos_id.id(),
                    parent_folded_decl,
                    parent_tyl,
                );
            }
        }
        Self::default()
    }

    /// Everything the class `sc` inherits: the contributions of the
    /// ancestor types that its kind selects, merged last to first.
    pub fn from_parent(sc: &ShallowClass, parents: &TypeNameMap<Arc<FoldedClass>>) -> (inh:
        Inherited)
        ensures
            inh@ == inherited(sc@, parent_views(parents@)),
    {
        let mut tys: Vec<&DeclTy> = Vec::new();
        assert(ref_terms(tys@) =~= Seq::empty());
        match sc.kind {
            ClassishKind::Cclass(Abstraction::Abstract) => {
                extend_refs(&mut tys, &sc.implements);
                extend_refs(&mut tys, &sc.extends);
            },
            ClassishKind::Ctrait => {
                extend_refs(&mut tys, &sc.implements);
                extend_refs(&mut tys, &sc.extends);
                extend_refs(&mut tys, &sc.req_implements);
            },
            ClassishKind::Cclass(_)
            | ClassishKind::Cinterface
            | ClassishKind::Cenum
            | ClassishKind::CenumClass(_) => {
                extend_refs(&mut tys, &sc.extends);
            },
        }
        assert(ref_terms(tys@) =~= ancestor_terms(sc@));

        let ghost terms = ref_terms(tys@);
        let ghost table = parent_views(parents@);
        let mut inh = Self::default();
        let mut i: usize = tys.len();
        assert(terms.subrange(i as int, terms.len() as int) =~= Seq::empty());
        while i > 0
            invariant
                i <= tys.len(),
                terms == ref_terms(tys@),
                table == parent_views(parents@),
                inh@ == fold_ancestors(
                    sc@.name.id,
                    table,
                    terms.subrange(i as int, terms.len() as int),
                ),
            decreases i,
        {
            i -= 1;
            let parent_inh = Self::from_class(sc, parents, tys[i]);
            inh.add_inherited(parent_inh);
            proof {
                let rest = terms.subrange(i as int, terms.len() as int);
                assert(rest.first() == tys@[i as int]@);
                assert(rest.drop_first() =~= terms.subrange(i + 1, terms.len() as int));
            }
        }
        assert(terms.subrange(0, terms.len() as int) =~= terms);
        inh
    }

    /// Everything the class `sc` inherits, given the folded declarations
    /// of its ancestors by name.
    pub fn make(sc: &ShallowClass, parents: &TypeNameMap<Arc<FoldedClass>>) -> (inh: Inherited)
        ensures
            inh@ == inherited(sc@, parent_views(parents@)),
    {
        Self::from_parent(sc, parents)
    }
}

} // verus!
