use std::collections::HashMap;
use std::sync::Arc;

use folded_decl::decl_defs::{
    Abstraction, ClassishKind, DeclTy, FoldedClass, FoldedElement, ShallowClass, SubstContext,
    Visibility,
};
use folded_decl::inherit::Inherited;
use folded_decl::position::{FilePos, Pos, Positioned, Prefix, RelativePath};
use folded_decl::subst::Subst;
use folded_decl::symbol::{Symbol, TypeName};

const CHILD: u64 = 1;
const A: u64 = 10;
const B: u64 = 11;
const C: u64 = 12;
const X: u64 = 20;
const T: u64 = 30;
const U: u64 = 31;
const M: u64 = 100;
const N: u64 = 101;
const P: u64 = 200;

fn tn(k: u64) -> TypeName {
    TypeName(Symbol(k))
}

fn elem(is_abstract: bool, is_synthesized: bool, superfluous: bool, origin: u64) -> FoldedElement {
    FoldedElement {
        is_abstract,
        is_synthesized,
        is_superfluous_override: superfluous,
        origin: tn(origin),
        visibility: Visibility::Public,
    }
}

fn concrete(origin: u64) -> FoldedElement {
    elem(false, false, true, origin)
}

fn apply(name: u64, args: Vec<DeclTy>) -> DeclTy {
    DeclTy::Apply(Positioned::new(Pos::none(), tn(name)), args)
}

fn folded(name: u64, tparams: Vec<u64>) -> FoldedClass {
    FoldedClass {
        name: tn(name),
        tparams: tparams.into_iter().map(tn).collect(),
        substs: HashMap::new(),
        props: HashMap::new(),
        static_props: HashMap::new(),
        methods: HashMap::new(),
        static_methods: HashMap::new(),
        constructor: None,
    }
}

fn shallow(
    kind: ClassishKind,
    extends: Vec<DeclTy>,
    implements: Vec<DeclTy>,
    req_implements: Vec<DeclTy>,
) -> ShallowClass {
    ShallowClass {
        name: Positioned::new(Pos::none(), tn(CHILD)),
        kind,
        extends,
        implements,
        req_implements,
    }
}

fn table(classes: Vec<FoldedClass>) -> HashMap<u64, Arc<FoldedClass>> {
    let mut parents = HashMap::new();
    for class in classes {
        parents.insert(class.name.id(), Arc::new(class));
    }
    parents
}

fn with_method(mut class: FoldedClass, name: u64, fe: FoldedElement) -> FoldedClass {
    class.methods.insert(name, fe);
    class
}

fn with_prop(mut class: FoldedClass, name: u64, fe: FoldedElement) -> FoldedClass {
    class.props.insert(name, fe);
    class
}

fn context(class_context: u64, from_req_extends: bool) -> SubstContext {
    SubstContext { subst: HashMap::new(), class_context: tn(class_context), from_req_extends }
}

fn own_context(child: u64) -> SubstContext {
    context(child, false)
}

const CLASS: ClassishKind = ClassishKind::Cclass(Abstraction::Concrete);
const ABSTRACT_CLASS: ClassishKind = ClassishKind::Cclass(Abstraction::Abstract);

#[test]
fn default_is_empty() {
    let inh = Inherited::default();
    assert!(inh.substs.is_empty());
    assert!(inh.props.is_empty());
    assert!(inh.static_props.is_empty());
    assert!(inh.methods.is_empty());
    assert!(inh.static_methods.is_empty());
    assert_eq!(inh.constructor, None);
}

#[test]
fn class_without_ancestors_inherits_nothing() {
    let parents = table(vec![with_method(folded(A, vec![]), M, concrete(A))]);
    for kind in [
        CLASS,
        ABSTRACT_CLASS,
        ClassishKind::Cinterface,
        ClassishKind::Ctrait,
        ClassishKind::Cenum,
        ClassishKind::CenumClass(Abstraction::Concrete),
        ClassishKind::CenumClass(Abstraction::Abstract),
    ] {
        let sc = shallow(kind, vec![], vec![], vec![]);
        assert_eq!(Inherited::make(&sc, &parents), Inherited::default());
    }
}

#[test]
fn keep_old_sig_truth_table() {
    for old_abstract in [false, true] {
        for old_synth in [false, true] {
            for new_abstract in [false, true] {
                for new_synth in [false, true] {
                    let old_sig = elem(old_abstract, old_synth, false, A);
                    let new_sig = elem(new_abstract, new_synth, false, B);
                    let expected = (!old_abstract && new_abstract)
                        || (old_abstract == new_abstract && !old_synth && new_synth);
                    assert_eq!(Inherited::should_keep_old_sig(&new_sig, &old_sig), expected);
                }
            }
        }
    }
}

#[test]
fn keep_old_sig_abstractness_outranks_synthesis() {
    // old: concrete and synthesized; new: abstract and written out.
    let old_sig = elem(false, true, false, A);
    let new_sig = elem(true, false, false, B);
    assert!(Inherited::should_keep_old_sig(&new_sig, &old_sig));
    // old: abstract and written out; new: concrete and synthesized.
    let old_sig = elem(true, false, false, A);
    let new_sig = elem(false, true, false, B);
    assert!(!Inherited::should_keep_old_sig(&new_sig, &old_sig));
}

#[test]
fn add_method_first_insert_leaves_flag() {
    let mut methods = HashMap::new();
    let fe = elem(false, false, true, A);
    Inherited::add_method(&mut methods, (Symbol(M), fe));
    assert_eq!(methods.len(), 1);
    assert_eq!(methods[&M], fe);
    assert!(methods[&M].is_superfluous_override());
}

#[test]
fn add_method_override_clears_flag() {
    let mut methods = HashMap::new();
    Inherited::add_method(&mut methods, (Symbol(M), elem(true, false, true, A)));
    Inherited::add_method(&mut methods, (Symbol(M), elem(false, false, true, B)));
    assert_eq!(methods.len(), 1);
    assert_eq!(methods[&M], elem(false, false, false, B));
}

#[test]
fn add_method_kept_entry_is_untouched() {
    let mut methods = HashMap::new();
    let old_sig = elem(false, false, true, A);
    Inherited::add_method(&mut methods, (Symbol(M), old_sig));
    Inherited::add_method(&mut methods, (Symbol(M), elem(true, false, false, B)));
    assert_eq!(methods[&M], old_sig);
    Inherited::add_method(&mut methods, (Symbol(M), elem(false, true, false, C)));
    assert_eq!(methods[&M], old_sig);
}

#[test]
fn add_method_equal_rank_incoming_wins() {
    let mut methods = HashMap::new();
    Inherited::add_method(&mut methods, (Symbol(M), elem(false, false, true, A)));
    Inherited::add_method(&mut methods, (Symbol(M), elem(false, false, true, B)));
    assert_eq!(methods[&M], elem(false, false, false, B));
}

#[test]
fn add_methods_merges_each_name() {
    let mut inh = Inherited::default();
    inh.methods.insert(M, elem(true, false, true, A));
    inh.methods.insert(N, elem(false, false, true, A));
    let mut other = HashMap::new();
    other.insert(M, elem(false, false, true, B));
    other.insert(N, elem(true, false, true, B));
    other.insert(P, elem(true, true, true, B));
    inh.add_methods(other);
    assert_eq!(inh.methods.len(), 3);
    assert_eq!(inh.methods[&M], elem(false, false, false, B));
    assert_eq!(inh.methods[&N], elem(false, false, true, A));
    assert_eq!(inh.methods[&P], elem(true, true, true, B));
    assert!(inh.static_methods.is_empty());
}

#[test]
fn add_static_methods_merges_each_name() {
    let mut inh = Inherited::default();
    inh.static_methods.insert(M, elem(false, true, true, A));
    let mut other = HashMap::new();
    other.insert(M, elem(false, false, true, B));
    other.insert(N, elem(false, false, true, B));
    inh.add_static_methods(other);
    assert_eq!(inh.static_methods.len(), 2);
    assert_eq!(inh.static_methods[&M], elem(false, false, false, B));
    assert_eq!(inh.static_methods[&N], elem(false, false, true, B));
    assert!(inh.methods.is_empty());
}

#[test]
fn add_props_incoming_replaces() {
    let mut inh = Inherited::default();
    // The existing property is concrete and written out, the incoming one
    // abstract and synthesized: for a method the old one would stand.
    inh.props.insert(P, elem(false, false, true, A));
    inh.props.insert(M, elem(false, false, true, A));
    let mut other = HashMap::new();
    other.insert(P, elem(true, true, true, B));
    other.insert(N, elem(false, false, false, B));
    inh.add_props(other);
    assert_eq!(inh.props.len(), 3);
    assert_eq!(inh.props[&P], elem(true, true, true, B));
    assert_eq!(inh.props[&M], elem(false, false, true, A));
    assert_eq!(inh.props[&N], elem(false, false, false, B));
}

#[test]
fn add_static_props_incoming_replaces() {
    let mut inh = Inherited::default();
    inh.static_props.insert(P, elem(false, false, true, A));
    let mut other = HashMap::new();
    other.insert(P, elem(true, true, true, B));
    inh.add_static_props(other);
    assert_eq!(inh.static_props.len(), 1);
    assert_eq!(inh.static_props[&P], elem(true, true, true, B));
    assert!(inh.props.is_empty());
}

#[test]
fn add_constructor_none_leaves_existing() {
    let c = elem(true, true, true, A);
    let mut inh = Inherited::default();
    inh.constructor = Some(c);
    inh.add_constructor(None);
    assert_eq!(inh.constructor, Some(c));
}

#[test]
fn add_constructor_none_into_none() {
    let mut inh = Inherited::default();
    inh.add_constructor(None);
    assert_eq!(inh.constructor, None);
}

#[test]
fn add_constructor_some_into_none() {
    let c = elem(true, true, true, A);
    let mut inh = Inherited::default();
    inh.add_constructor(Some(c));
    assert_eq!(inh.constructor, Some(c));
}

#[test]
fn add_constructor_kept_when_old_stands() {
    let old_ctor = elem(false, false, true, A);
    let mut inh = Inherited::default();
    inh.constructor = Some(old_ctor);
    inh.add_constructor(Some(elem(true, false, true, B)));
    assert_eq!(inh.constructor, Some(old_ctor));
    inh.add_constructor(Some(elem(false, true, true, B)));
    assert_eq!(inh.constructor, Some(old_ctor));
}

#[test]
fn add_constructor_displaced_as_it_comes() {
    let mut inh = Inherited::default();
    inh.constructor = Some(elem(true, false, true, A));
    let incoming = elem(false, true, true, B);
    inh.add_constructor(Some(incoming));
    // Unlike a method, a constructor that displaces keeps its flag.
    assert_eq!(inh.constructor, Some(incoming));
}

#[test]
fn add_substs_inserts_absent() {
    let mut inh = Inherited::default();
    let mut other = HashMap::new();
    other.insert(X, context(A, true));
    inh.add_substs(other);
    assert_eq!(inh.substs.len(), 1);
    assert_eq!(inh.substs[&X], context(A, true));
}

#[test]
fn add_substs_genuine_displaces_required() {
    let mut inh = Inherited::default();
    inh.substs.insert(X, context(A, true));
    let mut other = HashMap::new();
    other.insert(X, context(B, false));
    inh.add_substs(other);
    assert_eq!(inh.substs.len(), 1);
    assert_eq!(inh.substs[&X], context(B, false));
}

#[test]
fn add_substs_required_does_not_displace_genuine() {
    let mut inh = Inherited::default();
    inh.substs.insert(X, context(A, false));
    let mut other = HashMap::new();
    other.insert(X, context(B, true));
    inh.add_substs(other);
    assert_eq!(inh.substs[&X], context(A, false));
}

#[test]
fn add_substs_equal_provenance_keeps_existing() {
    let mut inh = Inherited::default();
    inh.substs.insert(X, context(A, false));
    inh.substs.insert(T, context(A, true));
    let mut other = HashMap::new();
    other.insert(X, context(B, false));
    other.insert(T, context(B, true));
    inh.add_substs(other);
    assert_eq!(inh.substs[&X], context(A, false));
    assert_eq!(inh.substs[&T], context(A, true));
}

#[test]
fn add_substs_carries_the_substitution() {
    let mut inh = Inherited::default();
    inh.substs.insert(X, context(A, true));
    let mut incoming = context(B, false);
    incoming.subst.insert(T, Arc::new(apply(C, vec![DeclTy::Mixed])));
    let mut other = HashMap::new();
    other.insert(X, incoming);
    inh.add_substs(other);
    assert_eq!(inh.substs[&X].subst.len(), 1);
    assert_eq!(*inh.substs[&X].subst[&T], apply(C, vec![DeclTy::Mixed]));
}

#[test]
fn merged_context_is_genuine_in_either_order() {
    let mut first = Inherited::default();
    first.substs.insert(X, context(A, true));
    let mut second = Inherited::default();
    second.substs.insert(X, context(B, false));

    let mut inh = Inherited::default();
    let mut a = Inherited::default();
    a.substs.insert(X, context(A, true));
    let mut b = Inherited::default();
    b.substs.insert(X, context(B, false));
    inh.add_inherited(a);
    inh.add_inherited(b);
    assert_eq!(inh.substs[&X], context(B, false));

    let mut inh = Inherited::default();
    inh.add_inherited(second);
    inh.add_inherited(first);
    assert_eq!(inh.substs[&X], context(B, false));
    assert!(!inh.substs[&X].from_req_extends);
}

#[test]
fn add_inherited_merges_every_part() {
    let mut inh = Inherited::default();
    inh.substs.insert(X, context(A, true));
    inh.props.insert(P, elem(false, false, true, A));
    inh.static_props.insert(P, elem(false, false, true, A));
    inh.methods.insert(M, elem(true, false, true, A));
    inh.static_methods.insert(M, elem(false, false, true, A));
    inh.constructor = Some(elem(true, false, true, A));

    let mut other = Inherited::default();
    other.substs.insert(X, context(B, false));
    other.props.insert(P, elem(true, true, true, B));
    other.static_props.insert(N, elem(true, true, true, B));
    other.methods.insert(M, elem(false, false, true, B));
    other.static_methods.insert(M, elem(true, false, true, B));
    other.constructor = Some(elem(false, false, true, B));

    inh.add_inherited(other);
    assert_eq!(inh.substs[&X], context(B, false));
    assert_eq!(inh.props[&P], elem(true, true, true, B));
    assert_eq!(inh.static_props[&P], elem(false, false, true, A));
    assert_eq!(inh.static_props[&N], elem(true, true, true, B));
    assert_eq!(inh.methods[&M], elem(false, false, false, B));
    assert_eq!(inh.static_methods[&M], elem(false, false, true, A));
    assert_eq!(inh.constructor, Some(elem(false, false, true, B)));
}

#[test]
fn add_inherited_of_default_changes_nothing() {
    let mut inh = Inherited::default();
    inh.substs.insert(X, context(A, true));
    inh.props.insert(P, elem(false, false, true, A));
    inh.methods.insert(M, elem(true, false, true, A));
    inh.constructor = Some(elem(true, false, true, A));
    inh.add_inherited(Inherited::default());
    let mut expected = Inherited::default();
    expected.substs.insert(X, context(A, true));
    expected.props.insert(P, elem(false, false, true, A));
    expected.methods.insert(M, elem(true, false, true, A));
    expected.constructor = Some(elem(true, false, true, A));
    assert_eq!(inh, expected);
}

#[test]
fn subst_binds_by_position() {
    let s = Subst::new(&[tn(T), tn(U)], &[DeclTy::Mixed, apply(C, vec![DeclTy::Dynamic])]);
    let map = s.into_map();
    assert_eq!(map.len(), 2);
    assert_eq!(*map[&T], DeclTy::Mixed);
    assert_eq!(*map[&U], apply(C, vec![DeclTy::Dynamic]));
}

#[test]
fn subst_ignores_surplus_arguments() {
    let map = Subst::new(&[tn(T)], &[DeclTy::Mixed, DeclTy::Dynamic]).into_map();
    assert_eq!(map.len(), 1);
    assert_eq!(*map[&T], DeclTy::Mixed);
}

#[test]
fn subst_leaves_surplus_parameters_unbound() {
    let map = Subst::new(&[tn(T), tn(U)], &[DeclTy::Dynamic]).into_map();
    assert_eq!(map.len(), 1);
    assert_eq!(*map[&T], DeclTy::Dynamic);
    assert!(!map.contains_key(&U));
}

#[test]
fn subst_of_nothing_is_empty() {
    assert!(Subst::new(&[], &[]).into_map().is_empty());
    assert!(Subst::new(&[tn(T)], &[]).into_map().is_empty());
    assert!(Subst::new(&[], &[DeclTy::Mixed]).into_map().is_empty());
}

#[test]
fn subst_later_binding_of_a_repeated_parameter_stands() {
    let map = Subst::new(&[tn(T), tn(T)], &[DeclTy::Mixed, DeclTy::Dynamic]).into_map();
    assert_eq!(map.len(), 1);
    assert_eq!(*map[&T], DeclTy::Dynamic);
}

#[test]
fn make_substitution_uses_the_class_parameters() {
    let class = folded(A, vec![T, U]);
    let map = Inherited::make_substitution(&class, &[DeclTy::Generic(tn(X)), DeclTy::Mixed]);
    assert_eq!(map.len(), 2);
    assert_eq!(*map[&T], DeclTy::Generic(tn(X)));
    assert_eq!(*map[&U], DeclTy::Mixed);
}

#[test]
fn decl_ty_clone_is_equal() {
    let ty = apply(A, vec![DeclTy::Mixed, apply(B, vec![DeclTy::Generic(tn(T)), DeclTy::Dynamic])]);
    assert_eq!(ty.clone(), ty);
    assert_eq!(DeclTy::Mixed.clone(), DeclTy::Mixed);
    assert_ne!(ty.clone(), apply(A, vec![DeclTy::Mixed]));
}

#[test]
fn unwrap_class_type_of_application() {
    let ty = apply(A, vec![DeclTy::Mixed, DeclTy::Dynamic]);
    let (name, args) = ty.unwrap_class_type().expect("a class type");
    assert_eq!(name.id(), tn(A));
    assert_eq!(args, &[DeclTy::Mixed, DeclTy::Dynamic][..]);
}

#[test]
fn unwrap_class_type_of_other_types() {
    assert!(DeclTy::Mixed.unwrap_class_type().is_none());
    assert!(DeclTy::Dynamic.unwrap_class_type().is_none());
    assert!(DeclTy::Generic(tn(T)).unwrap_class_type().is_none());
}

#[test]
fn subst_context_clone_is_equal() {
    let mut sc = context(A, true);
    sc.subst.insert(T, Arc::new(apply(C, vec![DeclTy::Mixed])));
    assert_eq!(sc.clone(), sc);
}

#[test]
fn inherit_hack_class_records_the_substitution() {
    let mut parent = folded(A, vec![T]);
    parent.substs.insert(X, context(A, true));
    parent.props.insert(P, elem(false, false, true, A));
    parent.static_props.insert(N, elem(false, false, false, A));
    parent.methods.insert(M, elem(true, false, true, A));
    parent.static_methods.insert(N, elem(false, true, true, A));
    parent.constructor = Some(elem(false, false, true, A));
    let child = shallow(CLASS, vec![], vec![], vec![]);

    let inh = Inherited::inherit_hack_class(&child, tn(A), &parent, &[DeclTy::Dynamic]);

    let mut own = own_context(CHILD);
    own.subst.insert(T, Arc::new(DeclTy::Dynamic));
    assert_eq!(inh.substs.len(), 2);
    assert_eq!(inh.substs[&A], own);
    assert_eq!(inh.substs[&X], context(A, true));
    assert_eq!(inh.props, parent.props);
    assert_eq!(inh.static_props, parent.static_props);
    assert_eq!(inh.methods, parent.methods);
    assert_eq!(inh.static_methods, parent.static_methods);
    assert_eq!(inh.constructor, parent.constructor);
    // Members are taken over as they are: no flag is touched.
    assert!(inh.methods[&M].is_superfluous_override());
}

#[test]
fn inherit_hack_class_replaces_the_ancestors_own_entry() {
    let mut parent = folded(A, vec![]);
    parent.substs.insert(A, context(X, true));
    let child = shallow(CLASS, vec![], vec![], vec![]);
    let inh = Inherited::inherit_hack_class(&child, tn(A), &parent, &[]);
    assert_eq!(inh.substs.len(), 1);
    assert_eq!(inh.substs[&A], own_context(CHILD));
}

#[test]
fn from_class_of_unknown_class_is_empty() {
    let parents = table(vec![folded(A, vec![])]);
    let sc = shallow(CLASS, vec![], vec![], vec![]);
    assert_eq!(Inherited::from_class(&sc, &parents, &apply(B, vec![])), Inherited::default());
}

#[test]
fn from_class_of_non_class_type_is_empty() {
    let parents = table(vec![with_method(folded(A, vec![]), M, concrete(A))]);
    let sc = shallow(CLASS, vec![], vec![], vec![]);
    assert_eq!(Inherited::from_class(&sc, &parents, &DeclTy::Dynamic), Inherited::default());
    assert_eq!(Inherited::from_class(&sc, &parents, &DeclTy::Mixed), Inherited::default());
    assert_eq!(
        Inherited::from_class(&sc, &parents, &DeclTy::Generic(tn(A))),
        Inherited::default()
    );
}

#[test]
fn from_class_of_known_class_instantiates() {
    let parents = table(vec![with_method(folded(A, vec![T]), M, concrete(A))]);
    let sc = shallow(CLASS, vec![], vec![], vec![]);
    let inh = Inherited::from_class(&sc, &parents, &apply(A, vec![DeclTy::Mixed]));
    let mut own = own_context(CHILD);
    own.subst.insert(T, Arc::new(DeclTy::Mixed));
    assert_eq!(inh.substs[&A], own);
    assert_eq!(inh.methods[&M], concrete(A));
}

#[test]
fn single_ancestor_method_keeps_its_flag() {
    for flag in [false, true] {
        let m = elem(false, false, flag, A);
        let parents = table(vec![
            with_method(folded(A, vec![]), M, m),
            with_method(folded(B, vec![]), N, concrete(B)),
        ]);
        let sc = shallow(CLASS, vec![apply(B, vec![]), apply(A, vec![])], vec![], vec![]);
        let inh = Inherited::make(&sc, &parents);
        assert_eq!(inh.methods[&M], m);
        assert_eq!(inh.methods[&M].is_superfluous_override(), flag);
        assert_eq!(inh.methods[&N], concrete(B));
    }
}

#[test]
fn concrete_method_beats_abstract_in_either_order() {
    let abstract_m = elem(true, false, true, A);
    let concrete_m = elem(false, false, true, B);
    let parents = table(vec![
        with_method(folded(A, vec![]), M, abstract_m),
        with_method(folded(B, vec![]), M, concrete_m),
    ]);
    // A before B: B is merged first, then A comes in and the concrete one stands.
    let sc = shallow(CLASS, vec![apply(A, vec![]), apply(B, vec![])], vec![], vec![]);
    let inh = Inherited::make(&sc, &parents);
    assert_eq!(inh.methods[&M], concrete_m);
    // B before A: A is merged first, then B displaces it as a genuine override.
    let sc = shallow(CLASS, vec![apply(B, vec![]), apply(A, vec![])], vec![], vec![]);
    let inh = Inherited::make(&sc, &parents);
    assert_eq!(inh.methods[&M], elem(false, false, false, B));
    assert!(!inh.methods[&M].is_abstract());
    assert_eq!(inh.methods[&M].origin, tn(B));
}

#[test]
fn written_method_beats_synthesized_in_either_order() {
    for is_abstract in [false, true] {
        let written = elem(is_abstract, false, true, A);
        let synthesized = elem(is_abstract, true, true, B);
        let parents = table(vec![
            with_method(folded(A, vec![]), M, written),
            with_method(folded(B, vec![]), M, synthesized),
        ]);
        let sc = shallow(CLASS, vec![apply(A, vec![]), apply(B, vec![])], vec![], vec![]);
        let inh = Inherited::make(&sc, &parents);
        assert_eq!(inh.methods[&M], elem(is_abstract, false, false, A));
        let sc = shallow(CLASS, vec![apply(B, vec![]), apply(A, vec![])], vec![], vec![]);
        let inh = Inherited::make(&sc, &parents);
        assert_eq!(inh.methods[&M], written);
    }
}

#[test]
fn equal_rank_methods_follow_declaration_order() {
    let parents = table(vec![
        with_method(folded(A, vec![]), M, concrete(A)),
        with_method(folded(B, vec![]), M, concrete(B)),
    ]);
    let sc = shallow(CLASS, vec![apply(A, vec![]), apply(B, vec![])], vec![], vec![]);
    assert_eq!(Inherited::make(&sc, &parents).methods[&M], elem(false, false, false, A));
    let sc = shallow(CLASS, vec![apply(B, vec![]), apply(A, vec![])], vec![], vec![]);
    assert_eq!(Inherited::make(&sc, &parents).methods[&M], elem(false, false, false, B));
}

#[test]
fn property_of_first_declared_ancestor_wins() {
    // The first ancestor's property is abstract and synthesized, the
    // second's concrete and written out: for properties only order counts.
    let first = elem(true, true, true, A);
    let second = elem(false, false, false, B);
    let parents = table(vec![
        with_prop(folded(A, vec![]), P, first),
        with_prop(folded(B, vec![]), P, second),
    ]);
    let sc = shallow(CLASS, vec![apply(A, vec![]), apply(B, vec![])], vec![], vec![]);
    assert_eq!(Inherited::make(&sc, &parents).props[&P], first);
    let sc = shallow(CLASS, vec![apply(B, vec![]), apply(A, vec![])], vec![], vec![]);
    assert_eq!(Inherited::make(&sc, &parents).props[&P], second);
}

#[test]
fn static_property_of_first_declared_ancestor_wins() {
    let mut a = folded(A, vec![]);
    a.static_props.insert(P, elem(true, true, true, A));
    let mut b = folded(B, vec![]);
    b.static_props.insert(P, elem(false, false, false, B));
    let parents = table(vec![a, b]);
    let sc = shallow(CLASS, vec![apply(A, vec![]), apply(B, vec![])], vec![], vec![]);
    assert_eq!(Inherited::make(&sc, &parents).static_props[&P], elem(true, true, true, A));
}

#[test]
fn abstract_class_consults_implements_then_extends() {
    let parents = table(vec![
        with_prop(folded(A, vec![]), P, concrete(A)),
        with_prop(folded(B, vec![]), P, concrete(B)),
        with_prop(folded(C, vec![]), P, concrete(C)),
    ]);
    let sc = shallow(
        ABSTRACT_CLASS,
        vec![apply(A, vec![])],
        vec![apply(B, vec![])],
        vec![apply(C, vec![])],
    );
    let inh = Inherited::make(&sc, &parents);
    // implements comes first and so takes precedence over extends.
    assert_eq!(inh.props[&P], concrete(B));
    let mut names: Vec<u64> = inh.substs.keys().copied().collect();
    names.sort();
    assert_eq!(names, vec![A, B]);
}

#[test]
fn trait_consults_implements_extends_and_requirements() {
    let parents = table(vec![
        with_prop(folded(A, vec![]), P, concrete(A)),
        with_prop(folded(B, vec![]), P, concrete(B)),
        with_prop(with_method(folded(C, vec![]), M, concrete(C)), P, concrete(C)),
    ]);
    let sc = shallow(
        ClassishKind::Ctrait,
        vec![apply(A, vec![])],
        vec![apply(B, vec![])],
        vec![apply(C, vec![])],
    );
    let inh = Inherited::make(&sc, &parents);
    assert_eq!(inh.props[&P], concrete(B));
    assert_eq!(inh.methods[&M], concrete(C));
    let mut names: Vec<u64> = inh.substs.keys().copied().collect();
    names.sort();
    assert_eq!(names, vec![A, B, C]);

    // With implements empty, extends precedes the requirement.
    let sc = shallow(ClassishKind::Ctrait, vec![apply(A, vec![])], vec![], vec![apply(C, vec![])]);
    assert_eq!(Inherited::make(&sc, &parents).props[&P], concrete(A));
}

#[test]
fn other_kinds_consult_extends_only() {
    let parents = table(vec![
        with_prop(folded(A, vec![]), P, concrete(A)),
        with_prop(folded(B, vec![]), P, concrete(B)),
        with_prop(folded(C, vec![]), P, concrete(C)),
    ]);
    for kind in [
        CLASS,
        ClassishKind::Cinterface,
        ClassishKind::Cenum,
        ClassishKind::CenumClass(Abstraction::Concrete),
        ClassishKind::CenumClass(Abstraction::Abstract),
    ] {
        let sc = shallow(
            kind,
            vec![apply(A, vec![])],
            vec![apply(B, vec![])],
            vec![apply(C, vec![])],
        );
        let inh = Inherited::make(&sc, &parents);
        assert_eq!(inh.props[&P], concrete(A));
        assert_eq!(inh.substs.len(), 1);
        assert_eq!(inh.substs[&A], own_context(CHILD));
    }
}

#[test]
fn unresolved_requirement_of_a_trait_contributes_nothing() {
    let parents = table(vec![
        with_method(folded(A, vec![]), M, concrete(A)),
        with_prop(folded(B, vec![]), P, concrete(B)),
    ]);
    let with_unresolved = shallow(
        ClassishKind::Ctrait,
        vec![apply(A, vec![])],
        vec![apply(B, vec![])],
        vec![apply(C, vec![])],
    );
    let without = shallow(
        ClassishKind::Ctrait,
        vec![apply(A, vec![])],
        vec![apply(B, vec![])],
        vec![],
    );
    let inh = Inherited::make(&with_unresolved, &parents);
    assert_eq!(inh, Inherited::make(&without, &parents));
    assert_eq!(inh.methods[&M], concrete(A));
    assert_eq!(inh.props[&P], concrete(B));
    assert!(!inh.substs.contains_key(&C));
}

#[test]
fn non_class_ancestor_is_skipped() {
    let parents = table(vec![with_method(folded(A, vec![]), M, concrete(A))]);
    let sc = shallow(
        CLASS,
        vec![DeclTy::Dynamic, apply(A, vec![]), DeclTy::Mixed],
        vec![],
        vec![],
    );
    let only = shallow(CLASS, vec![apply(A, vec![])], vec![], vec![]);
    assert_eq!(Inherited::make(&sc, &parents), Inherited::make(&only, &parents));
}

#[test]
fn make_leaves_member_types_unsubstituted() {
    let mut grand = context(A, false);
    grand.subst.insert(U, Arc::new(DeclTy::Generic(tn(T))));
    let mut parent = with_method(folded(A, vec![T]), M, concrete(X));
    parent.substs.insert(X, grand);
    let parents = table(vec![parent]);
    let sc = shallow(CLASS, vec![apply(A, vec![DeclTy::Dynamic])], vec![], vec![]);
    let inh = Inherited::make(&sc, &parents);
    // The ancestor's own context still speaks of its parameter T; the
    // binding of T is recorded beside it.
    assert_eq!(*inh.substs[&X].subst[&U], DeclTy::Generic(tn(T)));
    assert_eq!(inh.substs[&X].class_context, tn(A));
    assert_eq!(*inh.substs[&A].subst[&T], DeclTy::Dynamic);
    assert_eq!(inh.substs[&A].class_context, tn(CHILD));
    assert!(!inh.substs[&A].from_req_extends);
    assert_eq!(inh.methods[&M], concrete(X));
}

#[test]
fn genuine_extends_displaces_a_traits_requirement() {
    // The trait carries a context for X that its requirement gave it; the
    // class also extends X itself.
    let mut required = context(B, true);
    required.subst.insert(T, Arc::new(DeclTy::Mixed));
    let mut the_trait = folded(B, vec![]);
    the_trait.substs.insert(X, required);
    let parents = table(vec![the_trait, folded(X, vec![T])]);
    let mut genuine = own_context(CHILD);
    genuine.subst.insert(T, Arc::new(DeclTy::Dynamic));
    for extends in [
        vec![apply(X, vec![DeclTy::Dynamic]), apply(B, vec![])],
        vec![apply(B, vec![]), apply(X, vec![DeclTy::Dynamic])],
    ] {
        let sc = shallow(CLASS, extends, vec![], vec![]);
        let inh = Inherited::make(&sc, &parents);
        assert_eq!(inh.substs[&X], genuine);
    }
}

#[test]
fn constructor_is_inherited_by_rank() {
    let mut a = folded(A, vec![]);
    a.constructor = Some(elem(true, false, true, A));
    let mut b = folded(B, vec![]);
    b.constructor = Some(elem(false, false, true, B));
    let parents = table(vec![a, b, folded(C, vec![])]);
    let sc = shallow(CLASS, vec![apply(A, vec![]), apply(C, vec![]), apply(B, vec![])], vec![], vec![]);
    assert_eq!(Inherited::make(&sc, &parents).constructor, Some(elem(false, false, true, B)));
    let sc = shallow(CLASS, vec![apply(C, vec![])], vec![], vec![]);
    assert_eq!(Inherited::make(&sc, &parents).constructor, None);
}

#[test]
fn from_parent_and_make_agree() {
    let parents = table(vec![
        with_method(folded(A, vec![]), M, concrete(A)),
        with_prop(folded(B, vec![]), P, concrete(B)),
    ]);
    let sc = shallow(ABSTRACT_CLASS, vec![apply(A, vec![])], vec![apply(B, vec![])], vec![]);
    assert_eq!(Inherited::from_parent(&sc, &parents), Inherited::make(&sc, &parents));
}

#[test]
fn folded_element_flags() {
    let mut fe = elem(true, false, true, A);
    assert!(fe.is_abstract());
    assert!(!fe.is_synthesized());
    assert!(fe.is_superfluous_override());
    fe.set_is_superfluous_override(false);
    assert_eq!(fe, elem(true, false, false, A));
    fe.set_is_superfluous_override(true);
    assert_eq!(fe, elem(true, false, true, A));
}

#[test]
fn type_name_numbers() {
    assert_eq!(tn(7).id(), 7);
    assert_eq!(TypeName::from_id(7), tn(7));
    assert_eq!(Symbol(9).id(), 9);
}

#[test]
fn method_of_first_declared_among_highest_rank_wins() {
    // A: abstract; B and C: concrete and written out. B is the first
    // declared of the highest rank, and C after it contributes too.
    let parents = table(vec![
        with_method(folded(A, vec![]), M, elem(true, false, true, A)),
        with_method(folded(B, vec![]), M, elem(false, false, true, B)),
        with_method(folded(C, vec![]), M, elem(false, false, true, C)),
    ]);
    let sc = shallow(
        CLASS,
        vec![apply(A, vec![]), apply(B, vec![]), apply(C, vec![])],
        vec![],
        vec![],
    );
    assert_eq!(Inherited::make(&sc, &parents).methods[&M], elem(false, false, false, B));
    // With C declared first, C wins and is marked as an override too.
    let sc = shallow(
        CLASS,
        vec![apply(C, vec![]), apply(A, vec![]), apply(B, vec![])],
        vec![],
        vec![],
    );
    assert_eq!(Inherited::make(&sc, &parents).methods[&M], elem(false, false, false, C));
    // Declared last, the winner displaced nothing and keeps its flag.
    let sc = shallow(CLASS, vec![apply(A, vec![]), apply(B, vec![])], vec![], vec![]);
    assert_eq!(Inherited::make(&sc, &parents).methods[&M], elem(false, false, true, B));
}

#[test]
fn static_method_follows_the_same_rule() {
    let mut a = folded(A, vec![]);
    a.static_methods.insert(M, elem(true, false, true, A));
    let mut b = folded(B, vec![]);
    b.static_methods.insert(M, elem(false, true, true, B));
    let parents = table(vec![a, b]);
    let sc = shallow(CLASS, vec![apply(A, vec![]), apply(B, vec![])], vec![], vec![]);
    let inh = Inherited::make(&sc, &parents);
    assert_eq!(inh.static_methods[&M], elem(false, true, true, B));
    assert!(inh.methods.is_empty());
}

#[test]
fn context_of_last_declared_stands_among_equal_provenance() {
    let mut a = folded(A, vec![]);
    a.substs.insert(X, context(A, false));
    let mut b = folded(B, vec![]);
    b.substs.insert(X, context(B, false));
    let mut c = folded(C, vec![]);
    c.substs.insert(X, context(C, true));
    let parents = table(vec![a, b, c]);
    // Both genuine: the one merged first, declared last, stands.
    let sc = shallow(CLASS, vec![apply(A, vec![]), apply(B, vec![])], vec![], vec![]);
    assert_eq!(Inherited::make(&sc, &parents).substs[&X], context(B, false));
    let sc = shallow(CLASS, vec![apply(B, vec![]), apply(A, vec![])], vec![], vec![]);
    assert_eq!(Inherited::make(&sc, &parents).substs[&X], context(A, false));
    // A required one declared last is displaced by the genuine one
    // declared nearest before it.
    let sc = shallow(
        CLASS,
        vec![apply(A, vec![]), apply(B, vec![]), apply(C, vec![])],
        vec![],
        vec![],
    );
    assert_eq!(Inherited::make(&sc, &parents).substs[&X], context(B, false));
}

#[test]
fn constructor_of_first_declared_among_highest_rank_wins() {
    let mut a = folded(A, vec![]);
    a.constructor = Some(elem(false, true, true, A));
    let mut b = folded(B, vec![]);
    b.constructor = Some(elem(false, false, true, B));
    let mut c = folded(C, vec![]);
    c.constructor = Some(elem(false, false, true, C));
    let parents = table(vec![a, b, c]);
    let sc = shallow(
        CLASS,
        vec![apply(A, vec![]), apply(B, vec![]), apply(C, vec![])],
        vec![],
        vec![],
    );
    // The constructor that displaces keeps its flag.
    assert_eq!(Inherited::make(&sc, &parents).constructor, Some(elem(false, false, true, B)));
}

#[test]
fn position_of_an_ancestor_plays_no_part() {
    let parents = table(vec![with_method(folded(A, vec![]), M, concrete(A))]);
    let somewhere = Pos::new(
        RelativePath { prefix: Prefix::Root, path: Symbol(3) },
        FilePos { lnum: 1, bol: 0, cnum: 4 },
        FilePos { lnum: 1, bol: 0, cnum: 9 },
    );
    let placed = DeclTy::Apply(Positioned::new(somewhere, tn(A)), vec![]);
    let sc = shallow(CLASS, vec![placed], vec![], vec![]);
    let plain = shallow(CLASS, vec![apply(A, vec![])], vec![], vec![]);
    assert_eq!(Inherited::make(&sc, &parents), Inherited::make(&plain, &parents));
}

#[test]
fn same_ancestor_named_twice() {
    let parents = table(vec![with_method(folded(A, vec![T]), M, concrete(A))]);
    let sc = shallow(
        CLASS,
        vec![apply(A, vec![DeclTy::Mixed]), apply(A, vec![DeclTy::Dynamic])],
        vec![],
        vec![],
    );
    let inh = Inherited::make(&sc, &parents);
    // The method meets itself and is marked as an override; the context
    // of the use merged first, declared last, stands.
    assert_eq!(inh.methods[&M], elem(false, false, false, A));
    assert_eq!(*inh.substs[&A].subst[&T], DeclTy::Dynamic);
}

#[test]
fn inherited_contexts_share_their_types() {
    let mut grand = context(A, false);
    grand.subst.insert(U, Arc::new(apply(C, vec![DeclTy::Mixed])));
    let mut parent = folded(A, vec![]);
    parent.substs.insert(X, grand);
    let parents = table(vec![parent]);
    let sc = shallow(CLASS, vec![apply(A, vec![])], vec![], vec![]);
    let inh = Inherited::make(&sc, &parents);
    // The context came down through two copies of the map; the type it
    // binds is still the one allocation.
    assert!(Arc::ptr_eq(&inh.substs[&X].subst[&U], &parents[&A].substs[&X].subst[&U]));
}
