//! The declarations that inheritance folding reads and produces.

use vstd::prelude::*;
use std::sync::Arc;
use crate::symbol::{SymbolMap, TypeName, TypeNameMap};
use crate::position::Positioned;

verus! {

/// Whether a class may be instantiated.
#[derive(Clone, Copy, PartialEq, Eq, Structural, Debug, Hash)]
pub enum Abstraction {
    Concrete,
    Abstract,
}

/// What kind of class-like declaration something is.
#[derive(Clone, Copy, PartialEq, Eq, Structural, Debug, Hash)]
pub enum ClassishKind {
    Cclass(Abstraction),
    Cinterface,
    Ctrait,
    Cenum,
    CenumClass(Abstraction),
}

/// Who may use a member.
#[derive(Clone, Copy, PartialEq, Eq, Structural, Debug, Hash)]
pub enum Visibility {
    Public,
    Private(TypeName),
    Protected(TypeName),
}

/// A class member after inheritance has been resolved. Folding looks at
/// the three flags; origin and visibility pass through untouched.
#[derive(Clone, Copy, PartialEq, Eq, Structural, Debug, Hash)]
pub struct FoldedElement {
    /// The member has no body.
    pub is_abstract: bool,
    /// The member is present only through an implicit relationship, such
    /// as a trait's requirement, not because the contributing class's
    /// author wrote it.
    pub is_synthesized: bool,
    /// The entry is a plain copy and overrides nothing.
    pub is_superfluous_override: bool,
    /// The class that declared the member.
    pub origin: TypeName,
    pub visibility: Visibility,
}

impl FoldedElement {
    /// Whether the member has no body.
    pub fn is_abstract(&self) -> (b: bool)
        ensures
            b == self.is_abstract,
    {
        self.is_abstract
    }

    /// Whether the member is present only through an implicit
    /// relationship.
    pub fn is_synthesized(&self) -> (b: bool)
        ensures
            b == self.is_synthesized,
    {
        self.is_synthesized
    }

    /// Whether the entry is a plain copy that overrides nothing.
    pub fn is_superfluous_override(&self) -> (b: bool)
        ensures
            b == self.is_superfluous_override,
    {
        self.is_superfluous_override
    }

    /// Marks the entry as a plain copy (`true`) or as a genuine override
    /// (`false`).
    pub fn set_is_superfluous_override(&mut self, value: bool)
        ensures
            *final(self) == (FoldedElement { is_superfluous_override: value, ..*old(self) }),
    {
        self.is_superfluous_override = value;
    }
}

/// A type as written in a declaration.
#[derive(Debug, PartialEq, Eq)]
pub enum DeclTy {
    /// The top type.
    Mixed,
    /// The dynamic type.
    Dynamic,
    /// A reference to a type parameter.
    Generic(TypeName),
    /// A class type applied to type arguments, `C<A1, ..., An>`.
    Apply(Positioned<TypeName>, Vec<DeclTy>),
}

/// The mathematical value of a [`DeclTy`].
#[verifier::ext_equal]
pub enum TyTerm {
    Mixed,
    Dynamic,
    Generic(TypeName),
    Apply(Positioned<TypeName>, Seq<TyTerm>),
}

/// The value of a type: the same tree, with the arguments as a sequence.
pub open spec fn term_of(t: DeclTy) -> TyTerm
    decreases t,
{
    match t {
        DeclTy::Mixed => TyTerm::Mixed,
        DeclTy::Dynamic => TyTerm::Dynamic,
        DeclTy::Generic(name) => TyTerm::Generic(name),
        DeclTy::Apply(name, args) => TyTerm::Apply(
            name,
            Seq::new(
                args@.len(),
                |i: int|
                    if 0 <= i < args@.len() {
                        term_of(args@[i])
                    } else {
                        TyTerm::Mixed
                    },
            ),
        ),
    }
}

impl View for DeclTy {
    type V = TyTerm;

    open spec fn view(&self) -> TyTerm {
        term_of(*self)
    }
}

/// The values of a list of types, in order.
pub open spec fn terms_of(tys: Seq<DeclTy>) -> Seq<TyTerm> {
    Seq::new(tys.len(), |i: int| tys[i]@)
}

impl DeclTy {
    /// The class name and type arguments of a class-type application;
    /// `None` for every other type.
    pub fn unwrap_class_type(&self) -> (r: Option<(&Positioned<TypeName>, &[DeclTy])>)
        ensures
            match r {
                Some((name, args)) => self@ == TyTerm::Apply(*name, terms_of(args@)),
                None => !(self@ is Apply),
            },
    {
        match self {
            DeclTy::Apply(name, args) => {
                assert(self@->Apply_1 =~= terms_of(args@));
                Some((name, args.as_slice()))
            },
            _ => None,
        }
    }
}

impl Clone for DeclTy {
    /// A deep copy.
    fn clone(&self) -> (r: DeclTy)
        ensures
            r@ == self@,
        decreases self,
    {
        match self {
            DeclTy::Mixed => DeclTy::Mixed,
            DeclTy::Dynamic => DeclTy::Dynamic,
            DeclTy::Generic(name) => DeclTy::Generic(*name),
            DeclTy::Apply(name, args) => {
                let mut out: Vec<DeclTy> = Vec::new();
                let mut i: usize = 0;
                while i < args.len()
                    invariant
                        i <= args.len(),
                        out@.len() == i,
                        self->Apply_1 == *args,
                        *self is Apply,
                        forall|j: int| 0 <= j < i ==> out@[j]@ == args@[j]@,
                    decreases args.len() - i,
                {
                    proof {
                        assert(decreases_to!(*args => args[i as int]));
                        assert(decreases_to!(self => self->Apply_1));
                    }
                    let t = args[i].clone();
                    out.push(t);
                    i += 1;
                }
                let r = DeclTy::Apply(*name, out);
                assert(r@->Apply_1 =~= self@->Apply_1);
                r
            },
        }
    }
}

/// The values of the types in a substitution, key by key.
pub open spec fn subst_terms(m: Map<u64, Arc<DeclTy>>) -> Map<u64, TyTerm> {
    m.map_values(|t: Arc<DeclTy>| t@)
}

/// How one ancestor's type parameters are instantiated at the place where
/// a class names that ancestor.
#[derive(Debug, PartialEq, Eq)]
pub struct SubstContext {
    /// From the number of each of the ancestor's type parameters to the
    /// type argument supplied for it. The arguments are shared, so that
    /// copying a context copies no type.
    pub subst: TypeNameMap<Arc<DeclTy>>,
    /// The class in which the substitution was recorded.
    pub class_context: TypeName,
    /// The substitution comes from a trait's "require extends"
    /// constraint, not from a genuine extends or implements relationship.
    pub from_req_extends: bool,
}

/// The mathematical value of a [`SubstContext`].
#[verifier::ext_equal]
pub struct SubstContextView {
    pub subst: Map<u64, TyTerm>,
    pub class_context: TypeName,
    pub from_req_extends: bool,
}

impl View for SubstContext {
    type V = SubstContextView;

    open spec fn view(&self) -> SubstContextView {
        SubstContextView {
            subst: subst_terms(self.subst@),
            class_context: self.class_context,
            from_req_extends: self.from_req_extends,
        }
    }
}

impl Clone for SubstContext {
    fn clone(&self) -> (r: Self)
        ensures
            r@ == self@,
    {
        SubstContext {
            subst: self.subst.clone(),
            class_context: self.class_context,
            from_req_extends: self.from_req_extends,
        }
    }
}

/// The values of the substitution contexts in a map, key by key.
pub open spec fn context_views(m: Map<u64, SubstContext>) -> Map<u64, SubstContextView> {
    m.map_values(|sc: SubstContext| sc@)
}

/// A class's own syntactic declaration, as far as inheritance reads it.
#[derive(Debug, PartialEq, Eq)]
pub struct ShallowClass {
    pub name: Positioned<TypeName>,
    pub kind: ClassishKind,
    /// The types after `extends`, in declared order.
    pub extends: Vec<DeclTy>,
    /// The types after `implements`, in declared order.
    pub implements: Vec<DeclTy>,
    /// The types after `require implements`, in declared order.
    pub req_implements: Vec<DeclTy>,
}

/// The mathematical value of a [`ShallowClass`].
#[verifier::ext_equal]
pub struct ShallowClassView {
    pub name: Positioned<TypeName>,
    pub kind: ClassishKind,
    pub extends: Seq<TyTerm>,
    pub implements: Seq<TyTerm>,
    pub req_implements: Seq<TyTerm>,
}

impl View for ShallowClass {
    type V = ShallowClassView;

    open spec fn view(&self) -> ShallowClassView {
        ShallowClassView {
            name: self.name,
            kind: self.kind,
            extends: terms_of(self.extends@),
            implements: terms_of(self.implements@),
            req_implements: terms_of(self.req_implements@),
        }
    }
}

/// The complete declaration of a class: its own members combined with
/// everything it inherits. Built once, then only read.
#[derive(Debug, PartialEq, Eq)]
pub struct FoldedClass {
    pub name: TypeName,
    /// The class's type parameters, in declared order.
    pub tparams: Vec<TypeName>,
    /// By ancestor name: how that ancestor is instantiated.
    pub substs: TypeNameMap<SubstContext>,
    pub props: SymbolMap<FoldedElement>,
    pub static_props: SymbolMap<FoldedElement>,
    pub methods: SymbolMap<FoldedElement>,
    pub static_methods: SymbolMap<FoldedElement>,
    pub constructor: Option<FoldedElement>,
}

/// The mathematical value of a [`FoldedClass`].
#[verifier::ext_equal]
pub struct FoldedClassView {
    pub name: TypeName,
    pub tparams: Seq<TypeName>,
    pub substs: Map<u64, SubstContextView>,
    pub props: Map<u64, FoldedElement>,
    pub static_props: Map<u64, FoldedElement>,
    pub methods: Map<u64, FoldedElement>,
    pub static_methods: Map<u64, FoldedElement>,
    pub constructor: Option<FoldedElement>,
}

impl View for FoldedClass {
    type V = FoldedClassView;

    open spec fn view(&self) -> FoldedClassView {
        FoldedClassView {
            name: self.name,
            tparams: self.tparams@,
            substs: context_views(self.substs@),
            props: self.props@,
            static_props: self.static_props@,
            methods: self.methods@,
            static_methods: self.static_methods@,
            constructor: self.constructor,
        }
    }
}


} // verus!
