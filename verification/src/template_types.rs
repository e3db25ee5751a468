//! Template types: a declaration with type variables that adds what it says to
//! every declared type that it matches.

use crate::def::{
    fields_view, method_details_view, opt_text, opt_text_copy, opt_texts_copy, variants_view,
    ConstructorModel, CppHeapAllocated, CppRef, FieldModel, MethodDetailsModel, MethodModel,
    VariantModel, ZngurConstructor, ZngurField, ZngurMethod, ZngurMethodDetails, ZngurType,
    ZngurTypeModel, ZngurVariant,
};
use crate::merge::{failure, merge_template, MergeResult};
use crate::rust_types::{
    named_view, types_view, unit_model, PathModel, RustPathAndGenerics, RustTrait, RustType,
    TraitModel, TypeModel,
};
use crate::text::{strings_copy, strings_eq};
use vstd::prelude::*;

verus! {

broadcast use vstd::std_specs::vec::group_vec_axioms;

/// What the variables of a template stand for.
pub type Bindings = Seq<(Seq<char>, TypeModel)>;

/// The type that a variable stands for.
pub open spec fn lookup(m: Bindings, v: Seq<char>) -> Option<TypeModel>
    decreases m.len(),
{
    if m.len() == 0 {
        None
    } else if m.last().0 == v {
        Some(m.last().1)
    } else {
        lookup(m.drop_last(), v)
    }
}

/// The bindings once `v` has been met where `ty` stands, or `None` where `v`
/// already stands for another type.
pub open spec fn bind(m: Bindings, v: Seq<char>, ty: TypeModel) -> Option<Bindings> {
    match lookup(m, v) {
        Some(t) => if t == ty {
            Some(m)
        } else {
            None
        },
        None => Some(m.push((v, ty))),
    }
}

/// The bindings under which the first `n` types are the first `n` of the
/// template, or `None`.
pub open spec fn match_list(
    tys: Seq<TypeModel>,
    template: Seq<TypeModel>,
    n: nat,
    m: Bindings,
) -> Option<Bindings>
    decreases template, n,
{
    if n == 0 || n > template.len() {
        Some(m)
    } else {
        match match_list(tys, template, (n - 1) as nat, m) {
            Some(m1) => match_type(tys[n - 1], template[n - 1], m1),
            None => None,
        }
    }
}

/// As [`match_list`], for named types.
pub open spec fn match_named(
    tys: Seq<(Seq<char>, TypeModel)>,
    template: Seq<(Seq<char>, TypeModel)>,
    n: nat,
    m: Bindings,
) -> Option<Bindings>
    decreases template, n,
{
    if n == 0 || n > template.len() {
        Some(m)
    } else {
        match match_named(tys, template, (n - 1) as nat, m) {
            Some(m1) => if tys[n - 1].0 == template[n - 1].0 {
                match_type(tys[n - 1].1, template[n - 1].1, m1)
            } else {
                None
            },
            None => None,
        }
    }
}

/// The bindings under which a path is that of the template, or `None`.
pub open spec fn match_path(p: PathModel, template: PathModel, m: Bindings) -> Option<Bindings>
    decreases template, 0nat,
{
    if p.path != template.path || p.generics.len() != template.generics.len()
        || p.named_generics.len() != template.named_generics.len() {
        None
    } else {
        match match_list(p.generics, template.generics, template.generics.len(), m) {
            Some(m1) => match_named(
                p.named_generics,
                template.named_generics,
                template.named_generics.len(),
                m1,
            ),
            None => None,
        }
    }
}

/// The bindings under which a trait is that of the template, or `None`.
pub open spec fn match_trait(t: TraitModel, template: TraitModel, m: Bindings) -> Option<Bindings>
    decreases template, 0nat,
{
    match (t, template) {
        (TraitModel::Normal(a), TraitModel::Normal(b)) => match_path(a, b, m),
        (
            TraitModel::Fn { name: n1, inputs: i1, output: o1 },
            TraitModel::Fn { name: n2, inputs: i2, output: o2 },
        ) => if n1 != n2 || i1.len() != i2.len() {
            None
        } else {
            match match_list(i1, i2, i2.len(), m) {
                Some(m1) => match_type(*o1, *o2, m1),
                None => None,
            }
        },
        _ => None,
    }
}

/// The bindings, beyond `m`, under which `ty` is the template, or `None`.
pub open spec fn match_type(ty: TypeModel, template: TypeModel, m: Bindings) -> Option<Bindings>
    decreases template, 0nat,
{
    match template {
        TypeModel::TypeVar(v) => bind(m, v, ty),
        TypeModel::Primitive(q) => if ty == TypeModel::Primitive(q) {
            Some(m)
        } else {
            None
        },
        TypeModel::Ref(n, b) => match ty {
            TypeModel::Ref(k, a) => if k == n {
                match_type(*a, *b, m)
            } else {
                None
            },
            _ => None,
        },
        TypeModel::Raw(n, b) => match ty {
            TypeModel::Raw(k, a) => if k == n {
                match_type(*a, *b, m)
            } else {
                None
            },
            _ => None,
        },
        TypeModel::Boxed(b) => match ty {
            TypeModel::Boxed(a) => match_type(*a, *b, m),
            _ => None,
        },
        TypeModel::Slice(b) => match ty {
            TypeModel::Slice(a) => match_type(*a, *b, m),
            _ => None,
        },
        TypeModel::Dyn(b, bounds) => match ty {
            TypeModel::Dyn(a, k) => if k == bounds {
                match_trait(a, b, m)
            } else {
                None
            },
            _ => None,
        },
        TypeModel::Impl(b, bounds) => match ty {
            TypeModel::Impl(a, k) => if k == bounds {
                match_trait(a, b, m)
            } else {
                None
            },
            _ => None,
        },
        TypeModel::Tuple(b) => match ty {
            TypeModel::Tuple(a) => if a.len() == b.len() {
                match_list(a, b, b.len(), m)
            } else {
                None
            },
            _ => None,
        },
        TypeModel::Adt(b) => match ty {
            TypeModel::Adt(a) => match_path(a, b, m),
            _ => None,
        },
        TypeModel::Cpp(p) => if ty == TypeModel::Cpp(p) {
            Some(m)
        } else {
            None
        },
    }
}

/// The first `n` types with their variables replaced, or the first variable
/// that stands for nothing.
pub open spec fn subst_list(v: Seq<TypeModel>, n: nat, m: Bindings) -> Result<
    Seq<TypeModel>,
    Seq<char>,
>
    decreases v, n,
{
    if n == 0 || n > v.len() {
        Ok(Seq::empty())
    } else {
        match subst_list(v, (n - 1) as nat, m) {
            Ok(s) => match subst_type(v[n - 1], m) {
                Ok(t) => Ok(s.push(t)),
                Err(e) => Err(e),
            },
            Err(e) => Err(e),
        }
    }
}

/// As [`subst_list`], for named types.
pub open spec fn subst_named(v: Seq<(Seq<char>, TypeModel)>, n: nat, m: Bindings) -> Result<
    Seq<(Seq<char>, TypeModel)>,
    Seq<char>,
>
    decreases v, n,
{
    if n == 0 || n > v.len() {
        Ok(Seq::empty())
    } else {
        match subst_named(v, (n - 1) as nat, m) {
            Ok(s) => match subst_type(v[n - 1].1, m) {
                Ok(t) => Ok(s.push((v[n - 1].0, t))),
                Err(e) => Err(e),
            },
            Err(e) => Err(e),
        }
    }
}

/// A path with its variables replaced, or the first that stands for nothing.
pub open spec fn subst_path(p: PathModel, m: Bindings) -> Result<PathModel, Seq<char>>
    decreases p, 0nat,
{
    match subst_list(p.generics, p.generics.len(), m) {
        Ok(generics) => match subst_named(p.named_generics, p.named_generics.len(), m) {
            Ok(named_generics) => Ok(PathModel { path: p.path, generics, named_generics }),
            Err(e) => Err(e),
        },
        Err(e) => Err(e),
    }
}

/// A trait with its variables replaced, or the first that stands for nothing.
pub open spec fn subst_trait(t: TraitModel, m: Bindings) -> Result<TraitModel, Seq<char>>
    decreases t, 0nat,
{
    match t {
        TraitModel::Normal(p) => match subst_path(p, m) {
            Ok(q) => Ok(TraitModel::Normal(q)),
            Err(e) => Err(e),
        },
        TraitModel::Fn { name, inputs, output } => match subst_list(inputs, inputs.len(), m) {
            Ok(i) => match subst_type(*output, m) {
                Ok(o) => Ok(TraitModel::Fn { name, inputs: i, output: Box::new(o) }),
                Err(e) => Err(e),
            },
            Err(e) => Err(e),
        },
    }
}

/// A type with its variables replaced, or the first that stands for nothing.
pub open spec fn subst_type(t: TypeModel, m: Bindings) -> Result<TypeModel, Seq<char>>
    decreases t, 0nat,
{
    match t {
        TypeModel::TypeVar(v) => match lookup(m, v) {
            Some(ty) => Ok(ty),
            None => Err(v),
        },
        TypeModel::Primitive(p) => Ok(t),
        TypeModel::Cpp(p) => Ok(t),
        TypeModel::Ref(k, a) => match subst_type(*a, m) {
            Ok(x) => Ok(TypeModel::Ref(k, Box::new(x))),
            Err(e) => Err(e),
        },
        TypeModel::Raw(k, a) => match subst_type(*a, m) {
            Ok(x) => Ok(TypeModel::Raw(k, Box::new(x))),
            Err(e) => Err(e),
        },
        TypeModel::Boxed(a) => match subst_type(*a, m) {
            Ok(x) => Ok(TypeModel::Boxed(Box::new(x))),
            Err(e) => Err(e),
        },
        TypeModel::Slice(a) => match subst_type(*a, m) {
            Ok(x) => Ok(TypeModel::Slice(Box::new(x))),
            Err(e) => Err(e),
        },
        TypeModel::Dyn(a, b) => match subst_trait(a, m) {
            Ok(x) => Ok(TypeModel::Dyn(x, b)),
            Err(e) => Err(e),
        },
        TypeModel::Impl(a, b) => match subst_trait(a, m) {
            Ok(x) => Ok(TypeModel::Impl(x, b)),
            Err(e) => Err(e),
        },
        TypeModel::Tuple(v) => match subst_list(v, v.len(), m) {
            Ok(x) => Ok(TypeModel::Tuple(x)),
            Err(e) => Err(e),
        },
        TypeModel::Adt(p) => match subst_path(p, m) {
            Ok(x) => Ok(TypeModel::Adt(x)),
            Err(e) => Err(e),
        },
    }
}

/// The type behind all references and raw pointers.
pub open spec fn pointee(t: TypeModel) -> TypeModel
    decreases t,
{
    match t {
        TypeModel::Ref(_, a) => pointee(*a),
        TypeModel::Raw(_, a) => pointee(*a),
        _ => t,
    }
}

/// Whether C++ knows a type: primitives and the unit type always, a reference
/// where it knows the target, others where they are declared.
pub open spec fn is_defined(t: TypeModel, defined: Seq<TypeModel>) -> bool {
    let p = pointee(t);
    p is Primitive || p == unit_model() || defined.contains(p)
}

/// Why a type of a template cannot be used.
#[derive(Debug, PartialEq, Eq)]
pub enum SubstitutionError {
    /// The variable stands for nothing.
    UnboundVar(String),
    /// The type is not declared.
    UndefinedType,
}

/// What a [`SubstitutionError`] holds.
pub enum SubstitutionErrorModel {
    UnboundVar(Seq<char>),
    UndefinedType,
}

impl SubstitutionError {
    pub open spec fn view(&self) -> SubstitutionErrorModel {
        match self {
            SubstitutionError::UnboundVar(v) => SubstitutionErrorModel::UnboundVar(v@),
            SubstitutionError::UndefinedType => SubstitutionErrorModel::UndefinedType,
        }
    }
}

/// A type of a template with its variables replaced, where C++ knows it.
pub open spec fn substituted(t: TypeModel, m: Bindings, defined: Seq<TypeModel>) -> Result<
    TypeModel,
    SubstitutionErrorModel,
> {
    match subst_type(t, m) {
        Ok(x) => if is_defined(x, defined) {
            Ok(x)
        } else {
            Err(SubstitutionErrorModel::UndefinedType)
        },
        Err(v) => Err(SubstitutionErrorModel::UnboundVar(v)),
    }
}

/// The first `n` types, each as [`substituted`], or the first error.
pub open spec fn substituted_list(
    v: Seq<TypeModel>,
    n: nat,
    m: Bindings,
    defined: Seq<TypeModel>,
) -> Result<Seq<TypeModel>, SubstitutionErrorModel>
    decreases n,
{
    if n == 0 || n > v.len() {
        Ok(Seq::empty())
    } else {
        match substituted_list(v, (n - 1) as nat, m, defined) {
            Ok(s) => match substituted(v[n - 1], m, defined) {
                Ok(t) => Ok(s.push(t)),
                Err(e) => Err(e),
            },
            Err(e) => Err(e),
        }
    }
}

/// As [`substituted_list`], for named types.
pub open spec fn substituted_named(
    v: Seq<(Seq<char>, TypeModel)>,
    n: nat,
    m: Bindings,
    defined: Seq<TypeModel>,
) -> Result<Seq<(Seq<char>, TypeModel)>, SubstitutionErrorModel>
    decreases n,
{
    if n == 0 || n > v.len() {
        Ok(Seq::empty())
    } else {
        match substituted_named(v, (n - 1) as nat, m, defined) {
            Ok(s) => match substituted(v[n - 1].1, m, defined) {
                Ok(t) => Ok(s.push((v[n - 1].0, t))),
                Err(e) => Err(e),
            },
            Err(e) => Err(e),
        }
    }
}

/// A method of a template with its variables replaced, or the first error.
pub open spec fn substituted_method(
    d: MethodDetailsModel,
    m: Bindings,
    defined: Seq<TypeModel>,
) -> Result<MethodDetailsModel, SubstitutionErrorModel> {
    match substituted_list(d.data.generics, d.data.generics.len(), m, defined) {
        Err(e) => Err(e),
        Ok(generics) => match substituted_list(d.data.inputs, d.data.inputs.len(), m, defined) {
            Err(e) => Err(e),
            Ok(inputs) => match substituted(d.data.output, m, defined) {
                Err(e) => Err(e),
                Ok(output) => {
                    let data = MethodModel { generics, inputs, output, ..d.data };
                    match d.deref {
                        None => Ok(MethodDetailsModel { data, ..d }),
                        Some(x) => match substituted(x.0, m, defined) {
                            Err(e) => Err(e),
                            Ok(t) => Ok(MethodDetailsModel { data, deref: Some((t, x.1)), ..d }),
                        },
                    }
                },
            },
        },
    }
}

/// Those of the first `n` methods of a template that C++ can be given.
pub open spec fn kept_methods(
    v: Seq<MethodDetailsModel>,
    n: nat,
    m: Bindings,
    defined: Seq<TypeModel>,
) -> Seq<MethodDetailsModel>
    decreases n,
{
    if n == 0 || n > v.len() {
        Seq::empty()
    } else {
        let front = kept_methods(v, (n - 1) as nat, m, defined);
        match substituted_method(v[n - 1], m, defined) {
            Ok(x) => front.push(x),
            Err(_) => front,
        }
    }
}

/// Those of the first `n` fields of a template that C++ can be given.
pub open spec fn kept_fields(
    v: Seq<FieldModel>,
    n: nat,
    m: Bindings,
    defined: Seq<TypeModel>,
) -> Seq<FieldModel>
    decreases n,
{
    if n == 0 || n > v.len() {
        Seq::empty()
    } else {
        let front = kept_fields(v, (n - 1) as nat, m, defined);
        match substituted(v[n - 1].ty, m, defined) {
            Ok(ty) => front.push(FieldModel { ty, ..v[n - 1] }),
            Err(_) => front,
        }
    }
}

/// Those of the first `n` variants of a template of which C++ can be given
/// every field.
pub open spec fn kept_variants(
    v: Seq<VariantModel>,
    n: nat,
    m: Bindings,
    defined: Seq<TypeModel>,
) -> Seq<VariantModel>
    decreases n,
{
    if n == 0 || n > v.len() {
        Seq::empty()
    } else {
        let front = kept_variants(v, (n - 1) as nat, m, defined);
        let fields = kept_fields(v[n - 1].fields, v[n - 1].fields.len(), m, defined);
        if fields.len() == v[n - 1].fields.len() {
            front.push(VariantModel { fields, ..v[n - 1] })
        } else {
            front
        }
    }
}

/// The constructor of a template, where C++ can be given its fields.
pub open spec fn kept_constructor(
    c: Option<ConstructorModel>,
    m: Bindings,
    defined: Seq<TypeModel>,
) -> Option<ConstructorModel> {
    match c {
        None => None,
        Some(x) => match substituted_named(x.inputs, x.inputs.len(), m, defined) {
            Ok(inputs) => Some(ConstructorModel { inputs }),
            Err(_) => None,
        },
    }
}

/// The first variable that stands for nothing in one of the first `n` methods
/// of a template, and the name of the method. A type that is not declared goes
/// before such a variable behind it.
pub open spec fn unbound_in_methods(
    v: Seq<MethodDetailsModel>,
    n: nat,
    m: Bindings,
    defined: Seq<TypeModel>,
) -> Option<(Seq<char>, Seq<char>)>
    decreases n,
{
    if n == 0 || n > v.len() {
        None
    } else if unbound_in_methods(v, (n - 1) as nat, m, defined) is Some {
        unbound_in_methods(v, (n - 1) as nat, m, defined)
    } else {
        match substituted_method(v[n - 1], m, defined) {
            Err(SubstitutionErrorModel::UnboundVar(x)) => Some((x, v[n - 1].data.name)),
            _ => None,
        }
    }
}

/// As [`unbound_in_methods`], for fields.
pub open spec fn unbound_in_fields(
    v: Seq<FieldModel>,
    n: nat,
    m: Bindings,
    defined: Seq<TypeModel>,
) -> Option<(Seq<char>, Seq<char>)>
    decreases n,
{
    if n == 0 || n > v.len() {
        None
    } else if unbound_in_fields(v, (n - 1) as nat, m, defined) is Some {
        unbound_in_fields(v, (n - 1) as nat, m, defined)
    } else {
        match substituted(v[n - 1].ty, m, defined) {
            Err(SubstitutionErrorModel::UnboundVar(x)) => Some((x, v[n - 1].name)),
            _ => None,
        }
    }
}

/// As [`unbound_in_methods`], for the fields of variants.
pub open spec fn unbound_in_variants(
    v: Seq<VariantModel>,
    n: nat,
    m: Bindings,
    defined: Seq<TypeModel>,
) -> Option<(Seq<char>, Seq<char>)>
    decreases n,
{
    if n == 0 || n > v.len() {
        None
    } else if unbound_in_variants(v, (n - 1) as nat, m, defined) is Some {
        unbound_in_variants(v, (n - 1) as nat, m, defined)
    } else {
        unbound_in_fields(v[n - 1].fields, v[n - 1].fields.len(), m, defined)
    }
}

/// The first variable that stands for nothing in a constructor.
pub open spec fn unbound_in_constructor(
    c: Option<ConstructorModel>,
    m: Bindings,
    defined: Seq<TypeModel>,
) -> Option<Seq<char>> {
    match c {
        Some(x) => match substituted_named(x.inputs, x.inputs.len(), m, defined) {
            Err(SubstitutionErrorModel::UnboundVar(v)) => Some(v),
            _ => None,
        },
        None => None,
    }
}

/// What is said of a variable in a member of a template that stands for nothing
/// where the template is applied to a type that it matches.
pub open spec fn template_unbound(
    ty: TypeModel,
    template: ZngurTypeModel,
    defined: Seq<TypeModel>,
) -> Option<Seq<char>> {
    let z = template;
    match match_type(ty, z.ty, Seq::empty()) {
        None => None,
        Some(m) => {
            let place = if unbound_in_methods(z.methods, z.methods.len(), m, defined) is Some {
                let (v, name) = unbound_in_methods(z.methods, z.methods.len(), m, defined)->0;
                Some(v + " in method "@ + name)
            } else if unbound_in_constructor(z.constructor, m, defined) is Some {
                Some(unbound_in_constructor(z.constructor, m, defined)->0 + " in constructor"@)
            } else if unbound_in_variants(z.variants, z.variants.len(), m, defined) is Some {
                let (v, name) = unbound_in_variants(z.variants, z.variants.len(), m, defined)->0;
                Some(v + " in field "@ + name)
            } else if unbound_in_fields(z.fields, z.fields.len(), m, defined) is Some {
                let (v, name) = unbound_in_fields(z.fields, z.fields.len(), m, defined)->0;
                Some(v + " in field "@ + name)
            } else {
                None
            };
            match place {
                Some(p) => Some(
                    "Unbound type variable "@ + p + " in template "@ + z.ty.text() + " for type "@
                        + ty.text(),
                ),
                None => None,
            }
        },
    }
}

/// What a template says of a type, or `None` where it does not match.
pub open spec fn template_match(
    ty: TypeModel,
    template: ZngurTypeModel,
    defined: Seq<TypeModel>,
) -> Option<ZngurTypeModel> {
    match match_type(ty, template.ty, Seq::empty()) {
        None => None,
        Some(m) => Some(
            ZngurTypeModel {
                ty,
                methods: kept_methods(template.methods, template.methods.len(), m, defined),
                constructor: kept_constructor(template.constructor, m, defined),
                variants: kept_variants(template.variants, template.variants.len(), m, defined),
                fields: kept_fields(template.fields, template.fields.len(), m, defined),
                ..template
            },
        ),
    }
}

/// Whether every variable that `a` binds stands for the same type under `b`.
pub open spec fn extends(a: Bindings, b: Bindings) -> bool {
    forall|v: Seq<char>| (#[trigger] lookup(a, v)) is Some ==> lookup(b, v) == lookup(a, v)
}

proof fn lemma_bind_extends(m: Bindings, v: Seq<char>, ty: TypeModel)
    ensures
        bind(m, v, ty) matches Some(m1) ==> extends(m, m1) && lookup(m1, v) == Some(ty),
{
    let p = m.push((v, ty));
    assert(p.drop_last() =~= m);
    assert(p.last() == (v, ty));
    assert forall|w: Seq<char>| (#[trigger] lookup(m, w)) is Some && lookup(m, v) is None implies
        lookup(p, w) == lookup(m, w) by {
        assert(w != v);
    }
}

proof fn lemma_match_list(
    tys: Seq<TypeModel>,
    template: Seq<TypeModel>,
    n: nat,
    m: Bindings,
    big: Bindings,
)
    requires
        n <= template.len(),
        tys.len() == template.len(),
    ensures
        match_list(tys, template, n, m) matches Some(m1) ==> extends(m, m1) && (extends(m1, big)
            ==> subst_list(template, n, big) == Ok::<Seq<TypeModel>, Seq<char>>(tys.take(n as int))),
    decreases template, n,
{
    if n == 0 {
        assert(tys.take(0) =~= Seq::empty());
    } else {
        let k = (n - 1) as nat;
        lemma_match_list(tys, template, k, m, big);
        if let Some(m1) = match_list(tys, template, k, m) {
            lemma_match_type(tys[n - 1], template[n - 1], m1, big);
            assert(tys.take(n as int) =~= tys.take(k as int).push(tys[n - 1]));
        }
    }
}

proof fn lemma_match_named(
    tys: Seq<(Seq<char>, TypeModel)>,
    template: Seq<(Seq<char>, TypeModel)>,
    n: nat,
    m: Bindings,
    big: Bindings,
)
    requires
        n <= template.len(),
        tys.len() == template.len(),
    ensures
        match_named(tys, template, n, m) matches Some(m1) ==> extends(m, m1) && (extends(m1, big)
            ==> subst_named(template, n, big) == Ok::<Seq<(Seq<char>, TypeModel)>, Seq<char>>(
            tys.take(n as int),
        )),
    decreases template, n,
{
    if n == 0 {
        assert(tys.take(0) =~= Seq::empty());
    } else {
        let k = (n - 1) as nat;
        lemma_match_named(tys, template, k, m, big);
        if let Some(m1) = match_named(tys, template, k, m) {
            lemma_match_type(tys[n - 1].1, template[n - 1].1, m1, big);
            assert(tys.take(n as int) =~= tys.take(k as int).push(tys[n - 1]));
        }
    }
}

proof fn lemma_match_path(p: PathModel, template: PathModel, m: Bindings, big: Bindings)
    ensures
        match_path(p, template, m) matches Some(m1) ==> extends(m, m1) && (extends(m1, big)
            ==> subst_path(template, big) == Ok::<PathModel, Seq<char>>(p)),
    decreases template, 0nat,
{
    if p.generics.len() == template.generics.len() && p.named_generics.len()
        == template.named_generics.len() {
        lemma_match_list(p.generics, template.generics, template.generics.len(), m, big);
        assert(p.generics.take(p.generics.len() as int) =~= p.generics);
        assert(p.named_generics.take(p.named_generics.len() as int) =~= p.named_generics);
        if let Some(m1) = match_list(p.generics, template.generics, template.generics.len(), m) {
            lemma_match_named(
                p.named_generics,
                template.named_generics,
                template.named_generics.len(),
                m1,
                big,
            );
        }
    }
}

proof fn lemma_match_trait(t: TraitModel, template: TraitModel, m: Bindings, big: Bindings)
    ensures
        match_trait(t, template, m) matches Some(m1) ==> extends(m, m1) && (extends(m1, big)
            ==> subst_trait(template, big) == Ok::<TraitModel, Seq<char>>(t)),
    decreases template, 0nat,
{
    match (t, template) {
        (TraitModel::Normal(a), TraitModel::Normal(b)) => lemma_match_path(a, b, m, big),
        (
            TraitModel::Fn { name: n1, inputs: i1, output: o1 },
            TraitModel::Fn { name: n2, inputs: i2, output: o2 },
        ) => {
            if i1.len() == i2.len() {
                lemma_match_list(i1, i2, i2.len(), m, big);
                assert(i1.take(i1.len() as int) =~= i1);
                if let Some(m1) = match_list(i1, i2, i2.len(), m) {
                    lemma_match_type(*o1, *o2, m1, big);
                }
            }
        },
        _ => {},
    }
}

proof fn lemma_match_type(ty: TypeModel, template: TypeModel, m: Bindings, big: Bindings)
    ensures
        match_type(ty, template, m) matches Some(m1) ==> extends(m, m1) && (extends(m1, big)
            ==> subst_type(template, big) == Ok::<TypeModel, Seq<char>>(ty)),
    decreases template, 0nat,
{
    match template {
        TypeModel::TypeVar(v) => lemma_bind_extends(m, v, ty),
        TypeModel::Ref(n, b) => {
            if let TypeModel::Ref(k, a) = ty {
                lemma_match_type(*a, *b, m, big);
            }
        },
        TypeModel::Raw(n, b) => {
            if let TypeModel::Raw(k, a) = ty {
                lemma_match_type(*a, *b, m, big);
            }
        },
        TypeModel::Boxed(b) => {
            if let TypeModel::Boxed(a) = ty {
                lemma_match_type(*a, *b, m, big);
            }
        },
        TypeModel::Slice(b) => {
            if let TypeModel::Slice(a) = ty {
                lemma_match_type(*a, *b, m, big);
            }
        },
        TypeModel::Dyn(b, bounds) => {
            if let TypeModel::Dyn(a, k) = ty {
                lemma_match_trait(a, b, m, big);
            }
        },
        TypeModel::Impl(b, bounds) => {
            if let TypeModel::Impl(a, k) = ty {
                lemma_match_trait(a, b, m, big);
            }
        },
        TypeModel::Tuple(b) => {
            if let TypeModel::Tuple(a) = ty {
                if a.len() == b.len() {
                    lemma_match_list(a, b, b.len(), m, big);
                    assert(a.take(a.len() as int) =~= a);
                }
            }
        },
        TypeModel::Adt(b) => {
            if let TypeModel::Adt(a) = ty {
                lemma_match_path(a, b, m, big);
            }
        },
        _ => {},
    }
}

/// Where a template matches a type, putting what its variables were found to
/// stand for into the template gives that type back.
pub proof fn law_match_then_substitute(ty: TypeModel, template: TypeModel)
    ensures
        match_type(ty, template, Seq::empty()) matches Some(m) ==> subst_type(template, m) == Ok::<
            TypeModel,
            Seq<char>,
        >(ty),
{
    if let Some(m) = match_type(ty, template, Seq::empty()) {
        lemma_match_type(ty, template, Seq::empty(), m);
    }
}

proof fn lemma_subst_list_len(v: Seq<TypeModel>, n: nat, m: Bindings)
    requires
        n <= v.len(),
    ensures
        subst_list(v, n, m) matches Ok(x) ==> x.len() == n,
    decreases n,
{
    if n > 0 {
        lemma_subst_list_len(v, (n - 1) as nat, m);
    }
}

proof fn lemma_subst_named_len(v: Seq<(Seq<char>, TypeModel)>, n: nat, m: Bindings)
    requires
        n <= v.len(),
    ensures
        subst_named(v, n, m) matches Ok(x) ==> x.len() == n,
    decreases n,
{
    if n > 0 {
        lemma_subst_named_len(v, (n - 1) as nat, m);
    }
}

proof fn lemma_found_list(
    tys: Seq<TypeModel>,
    template: Seq<TypeModel>,
    n: nat,
    m: Bindings,
    big: Bindings,
)
    requires
        n <= template.len(),
        tys.len() == template.len(),
        extends(m, big),
        subst_list(template, n, big) == Ok::<Seq<TypeModel>, Seq<char>>(tys.take(n as int)),
    ensures
        match_list(tys, template, n, m) matches Some(m1) && extends(m1, big),
    decreases template, n,
{
    if n > 0 {
        let k = (n - 1) as nat;
        lemma_subst_list_len(template, k, big);
        assert(tys.take(n as int).drop_last() =~= tys.take(k as int));
        assert(tys.take(n as int).last() == tys[n - 1]);
        if let Ok(s) = subst_list(template, k, big) {
            if let Ok(t) = subst_type(template[n - 1], big) {
                assert(s.push(t).drop_last() =~= s);
                assert(s.push(t).last() == t);
            }
        }
        lemma_found_list(tys, template, k, m, big);
        if let Some(m1) = match_list(tys, template, k, m) {
            lemma_found_type(tys[n - 1], template[n - 1], m1, big);
        }
    }
}

proof fn lemma_found_named(
    tys: Seq<(Seq<char>, TypeModel)>,
    template: Seq<(Seq<char>, TypeModel)>,
    n: nat,
    m: Bindings,
    big: Bindings,
)
    requires
        n <= template.len(),
        tys.len() == template.len(),
        extends(m, big),
        subst_named(template, n, big) == Ok::<Seq<(Seq<char>, TypeModel)>, Seq<char>>(
            tys.take(n as int),
        ),
    ensures
        match_named(tys, template, n, m) matches Some(m1) && extends(m1, big),
    decreases template, n,
{
    if n > 0 {
        let k = (n - 1) as nat;
        lemma_subst_named_len(template, k, big);
        assert(tys.take(n as int).drop_last() =~= tys.take(k as int));
        assert(tys.take(n as int).last() == tys[n - 1]);
        if let Ok(s) = subst_named(template, k, big) {
            if let Ok(t) = subst_type(template[n - 1].1, big) {
                assert(s.push((template[n - 1].0, t)).drop_last() =~= s);
                assert(s.push((template[n - 1].0, t)).last() == (template[n - 1].0, t));
            }
        }
        lemma_found_named(tys, template, k, m, big);
        if let Some(m1) = match_named(tys, template, k, m) {
            lemma_found_type(tys[n - 1].1, template[n - 1].1, m1, big);
        }
    }
}

proof fn lemma_found_path(p: PathModel, template: PathModel, m: Bindings, big: Bindings)
    requires
        extends(m, big),
        subst_path(template, big) == Ok::<PathModel, Seq<char>>(p),
    ensures
        match_path(p, template, m) matches Some(m1) && extends(m1, big),
    decreases template, 0nat,
{
    let n = template.generics.len();
    let k = template.named_generics.len();
    lemma_subst_list_len(template.generics, n, big);
    lemma_subst_named_len(template.named_generics, k, big);
    assert(p.generics.take(n as int) =~= p.generics);
    assert(p.named_generics.take(k as int) =~= p.named_generics);
    lemma_found_list(p.generics, template.generics, n, m, big);
    if let Some(m1) = match_list(p.generics, template.generics, n, m) {
        lemma_found_named(p.named_generics, template.named_generics, k, m1, big);
    }
}

proof fn lemma_found_trait(t: TraitModel, template: TraitModel, m: Bindings, big: Bindings)
    requires
        extends(m, big),
        subst_trait(template, big) == Ok::<TraitModel, Seq<char>>(t),
    ensures
        match_trait(t, template, m) matches Some(m1) && extends(m1, big),
    decreases template, 0nat,
{
    match (t, template) {
        (TraitModel::Normal(a), TraitModel::Normal(b)) => lemma_found_path(a, b, m, big),
        (
            TraitModel::Fn { name: n1, inputs: i1, output: o1 },
            TraitModel::Fn { name: n2, inputs: i2, output: o2 },
        ) => {
            lemma_subst_list_len(i2, i2.len(), big);
            assert(i1.take(i2.len() as int) =~= i1);
            lemma_found_list(i1, i2, i2.len(), m, big);
            if let Some(m1) = match_list(i1, i2, i2.len(), m) {
                lemma_found_type(*o1, *o2, m1, big);
            }
        },
        _ => {},
    }
}

proof fn lemma_found_type(ty: TypeModel, template: TypeModel, m: Bindings, big: Bindings)
    requires
        extends(m, big),
        subst_type(template, big) == Ok::<TypeModel, Seq<char>>(ty),
    ensures
        match_type(ty, template, m) matches Some(m1) && extends(m1, big),
    decreases template, 0nat,
{
    match template {
        TypeModel::TypeVar(v) => {
            let p = m.push((v, ty));
            assert(p.drop_last() =~= m);
            assert(p.last() == (v, ty));
            assert(lookup(m, v) is Some ==> lookup(big, v) == lookup(m, v));
            assert forall|w: Seq<char>| (#[trigger] lookup(p, w)) is Some implies lookup(big, w)
                == lookup(p, w) by {
                assert(lookup(m, w) is Some ==> lookup(big, w) == lookup(m, w));
            }
        },
        TypeModel::Ref(_, b) => {
            if let TypeModel::Ref(_, a) = ty {
                lemma_found_type(*a, *b, m, big);
            }
        },
        TypeModel::Raw(_, b) => {
            if let TypeModel::Raw(_, a) = ty {
                lemma_found_type(*a, *b, m, big);
            }
        },
        TypeModel::Boxed(b) => {
            if let TypeModel::Boxed(a) = ty {
                lemma_found_type(*a, *b, m, big);
            }
        },
        TypeModel::Slice(b) => {
            if let TypeModel::Slice(a) = ty {
                lemma_found_type(*a, *b, m, big);
            }
        },
        TypeModel::Dyn(b, _) => {
            if let TypeModel::Dyn(a, _) = ty {
                lemma_found_trait(a, b, m, big);
            }
        },
        TypeModel::Impl(b, _) => {
            if let TypeModel::Impl(a, _) = ty {
                lemma_found_trait(a, b, m, big);
            }
        },
        TypeModel::Tuple(b) => {
            if let TypeModel::Tuple(a) = ty {
                lemma_subst_list_len(b, b.len(), big);
                assert(a.take(b.len() as int) =~= a);
                lemma_found_list(a, b, b.len(), m, big);
            }
        },
        TypeModel::Adt(b) => {
            if let TypeModel::Adt(a) = ty {
                lemma_found_path(a, b, m, big);
            }
        },
        _ => {},
    }
}

/// A template matches every type that it becomes when its variables are
/// replaced, whatever they are replaced by.
pub proof fn law_substitute_then_match(template: TypeModel, m: Bindings)
    ensures
        subst_type(template, m) matches Ok(ty) ==> match_type(ty, template, Seq::empty()) is Some,
{
    if let Ok(ty) = subst_type(template, m) {
        lemma_found_type(ty, template, Seq::empty(), m);
    }
}

/// A template without a type variable matches exactly the type that it is.
pub proof fn law_closed_template_matches_itself(ty: TypeModel, template: TypeModel)
    requires
        subst_type(template, Seq::empty()) is Ok,
    ensures
        match_type(ty, template, Seq::empty()) is Some <==> ty == template,
{
    lemma_subst_empty(template);
    law_substitute_then_match(template, Seq::empty());
    if let Some(m) = match_type(ty, template, Seq::empty()) {
        lemma_match_type(ty, template, Seq::empty(), m);
        lemma_subst_grows(template, Seq::empty(), m);
    }
}

proof fn lemma_subst_grows_list(v: Seq<TypeModel>, n: nat, a: Bindings, b: Bindings)
    requires
        extends(a, b),
    ensures
        subst_list(v, n, a) is Ok ==> subst_list(v, n, b) == subst_list(v, n, a),
    decreases v, n,
{
    if 0 < n <= v.len() {
        lemma_subst_grows_list(v, (n - 1) as nat, a, b);
        lemma_subst_grows(v[n - 1], a, b);
    }
}

proof fn lemma_subst_grows_named(v: Seq<(Seq<char>, TypeModel)>, n: nat, a: Bindings, b: Bindings)
    requires
        extends(a, b),
    ensures
        subst_named(v, n, a) is Ok ==> subst_named(v, n, b) == subst_named(v, n, a),
    decreases v, n,
{
    if 0 < n <= v.len() {
        lemma_subst_grows_named(v, (n - 1) as nat, a, b);
        lemma_subst_grows(v[n - 1].1, a, b);
    }
}

proof fn lemma_subst_grows_path(p: PathModel, a: Bindings, b: Bindings)
    requires
        extends(a, b),
    ensures
        subst_path(p, a) is Ok ==> subst_path(p, b) == subst_path(p, a),
    decreases p, 0nat,
{
    lemma_subst_grows_list(p.generics, p.generics.len(), a, b);
    lemma_subst_grows_named(p.named_generics, p.named_generics.len(), a, b);
}

proof fn lemma_subst_grows_trait(t: TraitModel, a: Bindings, b: Bindings)
    requires
        extends(a, b),
    ensures
        subst_trait(t, a) is Ok ==> subst_trait(t, b) == subst_trait(t, a),
    decreases t, 0nat,
{
    match t {
        TraitModel::Normal(p) => lemma_subst_grows_path(p, a, b),
        TraitModel::Fn { name, inputs, output } => {
            lemma_subst_grows_list(inputs, inputs.len(), a, b);
            lemma_subst_grows(*output, a, b);
        },
    }
}

proof fn lemma_subst_grows(t: TypeModel, a: Bindings, b: Bindings)
    requires
        extends(a, b),
    ensures
        subst_type(t, a) is Ok ==> subst_type(t, b) == subst_type(t, a),
    decreases t, 0nat,
{
    match t {
        TypeModel::TypeVar(v) => {
            assert(lookup(a, v) is Some ==> lookup(b, v) == lookup(a, v));
        },
        TypeModel::Ref(_, x) => lemma_subst_grows(*x, a, b),
        TypeModel::Raw(_, x) => lemma_subst_grows(*x, a, b),
        TypeModel::Boxed(x) => lemma_subst_grows(*x, a, b),
        TypeModel::Slice(x) => lemma_subst_grows(*x, a, b),
        TypeModel::Dyn(x, _) => lemma_subst_grows_trait(x, a, b),
        TypeModel::Impl(x, _) => lemma_subst_grows_trait(x, a, b),
        TypeModel::Tuple(v) => lemma_subst_grows_list(v, v.len(), a, b),
        TypeModel::Adt(p) => lemma_subst_grows_path(p, a, b),
        _ => {},
    }
}

proof fn lemma_subst_empty_list(v: Seq<TypeModel>, n: nat)
    requires
        n <= v.len(),
    ensures
        subst_list(v, n, Seq::empty()) matches Ok(x) ==> x == v.take(n as int),
    decreases v, n,
{
    if n == 0 {
        assert(v.take(0) =~= Seq::empty());
    } else {
        lemma_subst_empty_list(v, (n - 1) as nat);
        lemma_subst_empty(v[n - 1]);
        assert(v.take(n as int) =~= v.take(n - 1).push(v[n - 1]));
    }
}

proof fn lemma_subst_empty_named(v: Seq<(Seq<char>, TypeModel)>, n: nat)
    requires
        n <= v.len(),
    ensures
        subst_named(v, n, Seq::empty()) matches Ok(x) ==> x == v.take(n as int),
    decreases v, n,
{
    if n == 0 {
        assert(v.take(0) =~= Seq::empty());
    } else {
        lemma_subst_empty_named(v, (n - 1) as nat);
        lemma_subst_empty(v[n - 1].1);
        assert(v.take(n as int) =~= v.take(n - 1).push(v[n - 1]));
    }
}

proof fn lemma_subst_empty_path(p: PathModel)
    ensures
        subst_path(p, Seq::empty()) matches Ok(x) ==> x == p,
    decreases p, 0nat,
{
    lemma_subst_empty_list(p.generics, p.generics.len());
    lemma_subst_empty_named(p.named_generics, p.named_generics.len());
    assert(p.generics.take(p.generics.len() as int) =~= p.generics);
    assert(p.named_generics.take(p.named_generics.len() as int) =~= p.named_generics);
}

proof fn lemma_subst_empty_trait(t: TraitModel)
    ensures
        subst_trait(t, Seq::empty()) matches Ok(x) ==> x == t,
    decreases t, 0nat,
{
    match t {
        TraitModel::Normal(p) => lemma_subst_empty_path(p),
        TraitModel::Fn { name, inputs, output } => {
            lemma_subst_empty_list(inputs, inputs.len());
            assert(inputs.take(inputs.len() as int) =~= inputs);
            lemma_subst_empty(*output);
        },
    }
}

proof fn lemma_subst_empty(t: TypeModel)
    ensures
        subst_type(t, Seq::empty()) matches Ok(x) ==> x == t,
    decreases t, 0nat,
{
    match t {
        TypeModel::Ref(_, x) => lemma_subst_empty(*x),
        TypeModel::Raw(_, x) => lemma_subst_empty(*x),
        TypeModel::Boxed(x) => lemma_subst_empty(*x),
        TypeModel::Slice(x) => lemma_subst_empty(*x),
        TypeModel::Dyn(x, _) => lemma_subst_empty_trait(x),
        TypeModel::Impl(x, _) => lemma_subst_empty_trait(x),
        TypeModel::Tuple(v) => {
            lemma_subst_empty_list(v, v.len());
            assert(v.take(v.len() as int) =~= v);
        },
        TypeModel::Adt(p) => lemma_subst_empty_path(p),
        _ => {},
    }
}

/// Whether `m` is what `mapping` holds once it has been extended.
pub open spec fn matched(want: Option<Bindings>, ok: bool, mapping: Seq<(String, RustType)>) -> bool {
    match want {
        Some(m) => ok && named_view(mapping) == m,
        None => !ok,
    }
}

proof fn lemma_named_push(v: Seq<(String, RustType)>, x: (String, RustType))
    ensures
        named_view(v.push(x)) == named_view(v).push((x.0@, x.1.view())),
{
    assert(named_view(v.push(x)) =~= named_view(v).push((x.0@, x.1.view())));
}

proof fn lemma_types_push(v: Seq<RustType>, x: RustType)
    ensures
        types_view(v.push(x)) == types_view(v).push(x.view()),
{
    assert(types_view(v.push(x)) =~= types_view(v).push(x.view()));
}

/// The position at which `v` is bound.
fn find_binding(mapping: &Vec<(String, RustType)>, v: &String) -> (r: Option<usize>)
    ensures
        match lookup(named_view(mapping@), v@) {
            Some(t) => r matches Some(i) && i < mapping@.len() && mapping@[i as int].1.view() == t,
            None => r is None,
        },
{
    let mut i: usize = mapping.len();
    proof {
        assert(named_view(mapping@).take(i as int) =~= named_view(mapping@));
    }
    while i > 0
        invariant
            i <= mapping.len(),
            lookup(named_view(mapping@).take(i as int), v@) == lookup(named_view(mapping@), v@),
        decreases i,
    {
        proof {
            let t = named_view(mapping@).take(i as int);
            assert(t.drop_last() =~= named_view(mapping@).take(i - 1));
            assert(t.last() == (mapping@[i - 1].0@, mapping@[i - 1].1.view()));
        }
        i -= 1;
        if mapping[i].0 == *v {
            return Some(i);
        }
    }
    None
}

/// The type that a variable stands for.
fn find_bound<'a>(mapping: &'a Vec<(String, RustType)>, v: &String) -> (r: Option<&'a RustType>)
    ensures
        match lookup(named_view(mapping@), v@) {
            Some(t) => r matches Some(x) && x.view() == t,
            None => r is None,
        },
{
    match find_binding(mapping, v) {
        Some(i) => Some(&mapping[i].1),
        None => None,
    }
}

fn matches_list(tys: &Vec<RustType>, template: &Vec<RustType>, mapping: &mut Vec<(String, RustType)>) -> (r: bool)
    requires
        tys@.len() == template@.len(),
    ensures
        matched(
            match_list(
                types_view(tys@),
                types_view(template@),
                template@.len(),
                named_view(old(mapping)@),
            ),
            r,
            final(mapping)@,
        ),
    decreases template,
{
    let ghost a = types_view(tys@);
    let ghost b = types_view(template@);
    let ghost m0 = named_view(mapping@);
    let mut i: usize = 0;
    while i < template.len()
        invariant
            i <= template.len(),
            tys@.len() == template@.len(),
            a == types_view(tys@),
            b == types_view(template@),
            m0 == named_view(old(mapping)@),
            match_list(a, b, i as nat, m0) == Some(named_view(mapping@)),
        decreases template.len() - i,
    {
        let ghost m1 = named_view(mapping@);
        let ok = matches_template(&tys[i], &template[i], mapping);
        proof {
            assert(a[i as int] == tys@[i as int].view());
            assert(b[i as int] == template@[i as int].view());
            assert(match_list(a, b, (i + 1) as nat, m0) == match_type(a[i as int], b[i as int], m1));
        }
        if !ok {
            proof {
                lemma_match_list_fails(a, b, (i + 1) as nat, b.len(), m0);
            }
            return false;
        }
        i += 1;
    }
    true
}

proof fn lemma_match_list_fails(
    a: Seq<TypeModel>,
    b: Seq<TypeModel>,
    k: nat,
    n: nat,
    m: Bindings,
)
    requires
        k <= n <= b.len(),
        match_list(a, b, k, m) is None,
    ensures
        match_list(a, b, n, m) is None,
    decreases n,
{
    if k < n {
        lemma_match_list_fails(a, b, k, (n - 1) as nat, m);
    }
}

proof fn lemma_match_named_fails(
    a: Seq<(Seq<char>, TypeModel)>,
    b: Seq<(Seq<char>, TypeModel)>,
    k: nat,
    n: nat,
    m: Bindings,
)
    requires
        k <= n <= b.len(),
        match_named(a, b, k, m) is None,
    ensures
        match_named(a, b, n, m) is None,
    decreases n,
{
    if k < n {
        lemma_match_named_fails(a, b, k, (n - 1) as nat, m);
    }
}

fn matches_named(
    tys: &Vec<(String, RustType)>,
    template: &Vec<(String, RustType)>,
    mapping: &mut Vec<(String, RustType)>,
) -> (r: bool)
    requires
        tys@.len() == template@.len(),
    ensures
        matched(
            match_named(
                named_view(tys@),
                named_view(template@),
                template@.len(),
                named_view(old(mapping)@),
            ),
            r,
            final(mapping)@,
        ),
    decreases template,
{
    let ghost a = named_view(tys@);
    let ghost b = named_view(template@);
    let ghost m0 = named_view(mapping@);
    let mut i: usize = 0;
    while i < template.len()
        invariant
            i <= template.len(),
            tys@.len() == template@.len(),
            a == named_view(tys@),
            b == named_view(template@),
            m0 == named_view(old(mapping)@),
            match_named(a, b, i as nat, m0) == Some(named_view(mapping@)),
        decreases template.len() - i,
    {
        let ghost m1 = named_view(mapping@);
        proof {
            assert(a[i as int] == (tys@[i as int].0@, tys@[i as int].1.view()));
            assert(b[i as int] == (template@[i as int].0@, template@[i as int].1.view()));
        }
        let ok = tys[i].0 == template[i].0 && matches_template(&tys[i].1, &template[i].1, mapping);
        if !ok {
            proof {
                assert(match_named(a, b, (i + 1) as nat, m0) is None);
                lemma_match_named_fails(a, b, (i + 1) as nat, b.len(), m0);
            }
            return false;
        }
        proof {
            assert(match_named(a, b, (i + 1) as nat, m0) == match_type(
                a[i as int].1,
                b[i as int].1,
                m1,
            ));
        }
        i += 1;
    }
    true
}

fn matches_path(
    p: &RustPathAndGenerics,
    template: &RustPathAndGenerics,
    mapping: &mut Vec<(String, RustType)>,
) -> (r: bool)
    ensures
        matched(match_path(p@, template@, named_view(old(mapping)@)), r, final(mapping)@),
    decreases template,
{
    if !strings_eq(&p.path, &template.path) || p.generics.len() != template.generics.len()
        || p.named_generics.len() != template.named_generics.len() {
        return false;
    }
    matches_list(&p.generics, &template.generics, mapping) && matches_named(
        &p.named_generics,
        &template.named_generics,
        mapping,
    )
}

fn matches_trait(t: &RustTrait, template: &RustTrait, mapping: &mut Vec<(String, RustType)>) -> (r:
    bool)
    ensures
        matched(match_trait(t@, template@, named_view(old(mapping)@)), r, final(mapping)@),
    decreases template,
{
    match (t, template) {
        (RustTrait::Normal(a), RustTrait::Normal(b)) => matches_path(a, b, mapping),
        (
            RustTrait::Fn { name: n1, inputs: i1, output: o1 },
            RustTrait::Fn { name: n2, inputs: i2, output: o2 },
        ) => {
            if *n1 != *n2 || i1.len() != i2.len() {
                return false;
            }
            matches_list(i1, i2, mapping) && matches_template(o1, o2, mapping)
        },
        _ => false,
    }
}

/// Whether `ty` is the template, with what its variables stand for added to
/// `mapping`.
pub fn matches_template(
    ty: &RustType,
    template: &RustType,
    mapping: &mut Vec<(String, RustType)>,
) -> (r: bool)
    ensures
        matched(match_type(ty@, template@, named_view(old(mapping)@)), r, final(mapping)@),
    decreases template,
{
    match (ty, template) {
        (_, RustType::TypeVar(v)) => match find_binding(mapping, v) {
            Some(i) => mapping[i].1.same_as(ty),
            None => {
                let entry = (v.clone(), ty.copy());
                proof {
                    lemma_named_push(mapping@, entry);
                }
                mapping.push(entry);
                true
            },
        },
        (RustType::Primitive(a), RustType::Primitive(b)) => *a == *b,
        (RustType::Ref(m, a), RustType::Ref(n, b)) => *m == *n && matches_template(a, b, mapping),
        (RustType::Raw(m, a), RustType::Raw(n, b)) => *m == *n && matches_template(a, b, mapping),
        (RustType::Boxed(a), RustType::Boxed(b)) => matches_template(a, b, mapping),
        (RustType::Slice(a), RustType::Slice(b)) => matches_template(a, b, mapping),
        (RustType::Dyn(a, m), RustType::Dyn(b, n)) => strings_eq(m, n) && matches_trait(
            a,
            b,
            mapping,
        ),
        (RustType::Impl(a, m), RustType::Impl(b, n)) => strings_eq(m, n) && matches_trait(
            a,
            b,
            mapping,
        ),
        (RustType::Tuple(a), RustType::Tuple(b)) => a.len() == b.len() && matches_list(
            a,
            b,
            mapping,
        ),
        (RustType::Adt(a), RustType::Adt(b)) => matches_path(a, b, mapping),
        (RustType::Cpp(a), RustType::Cpp(b)) => strings_eq(a, b),
        _ => false,
    }
}

proof fn lemma_subst_list_fails(v: Seq<TypeModel>, k: nat, n: nat, m: Bindings)
    requires
        k <= n <= v.len(),
        subst_list(v, k, m) is Err,
    ensures
        subst_list(v, n, m) == subst_list(v, k, m),
    decreases n,
{
    if k < n {
        lemma_subst_list_fails(v, k, (n - 1) as nat, m);
    }
}

proof fn lemma_subst_named_fails(v: Seq<(Seq<char>, TypeModel)>, k: nat, n: nat, m: Bindings)
    requires
        k <= n <= v.len(),
        subst_named(v, k, m) is Err,
    ensures
        subst_named(v, n, m) == subst_named(v, k, m),
    decreases n,
{
    if k < n {
        lemma_subst_named_fails(v, k, (n - 1) as nat, m);
    }
}

fn substitute_list(v: &Vec<RustType>, mapping: &Vec<(String, RustType)>) -> (r: Result<
    Vec<RustType>,
    String,
>)
    ensures
        match subst_list(types_view(v@), v@.len(), named_view(mapping@)) {
            Ok(t) => r is Ok && types_view(r->Ok_0@) == t,
            Err(e) => r is Err && r->Err_0@ == e,
        },
    decreases v,
{
    let ghost a = types_view(v@);
    let ghost m = named_view(mapping@);
    let mut out: Vec<RustType> = Vec::new();
    let mut i: usize = 0;
    proof {
        assert(types_view(out@) =~= Seq::empty());
    }
    while i < v.len()
        invariant
            i <= v.len(),
            a == types_view(v@),
            m == named_view(mapping@),
            subst_list(a, i as nat, m) == Ok::<Seq<TypeModel>, Seq<char>>(types_view(out@)),
        decreases v.len() - i,
    {
        let x = substitute_type(&v[i], mapping);
        proof {
            assert(a[i as int] == v@[i as int].view());
        }
        match x {
            Ok(t) => {
                proof {
                    lemma_types_push(out@, t);
                }
                out.push(t);
            },
            Err(e) => {
                proof {
                    assert(subst_list(a, (i + 1) as nat, m) is Err);
                    lemma_subst_list_fails(a, (i + 1) as nat, a.len(), m);
                }
                return Err(e);
            },
        }
        i += 1;
    }
    Ok(out)
}

fn substitute_named(v: &Vec<(String, RustType)>, mapping: &Vec<(String, RustType)>) -> (r: Result<
    Vec<(String, RustType)>,
    String,
>)
    ensures
        match subst_named(named_view(v@), v@.len(), named_view(mapping@)) {
            Ok(t) => r is Ok && named_view(r->Ok_0@) == t,
            Err(e) => r is Err && r->Err_0@ == e,
        },
    decreases v,
{
    let ghost a = named_view(v@);
    let ghost m = named_view(mapping@);
    let mut out: Vec<(String, RustType)> = Vec::new();
    let mut i: usize = 0;
    proof {
        assert(named_view(out@) =~= Seq::empty());
    }
    while i < v.len()
        invariant
            i <= v.len(),
            a == named_view(v@),
            m == named_view(mapping@),
            subst_named(a, i as nat, m) == Ok::<Seq<(Seq<char>, TypeModel)>, Seq<char>>(
                named_view(out@),
            ),
        decreases v.len() - i,
    {
        let x = substitute_type(&v[i].1, mapping);
        proof {
            assert(a[i as int] == (v@[i as int].0@, v@[i as int].1.view()));
        }
        match x {
            Ok(t) => {
                let entry = (v[i].0.clone(), t);
                proof {
                    lemma_named_push(out@, entry);
                }
                out.push(entry);
            },
            Err(e) => {
                proof {
                    assert(subst_named(a, (i + 1) as nat, m) is Err);
                    lemma_subst_named_fails(a, (i + 1) as nat, a.len(), m);
                }
                return Err(e);
            },
        }
        i += 1;
    }
    Ok(out)
}

fn substitute_path(p: &RustPathAndGenerics, mapping: &Vec<(String, RustType)>) -> (r: Result<
    RustPathAndGenerics,
    String,
>)
    ensures
        match subst_path(p@, named_view(mapping@)) {
            Ok(t) => r is Ok && r->Ok_0@ == t,
            Err(e) => r is Err && r->Err_0@ == e,
        },
    decreases p,
{
    match substitute_list(&p.generics, mapping) {
        Ok(generics) => match substitute_named(&p.named_generics, mapping) {
            Ok(named_generics) => Ok(
                RustPathAndGenerics { path: strings_copy(&p.path), generics, named_generics },
            ),
            Err(e) => Err(e),
        },
        Err(e) => Err(e),
    }
}

fn substitute_trait(t: &RustTrait, mapping: &Vec<(String, RustType)>) -> (r: Result<
    RustTrait,
    String,
>)
    ensures
        match subst_trait(t@, named_view(mapping@)) {
            Ok(x) => r is Ok && r->Ok_0@ == x,
            Err(e) => r is Err && r->Err_0@ == e,
        },
    decreases t,
{
    match t {
        RustTrait::Normal(p) => match substitute_path(p, mapping) {
            Ok(q) => Ok(RustTrait::Normal(q)),
            Err(e) => Err(e),
        },
        RustTrait::Fn { name, inputs, output } => match substitute_list(inputs, mapping) {
            Ok(i) => match substitute_type(output, mapping) {
                Ok(o) => Ok(RustTrait::Fn { name: name.clone(), inputs: i, output: Box::new(o) }),
                Err(e) => Err(e),
            },
            Err(e) => Err(e),
        },
    }
}

/// A type with its variables replaced, or the first that stands for nothing.
pub fn substitute_type(t: &RustType, mapping: &Vec<(String, RustType)>) -> (r: Result<
    RustType,
    String,
>)
    ensures
        match subst_type(t@, named_view(mapping@)) {
            Ok(x) => r is Ok && r->Ok_0@ == x,
            Err(e) => r is Err && r->Err_0@ == e,
        },
    decreases t,
{
    match t {
        RustType::TypeVar(v) => match find_bound(mapping, v) {
            Some(x) => Ok(x.copy()),
            None => Err(v.clone()),
        },
        RustType::Primitive(p) => Ok(RustType::Primitive(*p)),
        RustType::Cpp(p) => Ok(RustType::Cpp(strings_copy(p))),
        RustType::Ref(k, a) => match substitute_type(a, mapping) {
            Ok(x) => Ok(RustType::Ref(*k, Box::new(x))),
            Err(e) => Err(e),
        },
        RustType::Raw(k, a) => match substitute_type(a, mapping) {
            Ok(x) => Ok(RustType::Raw(*k, Box::new(x))),
            Err(e) => Err(e),
        },
        RustType::Boxed(a) => match substitute_type(a, mapping) {
            Ok(x) => Ok(RustType::Boxed(Box::new(x))),
            Err(e) => Err(e),
        },
        RustType::Slice(a) => match substitute_type(a, mapping) {
            Ok(x) => Ok(RustType::Slice(Box::new(x))),
            Err(e) => Err(e),
        },
        RustType::Dyn(a, b) => match substitute_trait(a, mapping) {
            Ok(x) => Ok(RustType::Dyn(x, strings_copy(b))),
            Err(e) => Err(e),
        },
        RustType::Impl(a, b) => match substitute_trait(a, mapping) {
            Ok(x) => Ok(RustType::Impl(x, strings_copy(b))),
            Err(e) => Err(e),
        },
        RustType::Tuple(v) => match substitute_list(v, mapping) {
            Ok(x) => Ok(RustType::Tuple(x)),
            Err(e) => Err(e),
        },
        RustType::Adt(p) => match substitute_path(p, mapping) {
            Ok(x) => Ok(RustType::Adt(x)),
            Err(e) => Err(e),
        },
    }
}

/// Whether a list holds a type.
pub fn types_contain(v: &Vec<RustType>, t: &RustType) -> (r: bool)
    ensures
        r == types_view(v@).contains(t@),
{
    let mut i: usize = 0;
    while i < v.len()
        invariant
            i <= v.len(),
            forall|k: int| 0 <= k < i ==> (#[trigger] types_view(v@)[k]) != t@,
        decreases v.len() - i,
    {
        if v[i].same_as(t) {
            proof {
                assert(types_view(v@)[i as int] == t@);
            }
            return true;
        }
        i += 1;
    }
    false
}

/// Whether C++ knows a type.
fn type_defined(t: &RustType, defined: &Vec<RustType>) -> (r: bool)
    ensures
        r == is_defined(t@, types_view(defined@)),
    decreases t,
{
    match t {
        RustType::Primitive(_) => true,
        RustType::Ref(_, a) => type_defined(a, defined),
        RustType::Raw(_, a) => type_defined(a, defined),
        _ => t.is_unit() || types_contain(defined, t),
    }
}

/// A type of a template with its variables replaced, where C++ knows it.
pub fn substitute_vars(
    t: &RustType,
    mapping: &Vec<(String, RustType)>,
    defined: &Vec<RustType>,
) -> (r: Result<RustType, SubstitutionError>)
    ensures
        match substituted(t@, named_view(mapping@), types_view(defined@)) {
            Ok(x) => r is Ok && r->Ok_0@ == x,
            Err(e) => r is Err && r->Err_0@ == e,
        },
{
    match substitute_type(t, mapping) {
        Ok(x) => if type_defined(&x, defined) {
            Ok(x)
        } else {
            Err(SubstitutionError::UndefinedType)
        },
        Err(v) => Err(SubstitutionError::UnboundVar(v)),
    }
}

proof fn lemma_substituted_list_fails(
    v: Seq<TypeModel>,
    k: nat,
    n: nat,
    m: Bindings,
    d: Seq<TypeModel>,
)
    requires
        k <= n <= v.len(),
        substituted_list(v, k, m, d) is Err,
    ensures
        substituted_list(v, n, m, d) == substituted_list(v, k, m, d),
    decreases n,
{
    if k < n {
        lemma_substituted_list_fails(v, k, (n - 1) as nat, m, d);
    }
}

proof fn lemma_substituted_named_fails(
    v: Seq<(Seq<char>, TypeModel)>,
    k: nat,
    n: nat,
    m: Bindings,
    d: Seq<TypeModel>,
)
    requires
        k <= n <= v.len(),
        substituted_named(v, k, m, d) is Err,
    ensures
        substituted_named(v, n, m, d) == substituted_named(v, k, m, d),
    decreases n,
{
    if k < n {
        lemma_substituted_named_fails(v, k, (n - 1) as nat, m, d);
    }
}

fn substitute_vars_list(
    v: &Vec<RustType>,
    mapping: &Vec<(String, RustType)>,
    defined: &Vec<RustType>,
) -> (r: Result<Vec<RustType>, SubstitutionError>)
    ensures
        match substituted_list(
            types_view(v@),
            v@.len(),
            named_view(mapping@),
            types_view(defined@),
        ) {
            Ok(t) => r is Ok && types_view(r->Ok_0@) == t,
            Err(e) => r is Err && r->Err_0@ == e,
        },
{
    let ghost a = types_view(v@);
    let ghost m = named_view(mapping@);
    let ghost d = types_view(defined@);
    let mut out: Vec<RustType> = Vec::new();
    let mut i: usize = 0;
    proof {
        assert(types_view(out@) =~= Seq::empty());
    }
    while i < v.len()
        invariant
            i <= v.len(),
            a == types_view(v@),
            m == named_view(mapping@),
            d == types_view(defined@),
            substituted_list(a, i as nat, m, d) == Ok::<Seq<TypeModel>, SubstitutionErrorModel>(
                types_view(out@),
            ),
        decreases v.len() - i,
    {
        let x = substitute_vars(&v[i], mapping, defined);
        proof {
            assert(a[i as int] == v@[i as int].view());
        }
        match x {
            Ok(t) => {
                proof {
                    lemma_types_push(out@, t);
                }
                out.push(t);
            },
            Err(e) => {
                proof {
                    assert(substituted_list(a, (i + 1) as nat, m, d) is Err);
                    lemma_substituted_list_fails(a, (i + 1) as nat, a.len(), m, d);
                }
                return Err(e);
            },
        }
        i += 1;
    }
    Ok(out)
}

fn substitute_vars_named(
    v: &Vec<(String, RustType)>,
    mapping: &Vec<(String, RustType)>,
    defined: &Vec<RustType>,
) -> (r: Result<Vec<(String, RustType)>, SubstitutionError>)
    ensures
        match substituted_named(
            named_view(v@),
            v@.len(),
            named_view(mapping@),
            types_view(defined@),
        ) {
            Ok(t) => r is Ok && named_view(r->Ok_0@) == t,
            Err(e) => r is Err && r->Err_0@ == e,
        },
{
    let ghost a = named_view(v@);
    let ghost m = named_view(mapping@);
    let ghost d = types_view(defined@);
    let mut out: Vec<(String, RustType)> = Vec::new();
    let mut i: usize = 0;
    proof {
        assert(named_view(out@) =~= Seq::empty());
    }
    while i < v.len()
        invariant
            i <= v.len(),
            a == named_view(v@),
            m == named_view(mapping@),
            d == types_view(defined@),
            substituted_named(a, i as nat, m, d) == Ok::<
                Seq<(Seq<char>, TypeModel)>,
                SubstitutionErrorModel,
            >(named_view(out@)),
        decreases v.len() - i,
    {
        let x = substitute_vars(&v[i].1, mapping, defined);
        proof {
            assert(a[i as int] == (v@[i as int].0@, v@[i as int].1.view()));
        }
        match x {
            Ok(t) => {
                let entry = (v[i].0.clone(), t);
                proof {
                    lemma_named_push(out@, entry);
                }
                out.push(entry);
            },
            Err(e) => {
                proof {
                    assert(substituted_named(a, (i + 1) as nat, m, d) is Err);
                    lemma_substituted_named_fails(a, (i + 1) as nat, a.len(), m, d);
                }
                return Err(e);
            },
        }
        i += 1;
    }
    Ok(out)
}

/// A method of a template with its variables replaced, or the first error.
pub fn substitute_method_vars(
    d: &ZngurMethodDetails,
    mapping: &Vec<(String, RustType)>,
    defined: &Vec<RustType>,
) -> (r: Result<ZngurMethodDetails, SubstitutionError>)
    ensures
        match substituted_method(d@, named_view(mapping@), types_view(defined@)) {
            Ok(x) => r is Ok && r->Ok_0@ == x,
            Err(e) => r is Err && r->Err_0@ == e,
        },
{
    let generics = match substitute_vars_list(&d.data.generics, mapping, defined) {
        Ok(x) => x,
        Err(e) => {
            return Err(e);
        },
    };
    let inputs = match substitute_vars_list(&d.data.inputs, mapping, defined) {
        Ok(x) => x,
        Err(e) => {
            return Err(e);
        },
    };
    let output = match substitute_vars(&d.data.output, mapping, defined) {
        Ok(x) => x,
        Err(e) => {
            return Err(e);
        },
    };
    let deref = match &d.deref {
        Some(x) => match substitute_vars(&x.0, mapping, defined) {
            Ok(t) => Some((t, x.1)),
            Err(e) => {
                return Err(e);
            },
        },
        None => None,
    };
    Ok(
        ZngurMethodDetails {
            data: ZngurMethod {
                name: d.data.name.clone(),
                generics,
                receiver: d.data.receiver,
                inputs,
                output,
                is_safe: d.data.is_safe,
            },
            use_path: opt_texts_copy(&d.use_path),
            deref,
            cpp_name: opt_text_copy(&d.cpp_name),
        },
    )
}

fn keep_methods(
    v: &Vec<ZngurMethodDetails>,
    mapping: &Vec<(String, RustType)>,
    defined: &Vec<RustType>,
) -> (r: Vec<ZngurMethodDetails>)
    ensures
        method_details_view(r@) == kept_methods(
            method_details_view(v@),
            v@.len(),
            named_view(mapping@),
            types_view(defined@),
        ),
{
    let ghost a = method_details_view(v@);
    let ghost m = named_view(mapping@);
    let ghost d = types_view(defined@);
    let mut out: Vec<ZngurMethodDetails> = Vec::new();
    let mut i: usize = 0;
    proof {
        assert(method_details_view(out@) =~= Seq::empty());
    }
    while i < v.len()
        invariant
            i <= v.len(),
            a == method_details_view(v@),
            m == named_view(mapping@),
            d == types_view(defined@),
            method_details_view(out@) == kept_methods(a, i as nat, m, d),
        decreases v.len() - i,
    {
        proof {
            assert(a[i as int] == v@[i as int].view());
        }
        match substitute_method_vars(&v[i], mapping, defined) {
            Ok(x) => {
                proof {
                    assert(method_details_view(out@.push(x)) =~= method_details_view(out@).push(
                        x.view(),
                    ));
                }
                out.push(x);
            },
            Err(_) => {},
        }
        i += 1;
    }
    out
}

fn keep_fields(
    v: &Vec<ZngurField>,
    mapping: &Vec<(String, RustType)>,
    defined: &Vec<RustType>,
) -> (r: Vec<ZngurField>)
    ensures
        fields_view(r@) == kept_fields(
            fields_view(v@),
            v@.len(),
            named_view(mapping@),
            types_view(defined@),
        ),
{
    let ghost a = fields_view(v@);
    let ghost m = named_view(mapping@);
    let ghost d = types_view(defined@);
    let mut out: Vec<ZngurField> = Vec::new();
    let mut i: usize = 0;
    proof {
        assert(fields_view(out@) =~= Seq::empty());
    }
    while i < v.len()
        invariant
            i <= v.len(),
            a == fields_view(v@),
            m == named_view(mapping@),
            d == types_view(defined@),
            fields_view(out@) == kept_fields(a, i as nat, m, d),
        decreases v.len() - i,
    {
        proof {
            assert(a[i as int] == v@[i as int].view());
        }
        match substitute_vars(&v[i].ty, mapping, defined) {
            Ok(ty) => {
                let x = ZngurField { name: v[i].name.clone(), ty, offset: v[i].offset };
                proof {
                    assert(fields_view(out@.push(x)) =~= fields_view(out@).push(x.view()));
                }
                out.push(x);
            },
            Err(_) => {},
        }
        i += 1;
    }
    out
}

fn keep_variants(
    v: &Vec<ZngurVariant>,
    mapping: &Vec<(String, RustType)>,
    defined: &Vec<RustType>,
) -> (r: Vec<ZngurVariant>)
    ensures
        variants_view(r@) == kept_variants(
            variants_view(v@),
            v@.len(),
            named_view(mapping@),
            types_view(defined@),
        ),
{
    let ghost a = variants_view(v@);
    let ghost m = named_view(mapping@);
    let ghost d = types_view(defined@);
    let mut out: Vec<ZngurVariant> = Vec::new();
    let mut i: usize = 0;
    proof {
        assert(variants_view(out@) =~= Seq::empty());
    }
    while i < v.len()
        invariant
            i <= v.len(),
            a == variants_view(v@),
            m == named_view(mapping@),
            d == types_view(defined@),
            variants_view(out@) == kept_variants(a, i as nat, m, d),
        decreases v.len() - i,
    {
        proof {
            assert(a[i as int] == v@[i as int].view());
        }
        let fields = keep_fields(&v[i].fields, mapping, defined);
        proof {
            assert(fields_view(fields@).len() == fields@.len());
            assert(a[i as int].fields.len() == v@[i as int].fields@.len());
        }
        if fields.len() == v[i].fields.len() {
            let x = ZngurVariant {
                name: v[i].name.clone(),
                fields,
                exhaustive: v[i].exhaustive,
            };
            proof {
                assert(variants_view(out@.push(x)) =~= variants_view(out@).push(x.view()));
            }
            out.push(x);
        }
        i += 1;
    }
    out
}

/// A type that was made from a template.
#[derive(Debug)]
pub struct TemplateMatch(pub ZngurType);

impl TemplateMatch {
    /// Adds what the template says of a type to the type. The layout of the type
    /// itself goes before that of the template.
    pub fn merge(self, into: &mut ZngurType) -> (r: MergeResult)
        ensures
            (final(into)@, failure(r)) == merge_template(self.0@, old(into)@),
    {
        let TemplateMatch(mut ty) = self;
        if into.layout.is_some() {
            ty.layout = None;
        }
        into.merge_from(&ty)
    }
}

spec fn opt_pair(r: Option<(String, String)>) -> Option<(Seq<char>, Seq<char>)> {
    match r {
        Some(p) => Some((p.0@, p.1@)),
        None => None,
    }
}

fn find_unbound_in_methods(
    v: &Vec<ZngurMethodDetails>,
    mapping: &Vec<(String, RustType)>,
    defined: &Vec<RustType>,
) -> (r: Option<(String, String)>)
    ensures
        opt_pair(r) == unbound_in_methods(
            method_details_view(v@),
            v@.len(),
            named_view(mapping@),
            types_view(defined@),
        ),
{
    let ghost a = method_details_view(v@);
    let mut i: usize = 0;
    let mut r: Option<(String, String)> = None;
    while i < v.len()
        invariant
            i <= v.len(),
            a == method_details_view(v@),
            opt_pair(r) == unbound_in_methods(
                a,
                i as nat,
                named_view(mapping@),
                types_view(defined@),
            ),
        decreases v.len() - i,
    {
        proof {
            assert(a[i as int] == v@[i as int].view());
        }
        if r.is_none() {
            if let Err(SubstitutionError::UnboundVar(x)) = substitute_method_vars(
                &v[i],
                mapping,
                defined,
            ) {
                r = Some((x, v[i].data.name.clone()));
            }
        }
        i += 1;
    }
    r
}

fn find_unbound_in_fields(
    v: &Vec<ZngurField>,
    mapping: &Vec<(String, RustType)>,
    defined: &Vec<RustType>,
) -> (r: Option<(String, String)>)
    ensures
        opt_pair(r) == unbound_in_fields(
            fields_view(v@),
            v@.len(),
            named_view(mapping@),
            types_view(defined@),
        ),
{
    let ghost a = fields_view(v@);
    let mut i: usize = 0;
    let mut r: Option<(String, String)> = None;
    while i < v.len()
        invariant
            i <= v.len(),
            a == fields_view(v@),
            opt_pair(r) == unbound_in_fields(
                a,
                i as nat,
                named_view(mapping@),
                types_view(defined@),
            ),
        decreases v.len() - i,
    {
        proof {
            assert(a[i as int] == v@[i as int].view());
        }
        if r.is_none() {
            if let Err(SubstitutionError::UnboundVar(x)) = substitute_vars(
                &v[i].ty,
                mapping,
                defined,
            ) {
                r = Some((x, v[i].name.clone()));
            }
        }
        i += 1;
    }
    r
}

fn find_unbound_in_variants(
    v: &Vec<ZngurVariant>,
    mapping: &Vec<(String, RustType)>,
    defined: &Vec<RustType>,
) -> (r: Option<(String, String)>)
    ensures
        opt_pair(r) == unbound_in_variants(
            variants_view(v@),
            v@.len(),
            named_view(mapping@),
            types_view(defined@),
        ),
{
    let ghost a = variants_view(v@);
    let mut i: usize = 0;
    let mut r: Option<(String, String)> = None;
    while i < v.len()
        invariant
            i <= v.len(),
            a == variants_view(v@),
            opt_pair(r) == unbound_in_variants(
                a,
                i as nat,
                named_view(mapping@),
                types_view(defined@),
            ),
        decreases v.len() - i,
    {
        proof {
            assert(a[i as int] == v@[i as int].view());
            assert(fields_view(v@[i as int].fields@).len() == v@[i as int].fields@.len());
        }
        if r.is_none() {
            r = find_unbound_in_fields(&v[i].fields, mapping, defined);
        }
        i += 1;
    }
    r
}

/// What is said of a variable in a member of a template that stands for nothing
/// where the template is applied to a type that it matches.
pub fn find_unbound(ty: &RustType, template: &ZngurType, defined: &Vec<RustType>) -> (r: Option<
    String,
>)
    ensures
        opt_text(r) == template_unbound(ty@, template@, types_view(defined@)),
{
    let mut mapping: Vec<(String, RustType)> = Vec::new();
    proof {
        assert(named_view(mapping@) =~= Seq::empty());
    }
    if !matches_template(ty, &template.ty, &mut mapping) {
        return None;
    }
    let mut constructor: Option<String> = None;
    if let Some(c) = &template.constructor {
        if let Err(SubstitutionError::UnboundVar(v)) = substitute_vars_named(
            &c.inputs,
            &mapping,
            defined,
        ) {
            constructor = Some(v);
        }
    }
    let methods = find_unbound_in_methods(&template.methods, &mapping, defined);
    let variants = find_unbound_in_variants(&template.variants, &mapping, defined);
    let fields = find_unbound_in_fields(&template.fields, &mapping, defined);
    let mut place;
    if let Some((v, name)) = methods {
        place = v;
        place.append(" in method ");
        place.append(name.as_str());
    } else if let Some(v) = constructor {
        place = v;
        place.append(" in constructor");
    } else if let Some((v, name)) = variants {
        place = v;
        place.append(" in field ");
        place.append(name.as_str());
    } else if let Some((v, name)) = fields {
        place = v;
        place.append(" in field ");
        place.append(name.as_str());
    } else {
        return None;
    }
    let mut r = String::from_str("Unbound type variable ");
    r.append(place.as_str());
    r.append(" in template ");
    r.append(template.ty.to_text().as_str());
    r.append(" for type ");
    r.append(ty.to_text().as_str());
    Some(r)
}

/// What a template says of a type, or `None` where it does not match.
pub fn try_match_template(ty: &RustType, template: &ZngurType, defined: &Vec<RustType>) -> (r:
    Option<TemplateMatch>)
    requires
        template_unbound(ty@, template@, types_view(defined@)) is None,
    ensures
        match template_match(ty@, template@, types_view(defined@)) {
            Some(t) => r is Some && (r->0).0@ == t,
            None => r is None,
        },
{
    let mut mapping: Vec<(String, RustType)> = Vec::new();
    proof {
        assert(named_view(mapping@) =~= Seq::empty());
    }
    if !matches_template(ty, &template.ty, &mut mapping) {
        return None;
    }
    let constructor = match &template.constructor {
        None => None,
        Some(c) => match substitute_vars_named(&c.inputs, &mapping, defined) {
            Ok(inputs) => Some(ZngurConstructor { inputs }),
            Err(_) => None,
        },
    };
    let wellknown_traits = template.wellknown_traits.clone();
    proof {
        assert(wellknown_traits@ =~= template.wellknown_traits@);
    }
    Some(
        TemplateMatch(ZngurType {
            ty: ty.copy(),
            layout: template.layout,
            wellknown_traits,
            methods: keep_methods(&template.methods, &mapping, defined),
            exhaustive: template.exhaustive,
            constructor,
            variants: keep_variants(&template.variants, &mapping, defined),
            fields: keep_fields(&template.fields, &mapping, defined),
            cpp_heap_allocated: match &template.cpp_heap_allocated {
                Some(c) => Some(CppHeapAllocated(c.0.clone())),
                None => None,
            },
            cpp_ref: match &template.cpp_ref {
                Some(c) => Some(CppRef(c.0.clone())),
                None => None,
            },
            cpp_stack_owned: match &template.cpp_stack_owned {
                Some(c) => Some(c.copy()),
                None => None,
            },
        }),
    )
}

} // verus!
