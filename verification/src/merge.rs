//! Putting several declarations of one thing together, or finding that they
//! contradict each other.

use crate::def::{
    extern_fns_view, extern_impls_view, fields_view, fns_view, method_details_view, methods_view,
    traits_view, variants_view, zngur_types_view, ConstructorModel, CppHeapAllocated, CppRef,
    CppStackOwned, ExternCppFnModel, ExternCppImplModel, FieldModel, FnModel, MethodDetailsModel,
    MethodModel, SpecModel, VariantModel, ZngurConstructor, ZngurExternCppFn, ZngurExternCppImpl,
    ZngurField, ZngurFn, ZngurMethod, ZngurMethodDetails, ZngurSpec, ZngurTrait, ZngurTraitModel,
    ZngurType, ZngurTypeModel, ZngurVariant, ZngurWellknownTrait,
};
use crate::rust_types::{TraitModel, TypeModel};
use vstd::prelude::*;

verus! {

broadcast use vstd::std_specs::vec::group_vec_axioms;

/// The part of a declaration that stands in a conflict.
#[derive(Debug, PartialEq, Eq)]
pub enum ConflictSource {
    Layout,
    Constructor(ZngurConstructor),
    CppRef,
    CppHeapAllocated,
    CppStackOwned,
    Method(ZngurMethod),
    Variant(String),
    Field(String),
}

/// What a [`ConflictSource`] holds.
#[verifier::ext_equal]
pub enum ConflictModel {
    Layout,
    Constructor(ConstructorModel),
    CppRef,
    CppHeapAllocated,
    CppStackOwned,
    Method(MethodModel),
    Variant(Seq<char>),
    Field(Seq<char>),
}

impl ConflictSource {
    pub open spec fn view(&self) -> ConflictModel {
        match self {
            ConflictSource::Layout => ConflictModel::Layout,
            ConflictSource::Constructor(c) => ConflictModel::Constructor(c.view()),
            ConflictSource::CppRef => ConflictModel::CppRef,
            ConflictSource::CppHeapAllocated => ConflictModel::CppHeapAllocated,
            ConflictSource::CppStackOwned => ConflictModel::CppStackOwned,
            ConflictSource::Method(m) => ConflictModel::Method(m.view()),
            ConflictSource::Variant(n) => ConflictModel::Variant(n@),
            ConflictSource::Field(n) => ConflictModel::Field(n@),
        }
    }
}

/// Two declarations that contradict each other: what is said of it, the part of
/// the new declaration and that of the one before.
#[derive(Debug, PartialEq, Eq)]
pub struct MergeFailure {
    pub message: String,
    pub src: ConflictSource,
    pub dst: ConflictSource,
}

/// What a [`MergeFailure`] holds.
#[verifier::ext_equal]
pub struct FailureModel {
    pub message: Seq<char>,
    pub src: ConflictModel,
    pub dst: ConflictModel,
}

impl MergeFailure {
    pub open spec fn view(&self) -> FailureModel {
        FailureModel { message: self.message@, src: self.src.view(), dst: self.dst.view() }
    }
}

pub type MergeResult = Result<(), MergeFailure>;

/// What a [`MergeResult`] says: the conflict, if there is one.
pub open spec fn failure(r: MergeResult) -> Option<FailureModel> {
    match r {
        Ok(_) => None,
        Err(e) => Some(e.view()),
    }
}

/// `items` with `x` at the end, where it is not among them.
pub open spec fn push_unique<T>(items: Seq<T>, x: T) -> Seq<T> {
    if items.contains(x) {
        items
    } else {
        items.push(x)
    }
}

/// `dst` with those of the first `n` of `src` that it lacks at the end.
pub open spec fn union<T>(src: Seq<T>, n: nat, dst: Seq<T>) -> Seq<T>
    decreases n,
{
    if n == 0 || n > src.len() {
        dst
    } else {
        push_unique(union(src, (n - 1) as nat, dst), src[n - 1])
    }
}

/// The position of the first method of that name.
pub open spec fn method_at(v: Seq<MethodDetailsModel>, name: Seq<char>, i: int) -> Option<int>
    decreases v.len() - i,
{
    if i < 0 || i >= v.len() {
        None
    } else if v[i].data.name == name {
        Some(i)
    } else {
        method_at(v, name, i + 1)
    }
}

/// The position of the first field of that name.
pub open spec fn field_at(v: Seq<FieldModel>, name: Seq<char>, i: int) -> Option<int>
    decreases v.len() - i,
{
    if i < 0 || i >= v.len() {
        None
    } else if v[i].name == name {
        Some(i)
    } else {
        field_at(v, name, i + 1)
    }
}

/// The position of the first variant of that name.
pub open spec fn variant_at(v: Seq<VariantModel>, name: Seq<char>, i: int) -> Option<int>
    decreases v.len() - i,
{
    if i < 0 || i >= v.len() {
        None
    } else if v[i].name == name {
        Some(i)
    } else {
        variant_at(v, name, i + 1)
    }
}

/// `dst` with the first `n` methods of `src`, up to the first that differs from
/// the one of its name, and that conflict.
pub open spec fn merge_methods(
    src: Seq<MethodDetailsModel>,
    n: nat,
    dst: Seq<MethodDetailsModel>,
) -> (Seq<MethodDetailsModel>, Option<FailureModel>)
    decreases n,
{
    if n == 0 || n > src.len() {
        (dst, None)
    } else {
        let (d, e) = merge_methods(src, (n - 1) as nat, dst);
        let x = src[n - 1];
        if e is Some {
            (d, e)
        } else {
            match method_at(d, x.data.name, 0) {
                None => (d.push(x), None),
                Some(i) => if d[i] == x {
                    (d, None)
                } else {
                    (
                        d,
                        Some(
                            FailureModel {
                                message: "Method mismatch"@,
                                src: ConflictModel::Method(x.data),
                                dst: ConflictModel::Method(d[i].data),
                            },
                        ),
                    )
                },
            }
        }
    }
}

/// `dst` with the first `n` fields of `src`, up to the first that differs from
/// the one of its name, and that conflict.
pub open spec fn merge_fields(src: Seq<FieldModel>, n: nat, dst: Seq<FieldModel>) -> (
    Seq<FieldModel>,
    Option<FailureModel>,
)
    decreases n,
{
    if n == 0 || n > src.len() {
        (dst, None)
    } else {
        let (d, e) = merge_fields(src, (n - 1) as nat, dst);
        let x = src[n - 1];
        if e is Some {
            (d, e)
        } else {
            match field_at(d, x.name, 0) {
                None => (d.push(x), None),
                Some(i) => if d[i] == x {
                    (d, None)
                } else {
                    (
                        d,
                        Some(
                            FailureModel {
                                message: "Field mismatch"@,
                                src: ConflictModel::Field(x.name),
                                dst: ConflictModel::Field(x.name),
                            },
                        ),
                    )
                },
            }
        }
    }
}

/// `dst` with the first `n` variants of `src`, up to the first that differs from
/// the one of its name, and that conflict.
pub open spec fn merge_variants(src: Seq<VariantModel>, n: nat, dst: Seq<VariantModel>) -> (
    Seq<VariantModel>,
    Option<FailureModel>,
)
    decreases n,
{
    if n == 0 || n > src.len() {
        (dst, None)
    } else {
        let (d, e) = merge_variants(src, (n - 1) as nat, dst);
        let x = src[n - 1];
        if e is Some {
            (d, e)
        } else {
            match variant_at(d, x.name, 0) {
                None => (d.push(x), None),
                Some(i) => if d[i] == x {
                    (d, None)
                } else {
                    (
                        d,
                        Some(
                            FailureModel {
                                message: "Variant mismatch"@,
                                src: ConflictModel::Variant(x.name),
                                dst: ConflictModel::Variant(x.name),
                            },
                        ),
                    )
                },
            }
        }
    }
}

/// The one value of two, unless they differ.
pub open spec fn merge_opt<T>(src: Option<T>, dst: Option<T>) -> Option<T> {
    if dst is Some {
        dst
    } else {
        src
    }
}

/// Whether two values differ.
pub open spec fn differ<T>(src: Option<T>, dst: Option<T>) -> bool {
    src is Some && dst is Some && src != dst
}

pub open spec fn plain_conflict(message: Seq<char>, part: ConflictModel) -> Option<FailureModel> {
    Some(FailureModel { message, src: part, dst: part })
}

/// What is known of a type once `src` has been added to `dst`, up to the first
/// contradiction, and that contradiction.
pub open spec fn merge_type(src: ZngurTypeModel, dst: ZngurTypeModel) -> (
    ZngurTypeModel,
    Option<FailureModel>,
) {
    if differ(src.layout, dst.layout) {
        (dst, plain_conflict("Conflicting layout policy found"@, ConflictModel::Layout))
    } else {
        let d = ZngurTypeModel { layout: merge_opt(src.layout, dst.layout), ..dst };
        if differ(src.cpp_heap_allocated, d.cpp_heap_allocated) {
            (d, plain_conflict("Conflicting cpp_heap_allocated found"@, ConflictModel::CppHeapAllocated))
        } else {
            let d = ZngurTypeModel {
                cpp_heap_allocated: merge_opt(src.cpp_heap_allocated, d.cpp_heap_allocated),
                ..d
            };
            if differ(src.cpp_ref, d.cpp_ref) {
                (d, plain_conflict("Conflicting cpp_ref found"@, ConflictModel::CppRef))
            } else {
                let d = ZngurTypeModel { cpp_ref: merge_opt(src.cpp_ref, d.cpp_ref), ..d };
                if differ(src.cpp_stack_owned, d.cpp_stack_owned) {
                    (d, plain_conflict("Conflicting cpp_stack_owned found"@, ConflictModel::CppStackOwned))
                } else {
                    merge_members(
                        src,
                        ZngurTypeModel {
                            cpp_stack_owned: merge_opt(src.cpp_stack_owned, d.cpp_stack_owned),
                            ..d
                        },
                    )
                }
            }
        }
    }
}

/// As [`merge_type`], for what stands after the C++ type in a declaration.
pub open spec fn merge_members(src: ZngurTypeModel, dst: ZngurTypeModel) -> (
    ZngurTypeModel,
    Option<FailureModel>,
) {
    let d = ZngurTypeModel {
        wellknown_traits: union(
            src.wellknown_traits,
            src.wellknown_traits.len(),
            dst.wellknown_traits,
        ),
        exhaustive: dst.exhaustive && src.exhaustive,
        ..dst
    };
    let (methods, e) = merge_methods(src.methods, src.methods.len(), d.methods);
    let d = ZngurTypeModel { methods, ..d };
    if e is Some {
        (d, e)
    } else if differ(src.constructor, d.constructor) {
        (
            d,
            Some(
                FailureModel {
                    message: "Conflicting constructor found"@,
                    src: ConflictModel::Constructor(src.constructor->0),
                    dst: ConflictModel::Constructor(d.constructor->0),
                },
            ),
        )
    } else {
        let d = ZngurTypeModel { constructor: merge_opt(src.constructor, d.constructor), ..d };
        let (variants, e) = merge_variants(src.variants, src.variants.len(), d.variants);
        let d = ZngurTypeModel { variants, ..d };
        if e is Some {
            (d, e)
        } else {
            let (fields, e) = merge_fields(src.fields, src.fields.len(), d.fields);
            (ZngurTypeModel { fields, ..d }, e)
        }
    }
}

/// The position of the first declaration of a type.
pub open spec fn type_at(v: Seq<ZngurTypeModel>, ty: TypeModel, i: int) -> Option<int>
    decreases v.len() - i,
{
    if i < 0 || i >= v.len() {
        None
    } else if v[i].ty == ty {
        Some(i)
    } else {
        type_at(v, ty, i + 1)
    }
}

/// The position of the first declaration of a trait.
pub open spec fn trait_at(
    v: Seq<ZngurTraitModel>,
    tr: TraitModel,
    i: int,
) -> Option<int>
    decreases v.len() - i,
{
    if i < 0 || i >= v.len() {
        None
    } else if v[i].tr == tr {
        Some(i)
    } else {
        trait_at(v, tr, i + 1)
    }
}

/// An interface with a type declaration added.
pub open spec fn add_type(spec: SpecModel, src: ZngurTypeModel) -> (SpecModel, Option<FailureModel>) {
    match type_at(spec.types, src.ty, 0) {
        None => (SpecModel { types: spec.types.push(src), ..spec }, None),
        Some(i) => {
            let (d, e) = merge_type(src, spec.types[i]);
            (SpecModel { types: spec.types.update(i, d), ..spec }, e)
        },
    }
}

/// An interface with a trait declaration added.
pub open spec fn add_trait(spec: SpecModel, src: ZngurTraitModel) -> SpecModel {
    match trait_at(spec.traits, src.tr, 0) {
        None => SpecModel { traits: spec.traits.push(src), ..spec },
        Some(i) => {
            let d = spec.traits[i];
            let methods = union(src.methods, src.methods.len(), d.methods);
            SpecModel { traits: spec.traits.update(i, ZngurTraitModel { methods, ..d }), ..spec }
        },
    }
}

/// An interface with a function added.
pub open spec fn add_fn(spec: SpecModel, src: FnModel) -> SpecModel {
    SpecModel { funcs: push_unique(spec.funcs, src), ..spec }
}

/// An interface with a C++ function added.
pub open spec fn add_extern_fn(spec: SpecModel, src: ExternCppFnModel) -> SpecModel {
    SpecModel { extern_cpp_funcs: push_unique(spec.extern_cpp_funcs, src), ..spec }
}

/// An interface with a C++ impl block added.
pub open spec fn add_extern_impl(spec: SpecModel, src: ExternCppImplModel) -> SpecModel {
    SpecModel { extern_cpp_impls: push_unique(spec.extern_cpp_impls, src), ..spec }
}

/// What a template says of a type, added to the type: the layout of the type
/// itself goes before that of the template.
pub open spec fn merge_template(src: ZngurTypeModel, dst: ZngurTypeModel) -> (
    ZngurTypeModel,
    Option<FailureModel>,
) {
    merge_type(
        ZngurTypeModel {
            layout: if dst.layout is Some {
                None
            } else {
                src.layout
            },
            ..src
        },
        dst,
    )
}

proof fn lemma_union<T>(src: Seq<T>, n: nat, dst: Seq<T>)
    requires
        n <= src.len(),
    ensures
        union(src, n, dst).len() >= dst.len(),
        forall|i: int| 0 <= i < dst.len() ==> #[trigger] union(src, n, dst)[i] == dst[i],
        forall|i: int| 0 <= i < n ==> union(src, n, dst).contains(#[trigger] src[i]),
    decreases n,
{
    if n > 0 {
        lemma_union(src, (n - 1) as nat, dst);
        let before = union(src, (n - 1) as nat, dst);
        let after = union(src, n, dst);
        assert forall|i: int| 0 <= i < n implies after.contains(#[trigger] src[i]) by {
            if i < n - 1 {
                let j = choose|j: int| 0 <= j < before.len() && before[j] == src[i];
                assert(after[j] == src[i]);
            } else if !before.contains(src[i]) {
                assert(after[before.len() as int] == src[i]);
            }
        }
    }
}

proof fn lemma_union_again<T>(src: Seq<T>, n: nat, dst: Seq<T>)
    requires
        n <= src.len(),
        forall|i: int| 0 <= i < n ==> dst.contains(#[trigger] src[i]),
    ensures
        union(src, n, dst) == dst,
    decreases n,
{
    if n > 0 {
        lemma_union_again(src, (n - 1) as nat, dst);
    }
}

/// Whether each of the first `n` methods of `src` is the first of its name in `d`.
spec fn methods_known(src: Seq<MethodDetailsModel>, n: nat, d: Seq<MethodDetailsModel>) -> bool {
    forall|i: int|
        0 <= i < n ==> (method_at(d, (#[trigger] src[i]).data.name, 0) matches Some(j) && d[j] == src[i])
}

proof fn lemma_method_at(v: Seq<MethodDetailsModel>, name: Seq<char>, i: int)
    requires
        0 <= i,
    ensures
        method_at(v, name, i) matches Some(j) ==> i <= j < v.len() && v[j].data.name == name,
        method_at(v, name, i) is None ==> forall|j: int|
            i <= j < v.len() ==> (#[trigger] v[j]).data.name != name,
    decreases v.len() - i,
{
    if i < v.len() && v[i].data.name != name {
        lemma_method_at(v, name, i + 1);
    }
}

proof fn lemma_method_at_push(v: Seq<MethodDetailsModel>, x: MethodDetailsModel, name: Seq<char>, i: int)
    requires
        0 <= i,
    ensures
        method_at(v, name, i) is Some ==> method_at(v.push(x), name, i) == method_at(v, name, i),
        method_at(v, name, i) is None && x.data.name == name && i <= v.len() ==> method_at(
            v.push(x),
            name,
            i,
        ) == Some(v.len() as int),
    decreases v.len() - i,
{
    if i < v.len() {
        assert(v.push(x)[i] == v[i]);
        if v[i].data.name != name {
            lemma_method_at_push(v, x, name, i + 1);
        }
    } else if i == v.len() {
        assert(v.push(x)[i] == x);
    }
}

proof fn lemma_merge_methods(src: Seq<MethodDetailsModel>, n: nat, dst: Seq<MethodDetailsModel>)
    requires
        n <= src.len(),
    ensures
        merge_methods(src, n, dst).0.len() >= dst.len(),
        forall|i: int| 0 <= i < dst.len() ==> #[trigger] merge_methods(src, n, dst).0[i] == dst[i],
        merge_methods(src, n, dst).1 is None ==> methods_known(src, n, merge_methods(src, n, dst).0),
    decreases n,
{
    if n > 0 {
        lemma_merge_methods(src, (n - 1) as nat, dst);
        let (d, e) = merge_methods(src, (n - 1) as nat, dst);
        let x = src[n - 1];
        lemma_method_at(d, x.data.name, 0);
        if e is None && method_at(d, x.data.name, 0) is None {
            lemma_method_at_push(d, x, x.data.name, 0);
            assert forall|i: int| 0 <= i < n implies (method_at(
                d.push(x),
                (#[trigger] src[i]).data.name,
                0,
            ) matches Some(j) && d.push(x)[j] == src[i]) by {
                lemma_method_at(d, src[i].data.name, 0);
                lemma_method_at_push(d, x, src[i].data.name, 0);
            }
        }
    }
}

proof fn lemma_merge_methods_again(src: Seq<MethodDetailsModel>, n: nat, d: Seq<MethodDetailsModel>)
    requires
        n <= src.len(),
        methods_known(src, n, d),
    ensures
        merge_methods(src, n, d) == (d, None::<FailureModel>),
    decreases n,
{
    if n > 0 {
        assert(methods_known(src, (n - 1) as nat, d));
        lemma_merge_methods_again(src, (n - 1) as nat, d);
        assert(method_at(d, src[n - 1].data.name, 0) is Some);
    }
}

/// Whether each of the first `n` fields of `src` is the first of its name in `d`.
spec fn fields_known(src: Seq<FieldModel>, n: nat, d: Seq<FieldModel>) -> bool {
    forall|i: int|
        0 <= i < n ==> (field_at(d, (#[trigger] src[i]).name, 0) matches Some(j) && d[j] == src[i])
}

proof fn lemma_field_at(v: Seq<FieldModel>, name: Seq<char>, i: int)
    requires
        0 <= i,
    ensures
        field_at(v, name, i) matches Some(j) ==> i <= j < v.len() && v[j].name == name,
        field_at(v, name, i) is None ==> forall|j: int|
            i <= j < v.len() ==> (#[trigger] v[j]).name != name,
    decreases v.len() - i,
{
    if i < v.len() && v[i].name != name {
        lemma_field_at(v, name, i + 1);
    }
}

proof fn lemma_field_at_push(v: Seq<FieldModel>, x: FieldModel, name: Seq<char>, i: int)
    requires
        0 <= i,
    ensures
        field_at(v, name, i) is Some ==> field_at(v.push(x), name, i) == field_at(v, name, i),
        field_at(v, name, i) is None && x.name == name && i <= v.len() ==> field_at(
            v.push(x),
            name,
            i,
        ) == Some(v.len() as int),
    decreases v.len() - i,
{
    if i < v.len() {
        assert(v.push(x)[i] == v[i]);
        if v[i].name != name {
            lemma_field_at_push(v, x, name, i + 1);
        }
    } else if i == v.len() {
        assert(v.push(x)[i] == x);
    }
}

proof fn lemma_merge_fields(src: Seq<FieldModel>, n: nat, dst: Seq<FieldModel>)
    requires
        n <= src.len(),
    ensures
        merge_fields(src, n, dst).0.len() >= dst.len(),
        forall|i: int| 0 <= i < dst.len() ==> #[trigger] merge_fields(src, n, dst).0[i] == dst[i],
        merge_fields(src, n, dst).1 is None ==> fields_known(src, n, merge_fields(src, n, dst).0),
    decreases n,
{
    if n > 0 {
        lemma_merge_fields(src, (n - 1) as nat, dst);
        let (d, e) = merge_fields(src, (n - 1) as nat, dst);
        let x = src[n - 1];
        lemma_field_at(d, x.name, 0);
        if e is None && field_at(d, x.name, 0) is None {
            lemma_field_at_push(d, x, x.name, 0);
            assert forall|i: int| 0 <= i < n implies (field_at(
                d.push(x),
                (#[trigger] src[i]).name,
                0,
            ) matches Some(j) && d.push(x)[j] == src[i]) by {
                lemma_field_at(d, src[i].name, 0);
                lemma_field_at_push(d, x, src[i].name, 0);
            }
        }
    }
}

proof fn lemma_merge_fields_again(src: Seq<FieldModel>, n: nat, d: Seq<FieldModel>)
    requires
        n <= src.len(),
        fields_known(src, n, d),
    ensures
        merge_fields(src, n, d) == (d, None::<FailureModel>),
    decreases n,
{
    if n > 0 {
        assert(fields_known(src, (n - 1) as nat, d));
        lemma_merge_fields_again(src, (n - 1) as nat, d);
        assert(field_at(d, src[n - 1].name, 0) is Some);
    }
}

/// Whether each of the first `n` variants of `src` is the first of its name in `d`.
spec fn variants_known(src: Seq<VariantModel>, n: nat, d: Seq<VariantModel>) -> bool {
    forall|i: int|
        0 <= i < n ==> (variant_at(d, (#[trigger] src[i]).name, 0) matches Some(j) && d[j] == src[i])
}

proof fn lemma_variant_at(v: Seq<VariantModel>, name: Seq<char>, i: int)
    requires
        0 <= i,
    ensures
        variant_at(v, name, i) matches Some(j) ==> i <= j < v.len() && v[j].name == name,
        variant_at(v, name, i) is None ==> forall|j: int|
            i <= j < v.len() ==> (#[trigger] v[j]).name != name,
    decreases v.len() - i,
{
    if i < v.len() && v[i].name != name {
        lemma_variant_at(v, name, i + 1);
    }
}

proof fn lemma_variant_at_push(v: Seq<VariantModel>, x: VariantModel, name: Seq<char>, i: int)
    requires
        0 <= i,
    ensures
        variant_at(v, name, i) is Some ==> variant_at(v.push(x), name, i) == variant_at(v, name, i),
        variant_at(v, name, i) is None && x.name == name && i <= v.len() ==> variant_at(
            v.push(x),
            name,
            i,
        ) == Some(v.len() as int),
    decreases v.len() - i,
{
    if i < v.len() {
        assert(v.push(x)[i] == v[i]);
        if v[i].name != name {
            lemma_variant_at_push(v, x, name, i + 1);
        }
    } else if i == v.len() {
        assert(v.push(x)[i] == x);
    }
}

proof fn lemma_merge_variants(src: Seq<VariantModel>, n: nat, dst: Seq<VariantModel>)
    requires
        n <= src.len(),
    ensures
        merge_variants(src, n, dst).0.len() >= dst.len(),
        forall|i: int| 0 <= i < dst.len() ==> #[trigger] merge_variants(src, n, dst).0[i] == dst[i],
        merge_variants(src, n, dst).1 is None ==> variants_known(src, n, merge_variants(src, n, dst).0),
    decreases n,
{
    if n > 0 {
        lemma_merge_variants(src, (n - 1) as nat, dst);
        let (d, e) = merge_variants(src, (n - 1) as nat, dst);
        let x = src[n - 1];
        lemma_variant_at(d, x.name, 0);
        if e is None && variant_at(d, x.name, 0) is None {
            lemma_variant_at_push(d, x, x.name, 0);
            assert forall|i: int| 0 <= i < n implies (variant_at(
                d.push(x),
                (#[trigger] src[i]).name,
                0,
            ) matches Some(j) && d.push(x)[j] == src[i]) by {
                lemma_variant_at(d, src[i].name, 0);
                lemma_variant_at_push(d, x, src[i].name, 0);
            }
        }
    }
}

proof fn lemma_merge_variants_again(src: Seq<VariantModel>, n: nat, d: Seq<VariantModel>)
    requires
        n <= src.len(),
        variants_known(src, n, d),
    ensures
        merge_variants(src, n, d) == (d, None::<FailureModel>),
    decreases n,
{
    if n > 0 {
        assert(variants_known(src, (n - 1) as nat, d));
        lemma_merge_variants_again(src, (n - 1) as nat, d);
        assert(variant_at(d, src[n - 1].name, 0) is Some);
    }
}

/// Adding a declaration to a type once more changes nothing, and is no conflict.
pub proof fn law_merge_again_changes_nothing(src: ZngurTypeModel, dst: ZngurTypeModel)
    requires
        merge_type(src, dst).1 is None,
    ensures
        merge_type(src, merge_type(src, dst).0) == (
            merge_type(src, dst).0,
            None::<FailureModel>,
        ),
{
    let d = merge_type(src, dst).0;
    lemma_union(src.wellknown_traits, src.wellknown_traits.len(), dst.wellknown_traits);
    lemma_union_again(src.wellknown_traits, src.wellknown_traits.len(), d.wellknown_traits);
    lemma_merge_methods(src.methods, src.methods.len(), dst.methods);
    lemma_merge_methods_again(src.methods, src.methods.len(), d.methods);
    lemma_merge_variants(src.variants, src.variants.len(), dst.variants);
    lemma_merge_variants_again(src.variants, src.variants.len(), d.variants);
    lemma_merge_fields(src.fields, src.fields.len(), dst.fields);
    lemma_merge_fields_again(src.fields, src.fields.len(), d.fields);
    assert(merge_type(src, d).0 =~= d);
}

/// What was known of a type stays known, whatever is added to it: its parts keep
/// their places.
pub proof fn law_merge_keeps_what_was_known(src: ZngurTypeModel, dst: ZngurTypeModel)
    ensures
        ({
            let d = merge_type(src, dst).0;
            &&& d.ty == dst.ty
            &&& dst.layout is Some ==> d.layout == dst.layout
            &&& dst.constructor is Some ==> d.constructor == dst.constructor
            &&& dst.cpp_ref is Some ==> d.cpp_ref == dst.cpp_ref
            &&& dst.cpp_heap_allocated is Some ==> d.cpp_heap_allocated == dst.cpp_heap_allocated
            &&& dst.cpp_stack_owned is Some ==> d.cpp_stack_owned == dst.cpp_stack_owned
            &&& forall|i: int|
                0 <= i < dst.methods.len() ==> i < d.methods.len() && #[trigger] d.methods[i]
                    == dst.methods[i]
            &&& forall|i: int|
                0 <= i < dst.fields.len() ==> i < d.fields.len() && #[trigger] d.fields[i]
                    == dst.fields[i]
            &&& forall|i: int|
                0 <= i < dst.variants.len() ==> i < d.variants.len() && #[trigger] d.variants[i]
                    == dst.variants[i]
            &&& forall|i: int|
                0 <= i < dst.wellknown_traits.len() ==> i < d.wellknown_traits.len()
                    && #[trigger] d.wellknown_traits[i] == dst.wellknown_traits[i]
        }),
{
    lemma_union(src.wellknown_traits, src.wellknown_traits.len(), dst.wellknown_traits);
    lemma_merge_methods(src.methods, src.methods.len(), dst.methods);
    lemma_merge_variants(src.variants, src.variants.len(), dst.variants);
    lemma_merge_fields(src.fields, src.fields.len(), dst.fields);
}

/// Where a declaration was added without a conflict, all that it says is known.
pub proof fn law_merge_takes_all_that_is_said(src: ZngurTypeModel, dst: ZngurTypeModel)
    requires
        merge_type(src, dst).1 is None,
    ensures
        ({
            let d = merge_type(src, dst).0;
            &&& src.layout is Some ==> d.layout == src.layout
            &&& src.constructor is Some ==> d.constructor == src.constructor
            &&& src.cpp_ref is Some ==> d.cpp_ref == src.cpp_ref
            &&& src.cpp_heap_allocated is Some ==> d.cpp_heap_allocated == src.cpp_heap_allocated
            &&& src.cpp_stack_owned is Some ==> d.cpp_stack_owned == src.cpp_stack_owned
            &&& forall|i: int|
                0 <= i < src.methods.len() ==> d.methods.contains(#[trigger] src.methods[i])
            &&& forall|i: int|
                0 <= i < src.fields.len() ==> d.fields.contains(#[trigger] src.fields[i])
            &&& forall|i: int|
                0 <= i < src.variants.len() ==> d.variants.contains(#[trigger] src.variants[i])
            &&& forall|i: int|
                0 <= i < src.wellknown_traits.len() ==> d.wellknown_traits.contains(
                    #[trigger] src.wellknown_traits[i],
                )
        }),
{
    let d = merge_type(src, dst).0;
    lemma_union(src.wellknown_traits, src.wellknown_traits.len(), dst.wellknown_traits);
    lemma_merge_methods(src.methods, src.methods.len(), dst.methods);
    lemma_merge_variants(src.variants, src.variants.len(), dst.variants);
    lemma_merge_fields(src.fields, src.fields.len(), dst.fields);
    assert forall|i: int| 0 <= i < src.methods.len() implies d.methods.contains(
        #[trigger] src.methods[i],
    ) by {
        lemma_method_at(d.methods, src.methods[i].data.name, 0);
        let j = method_at(d.methods, src.methods[i].data.name, 0)->0;
        assert(d.methods[j] == src.methods[i]);
    }
    assert forall|i: int| 0 <= i < src.fields.len() implies d.fields.contains(
        #[trigger] src.fields[i],
    ) by {
        lemma_field_at(d.fields, src.fields[i].name, 0);
        let j = field_at(d.fields, src.fields[i].name, 0)->0;
        assert(d.fields[j] == src.fields[i]);
    }
    assert forall|i: int| 0 <= i < src.variants.len() implies d.variants.contains(
        #[trigger] src.variants[i],
    ) by {
        lemma_variant_at(d.variants, src.variants[i].name, 0);
        let j = variant_at(d.variants, src.variants[i].name, 0)->0;
        assert(d.variants[j] == src.variants[i]);
    }
}

/// What two declarations say of the layout or of the C++ value of a type, or of its
/// constructor, contradicts exactly where both say something and not the same; and
/// then adding the one to the other is a conflict over that part.
pub proof fn law_contradictions_are_conflicts(src: ZngurTypeModel, dst: ZngurTypeModel)
    ensures
        ({
            let e = merge_type(src, dst).1;
            let layout = src.layout is Some && dst.layout is Some && src.layout != dst.layout;
            let heap = src.cpp_heap_allocated is Some && dst.cpp_heap_allocated is Some
                && src.cpp_heap_allocated != dst.cpp_heap_allocated;
            let by_ref = src.cpp_ref is Some && dst.cpp_ref is Some && src.cpp_ref != dst.cpp_ref;
            let stack = src.cpp_stack_owned is Some && dst.cpp_stack_owned is Some
                && src.cpp_stack_owned != dst.cpp_stack_owned;
            let made = src.constructor is Some && dst.constructor is Some && src.constructor
                != dst.constructor;
            &&& layout || heap || by_ref || stack || made ==> e is Some
            &&& e is Some && (e->0).src is Layout ==> layout
            &&& e is Some && (e->0).src is CppHeapAllocated ==> heap
            &&& e is Some && (e->0).src is CppRef ==> by_ref
            &&& e is Some && (e->0).src is CppStackOwned ==> stack
            &&& e is Some && (e->0).src is Constructor ==> made
            &&& layout ==> e is Some && (e->0).src is Layout && (e->0).dst is Layout
        }),
{
    lemma_method_conflict(src.methods, src.methods.len(), dst.methods);
    lemma_variant_conflict(src.variants, src.variants.len(), dst.variants);
    lemma_field_conflict(src.fields, src.fields.len(), dst.fields);
}

proof fn lemma_method_conflict(src: Seq<MethodDetailsModel>, n: nat, dst: Seq<MethodDetailsModel>)
    ensures
        merge_methods(src, n, dst).1 matches Some(f) ==> f.src is Method,
    decreases n,
{
    if 0 < n <= src.len() {
        lemma_method_conflict(src, (n - 1) as nat, dst);
    }
}

proof fn lemma_variant_conflict(src: Seq<VariantModel>, n: nat, dst: Seq<VariantModel>)
    ensures
        merge_variants(src, n, dst).1 matches Some(f) ==> f.src is Variant,
    decreases n,
{
    if 0 < n <= src.len() {
        lemma_variant_conflict(src, (n - 1) as nat, dst);
    }
}

proof fn lemma_field_conflict(src: Seq<FieldModel>, n: nat, dst: Seq<FieldModel>)
    ensures
        merge_fields(src, n, dst).1 matches Some(f) ==> f.src is Field,
    decreases n,
{
    if 0 < n <= src.len() {
        lemma_field_conflict(src, (n - 1) as nat, dst);
    }
}

/// Whether no type has two entries.
pub open spec fn distinct_types(v: Seq<ZngurTypeModel>) -> bool {
    forall|i: int, j: int| 0 <= i < j < v.len() ==> (#[trigger] v[i]).ty != (#[trigger] v[j]).ty
}

/// Whether no trait has two entries.
pub open spec fn distinct_traits(v: Seq<ZngurTraitModel>) -> bool {
    forall|i: int, j: int| 0 <= i < j < v.len() ==> (#[trigger] v[i]).tr != (#[trigger] v[j]).tr
}

proof fn lemma_type_at(v: Seq<ZngurTypeModel>, ty: TypeModel, i: int)
    requires
        0 <= i,
    ensures
        type_at(v, ty, i) matches Some(j) ==> i <= j < v.len() && v[j].ty == ty,
        type_at(v, ty, i) is None ==> forall|j: int| i <= j < v.len() ==> (#[trigger] v[j]).ty != ty,
    decreases v.len() - i,
{
    if i < v.len() && v[i].ty != ty {
        lemma_type_at(v, ty, i + 1);
    }
}

proof fn lemma_trait_at(v: Seq<ZngurTraitModel>, tr: TraitModel, i: int)
    requires
        0 <= i,
    ensures
        trait_at(v, tr, i) matches Some(j) ==> i <= j < v.len() && v[j].tr == tr,
        trait_at(v, tr, i) is None ==> forall|j: int|
            i <= j < v.len() ==> (#[trigger] v[j]).tr != tr,
    decreases v.len() - i,
{
    if i < v.len() && v[i].tr != tr {
        lemma_trait_at(v, tr, i + 1);
    }
}

/// However often a type is declared, it has one entry.
pub proof fn law_one_entry_for_each_type(spec: SpecModel, src: ZngurTypeModel)
    requires
        distinct_types(spec.types),
    ensures
        distinct_types(add_type(spec, src).0.types),
        type_at(add_type(spec, src).0.types, src.ty, 0) is Some,
{
    lemma_type_at(spec.types, src.ty, 0);
    let v = add_type(spec, src).0.types;
    match type_at(spec.types, src.ty, 0) {
        Some(i) => {
            law_merge_keeps_what_was_known(src, spec.types[i]);
            assert(v[i].ty == src.ty);
        },
        None => {
            assert(v[spec.types.len() as int].ty == src.ty);
        },
    }
    lemma_type_at(v, src.ty, 0);
}

/// However often a trait is declared, it has one entry.
pub proof fn law_one_entry_for_each_trait(spec: SpecModel, src: ZngurTraitModel)
    requires
        distinct_traits(spec.traits),
    ensures
        distinct_traits(add_trait(spec, src).traits),
{
    lemma_trait_at(spec.traits, src.tr, 0);
}

fn message(s: &str, src: ConflictSource, dst: ConflictSource) -> (r: MergeFailure)
    ensures
        r@ == (FailureModel { message: s@, src: src@, dst: dst@ }),
{
    MergeFailure { message: String::from_str(s), src, dst }
}

/// Adds the well-known traits that `dst` lacks.
pub fn union_wellknown(src: &Vec<ZngurWellknownTrait>, dst: &mut Vec<ZngurWellknownTrait>)
    ensures
        final(dst)@ == union(src@, src@.len(), old(dst)@),
{
    let mut i: usize = 0;
    while i < src.len()
        invariant
            i <= src.len(),
            dst@ == union(src@, i as nat, old(dst)@),
        decreases src.len() - i,
    {
        let x = src[i];
        if !wellknown_contains(dst, x) {
            dst.push(x);
        }
        i += 1;
    }
}

/// Whether a list holds a well-known trait.
pub fn wellknown_contains(v: &Vec<ZngurWellknownTrait>, x: ZngurWellknownTrait) -> (r: bool)
    ensures
        r == v@.contains(x),
{
    let mut i: usize = 0;
    while i < v.len()
        invariant
            i <= v.len(),
            forall|k: int| 0 <= k < i ==> v@[k] != x,
        decreases v.len() - i,
    {
        if v[i] == x {
            return true;
        }
        i += 1;
    }
    false
}

fn find_method(v: &Vec<ZngurMethodDetails>, name: &String) -> (r: Option<usize>)
    ensures
        match method_at(method_details_view(v@), name@, 0) {
            Some(i) => (r matches Some(k) && k == i) && 0 <= i < v@.len(),
            None => r is None,
        },
{
    let mut i: usize = 0;
    while i < v.len()
        invariant
            i <= v.len(),
            method_at(method_details_view(v@), name@, 0) == method_at(
                method_details_view(v@),
                name@,
                i as int,
            ),
        decreases v.len() - i,
    {
        proof {
            assert(method_details_view(v@)[i as int] == v@[i as int].view());
        }
        if v[i].data.name == *name {
            return Some(i);
        }
        i += 1;
    }
    None
}

fn find_field(v: &Vec<ZngurField>, name: &String) -> (r: Option<usize>)
    ensures
        match field_at(fields_view(v@), name@, 0) {
            Some(i) => (r matches Some(k) && k == i) && 0 <= i < v@.len(),
            None => r is None,
        },
{
    let mut i: usize = 0;
    while i < v.len()
        invariant
            i <= v.len(),
            field_at(fields_view(v@), name@, 0) == field_at(fields_view(v@), name@, i as int),
        decreases v.len() - i,
    {
        proof {
            assert(fields_view(v@)[i as int] == v@[i as int].view());
        }
        if v[i].name == *name {
            return Some(i);
        }
        i += 1;
    }
    None
}

fn find_variant(v: &Vec<ZngurVariant>, name: &String) -> (r: Option<usize>)
    ensures
        match variant_at(variants_view(v@), name@, 0) {
            Some(i) => (r matches Some(k) && k == i) && 0 <= i < v@.len(),
            None => r is None,
        },
{
    let mut i: usize = 0;
    while i < v.len()
        invariant
            i <= v.len(),
            variant_at(variants_view(v@), name@, 0) == variant_at(
                variants_view(v@),
                name@,
                i as int,
            ),
        decreases v.len() - i,
    {
        proof {
            assert(variants_view(v@)[i as int] == v@[i as int].view());
        }
        if v[i].name == *name {
            return Some(i);
        }
        i += 1;
    }
    None
}

proof fn lemma_merge_methods_stops(
    src: Seq<MethodDetailsModel>,
    k: nat,
    n: nat,
    dst: Seq<MethodDetailsModel>,
)
    requires
        k <= n <= src.len(),
        merge_methods(src, k, dst).1 is Some,
    ensures
        merge_methods(src, n, dst) == merge_methods(src, k, dst),
    decreases n,
{
    if k < n {
        lemma_merge_methods_stops(src, k, (n - 1) as nat, dst);
    }
}

proof fn lemma_merge_fields_stops(src: Seq<FieldModel>, k: nat, n: nat, dst: Seq<FieldModel>)
    requires
        k <= n <= src.len(),
        merge_fields(src, k, dst).1 is Some,
    ensures
        merge_fields(src, n, dst) == merge_fields(src, k, dst),
    decreases n,
{
    if k < n {
        lemma_merge_fields_stops(src, k, (n - 1) as nat, dst);
    }
}

proof fn lemma_merge_variants_stops(src: Seq<VariantModel>, k: nat, n: nat, dst: Seq<VariantModel>)
    requires
        k <= n <= src.len(),
        merge_variants(src, k, dst).1 is Some,
    ensures
        merge_variants(src, n, dst) == merge_variants(src, k, dst),
    decreases n,
{
    if k < n {
        lemma_merge_variants_stops(src, k, (n - 1) as nat, dst);
    }
}

fn merge_method_lists(src: &Vec<ZngurMethodDetails>, dst: &mut Vec<ZngurMethodDetails>) -> (r:
    MergeResult)
    ensures
        (method_details_view(final(dst)@), failure(r)) == merge_methods(
            method_details_view(src@),
            src@.len(),
            method_details_view(old(dst)@),
        ),
{
    let ghost a = method_details_view(src@);
    let ghost d0 = method_details_view(dst@);
    let mut i: usize = 0;
    while i < src.len()
        invariant
            i <= src.len(),
            a == method_details_view(src@),
            d0 == method_details_view(old(dst)@),
            merge_methods(a, i as nat, d0) == (
                method_details_view(dst@),
                Option::<FailureModel>::None,
            ),
        decreases src.len() - i,
    {
        proof {
            assert(a[i as int] == src@[i as int].view());
        }
        match find_method(dst, &src[i].data.name) {
            None => {
                let x = copy_details(&src[i]);
                proof {
                    assert(method_details_view(dst@.push(x)) =~= method_details_view(dst@).push(
                        x.view(),
                    ));
                }
                dst.push(x);
            },
            Some(k) => {
                proof {
                    assert(method_details_view(dst@)[k as int] == dst@[k as int].view());
                }
                if !dst[k].same_as(&src[i]) {
                    proof {
                        assert(merge_methods(a, (i + 1) as nat, d0).1 is Some);
                        lemma_merge_methods_stops(a, (i + 1) as nat, a.len(), d0);
                    }
                    return Err(
                        message(
                            "Method mismatch",
                            ConflictSource::Method(src[i].data.copy()),
                            ConflictSource::Method(dst[k].data.copy()),
                        ),
                    );
                }
            },
        }
        i += 1;
    }
    Ok(())
}

fn copy_details(x: &ZngurMethodDetails) -> (r: ZngurMethodDetails)
    ensures
        r@ == x@,
{
    x.copy()
}

fn merge_field_lists(src: &Vec<ZngurField>, dst: &mut Vec<ZngurField>) -> (r: MergeResult)
    ensures
        (fields_view(final(dst)@), failure(r)) == merge_fields(
            fields_view(src@),
            src@.len(),
            fields_view(old(dst)@),
        ),
{
    let ghost a = fields_view(src@);
    let ghost d0 = fields_view(dst@);
    let mut i: usize = 0;
    while i < src.len()
        invariant
            i <= src.len(),
            a == fields_view(src@),
            d0 == fields_view(old(dst)@),
            merge_fields(a, i as nat, d0) == (fields_view(dst@), Option::<FailureModel>::None),
        decreases src.len() - i,
    {
        proof {
            assert(a[i as int] == src@[i as int].view());
        }
        match find_field(dst, &src[i].name) {
            None => {
                let x = src[i].copy();
                proof {
                    assert(fields_view(dst@.push(x)) =~= fields_view(dst@).push(x.view()));
                }
                dst.push(x);
            },
            Some(k) => {
                proof {
                    assert(fields_view(dst@)[k as int] == dst@[k as int].view());
                }
                if !dst[k].same_as(&src[i]) {
                    proof {
                        assert(merge_fields(a, (i + 1) as nat, d0).1 is Some);
                        lemma_merge_fields_stops(a, (i + 1) as nat, a.len(), d0);
                    }
                    return Err(
                        message(
                            "Field mismatch",
                            ConflictSource::Field(src[i].name.clone()),
                            ConflictSource::Field(src[i].name.clone()),
                        ),
                    );
                }
            },
        }
        i += 1;
    }
    Ok(())
}

fn merge_variant_lists(src: &Vec<ZngurVariant>, dst: &mut Vec<ZngurVariant>) -> (r: MergeResult)
    ensures
        (variants_view(final(dst)@), failure(r)) == merge_variants(
            variants_view(src@),
            src@.len(),
            variants_view(old(dst)@),
        ),
{
    let ghost a = variants_view(src@);
    let ghost d0 = variants_view(dst@);
    let mut i: usize = 0;
    while i < src.len()
        invariant
            i <= src.len(),
            a == variants_view(src@),
            d0 == variants_view(old(dst)@),
            merge_variants(a, i as nat, d0) == (variants_view(dst@), Option::<FailureModel>::None),
        decreases src.len() - i,
    {
        proof {
            assert(a[i as int] == src@[i as int].view());
        }
        match find_variant(dst, &src[i].name) {
            None => {
                let x = src[i].copy();
                proof {
                    assert(variants_view(dst@.push(x)) =~= variants_view(dst@).push(x.view()));
                }
                dst.push(x);
            },
            Some(k) => {
                proof {
                    assert(variants_view(dst@)[k as int] == dst@[k as int].view());
                }
                if !dst[k].same_as(&src[i]) {
                    proof {
                        assert(merge_variants(a, (i + 1) as nat, d0).1 is Some);
                        lemma_merge_variants_stops(a, (i + 1) as nat, a.len(), d0);
                    }
                    return Err(
                        message(
                            "Variant mismatch",
                            ConflictSource::Variant(src[i].name.clone()),
                            ConflictSource::Variant(src[i].name.clone()),
                        ),
                    );
                }
            },
        }
        i += 1;
    }
    Ok(())
}

impl ZngurType {
    /// Adds another declaration of the same type.
    pub fn merge_from(&mut self, src: &ZngurType) -> (r: MergeResult)
        ensures
            (final(self)@, failure(r)) == merge_type(src@, old(self)@),
    {
        match (&src.layout, &self.layout) {
            (Some(a), Some(b)) => {
                if *a != *b {
                    return Err(
                        message(
                            "Conflicting layout policy found",
                            ConflictSource::Layout,
                            ConflictSource::Layout,
                        ),
                    );
                }
            },
            (Some(a), None) => {
                self.layout = Some(*a);
            },
            _ => {},
        }
        match (&src.cpp_heap_allocated, &self.cpp_heap_allocated) {
            (Some(a), Some(b)) => {
                if a.0 != b.0 {
                    return Err(
                        message(
                            "Conflicting cpp_heap_allocated found",
                            ConflictSource::CppHeapAllocated,
                            ConflictSource::CppHeapAllocated,
                        ),
                    );
                }
            },
            (Some(a), None) => {
                self.cpp_heap_allocated = Some(CppHeapAllocated(a.0.clone()));
            },
            _ => {},
        }
        match (&src.cpp_ref, &self.cpp_ref) {
            (Some(a), Some(b)) => {
                if a.0 != b.0 {
                    return Err(
                        message(
                            "Conflicting cpp_ref found",
                            ConflictSource::CppRef,
                            ConflictSource::CppRef,
                        ),
                    );
                }
            },
            (Some(a), None) => {
                self.cpp_ref = Some(CppRef(a.0.clone()));
            },
            _ => {},
        }
        match (&src.cpp_stack_owned, &self.cpp_stack_owned) {
            (Some(a), Some(b)) => {
                if !a.same_as(b) {
                    return Err(
                        message(
                            "Conflicting cpp_stack_owned found",
                            ConflictSource::CppStackOwned,
                            ConflictSource::CppStackOwned,
                        ),
                    );
                }
            },
            (Some(a), None) => {
                self.cpp_stack_owned = Some(a.copy());
            },
            _ => {},
        }
        self.merge_members_from(src)
    }

    fn merge_members_from(&mut self, src: &ZngurType) -> (r: MergeResult)
        ensures
            (final(self)@, failure(r)) == merge_members(src@, old(self)@),
    {
        union_wellknown(&src.wellknown_traits, &mut self.wellknown_traits);
        self.exhaustive = self.exhaustive && src.exhaustive;
        match merge_method_lists(&src.methods, &mut self.methods) {
            Ok(_) => {},
            Err(e) => {
                return Err(e);
            },
        }
        match (&src.constructor, &self.constructor) {
            (Some(a), Some(b)) => {
                if !a.same_as(b) {
                    return Err(
                        message(
                            "Conflicting constructor found",
                            ConflictSource::Constructor(a.copy()),
                            ConflictSource::Constructor(b.copy()),
                        ),
                    );
                }
            },
            (Some(a), None) => {
                self.constructor = Some(a.copy());
            },
            _ => {},
        }
        match merge_variant_lists(&src.variants, &mut self.variants) {
            Ok(_) => {},
            Err(e) => {
                return Err(e);
            },
        }
        merge_field_lists(&src.fields, &mut self.fields)
    }
}

fn methods_contain(v: &Vec<ZngurMethod>, x: &ZngurMethod) -> (r: bool)
    ensures
        r == methods_view(v@).contains(x@),
{
    let mut i: usize = 0;
    while i < v.len()
        invariant
            i <= v.len(),
            forall|k: int| 0 <= k < i ==> (#[trigger] methods_view(v@)[k]) != x@,
        decreases v.len() - i,
    {
        if v[i].same_as(x) {
            proof {
                assert(methods_view(v@)[i as int] == x@);
            }
            return true;
        }
        i += 1;
    }
    false
}

/// Adds the methods that `dst` lacks.
fn union_methods(src: &Vec<ZngurMethod>, dst: &mut Vec<ZngurMethod>)
    ensures
        methods_view(final(dst)@) == union(
            methods_view(src@),
            src@.len(),
            methods_view(old(dst)@),
        ),
{
    let mut i: usize = 0;
    while i < src.len()
        invariant
            i <= src.len(),
            methods_view(dst@) == union(methods_view(src@), i as nat, methods_view(old(dst)@)),
        decreases src.len() - i,
    {
        proof {
            assert(methods_view(src@)[i as int] == src@[i as int].view());
        }
        if !methods_contain(dst, &src[i]) {
            let x = src[i].copy();
            proof {
                assert(methods_view(dst@.push(x)) =~= methods_view(dst@).push(x.view()));
            }
            dst.push(x);
        }
        i += 1;
    }
}

impl ZngurSpec {
    fn find_type(&self, x: &ZngurType) -> (r: Option<usize>)
        ensures
            match type_at(self@.types, x@.ty, 0) {
                Some(i) => (r matches Some(k) && k == i) && 0 <= i < self.types@.len(),
                None => r is None,
            },
    {
        let mut i: usize = 0;
        while i < self.types.len()
            invariant
                i <= self.types.len(),
                type_at(self@.types, x@.ty, 0) == type_at(self@.types, x@.ty, i as int),
            decreases self.types.len() - i,
        {
            proof {
                assert(self@.types[i as int] == self.types@[i as int].view());
            }
            if self.types[i].ty.same_as(&x.ty) {
                return Some(i);
            }
            i += 1;
        }
        None
    }

    fn find_trait(&self, x: &ZngurTrait) -> (r: Option<usize>)
        ensures
            match trait_at(self@.traits, x@.tr, 0) {
                Some(i) => (r matches Some(k) && k == i) && 0 <= i < self.traits@.len(),
                None => r is None,
            },
    {
        let mut i: usize = 0;
        while i < self.traits.len()
            invariant
                i <= self.traits.len(),
                trait_at(self@.traits, x@.tr, 0) == trait_at(self@.traits, x@.tr, i as int),
            decreases self.traits.len() - i,
        {
            proof {
                assert(self@.traits[i as int] == self.traits@[i as int].view());
            }
            if self.traits[i].tr.same_as(&x.tr) {
                return Some(i);
            }
            i += 1;
        }
        None
    }

    /// Adds a type declaration.
    pub fn merge_type_decl(&mut self, x: ZngurType) -> (r: MergeResult)
        ensures
            (final(self)@, failure(r)) == add_type(old(self)@, x@),
    {
        let ghost before = self.types@;
        match self.find_type(&x) {
            None => {
                proof {
                    assert(zngur_types_view(before.push(x)) =~= zngur_types_view(before).push(x@));
                }
                self.types.push(x);
                Ok(())
            },
            Some(i) => {
                let r = self.types[i].merge_from(&x);
                proof {
                    assert(zngur_types_view(before)[i as int] == before[i as int].view());
                    assert(zngur_types_view(self.types@) =~= zngur_types_view(before).update(
                        i as int,
                        self.types@[i as int].view(),
                    ));
                }
                r
            },
        }
    }

    /// Adds a trait declaration.
    pub fn merge_trait_decl(&mut self, x: ZngurTrait)
        ensures
            final(self)@ == add_trait(old(self)@, x@),
    {
        let ghost before = self.traits@;
        match self.find_trait(&x) {
            None => {
                proof {
                    assert(traits_view(before.push(x)) =~= traits_view(before).push(x@));
                }
                self.traits.push(x);
            },
            Some(i) => {
                union_methods(&x.methods, &mut self.traits[i].methods);
                proof {
                    assert(traits_view(before)[i as int] == before[i as int].view());
                    assert(traits_view(self.traits@) =~= traits_view(before).update(
                        i as int,
                        self.traits@[i as int].view(),
                    ));
                }
            },
        }
    }

    /// Adds a function.
    pub fn merge_fn_decl(&mut self, x: ZngurFn)
        ensures
            final(self)@ == add_fn(old(self)@, x@),
    {
        let ghost before = self.funcs@;
        let mut i: usize = 0;
        while i < self.funcs.len()
            invariant
                i <= self.funcs.len(),
                *self == *old(self),
                before == self.funcs@,
                forall|k: int| 0 <= k < i ==> (#[trigger] fns_view(before)[k]) != x@,
            decreases self.funcs.len() - i,
        {
            if self.funcs[i].same_as(&x) {
                proof {
                    assert(fns_view(before)[i as int] == x@);
                }
                return;
            }
            i += 1;
        }
        proof {
            assert(fns_view(before.push(x)) =~= fns_view(before).push(x@));
        }
        self.funcs.push(x);
    }

    /// Adds a C++ function.
    pub fn merge_extern_fn_decl(&mut self, x: ZngurExternCppFn)
        ensures
            final(self)@ == add_extern_fn(old(self)@, x@),
    {
        let ghost before = self.extern_cpp_funcs@;
        let mut i: usize = 0;
        while i < self.extern_cpp_funcs.len()
            invariant
                i <= self.extern_cpp_funcs.len(),
                *self == *old(self),
                before == self.extern_cpp_funcs@,
                forall|k: int| 0 <= k < i ==> (#[trigger] extern_fns_view(before)[k]) != x@,
            decreases self.extern_cpp_funcs.len() - i,
        {
            if self.extern_cpp_funcs[i].same_as(&x) {
                proof {
                    assert(extern_fns_view(before)[i as int] == x@);
                }
                return;
            }
            i += 1;
        }
        proof {
            assert(extern_fns_view(before.push(x)) =~= extern_fns_view(before).push(x@));
        }
        self.extern_cpp_funcs.push(x);
    }

    /// Adds a C++ impl block.
    pub fn merge_extern_impl_decl(&mut self, x: ZngurExternCppImpl)
        ensures
            final(self)@ == add_extern_impl(old(self)@, x@),
    {
        let ghost before = self.extern_cpp_impls@;
        let mut i: usize = 0;
        while i < self.extern_cpp_impls.len()
            invariant
                i <= self.extern_cpp_impls.len(),
                *self == *old(self),
                before == self.extern_cpp_impls@,
                forall|k: int| 0 <= k < i ==> (#[trigger] extern_impls_view(before)[k]) != x@,
            decreases self.extern_cpp_impls.len() - i,
        {
            if self.extern_cpp_impls[i].same_as(&x) {
                proof {
                    assert(extern_impls_view(before)[i as int] == x@);
                }
                return;
            }
            i += 1;
        }
        proof {
            assert(extern_impls_view(before.push(x)) =~= extern_impls_view(before).push(x@));
        }
        self.extern_cpp_impls.push(x);
    }
}

} // verus!
