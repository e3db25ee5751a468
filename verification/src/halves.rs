//! What the two halves of an interface are, given what its files declare.

use crate::coro::coro_of;
use crate::cpp::{handle_keyword, rust_path, CppTypeModel};
use crate::cpp_file::{
    trait_def_of, CppFileModel, CppMethodModel, CppVariantModel, ExportedImplModel, FieldDataModel,
    FnDefModel, NamedSigModel, OffsetModel, PanicModel, SigModel, TraitDefModel, TypeDefModel,
};
use crate::def::{
    ExternCppFnModel, ExternCppImplModel, FieldModel, FnModel, LayoutPolicy, MethodDetailsModel,
    MethodModel, SpecModel, VariantModel, ZngurMethodReceiver, ZngurTraitModel, ZngurTypeModel,
    ZngurWellknownTrait,
};
use crate::finish::declared_types;
use crate::into_cpp::{
    all_convertible, builtin, convertible, named_convertible, path_to_cpp, trait_convertible,
    trait_to_cpp, type_to_cpp, types_to_cpp,
};
use crate::mangle::mangled;
use crate::outside::uppercase_text;
use crate::rust_file::{
    assertion_text, bridge_link, closure_builder_text, closure_link, constructor_text, coro_text,
    countable, cpp_layout, discriminant_link, discriminant_text, extern_fn_text, extern_impl_text,
    extern_method_link, field_offset_link, field_text, function_body, function_link, function_text,
    layout_text, match_check_link, method_convertible, returned_type, trait_buildable,
    trait_builder_text, trait_def, tuple_constructor_text, variant_field_link, variant_field_text,
    wellknown_data, wellknown_text,
};
use crate::rust_templates::{
    CPP_ALIAS, CPP_MODULE, CPP_REF_STRUCT, CPP_VALUE_BRIDGE, CPP_VALUE_STRUCT, MATCH_CHECK, PRELUDE,
    STACK_OWNED_STRUCT,
};
use crate::rust_types::{types_text, unit_model, Mutability, PathModel, TraitModel, TypeModel};
use crate::text::{dec_text, filled, join_text, replace_text, split_text, trim_text};
use vstd::prelude::*;

verus! {

/// What the names of an interface depend on.
pub struct Setting {
    pub namespace: Seq<char>,
    pub crate_name: Seq<char>,
    pub base: Seq<char>,
    pub panic: bool,
}

/// The C++ namespace of an interface.
pub open spec fn namespace_of(zng: SpecModel) -> Seq<char> {
    match zng.cpp_namespace {
        Some(n) => n,
        None => "rust"@,
    }
}

/// What the names of an interface depend on.
pub open spec fn setting_of(zng: SpecModel, crate_name: Seq<char>) -> Setting {
    Setting {
        namespace: namespace_of(zng),
        crate_name: replace_text(crate_name, "-"@, "_"@),
        base: zng.mangling_base,
        panic: zng.convert_panic_to_exception,
    }
}

/// The name of a type without what it stands in.
pub open spec fn short_name(ty: TypeModel) -> Seq<char> {
    split_text(ty.text(), "::"@).last()
}

/// The name of the destructor of a C++ value that Rust holds in place.
pub open spec fn destructor_name(ty: TypeModel) -> Seq<char> {
    "_zngur_crate_"@ + short_name(ty) + "_destructor"@
}

/// The assertions of the layout of a type, behind a text.
pub open spec fn with_layout(t: Seq<char>, ty: TypeModel, layout: LayoutPolicy) -> Seq<char> {
    match layout {
        LayoutPolicy::StackAllocated { size, align } => t + assertion_text(
            "__zngur_assert_size"@,
            seq![ty.text(), dec_text(size as nat)],
        ) + assertion_text("__zngur_assert_align"@, seq![ty.text(), dec_text(align as nat)]),
        LayoutPolicy::Conservative { size, align } => t + assertion_text(
            "__zngur_assert_size_conservative"@,
            seq![ty.text(), dec_text(size as nat)],
        ) + assertion_text(
            "__zngur_assert_align_conservative"@,
            seq![ty.text(), dec_text(align as nat)],
        ),
        LayoutPolicy::HeapAllocated => t,
        LayoutPolicy::OnlyByRef => t,
    }
}

/// The names and types of fields.
pub open spec fn field_pairs(v: Seq<FieldModel>) -> Seq<(Seq<char>, TypeModel)> {
    Seq::new(v.len(), |i: int| (v[i].name, v[i].ty))
}

/// The types of named types.
pub open spec fn pair_types(v: Seq<(Seq<char>, TypeModel)>) -> Seq<TypeModel> {
    Seq::new(v.len(), |i: int| v[i].1)
}

/// How a variant is named in Rust.
pub open spec fn variant_name(ty: TypeModel, variant: Seq<char>) -> Seq<char> {
    ty.text() + "::"@ + variant
}

/// What C++ needs of the first `n` fields of a variant, behind a text.
pub open spec fn with_variant_fields(
    t: Seq<char>,
    ty: TypeModel,
    v: VariantModel,
    n: nat,
    s: Setting,
) -> Seq<char>
    decreases n,
{
    if n == 0 || n > v.fields.len() {
        t
    } else {
        with_variant_fields(t, ty, v, (n - 1) as nat, s) + variant_field_text(
            v.fields[n - 1].name,
            ty,
            v.name,
            s.base,
        )
    }
}

/// What C++ needs of a variant, behind a text.
pub open spec fn with_variant(
    t: Seq<char>,
    ty: TypeModel,
    v: VariantModel,
    s: Setting,
) -> Seq<char> {
    let name = variant_name(ty, v.name);
    let t = if v.exhaustive {
        t + constructor_text(name, field_pairs(v.fields), s.base)
    } else {
        t
    };
    let t = t + filled(MATCH_CHECK@, seq![match_check_link(name, s.base), name]);
    with_variant_fields(t, ty, v, v.fields.len(), s)
}

/// What C++ needs of the first `n` variants, behind a text.
pub open spec fn with_variants(
    t: Seq<char>,
    ty: TypeModel,
    v: Seq<VariantModel>,
    n: nat,
    s: Setting,
) -> Seq<char>
    decreases n,
{
    if n == 0 || n > v.len() {
        t
    } else {
        with_variant(with_variants(t, ty, v, (n - 1) as nat, s), ty, v[n - 1], s)
    }
}

/// A field of a variant, as C++ reads it.
pub open spec fn variant_field_data(
    ty: TypeModel,
    v: VariantModel,
    f: FieldModel,
    s: Setting,
) -> FieldDataModel {
    FieldDataModel {
        name: f.name,
        ty: f.ty,
        offset: OffsetModel::AutoDynamic(variant_field_link(f.name, ty, v.name, s.base)),
    }
}

/// How C++ calls a constructor.
pub open spec fn constructor_sig(
    link: Seq<char>,
    inputs: Seq<TypeModel>,
    output: CppTypeModel,
    s: Setting,
) -> SigModel {
    SigModel {
        rust_link_name: link,
        inputs: types_to_cpp(inputs, s.namespace, s.crate_name),
        output,
    }
}

/// The C++ type of a type.
pub open spec fn cpp_of(ty: TypeModel, s: Setting) -> CppTypeModel {
    type_to_cpp(ty, s.namespace, s.crate_name)
}

/// A variant, as C++ makes and tests it.
pub open spec fn variant_data(ty: TypeModel, v: VariantModel, s: Setting) -> CppVariantModel {
    let name = variant_name(ty, v.name);
    CppVariantModel {
        name: v.name,
        constructor: if v.exhaustive {
            Some(
                constructor_sig(
                    mangled(name, s.base),
                    pair_types(field_pairs(v.fields)),
                    CppTypeModel { tail: Some(v.name), ..cpp_of(ty, s) },
                    s,
                ),
            )
        } else {
            None
        },
        match_check: match_check_link(name, s.base),
        fields: Seq::new(v.fields.len(), |i: int| variant_field_data(ty, v, v.fields[i], s)),
    }
}

/// What C++ needs of the first `n` fields, behind a text.
pub open spec fn with_fields(
    t: Seq<char>,
    ty: TypeModel,
    v: Seq<FieldModel>,
    n: nat,
    s: Setting,
) -> Seq<char>
    decreases n,
{
    if n == 0 || n > v.len() {
        t
    } else {
        with_fields(t, ty, v, (n - 1) as nat, s) + field_text(v[n - 1], ty, s.base)
    }
}

/// A field, as C++ reads it.
pub open spec fn field_data(ty: TypeModel, f: FieldModel, s: Setting) -> FieldDataModel {
    FieldDataModel {
        name: f.name,
        ty: f.ty,
        offset: match f.offset {
            Some(n) => OffsetModel::Offset(n),
            None => OffsetModel::Auto(field_offset_link(f, ty, s.base)),
        },
    }
}

/// What the first `n` well-known traits of a type need, behind a text.
pub open spec fn with_wellknown(
    t: Seq<char>,
    ty: TypeModel,
    v: Seq<ZngurWellknownTrait>,
    n: nat,
    s: Setting,
) -> Seq<char>
    decreases n,
{
    if n == 0 || n > v.len() {
        t
    } else {
        with_wellknown(t, ty, v, (n - 1) as nat, s) + wellknown_text(
            ty,
            v[n - 1],
            v.contains(ZngurWellknownTrait::Unsized),
            s.base,
        )
    }
}

/// The inputs of a method, its receiver first.
pub open spec fn real_inputs(m: MethodModel, ty: TypeModel) -> Seq<TypeModel> {
    match m.receiver {
        ZngurMethodReceiver::Static => m.inputs,
        ZngurMethodReceiver::Ref(mutability) => seq![TypeModel::Ref(mutability, Box::new(ty))]
            + m.inputs,
        ZngurMethodReceiver::Move => seq![ty] + m.inputs,
    }
}

/// How C++ names a method.
pub open spec fn method_cpp_name(m: MethodDetailsModel) -> Seq<char> {
    match m.cpp_name {
        Some(n) => n,
        None => m.data.name,
    }
}

/// How Rust names a method.
pub open spec fn method_rust_name(m: MethodDetailsModel, ty: TypeModel) -> Seq<char> {
    "<"@ + (match m.deref {
        Some(d) => d.0.text(),
        None => ty.text(),
    }) + ">::"@ + m.data.name + "::<"@ + join_text(types_text(m.data.generics), ", "@) + ">"@
}

/// How the receiver of a method is reached.
pub open spec fn method_deref(m: MethodDetailsModel) -> Option<Mutability> {
    match m.deref {
        Some(d) => Some(d.1),
        None => None,
    }
}

/// The function that calls a method for C++.
pub open spec fn method_function(m: MethodDetailsModel, ty: TypeModel, s: Setting) -> Seq<char> {
    let inputs = real_inputs(m.data, ty);
    function_text(
        function_link(
            method_cpp_name(m),
            method_rust_name(m, ty),
            inputs,
            m.deref is Some,
            s.base,
        ),
        inputs.len(),
        s.panic,
        function_body(method_rust_name(m, ty), inputs, m.data.output, m.use_path, method_deref(m)),
    )
}

/// A method, as C++ calls it.
pub open spec fn method_data(m: MethodDetailsModel, ty: TypeModel, s: Setting) -> CppMethodModel {
    let inputs = real_inputs(m.data, ty);
    CppMethodModel {
        name: handle_keyword(method_cpp_name(m)),
        kind: m.data.receiver,
        sig: SigModel {
            rust_link_name: function_link(
                method_cpp_name(m),
                method_rust_name(m, ty),
                inputs,
                m.deref is Some,
                s.base,
            ),
            inputs: types_to_cpp(inputs, s.namespace, s.crate_name),
            output: cpp_of(returned_type(m.data.output), s),
        },
    }
}

/// The functions that call the first `n` methods for C++, behind a text.
pub open spec fn with_methods(
    t: Seq<char>,
    ty: TypeModel,
    v: Seq<MethodDetailsModel>,
    n: nat,
    s: Setting,
) -> Seq<char>
    decreases n,
{
    if n == 0 || n > v.len() {
        t
    } else {
        with_methods(t, ty, v, (n - 1) as nat, s) + method_function(v[n - 1], ty, s)
    }
}

/// The types of a tuple that has any.
pub open spec fn tuple_types(ty: TypeModel) -> Option<Seq<TypeModel>> {
    match ty {
        TypeModel::Tuple(v) => if v.len() > 0 {
            Some(v)
        } else {
            None
        },
        _ => None,
    }
}

/// The closure trait that a boxed closure is of.
pub open spec fn closure_trait(ty: TypeModel) -> Option<TraitModel> {
    match boxed_trait(ty) {
        Some(tr) => if tr is Fn {
            Some(tr)
        } else {
            None
        },
        None => None,
    }
}

/// The trait that a boxed trait object is of.
pub open spec fn boxed_trait(ty: TypeModel) -> Option<TraitModel> {
    match ty {
        TypeModel::Boxed(inner) => match *inner {
            TypeModel::Dyn(tr, _) => Some(tr),
            _ => None,
        },
        _ => None,
    }
}

/// The trait that a trait object is of.
pub open spec fn object_trait(ty: TypeModel) -> Option<TraitModel> {
    match ty {
        TypeModel::Dyn(tr, _) => Some(tr),
        _ => None,
    }
}

/// A closure trait, as C++ sees it.
pub open spec fn closure_def(tr: TraitModel, s: Setting) -> TraitDefModel {
    match tr {
        TraitModel::Fn { name, inputs, output } => TraitDefModel::Fn {
            sig: constructor_sig(
                closure_link(inputs, *output, s.base),
                inputs,
                cpp_of(*output, s),
                s,
            ),
        },
        TraitModel::Normal(p) => arbitrary(),
    }
}

/// Whether a type is a boxed closure of a trait that is not known yet.
pub open spec fn new_closure(ty: TypeModel, known: Seq<(TraitModel, TraitDefModel)>) -> bool {
    closure_trait(ty) matches Some(tr) && trait_def_of(known, tr, 0) is None
}

/// The known traits, with that of a boxed closure.
pub open spec fn with_closure(
    known: Seq<(TraitModel, TraitDefModel)>,
    ty: TypeModel,
    s: Setting,
) -> Seq<(TraitModel, TraitDefModel)> {
    if new_closure(ty, known) {
        known.push((closure_trait(ty)->0, closure_def(closure_trait(ty)->0, s)))
    } else {
        known
    }
}

/// What makes closures of a trait.
pub open spec fn closure_text(tr: TraitModel, s: Setting) -> Seq<char> {
    match tr {
        TraitModel::Fn { name, inputs, output } => closure_builder_text(
            name,
            inputs,
            *output,
            s.base,
        ),
        TraitModel::Normal(p) => arbitrary(),
    }
}

/// The layout of a type.
pub open spec fn layout_of(td: ZngurTypeModel) -> LayoutPolicy {
    match td.layout {
        Some(l) => l,
        None => LayoutPolicy::OnlyByRef,
    }
}

/// What a type declares of itself, behind a text: its assertions, the destructor
/// of a C++ value that it holds, its constructor and its discriminant.
pub open spec fn with_type_head(t: Seq<char>, td: ZngurTypeModel, s: Setting) -> Seq<char> {
    let t = with_layout(t, td.ty, layout_of(td));
    let t = if td.wellknown_traits.contains(ZngurWellknownTrait::Copy) {
        t + assertion_text("__zngur_assert_is_copy"@, seq![td.ty.text()])
    } else {
        t
    };
    let t = if td.cpp_stack_owned is Some {
        t + extern_fn_text(
            destructor_name(td.ty),
            seq![TypeModel::Ref(Mutability::Mut, Box::new(td.ty))],
            unit_model(),
            true,
            s.base,
        )
    } else {
        t
    };
    let t = match td.constructor {
        Some(c) => t + constructor_text(td.ty.text(), c.inputs, s.base),
        None => t,
    };
    if td.exhaustive {
        t + discriminant_text(td.ty.text(), td.variants, s.base)
    } else {
        t
    }
}

/// What the parts of a type need, behind a text: its variants, fields, tuple
/// constructor, well-known traits and methods.
pub open spec fn with_type_parts(t: Seq<char>, td: ZngurTypeModel, s: Setting) -> Seq<char> {
    let t = with_variants(t, td.ty, td.variants, td.variants.len(), s);
    let t = with_fields(t, td.ty, td.fields, td.fields.len(), s);
    let t = match tuple_types(td.ty) {
        Some(v) => t + tuple_constructor_text(v, s.base),
        None => t,
    };
    let t = with_wellknown(t, td.ty, td.wellknown_traits, td.wellknown_traits.len(), s);
    with_methods(t, td.ty, td.methods, td.methods.len(), s)
}

/// What C++ needs to hold values of a type, behind a text: its layout, the bridge
/// to a C++ value, and what makes closures.
pub open spec fn with_type_tail(
    t: Seq<char>,
    td: ZngurTypeModel,
    known: Seq<(TraitModel, TraitDefModel)>,
    s: Setting,
) -> Seq<char> {
    let t = t + layout_text(td.ty, layout_of(td), s.base);
    let t = if td.cpp_heap_allocated is Some {
        t + filled(CPP_VALUE_BRIDGE@, seq![bridge_link(td.ty, s.base), td.ty.text()])
    } else {
        t
    };
    if new_closure(td.ty, known) {
        t + closure_text(closure_trait(td.ty)->0, s)
    } else {
        t
    }
}

/// All that a type needs in Rust, behind a text.
pub open spec fn with_type(
    t: Seq<char>,
    td: ZngurTypeModel,
    known: Seq<(TraitModel, TraitDefModel)>,
    s: Setting,
) -> Seq<char> {
    with_type_tail(with_type_parts(with_type_head(t, td, s), td, s), td, known, s)
}

/// How C++ makes values of a type.
pub open spec fn type_constructor(td: ZngurTypeModel, s: Setting) -> Option<SigModel> {
    match tuple_types(td.ty) {
        Some(v) => Some(
            constructor_sig(mangled(join_text(types_text(v), "&"@), s.base), v, cpp_of(td.ty, s), s),
        ),
        None => match td.constructor {
            Some(c) => Some(
                constructor_sig(
                    mangled(td.ty.text(), s.base),
                    pair_types(c.inputs),
                    cpp_of(td.ty, s),
                    s,
                ),
            ),
            None => None,
        },
    }
}

/// A type, as C++ declares it.
pub open spec fn type_data(td: ZngurTypeModel, s: Setting) -> TypeDefModel {
    TypeDefModel {
        ty: cpp_of(td.ty, s),
        layout: cpp_layout(td.ty, layout_of(td), s.base),
        methods: Seq::new(td.methods.len(), |i: int| method_data(td.methods[i], td.ty, s)),
        constructor: type_constructor(td, s),
        variants: Seq::new(td.variants.len(), |i: int| variant_data(td.ty, td.variants[i], s)),
        discriminant: if td.exhaustive && td.variants.len() > 0 {
            Some(discriminant_link(td.ty.text(), s.base))
        } else {
            None
        },
        fields: Seq::new(td.fields.len(), |i: int| field_data(td.ty, td.fields[i], s)),
        from_trait: boxed_trait(td.ty),
        from_trait_ref: object_trait(td.ty),
        wellknown_traits: Seq::new(
            td.wellknown_traits.len(),
            |i: int| wellknown_data(td.ty, td.wellknown_traits[i], s.base),
        ),
        cpp_value: match td.cpp_heap_allocated {
            Some(c) => Some((bridge_link(td.ty, s.base), c)),
            None => None,
        },
        cpp_ref: td.cpp_ref,
        cpp_stack_owned: td.cpp_stack_owned,
    }
}

/// The Rust types that wrap C++ values, behind a text.
pub open spec fn with_wrappers(x: Seq<char>, td: ZngurTypeModel, s: Setting) -> Seq<char> {
    let name = short_name(td.ty);
    let x = match td.cpp_stack_owned {
        Some(c) => x + filled(
            STACK_OWNED_STRUCT@,
            seq![
                dec_text(c.align as nat),
                name,
                dec_text(c.size as nat),
                mangled(destructor_name(td.ty), s.base),
            ],
        ),
        None => x,
    };
    let x = if td.cpp_heap_allocated is Some {
        x + filled(CPP_VALUE_STRUCT@, seq![name])
    } else {
        x
    };
    if td.cpp_ref is Some {
        x + filled(CPP_REF_STRUCT@, seq![name])
    } else {
        x
    }
}

/// The old name of a type that wraps a C++ value, behind a text.
pub open spec fn with_alias(x: Seq<char>, td: ZngurTypeModel) -> Seq<char> {
    if td.cpp_stack_owned is Some || td.cpp_heap_allocated is Some || td.cpp_ref is Some {
        x + filled(CPP_ALIAS@, seq![short_name(td.ty)])
    } else {
        x
    }
}

/// What has come of some types: the Rust text, the Rust types that wrap C++
/// values, their old names, and the C++ half.
#[verifier::ext_equal]
pub struct Progress {
    pub rust: Seq<char>,
    pub wrappers: Seq<char>,
    pub aliases: Seq<char>,
    pub traits: Seq<(TraitModel, TraitDefModel)>,
    pub types: Seq<TypeDefModel>,
}

/// What has come of the first `n` types.
pub open spec fn after_types(p: Progress, v: Seq<ZngurTypeModel>, n: nat, s: Setting) -> Progress
    decreases n,
{
    if n == 0 || n > v.len() {
        p
    } else {
        let q = after_types(p, v, (n - 1) as nat, s);
        let td = v[n - 1];
        Progress {
            rust: with_type(q.rust, td, q.traits, s),
            wrappers: with_wrappers(q.wrappers, td, s),
            aliases: with_alias(q.aliases, td),
            traits: with_closure(q.traits, td.ty, s),
            types: q.types.push(type_data(td, s)),
        }
    }
}

/// What makes objects of the first `n` traits, behind a text.
pub open spec fn with_traits(t: Seq<char>, v: Seq<ZngurTraitModel>, n: nat, s: Setting) -> Seq<char>
    decreases n,
{
    if n == 0 || n > v.len() {
        t
    } else {
        with_traits(t, v, (n - 1) as nat, s) + trait_builder_text(v[n - 1], s.base)
    }
}

/// The traits of an interface, as C++ sees them.
pub open spec fn traits_data(v: Seq<ZngurTraitModel>, s: Setting) -> Seq<(TraitModel, TraitDefModel)> {
    Seq::new(v.len(), |i: int| (v[i].tr, trait_def(v[i], s.base, s.namespace, s.crate_name)))
}

/// The function that calls another one for C++.
pub open spec fn fn_function(f: FnModel, s: Setting) -> Seq<char> {
    function_text(
        function_link(f.path.text(), f.path.text(), f.inputs, false, s.base),
        f.inputs.len(),
        s.panic,
        function_body(f.path.text(), f.inputs, f.output, None, None),
    )
}

/// The functions that call the first `n` functions for C++, behind a text.
pub open spec fn with_fns(t: Seq<char>, v: Seq<FnModel>, n: nat, s: Setting) -> Seq<char>
    decreases n,
{
    if n == 0 || n > v.len() {
        t
    } else {
        with_fns(t, v, (n - 1) as nat, s) + fn_function(v[n - 1], s)
    }
}

/// A function, as C++ calls it.
pub open spec fn fn_data(f: FnModel, s: Setting) -> FnDefModel {
    FnDefModel {
        name: rust_path(f.path.path, s.namespace, s.crate_name),
        sig: SigModel {
            rust_link_name: function_link(f.path.text(), f.path.text(), f.inputs, false, s.base),
            inputs: types_to_cpp(f.inputs, s.namespace, s.crate_name),
            output: cpp_of(returned_type(f.output), s),
        },
    }
}

/// The first `n` C++ functions, behind a text.
pub open spec fn with_extern_fns(
    t: Seq<char>,
    v: Seq<ExternCppFnModel>,
    n: nat,
    s: Setting,
) -> Seq<char>
    decreases n,
{
    if n == 0 || n > v.len() {
        t
    } else {
        with_extern_fns(t, v, (n - 1) as nat, s) + extern_fn_text(
            v[n - 1].name,
            v[n - 1].inputs,
            v[n - 1].output,
            v[n - 1].is_safe,
            s.base,
        )
    }
}

/// A C++ function, as C++ declares it.
pub open spec fn extern_fn_data(f: ExternCppFnModel, s: Setting) -> NamedSigModel {
    NamedSigModel {
        name: f.name,
        sig: constructor_sig(mangled(f.name, s.base), f.inputs, cpp_of(f.output, s), s),
    }
}

/// The first `n` implementation blocks that C++ writes, behind a text.
pub open spec fn with_extern_impls(
    t: Seq<char>,
    v: Seq<ExternCppImplModel>,
    n: nat,
    s: Setting,
) -> Seq<char>
    decreases n,
{
    if n == 0 || n > v.len() {
        t
    } else {
        with_extern_impls(t, v, (n - 1) as nat, s) + extern_impl_text(
            v[n - 1].ty,
            v[n - 1].tr,
            v[n - 1].methods,
            s.base,
        )
    }
}

/// A method that C++ writes, as C++ declares it.
pub open spec fn impl_method_data(ty: TypeModel, m: MethodModel, s: Setting) -> NamedSigModel {
    NamedSigModel {
        name: handle_keyword(m.name),
        sig: constructor_sig(
            extern_method_link(ty, m, s.base),
            real_inputs(m, ty),
            cpp_of(m.output, s),
            s,
        ),
    }
}

/// An implementation block that C++ writes, as C++ declares it.
pub open spec fn impl_data(b: ExternCppImplModel, s: Setting) -> ExportedImplModel {
    ExportedImplModel {
        tr: match b.tr {
            Some(tr) => Some(trait_to_cpp(tr, s.namespace, s.crate_name)),
            None => None,
        },
        ty: cpp_of(b.ty, s),
        methods: Seq::new(b.methods.len(), |i: int| impl_method_data(b.ty, b.methods[i], s)),
    }
}

/// A character of a macro name: a letter or a digit, or else an underscore.
pub open spec fn macro_char(c: char) -> char {
    if ('0' <= c && c <= '9') || ('a' <= c && c <= 'z') || ('A' <= c && c <= 'Z') {
        c
    } else {
        '_'
    }
}

/// The macro that tells C++ of a configuration value.
pub open spec fn cfg_define(key: Seq<char>, value: Option<Seq<char>>) -> Seq<char> {
    "ZNGUR_CFG_"@ + uppercase_text(key) + (match value {
        Some(v) => if trim_text(v).len() == 0 {
            ""@
        } else {
            "_"@ + uppercase_text(v.map_values(|c: char| macro_char(c)))
        },
        None => ""@,
    })
}

/// The inclusion of the headers of the first `n` imported modules, behind a text.
pub open spec fn with_modules(t: Seq<char>, v: Seq<Seq<char>>, n: nat) -> Seq<char>
    decreases n,
{
    if n == 0 || n > v.len() {
        t
    } else {
        with_modules(t, v, (n - 1) as nat) + "\n#include \""@ + v[n - 1] + ".h\""@
    }
}

/// The function by which C++ learns of a panic, and takes it.
pub open spec fn panic_symbols(panic: bool) -> Option<PanicModel> {
    if panic {
        Some(
            PanicModel {
                detect_panic: "__zngur_read_and_reset_rust_panic"@,
                take_panic: "__zngur_read_and_reset_rust_panic"@,
            },
        )
    } else {
        None
    }
}

/// What has come before the types: the prelude, the coroutine support and the
/// traits.
pub open spec fn before_types(zng: SpecModel, s: Setting) -> Progress {
    let coro = coro_of(declared_types(zng.types), s.base, s.namespace, s.crate_name);
    let t = match coro {
        Some(c) => PRELUDE@ + coro_text(c),
        None => PRELUDE@,
    };
    Progress {
        rust: with_traits(t, zng.traits, zng.traits.len(), s),
        wrappers: Seq::empty(),
        aliases: Seq::empty(),
        traits: traits_data(zng.traits, s),
        types: Seq::empty(),
    }
}

/// The Rust types that wrap C++ values, and the module of their old names, behind
/// a text.
pub open spec fn with_cpp_module(t: Seq<char>, wrappers: Seq<char>, aliases: Seq<char>) -> Seq<char> {
    if aliases.len() == 0 {
        t
    } else {
        t + wrappers + filled(CPP_MODULE@, seq![aliases])
    }
}

/// The Rust half of an interface.
pub open spec fn rust_half(zng: SpecModel, s: Setting) -> Seq<char> {
    let p = after_types(before_types(zng, s), zng.types, zng.types.len(), s);
    let t = with_cpp_module(p.rust, p.wrappers, p.aliases);
    let t = with_fns(t, zng.funcs, zng.funcs.len(), s);
    let t = with_extern_fns(t, zng.extern_cpp_funcs, zng.extern_cpp_funcs.len(), s);
    with_extern_impls(t, zng.extern_cpp_impls, zng.extern_cpp_impls.len(), s)
}

/// The C++ half of an interface.
pub open spec fn cpp_half(zng: SpecModel, s: Setting, zng_header_in_place: bool) -> CppFileModel {
    let p = after_types(before_types(zng, s), zng.types, zng.types.len(), s);
    CppFileModel {
        header_file_name: zng.cpp_include_header_name,
        type_defs: p.types,
        trait_defs: p.traits,
        fn_defs: Seq::new(zng.funcs.len(), |i: int| fn_data(zng.funcs[i], s)),
        exported_fn_defs: Seq::new(
            zng.extern_cpp_funcs.len(),
            |i: int| extern_fn_data(zng.extern_cpp_funcs[i], s),
        ),
        exported_impls: Seq::new(
            zng.extern_cpp_impls.len(),
            |i: int| impl_data(zng.extern_cpp_impls[i], s),
        ),
        additional_includes: with_modules(
            zng.additional_includes,
            zng.imported_modules,
            zng.imported_modules.len(),
        ),
        panic_to_exception: panic_symbols(zng.convert_panic_to_exception),
        rust_cfg_defines: Seq::new(
            zng.rust_cfg.len(),
            |i: int| cfg_define(zng.rust_cfg[i].0, zng.rust_cfg[i].1),
        ),
        zng_header_in_place,
        coro_support: coro_of(declared_types(zng.types), s.base, s.namespace, s.crate_name),
    }
}

/// Whether C++ can call a function with such inputs and output.
pub open spec fn callable(inputs: Seq<TypeModel>, output: TypeModel, namespace: Seq<char>) -> bool {
    all_convertible(inputs, namespace) && convertible(returned_type(output), namespace)
}

/// Whether the two halves of a type can be made: it has a layout, and what C++
/// sees of it has C++ types.
pub open spec fn type_renderable(td: ZngurTypeModel, namespace: Seq<char>) -> bool {
    &&& td.layout is Some
    &&& convertible(td.ty, namespace)
    &&& (td.constructor matches Some(c) ==> named_convertible(c.inputs, namespace))
    &&& forall|i: int|
        0 <= i < td.variants.len() ==> ((#[trigger] td.variants[i]).exhaustive ==> named_convertible(
            field_pairs(td.variants[i].fields),
            namespace,
        ))
    &&& forall|i: int|
        0 <= i < td.methods.len() ==> callable(
            (#[trigger] td.methods[i]).data.inputs,
            td.methods[i].data.output,
            namespace,
        )
}

/// Whether the two halves of an implementation block can be made.
pub open spec fn impl_renderable(b: ExternCppImplModel, namespace: Seq<char>) -> bool {
    &&& convertible(b.ty, namespace)
    &&& (b.tr matches Some(tr) ==> trait_convertible(tr, namespace))
    &&& countable(b.methods)
    &&& forall|i: int|
        0 <= i < b.methods.len() ==> method_convertible(#[trigger] b.methods[i], namespace)
}

/// Whether the two halves of an interface can be made.
pub open spec fn renderable(zng: SpecModel) -> bool {
    let namespace = namespace_of(zng);
    &&& forall|i: int|
        0 <= i < zng.types.len() ==> type_renderable(#[trigger] zng.types[i], namespace)
    &&& forall|i: int|
        0 <= i < zng.traits.len() ==> trait_buildable(#[trigger] zng.traits[i], namespace)
    &&& forall|i: int|
        0 <= i < zng.funcs.len() ==> callable(
            (#[trigger] zng.funcs[i]).inputs,
            zng.funcs[i].output,
            namespace,
        )
    &&& forall|i: int|
        0 <= i < zng.extern_cpp_funcs.len() ==> all_convertible(
            (#[trigger] zng.extern_cpp_funcs[i]).inputs,
            namespace,
        ) && convertible(zng.extern_cpp_funcs[i].output, namespace)
    &&& forall|i: int|
        0 <= i < zng.extern_cpp_impls.len() ==> impl_renderable(
            #[trigger] zng.extern_cpp_impls[i],
            namespace,
        )
}

proof fn lemma_after_types(p: Progress, v: Seq<ZngurTypeModel>, n: nat, s: Setting)
    requires
        n <= v.len(),
        p.types.len() == 0,
    ensures
        after_types(p, v, n, s).types.len() == n,
        forall|i: int|
            0 <= i < n ==> #[trigger] after_types(p, v, n, s).types[i] == type_data(v[i], s),
    decreases n,
{
    if n > 0 {
        lemma_after_types(p, v, (n - 1) as nat, s);
    }
}

/// C++ declares the types of an interface one by one, in their order.
pub proof fn law_each_type_is_declared(
    zng: SpecModel,
    s: Setting,
    zng_header_in_place: bool,
    i: int,
)
    requires
        0 <= i < zng.types.len(),
    ensures
        cpp_half(zng, s, zng_header_in_place).type_defs.len() == zng.types.len(),
        cpp_half(zng, s, zng_header_in_place).type_defs[i] == type_data(zng.types[i], s),
{
    lemma_after_types(before_types(zng, s), zng.types, zng.types.len(), s);
}

/// Whether each trait has one definition.
pub open spec fn distinct_traits(v: Seq<(TraitModel, TraitDefModel)>) -> bool {
    forall|i: int, j: int| 0 <= i < j < v.len() ==> (#[trigger] v[i]).0 != (#[trigger] v[j]).0
}

proof fn lemma_trait_def_of(v: Seq<(TraitModel, TraitDefModel)>, tr: TraitModel, i: int)
    requires
        0 <= i,
        trait_def_of(v, tr, i) is None,
    ensures
        forall|k: int| i <= k < v.len() ==> (#[trigger] v[k]).0 != tr,
    decreases v.len() - i,
{
    if i < v.len() {
        lemma_trait_def_of(v, tr, i + 1);
    }
}

proof fn lemma_traits_distinct(p: Progress, v: Seq<ZngurTypeModel>, n: nat, s: Setting)
    requires
        n <= v.len(),
        distinct_traits(p.traits),
    ensures
        distinct_traits(after_types(p, v, n, s).traits),
    decreases n,
{
    if n > 0 {
        lemma_traits_distinct(p, v, (n - 1) as nat, s);
        let known = after_types(p, v, (n - 1) as nat, s).traits;
        let ty = v[n - 1].ty;
        if new_closure(ty, known) {
            lemma_trait_def_of(known, closure_trait(ty)->0, 0);
        }
    }
}

/// Where no trait is declared twice, C++ has one definition of each trait.
pub proof fn law_one_definition_for_each_trait(
    zng: SpecModel,
    s: Setting,
    zng_header_in_place: bool,
)
    requires
        forall|i: int, j: int|
            0 <= i < j < zng.traits.len() ==> (#[trigger] zng.traits[i]).tr
                != (#[trigger] zng.traits[j]).tr,
    ensures
        distinct_traits(cpp_half(zng, s, zng_header_in_place).trait_defs),
{
    let p = before_types(zng, s);
    assert forall|i: int, j: int| 0 <= i < j < p.traits.len() implies (#[trigger] p.traits[i]).0
        != (#[trigger] p.traits[j]).0 by {
        assert(zng.traits[i].tr != zng.traits[j].tr);
    }
    lemma_traits_distinct(p, zng.types, zng.types.len(), s);
}

/// A type is available to C++ in the namespace, at its path in Rust, keywords
/// apart, and `crate` by its name.
pub proof fn law_types_stand_at_their_paths(p: PathModel, s: Setting, i: int)
    requires
        0 <= i < p.path.len(),
    ensures
        cpp_of(TypeModel::Adt(p), s).path.len() == p.path.len() + 1,
        cpp_of(TypeModel::Adt(p), s).path[0] == handle_keyword(s.namespace),
        p.path[i] != "crate"@ ==> cpp_of(TypeModel::Adt(p), s).path[i + 1] == handle_keyword(
            p.path[i],
        ),
        p.path[i] == "crate"@ ==> cpp_of(TypeModel::Adt(p), s).path[i + 1] == handle_keyword(
            s.crate_name,
        ),
{
    let t = TypeModel::Adt(p);
    assert(builtin(t) is None);
    assert(type_to_cpp(t, s.namespace, s.crate_name) == path_to_cpp(p, s.namespace, s.crate_name));
    assert(path_to_cpp(p, s.namespace, s.crate_name).path == rust_path(
        p.path,
        s.namespace,
        s.crate_name,
    ));
}

} // verus!
