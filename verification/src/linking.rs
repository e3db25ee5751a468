//! That the two halves of an interface fit together: each function by which C++
//! reaches Rust is written in the Rust half, under the name that C++ links it by.

use crate::coro::coro_of;
use crate::cpp_file::{CppLayoutModel, OffsetModel, TraitDefModel, WellknownModel};
use crate::def::{
    CppStackOwnedModel, FieldModel, LayoutPolicy, SpecModel, VariantModel, ZngurMethodReceiver,
    ZngurTypeModel, ZngurWellknownTrait,
};
use crate::filling::{
    lemma_bridge, lemma_closure_open, lemma_cpp_alias, lemma_cpp_module, lemma_cpp_ref,
    lemma_cpp_value, lemma_debug_print_shim, lemma_discriminant_arm, lemma_discriminant_open,
    lemma_drop_shim, lemma_field_offset, lemma_fn_open, lemma_heap_shims, lemma_match_check,
    lemma_pretty_print_shim, lemma_stack_owned, lemma_struct_write, lemma_variant_field_offset,
};
use crate::finish::declared_types;
use crate::halves::{
    after_types, before_types, closure_text, closure_trait, cpp_half, cpp_of, destructor_name,
    field_data, field_pairs, fn_data, fn_function, law_each_type_is_declared, layout_of,
    method_data, method_deref, method_function, method_rust_name, new_closure, real_inputs,
    rust_half, short_name, tuple_types, type_data, variant_data, variant_name, with_alias,
    with_closure, with_cpp_module, with_extern_fns, with_extern_impls, with_fields, with_fns,
    with_layout, with_methods, with_traits, with_type, with_type_head, with_type_parts,
    with_type_tail, with_variant, with_variant_fields, with_variants, with_wellknown,
    with_wrappers, Progress, Setting,
};
use crate::holding::{
    holds, lemma_concat_in_order, lemma_holds_both, lemma_holds_fewer, lemma_holds_inside,
    lemma_holds_itself,
};
use crate::mangle::mangled;
use crate::rust_file::{
    assertion_text, bridge_link, call_text, closure_builder_text, closure_link, constructor_text, coro_text,
    cpp_layout, discriminant_arms, discriminant_link, discriminant_text, extern_fn_text,
    extern_impl_text, field_inputs, field_offset_link, field_reads, field_text, function_body,
    function_text, guarded, layout_text, match_check_link, trait_builder_text,
    tuple_constructor_text, variant_field_link, variant_field_text, wellknown_data, wellknown_text,
};
use crate::rust_templates::{
    CLOSURE_CLOSE, CLOSURE_OPEN, CPP_ALIAS, CPP_MODULE, CPP_REF_STRUCT, CPP_VALUE_BRIDGE,
    CPP_VALUE_STRUCT, DEBUG_PRINT_SHIM, DISCRIMINANT_CLOSE, DISCRIMINANT_OPEN, EXTERN_FN_OPEN,
    FIELD_OFFSET, MATCH_CHECK, PRELUDE, PRETTY_PRINT_SHIM, STACK_OWNED_STRUCT, STRUCT_WRITE, TUPLE_WRITE,
    VARIANT_FIELD_OFFSET,
};
use crate::rust_types::{types_text, unit_model, Mutability, TraitModel, TypeModel};
use crate::shims::{
    cpp_receiver, law_receiver_keeps_its_mutability, law_shim_has_its_link_name,
    law_shim_reads_the_receiver, taken_receiver,
};
use crate::text::{concat_all, dec_text, filled, join_text, numbered, numbered_items, occurs_at};
use vstd::prelude::*;

verus! {

/// Whether a text stands in another.
pub open spec fn inside(whole: Seq<char>, part: Seq<char>) -> bool {
    exists|i: int| #[trigger] occurs_at(whole, part, i)
}

/// What stands in a text stands in it with more behind it.
pub proof fn lemma_inside_front(a: Seq<char>, b: Seq<char>, part: Seq<char>)
    requires
        inside(a, part),
    ensures
        inside(a + b, part),
{
    let i = choose|i: int| #[trigger] occurs_at(a, part, i);
    assert((a + b).subrange(i, i + part.len()) =~= a.subrange(i, i + part.len()));
    assert(occurs_at(a + b, part, i));
}

/// A text ends in what is put behind another.
pub proof fn lemma_inside_end(a: Seq<char>, b: Seq<char>)
    ensures
        inside(a + b, b),
{
    assert((a + b).subrange(a.len() as int, (a + b).len() as int) =~= b);
    assert(occurs_at(a + b, b, a.len() as int));
}

/// A text stands between what is put around it.
pub proof fn lemma_inside_middle(a: Seq<char>, b: Seq<char>, c: Seq<char>)
    ensures
        inside(a + b + c, b),
{
    lemma_inside_end(a, b);
    lemma_inside_front(a + b, c, b);
}

/// What a part holds, the text that it stands in holds.
pub proof fn lemma_inside_holds(whole: Seq<char>, part: Seq<char>, parts: Seq<Seq<char>>)
    requires
        inside(whole, part),
        holds(part, parts),
    ensures
        holds(whole, parts),
{
    let i = choose|i: int| #[trigger] occurs_at(whole, part, i);
    let before = whole.take(i);
    let behind = whole.skip(i + part.len());
    assert(whole =~= before + part + behind);
    lemma_holds_inside(whole, before, part, behind, parts);
}

proof fn lemma_keep_layout(t: Seq<char>, ty: TypeModel, layout: LayoutPolicy, part: Seq<char>)
    requires
        inside(t, part),
    ensures
        inside(with_layout(t, ty, layout), part),
{
    match layout {
        LayoutPolicy::StackAllocated { size, align } => {
            let a = assertion_text("__zngur_assert_size"@, seq![ty.text(), dec_text(size as nat)]);
            let b = assertion_text("__zngur_assert_align"@, seq![ty.text(), dec_text(align as nat)]);
            lemma_inside_front(t, a, part);
            lemma_inside_front(t + a, b, part);
        },
        LayoutPolicy::Conservative { size, align } => {
            let a = assertion_text(
                "__zngur_assert_size_conservative"@,
                seq![ty.text(), dec_text(size as nat)],
            );
            let b = assertion_text(
                "__zngur_assert_align_conservative"@,
                seq![ty.text(), dec_text(align as nat)],
            );
            lemma_inside_front(t, a, part);
            lemma_inside_front(t + a, b, part);
        },
        _ => {},
    }
}

proof fn lemma_keep_variant_fields(
    t: Seq<char>,
    ty: TypeModel,
    v: VariantModel,
    n: nat,
    s: Setting,
    part: Seq<char>,
)
    requires
        inside(t, part),
    ensures
        inside(with_variant_fields(t, ty, v, n, s), part),
    decreases n,
{
    if 0 < n <= v.fields.len() {
        lemma_keep_variant_fields(t, ty, v, (n - 1) as nat, s, part);
        lemma_inside_front(
            with_variant_fields(t, ty, v, (n - 1) as nat, s),
            variant_field_text(v.fields[n - 1].name, ty, v.name, s.base),
            part,
        );
    }
}

proof fn lemma_has_variant_field(
    t: Seq<char>,
    ty: TypeModel,
    v: VariantModel,
    n: nat,
    s: Setting,
    i: int,
)
    requires
        0 <= i < n <= v.fields.len(),
    ensures
        inside(
            with_variant_fields(t, ty, v, n, s),
            variant_field_text(v.fields[i].name, ty, v.name, s.base),
        ),
    decreases n,
{
    let before = with_variant_fields(t, ty, v, (n - 1) as nat, s);
    let last = variant_field_text(v.fields[n - 1].name, ty, v.name, s.base);
    if i == n - 1 {
        lemma_inside_end(before, last);
    } else {
        lemma_has_variant_field(t, ty, v, (n - 1) as nat, s, i);
        lemma_inside_front(before, last, variant_field_text(v.fields[i].name, ty, v.name, s.base));
    }
}

proof fn lemma_keep_variant(t: Seq<char>, ty: TypeModel, v: VariantModel, s: Setting, part: Seq<char>)
    requires
        inside(t, part),
    ensures
        inside(with_variant(t, ty, v, s), part),
{
    let name = variant_name(ty, v.name);
    let made = constructor_text(name, field_pairs(v.fields), s.base);
    lemma_inside_front(t, made, part);
    let t1 = if v.exhaustive {
        t + made
    } else {
        t
    };
    let check = filled(
        MATCH_CHECK@,
        seq![match_check_link(name, s.base), name],
    );
    lemma_inside_front(t1, check, part);
    lemma_keep_variant_fields(t1 + check, ty, v, v.fields.len(), s, part);
}

proof fn lemma_keep_variants(
    t: Seq<char>,
    ty: TypeModel,
    v: Seq<VariantModel>,
    n: nat,
    s: Setting,
    part: Seq<char>,
)
    requires
        inside(t, part),
    ensures
        inside(with_variants(t, ty, v, n, s), part),
    decreases n,
{
    if 0 < n <= v.len() {
        lemma_keep_variants(t, ty, v, (n - 1) as nat, s, part);
        lemma_keep_variant(with_variants(t, ty, v, (n - 1) as nat, s), ty, v[n - 1], s, part);
    }
}

/// What stands in the text of a variant stands in that of all variants.
proof fn lemma_has_variant(
    t: Seq<char>,
    ty: TypeModel,
    v: Seq<VariantModel>,
    n: nat,
    s: Setting,
    i: int,
    part: Seq<char>,
)
    requires
        0 <= i < n <= v.len(),
        forall|u: Seq<char>| inside(#[trigger] with_variant(u, ty, v[i], s), part),
    ensures
        inside(with_variants(t, ty, v, n, s), part),
    decreases n,
{
    let before = with_variants(t, ty, v, (n - 1) as nat, s);
    if i < n - 1 {
        lemma_has_variant(t, ty, v, (n - 1) as nat, s, i, part);
        lemma_keep_variant(before, ty, v[n - 1], s, part);
    } else {
        assert(inside(with_variant(before, ty, v[i], s), part));
    }
}

proof fn lemma_keep_fields(
    t: Seq<char>,
    ty: TypeModel,
    v: Seq<crate::def::FieldModel>,
    n: nat,
    s: Setting,
    part: Seq<char>,
)
    requires
        inside(t, part),
    ensures
        inside(with_fields(t, ty, v, n, s), part),
    decreases n,
{
    if 0 < n <= v.len() {
        lemma_keep_fields(t, ty, v, (n - 1) as nat, s, part);
        lemma_inside_front(
            with_fields(t, ty, v, (n - 1) as nat, s),
            field_text(v[n - 1], ty, s.base),
            part,
        );
    }
}

proof fn lemma_has_field(
    t: Seq<char>,
    ty: TypeModel,
    v: Seq<crate::def::FieldModel>,
    n: nat,
    s: Setting,
    i: int,
)
    requires
        0 <= i < n <= v.len(),
    ensures
        inside(with_fields(t, ty, v, n, s), field_text(v[i], ty, s.base)),
    decreases n,
{
    let before = with_fields(t, ty, v, (n - 1) as nat, s);
    let last = field_text(v[n - 1], ty, s.base);
    if i == n - 1 {
        lemma_inside_end(before, last);
    } else {
        lemma_has_field(t, ty, v, (n - 1) as nat, s, i);
        lemma_inside_front(before, last, field_text(v[i], ty, s.base));
    }
}

proof fn lemma_keep_wellknown(
    t: Seq<char>,
    ty: TypeModel,
    v: Seq<ZngurWellknownTrait>,
    n: nat,
    s: Setting,
    part: Seq<char>,
)
    requires
        inside(t, part),
    ensures
        inside(with_wellknown(t, ty, v, n, s), part),
    decreases n,
{
    if 0 < n <= v.len() {
        lemma_keep_wellknown(t, ty, v, (n - 1) as nat, s, part);
        lemma_inside_front(
            with_wellknown(t, ty, v, (n - 1) as nat, s),
            wellknown_text(ty, v[n - 1], v.contains(ZngurWellknownTrait::Unsized), s.base),
            part,
        );
    }
}

proof fn lemma_has_wellknown(
    t: Seq<char>,
    ty: TypeModel,
    v: Seq<ZngurWellknownTrait>,
    n: nat,
    s: Setting,
    i: int,
)
    requires
        0 <= i < n <= v.len(),
    ensures
        inside(with_wellknown(t, ty, v, n, s), wellknown_text(ty, v[i], v.contains(ZngurWellknownTrait::Unsized), s.base)),
    decreases n,
{
    let before = with_wellknown(t, ty, v, (n - 1) as nat, s);
    let last = wellknown_text(ty, v[n - 1], v.contains(ZngurWellknownTrait::Unsized), s.base);
    if i == n - 1 {
        lemma_inside_end(before, last);
    } else {
        lemma_has_wellknown(t, ty, v, (n - 1) as nat, s, i);
        lemma_inside_front(before, last, wellknown_text(ty, v[i], v.contains(ZngurWellknownTrait::Unsized), s.base));
    }
}

proof fn lemma_keep_methods(
    t: Seq<char>,
    ty: TypeModel,
    v: Seq<crate::def::MethodDetailsModel>,
    n: nat,
    s: Setting,
    part: Seq<char>,
)
    requires
        inside(t, part),
    ensures
        inside(with_methods(t, ty, v, n, s), part),
    decreases n,
{
    if 0 < n <= v.len() {
        lemma_keep_methods(t, ty, v, (n - 1) as nat, s, part);
        lemma_inside_front(
            with_methods(t, ty, v, (n - 1) as nat, s),
            method_function(v[n - 1], ty, s),
            part,
        );
    }
}

proof fn lemma_has_method(
    t: Seq<char>,
    ty: TypeModel,
    v: Seq<crate::def::MethodDetailsModel>,
    n: nat,
    s: Setting,
    i: int,
)
    requires
        0 <= i < n <= v.len(),
    ensures
        inside(with_methods(t, ty, v, n, s), method_function(v[i], ty, s)),
    decreases n,
{
    let before = with_methods(t, ty, v, (n - 1) as nat, s);
    let last = method_function(v[n - 1], ty, s);
    if i == n - 1 {
        lemma_inside_end(before, last);
    } else {
        lemma_has_method(t, ty, v, (n - 1) as nat, s, i);
        lemma_inside_front(before, last, method_function(v[i], ty, s));
    }
}

proof fn lemma_keep_traits(
    t: Seq<char>,
    v: Seq<crate::def::ZngurTraitModel>,
    n: nat,
    s: Setting,
    part: Seq<char>,
)
    requires
        inside(t, part),
    ensures
        inside(with_traits(t, v, n, s), part),
    decreases n,
{
    if 0 < n <= v.len() {
        lemma_keep_traits(t, v, (n - 1) as nat, s, part);
        lemma_inside_front(
            with_traits(t, v, (n - 1) as nat, s),
            trait_builder_text(v[n - 1], s.base),
            part,
        );
    }
}

proof fn lemma_has_trait(
    t: Seq<char>,
    v: Seq<crate::def::ZngurTraitModel>,
    n: nat,
    s: Setting,
    i: int,
)
    requires
        0 <= i < n <= v.len(),
    ensures
        inside(with_traits(t, v, n, s), trait_builder_text(v[i], s.base)),
    decreases n,
{
    let before = with_traits(t, v, (n - 1) as nat, s);
    let last = trait_builder_text(v[n - 1], s.base);
    if i == n - 1 {
        lemma_inside_end(before, last);
    } else {
        lemma_has_trait(t, v, (n - 1) as nat, s, i);
        lemma_inside_front(before, last, trait_builder_text(v[i], s.base));
    }
}

proof fn lemma_keep_fns(
    t: Seq<char>,
    v: Seq<crate::def::FnModel>,
    n: nat,
    s: Setting,
    part: Seq<char>,
)
    requires
        inside(t, part),
    ensures
        inside(with_fns(t, v, n, s), part),
    decreases n,
{
    if 0 < n <= v.len() {
        lemma_keep_fns(t, v, (n - 1) as nat, s, part);
        lemma_inside_front(
            with_fns(t, v, (n - 1) as nat, s),
            fn_function(v[n - 1], s),
            part,
        );
    }
}

proof fn lemma_has_fn(
    t: Seq<char>,
    v: Seq<crate::def::FnModel>,
    n: nat,
    s: Setting,
    i: int,
)
    requires
        0 <= i < n <= v.len(),
    ensures
        inside(with_fns(t, v, n, s), fn_function(v[i], s)),
    decreases n,
{
    let before = with_fns(t, v, (n - 1) as nat, s);
    let last = fn_function(v[n - 1], s);
    if i == n - 1 {
        lemma_inside_end(before, last);
    } else {
        lemma_has_fn(t, v, (n - 1) as nat, s, i);
        lemma_inside_front(before, last, fn_function(v[i], s));
    }
}

proof fn lemma_keep_extern_fns(
    t: Seq<char>,
    v: Seq<crate::def::ExternCppFnModel>,
    n: nat,
    s: Setting,
    part: Seq<char>,
)
    requires
        inside(t, part),
    ensures
        inside(with_extern_fns(t, v, n, s), part),
    decreases n,
{
    if 0 < n <= v.len() {
        lemma_keep_extern_fns(t, v, (n - 1) as nat, s, part);
        lemma_inside_front(
            with_extern_fns(t, v, (n - 1) as nat, s),
            extern_fn_text(v[n - 1].name, v[n - 1].inputs, v[n - 1].output, v[n - 1].is_safe, s.base),
            part,
        );
    }
}

proof fn lemma_has_extern_fn(
    t: Seq<char>,
    v: Seq<crate::def::ExternCppFnModel>,
    n: nat,
    s: Setting,
    i: int,
)
    requires
        0 <= i < n <= v.len(),
    ensures
        inside(with_extern_fns(t, v, n, s), extern_fn_text(v[i].name, v[i].inputs, v[i].output, v[i].is_safe, s.base)),
    decreases n,
{
    let before = with_extern_fns(t, v, (n - 1) as nat, s);
    let last = extern_fn_text(v[n - 1].name, v[n - 1].inputs, v[n - 1].output, v[n - 1].is_safe, s.base);
    if i == n - 1 {
        lemma_inside_end(before, last);
    } else {
        lemma_has_extern_fn(t, v, (n - 1) as nat, s, i);
        lemma_inside_front(before, last, extern_fn_text(v[i].name, v[i].inputs, v[i].output, v[i].is_safe, s.base));
    }
}

proof fn lemma_keep_extern_impls(
    t: Seq<char>,
    v: Seq<crate::def::ExternCppImplModel>,
    n: nat,
    s: Setting,
    part: Seq<char>,
)
    requires
        inside(t, part),
    ensures
        inside(with_extern_impls(t, v, n, s), part),
    decreases n,
{
    if 0 < n <= v.len() {
        lemma_keep_extern_impls(t, v, (n - 1) as nat, s, part);
        lemma_inside_front(
            with_extern_impls(t, v, (n - 1) as nat, s),
            extern_impl_text(v[n - 1].ty, v[n - 1].tr, v[n - 1].methods, s.base),
            part,
        );
    }
}

proof fn lemma_has_extern_impl(
    t: Seq<char>,
    v: Seq<crate::def::ExternCppImplModel>,
    n: nat,
    s: Setting,
    i: int,
)
    requires
        0 <= i < n <= v.len(),
    ensures
        inside(with_extern_impls(t, v, n, s), extern_impl_text(v[i].ty, v[i].tr, v[i].methods, s.base)),
    decreases n,
{
    let before = with_extern_impls(t, v, (n - 1) as nat, s);
    let last = extern_impl_text(v[n - 1].ty, v[n - 1].tr, v[n - 1].methods, s.base);
    if i == n - 1 {
        lemma_inside_end(before, last);
    } else {
        lemma_has_extern_impl(t, v, (n - 1) as nat, s, i);
        lemma_inside_front(before, last, extern_impl_text(v[i].ty, v[i].tr, v[i].methods, s.base));
    }
}

proof fn lemma_keep_head(t: Seq<char>, td: ZngurTypeModel, s: Setting, part: Seq<char>)
    requires
        inside(t, part),
    ensures
        inside(with_type_head(t, td, s), part),
{
    let t1 = with_layout(t, td.ty, layout_of(td));
    lemma_keep_layout(t, td.ty, layout_of(td), part);
    lemma_keep_made(t1, td, s, part);
}

/// A text with what a type declares of itself but its layout.
spec fn with_made(t: Seq<char>, td: ZngurTypeModel, s: Setting) -> Seq<char> {
    let t = if td.wellknown_traits.contains(ZngurWellknownTrait::Copy) {
        t + copy_assertion(td.ty)
    } else {
        t
    };
    let t = if td.cpp_stack_owned is Some {
        t + destructor_text(td.ty, s)
    } else {
        t
    };
    let t = match td.constructor {
        Some(c) => t + constructor_text(td.ty.text(), c.inputs, s.base),
        None => t,
    };
    if td.exhaustive {
        t + discriminant_text(td.ty.text(), td.variants, s.base)
    } else {
        t
    }
}

spec fn copy_assertion(ty: TypeModel) -> Seq<char> {
    assertion_text("__zngur_assert_is_copy"@, seq![ty.text()])
}

spec fn destructor_text(ty: TypeModel, s: Setting) -> Seq<char> {
    extern_fn_text(
        destructor_name(ty),
        seq![TypeModel::Ref(Mutability::Mut, Box::new(ty))],
        unit_model(),
        true,
        s.base,
    )
}

proof fn lemma_head(t: Seq<char>, td: ZngurTypeModel, s: Setting)
    ensures
        with_type_head(t, td, s) == with_made(with_layout(t, td.ty, layout_of(td)), td, s),
{
}

proof fn lemma_keep_made(t: Seq<char>, td: ZngurTypeModel, s: Setting, part: Seq<char>)
    requires
        inside(t, part),
    ensures
        inside(with_made(t, td, s), part),
{
    let a = copy_assertion(td.ty);
    let t1 = if td.wellknown_traits.contains(ZngurWellknownTrait::Copy) {
        t + a
    } else {
        t
    };
    lemma_inside_front(t, a, part);
    let b = destructor_text(td.ty, s);
    let t2 = if td.cpp_stack_owned is Some {
        t1 + b
    } else {
        t1
    };
    lemma_inside_front(t1, b, part);
    let t3 = match td.constructor {
        Some(c) => t2 + constructor_text(td.ty.text(), c.inputs, s.base),
        None => t2,
    };
    if let Some(c) = td.constructor {
        lemma_inside_front(t2, constructor_text(td.ty.text(), c.inputs, s.base), part);
    }
    lemma_inside_front(t3, discriminant_text(td.ty.text(), td.variants, s.base), part);
}

proof fn lemma_keep_parts(t: Seq<char>, td: ZngurTypeModel, s: Setting, part: Seq<char>)
    requires
        inside(t, part),
    ensures
        inside(with_type_parts(t, td, s), part),
{
    let t1 = with_variants(t, td.ty, td.variants, td.variants.len(), s);
    lemma_keep_variants(t, td.ty, td.variants, td.variants.len(), s, part);
    lemma_keep_behind_variants(t1, td, s, part);
}

/// A text with what the parts of a type need but its variants.
spec fn behind_variants(t: Seq<char>, td: ZngurTypeModel, s: Setting) -> Seq<char> {
    let t = with_fields(t, td.ty, td.fields, td.fields.len(), s);
    behind_fields(t, td, s)
}

spec fn behind_fields(t: Seq<char>, td: ZngurTypeModel, s: Setting) -> Seq<char> {
    let t = match tuple_types(td.ty) {
        Some(v) => t + tuple_constructor_text(v, s.base),
        None => t,
    };
    let t = with_wellknown(t, td.ty, td.wellknown_traits, td.wellknown_traits.len(), s);
    with_methods(t, td.ty, td.methods, td.methods.len(), s)
}

proof fn lemma_keep_behind_variants(t: Seq<char>, td: ZngurTypeModel, s: Setting, part: Seq<char>)
    requires
        inside(t, part),
    ensures
        inside(behind_variants(t, td, s), part),
{
    lemma_keep_fields(t, td.ty, td.fields, td.fields.len(), s, part);
    lemma_keep_behind_fields(with_fields(t, td.ty, td.fields, td.fields.len(), s), td, s, part);
}

proof fn lemma_keep_behind_fields(t: Seq<char>, td: ZngurTypeModel, s: Setting, part: Seq<char>)
    requires
        inside(t, part),
    ensures
        inside(behind_fields(t, td, s), part),
{
    let t1 = match tuple_types(td.ty) {
        Some(v) => t + tuple_constructor_text(v, s.base),
        None => t,
    };
    if let Some(v) = tuple_types(td.ty) {
        lemma_inside_front(t, tuple_constructor_text(v, s.base), part);
    }
    lemma_keep_wellknown(t1, td.ty, td.wellknown_traits, td.wellknown_traits.len(), s, part);
    let t2 = with_wellknown(t1, td.ty, td.wellknown_traits, td.wellknown_traits.len(), s);
    lemma_keep_methods(t2, td.ty, td.methods, td.methods.len(), s, part);
}

proof fn lemma_keep_tail(
    t: Seq<char>,
    td: ZngurTypeModel,
    known: Seq<(TraitModel, TraitDefModel)>,
    s: Setting,
    part: Seq<char>,
)
    requires
        inside(t, part),
    ensures
        inside(with_type_tail(t, td, known, s), part),
{
    let a = layout_text(td.ty, layout_of(td), s.base);
    lemma_inside_front(t, a, part);
    let b = bridge_text(td.ty, s);
    lemma_inside_front(t + a, b, part);
    let t2 = if td.cpp_heap_allocated is Some {
        t + a + b
    } else {
        t + a
    };
    lemma_inside_front(t2, closure_text(closure_trait(td.ty)->0, s), part);
}

spec fn bridge_text(ty: TypeModel, s: Setting) -> Seq<char> {
    filled(CPP_VALUE_BRIDGE@, seq![bridge_link(ty, s.base), ty.text()])
}

proof fn lemma_keep_type(
    t: Seq<char>,
    td: ZngurTypeModel,
    known: Seq<(TraitModel, TraitDefModel)>,
    s: Setting,
    part: Seq<char>,
)
    requires
        inside(t, part),
    ensures
        inside(with_type(t, td, known, s), part),
{
    lemma_keep_head(t, td, s, part);
    lemma_keep_parts(with_type_head(t, td, s), td, s, part);
    lemma_keep_tail(with_type_parts(with_type_head(t, td, s), td, s), td, known, s, part);
}

proof fn lemma_keep_types(p: Progress, v: Seq<ZngurTypeModel>, n: nat, s: Setting, part: Seq<char>)
    requires
        inside(p.rust, part),
    ensures
        inside(after_types(p, v, n, s).rust, part),
    decreases n,
{
    if 0 < n <= v.len() {
        lemma_keep_types(p, v, (n - 1) as nat, s, part);
        let q = after_types(p, v, (n - 1) as nat, s);
        lemma_keep_type(q.rust, v[n - 1], q.traits, s, part);
    }
}

/// What stands in the text of a type, whatever it stands behind.
#[verifier::opaque]
spec fn type_has(td: ZngurTypeModel, s: Setting, part: Seq<char>) -> bool {
    forall|t: Seq<char>, known: Seq<(TraitModel, TraitDefModel)>|
        inside(#[trigger] with_type(t, td, known, s), part)
}

proof fn lemma_type_has_at(
    td: ZngurTypeModel,
    s: Setting,
    part: Seq<char>,
    t: Seq<char>,
    known: Seq<(TraitModel, TraitDefModel)>,
)
    requires
        type_has(td, s, part),
    ensures
        inside(with_type(t, td, known, s), part),
{
    reveal(type_has);
}

proof fn lemma_has_type(
    p: Progress,
    v: Seq<ZngurTypeModel>,
    n: nat,
    s: Setting,
    k: int,
    part: Seq<char>,
)
    requires
        0 <= k < n <= v.len(),
        type_has(v[k], s, part),
    ensures
        inside(after_types(p, v, n, s).rust, part),
    decreases n,
{
    let q = after_types(p, v, (n - 1) as nat, s);
    if k < n - 1 {
        lemma_has_type(p, v, (n - 1) as nat, s, k, part);
        lemma_keep_type(q.rust, v[n - 1], q.traits, s, part);
    } else {
        lemma_type_has_at(v[k], s, part, q.rust, q.traits);
    }
}

/// What stands before the functions of an interface stands in its Rust half.
proof fn lemma_keep_rest(zng: SpecModel, s: Setting, part: Seq<char>)
    requires
        inside(after_types(before_types(zng, s), zng.types, zng.types.len(), s).rust, part),
    ensures
        inside(rust_half(zng, s), part),
{
    let p = after_types(before_types(zng, s), zng.types, zng.types.len(), s);
    let m = with_cpp_module(p.rust, p.wrappers, p.aliases);
    if p.aliases.len() > 0 {
        lemma_inside_front(p.rust, p.wrappers, part);
        lemma_inside_front(
            p.rust + p.wrappers,
            filled(CPP_MODULE@, seq![p.aliases]),
            part,
        );
    }
    lemma_keep_fns(m, zng.funcs, zng.funcs.len(), s, part);
    let f = with_fns(m, zng.funcs, zng.funcs.len(), s);
    lemma_keep_extern_fns(f, zng.extern_cpp_funcs, zng.extern_cpp_funcs.len(), s, part);
    let e = with_extern_fns(f, zng.extern_cpp_funcs, zng.extern_cpp_funcs.len(), s);
    lemma_keep_extern_impls(e, zng.extern_cpp_impls, zng.extern_cpp_impls.len(), s, part);
}

proof fn lemma_half_has_type(zng: SpecModel, s: Setting, k: int, part: Seq<char>)
    requires
        0 <= k < zng.types.len(),
        type_has(zng.types[k], s, part),
    ensures
        inside(rust_half(zng, s), part),
{
    lemma_has_type(before_types(zng, s), zng.types, zng.types.len(), s, k, part);
    lemma_keep_rest(zng, s, part);
}

/// The Rust half starts with its macros.
pub proof fn lemma_half_has_prelude(zng: SpecModel, s: Setting)
    ensures
        inside(rust_half(zng, s), PRELUDE@),
{
    let part = PRELUDE@;
    let coro = coro_of(
        declared_types(zng.types),
        s.base,
        s.namespace,
        s.crate_name,
    );
    let t = match coro {
        Some(c) => part + coro_text(c),
        None => part,
    };
    assert(part.subrange(0, part.len() as int) =~= part);
    assert(occurs_at(part, part, 0));
    if let Some(c) = coro {
        lemma_inside_front(part, coro_text(c), part);
    }
    lemma_keep_traits(t, zng.traits, zng.traits.len(), s, part);
    lemma_keep_types(before_types(zng, s), zng.types, zng.types.len(), s, part);
    lemma_keep_rest(zng, s, part);
}

/// The Rust half holds the support for coroutines where there is any.
pub proof fn lemma_half_has_coro(zng: SpecModel, s: Setting)
    ensures
        coro_of(declared_types(zng.types), s.base, s.namespace, s.crate_name) matches Some(c)
            ==> inside(rust_half(zng, s), coro_text(c)),
{
    if let Some(c) = coro_of(declared_types(zng.types), s.base, s.namespace, s.crate_name) {
        let part = coro_text(c);
        let t = PRELUDE@ + part;
        lemma_inside_end(PRELUDE@, part);
        lemma_keep_traits(t, zng.traits, zng.traits.len(), s, part);
        lemma_keep_types(before_types(zng, s), zng.types, zng.types.len(), s, part);
        lemma_keep_rest(zng, s, part);
    }
}

/// The Rust half holds what makes objects of each trait.
pub proof fn lemma_half_has_trait(zng: SpecModel, s: Setting, k: int)
    requires
        0 <= k < zng.traits.len(),
    ensures
        inside(rust_half(zng, s), trait_builder_text(zng.traits[k], s.base)),
{
    let part = trait_builder_text(zng.traits[k], s.base);
    let coro = coro_of(
        declared_types(zng.types),
        s.base,
        s.namespace,
        s.crate_name,
    );
    let t = match coro {
        Some(c) => PRELUDE@ + coro_text(c),
        None => PRELUDE@,
    };
    lemma_has_trait(t, zng.traits, zng.traits.len(), s, k);
    lemma_keep_types(before_types(zng, s), zng.types, zng.types.len(), s, part);
    lemma_keep_rest(zng, s, part);
}

proof fn lemma_half_has_fn(zng: SpecModel, s: Setting, k: int)
    requires
        0 <= k < zng.funcs.len(),
    ensures
        inside(rust_half(zng, s), fn_function(zng.funcs[k], s)),
{
    let part = fn_function(zng.funcs[k], s);
    let p = after_types(before_types(zng, s), zng.types, zng.types.len(), s);
    let m = with_cpp_module(p.rust, p.wrappers, p.aliases);
    lemma_has_fn(m, zng.funcs, zng.funcs.len(), s, k);
    let f = with_fns(m, zng.funcs, zng.funcs.len(), s);
    lemma_keep_extern_fns(f, zng.extern_cpp_funcs, zng.extern_cpp_funcs.len(), s, part);
    let e = with_extern_fns(f, zng.extern_cpp_funcs, zng.extern_cpp_funcs.len(), s);
    lemma_keep_extern_impls(e, zng.extern_cpp_impls, zng.extern_cpp_impls.len(), s, part);
}

/// The Rust half holds each C++ function.
pub proof fn lemma_half_has_extern_fn(zng: SpecModel, s: Setting, k: int)
    requires
        0 <= k < zng.extern_cpp_funcs.len(),
    ensures
        inside(
            rust_half(zng, s),
            extern_fn_text(
                zng.extern_cpp_funcs[k].name,
                zng.extern_cpp_funcs[k].inputs,
                zng.extern_cpp_funcs[k].output,
                zng.extern_cpp_funcs[k].is_safe,
                s.base,
            ),
        ),
{
    let v = zng.extern_cpp_funcs;
    let part = extern_fn_text(v[k].name, v[k].inputs, v[k].output, v[k].is_safe, s.base);
    let p = after_types(before_types(zng, s), zng.types, zng.types.len(), s);
    let m = with_cpp_module(p.rust, p.wrappers, p.aliases);
    let f = with_fns(m, zng.funcs, zng.funcs.len(), s);
    lemma_has_extern_fn(f, v, v.len(), s, k);
    let e = with_extern_fns(f, v, v.len(), s);
    lemma_keep_extern_impls(e, zng.extern_cpp_impls, zng.extern_cpp_impls.len(), s, part);
}

/// The Rust half holds each implementation block that C++ writes.
pub proof fn lemma_half_has_extern_impl(zng: SpecModel, s: Setting, k: int)
    requires
        0 <= k < zng.extern_cpp_impls.len(),
    ensures
        inside(
            rust_half(zng, s),
            extern_impl_text(
                zng.extern_cpp_impls[k].ty,
                zng.extern_cpp_impls[k].tr,
                zng.extern_cpp_impls[k].methods,
                s.base,
            ),
        ),
{
    let v = zng.extern_cpp_impls;
    let p = after_types(before_types(zng, s), zng.types, zng.types.len(), s);
    let m = with_cpp_module(p.rust, p.wrappers, p.aliases);
    let f = with_fns(m, zng.funcs, zng.funcs.len(), s);
    let e = with_extern_fns(f, zng.extern_cpp_funcs, zng.extern_cpp_funcs.len(), s);
    lemma_has_extern_impl(e, v, v.len(), s, k);
}

proof fn lemma_type_has_method(td: ZngurTypeModel, s: Setting, i: int)
    requires
        0 <= i < td.methods.len(),
    ensures
        type_has(td, s, method_function(td.methods[i], td.ty, s)),
{
    let part = method_function(td.methods[i], td.ty, s);
    reveal(type_has);
    assert forall|t: Seq<char>, known: Seq<(TraitModel, TraitDefModel)>|
        inside(#[trigger] with_type(t, td, known, s), part) by {
        let t0 = with_variants(with_type_head(t, td, s), td.ty, td.variants, td.variants.len(), s);
        let t1 = with_fields(t0, td.ty, td.fields, td.fields.len(), s);
        let t2 = match tuple_types(td.ty) {
            Some(v) => t1 + tuple_constructor_text(v, s.base),
            None => t1,
        };
        let t3 = with_wellknown(t2, td.ty, td.wellknown_traits, td.wellknown_traits.len(), s);
        lemma_has_method(t3, td.ty, td.methods, td.methods.len(), s, i);
        lemma_keep_tail(with_type_parts(with_type_head(t, td, s), td, s), td, known, s, part);
    }
}

proof fn lemma_type_has_wellknown(td: ZngurTypeModel, s: Setting, i: int)
    requires
        0 <= i < td.wellknown_traits.len(),
    ensures
        type_has(
            td,
            s,
            wellknown_text(
                td.ty,
                td.wellknown_traits[i],
                td.wellknown_traits.contains(ZngurWellknownTrait::Unsized),
                s.base,
            ),
        ),
{
    let w = td.wellknown_traits;
    let part = wellknown_text(td.ty, w[i], w.contains(ZngurWellknownTrait::Unsized), s.base);
    reveal(type_has);
    assert forall|t: Seq<char>, known: Seq<(TraitModel, TraitDefModel)>|
        inside(#[trigger] with_type(t, td, known, s), part) by {
        let t0 = with_variants(with_type_head(t, td, s), td.ty, td.variants, td.variants.len(), s);
        let t1 = with_fields(t0, td.ty, td.fields, td.fields.len(), s);
        let t2 = match tuple_types(td.ty) {
            Some(v) => t1 + tuple_constructor_text(v, s.base),
            None => t1,
        };
        lemma_has_wellknown(t2, td.ty, w, w.len(), s, i);
        let t3 = with_wellknown(t2, td.ty, w, w.len(), s);
        lemma_keep_methods(t3, td.ty, td.methods, td.methods.len(), s, part);
        lemma_keep_tail(with_type_parts(with_type_head(t, td, s), td, s), td, known, s, part);
    }
}

proof fn lemma_type_has_tuple(td: ZngurTypeModel, s: Setting)
    requires
        tuple_types(td.ty) is Some,
    ensures
        type_has(td, s, tuple_constructor_text(tuple_types(td.ty)->0, s.base)),
{
    let part = tuple_constructor_text(tuple_types(td.ty)->0, s.base);
    reveal(type_has);
    assert forall|t: Seq<char>, known: Seq<(TraitModel, TraitDefModel)>|
        inside(#[trigger] with_type(t, td, known, s), part) by {
        let t0 = with_variants(with_type_head(t, td, s), td.ty, td.variants, td.variants.len(), s);
        let t1 = with_fields(t0, td.ty, td.fields, td.fields.len(), s);
        lemma_inside_end(t1, part);
        let w = td.wellknown_traits;
        lemma_keep_wellknown(t1 + part, td.ty, w, w.len(), s, part);
        let t3 = with_wellknown(t1 + part, td.ty, w, w.len(), s);
        lemma_keep_methods(t3, td.ty, td.methods, td.methods.len(), s, part);
        lemma_keep_tail(with_type_parts(with_type_head(t, td, s), td, s), td, known, s, part);
    }
}

proof fn lemma_type_has_field(td: ZngurTypeModel, s: Setting, i: int)
    requires
        0 <= i < td.fields.len(),
    ensures
        type_has(td, s, field_text(td.fields[i], td.ty, s.base)),
{
    let part = field_text(td.fields[i], td.ty, s.base);
    reveal(type_has);
    assert forall|t: Seq<char>, known: Seq<(TraitModel, TraitDefModel)>|
        inside(#[trigger] with_type(t, td, known, s), part) by {
        let t0 = with_variants(with_type_head(t, td, s), td.ty, td.variants, td.variants.len(), s);
        lemma_has_field(t0, td.ty, td.fields, td.fields.len(), s, i);
        let t1 = with_fields(t0, td.ty, td.fields, td.fields.len(), s);
        lemma_keep_behind_fields(t1, td, s, part);
        lemma_keep_tail(with_type_parts(with_type_head(t, td, s), td, s), td, known, s, part);
    }
}

proof fn lemma_type_has_variant(td: ZngurTypeModel, s: Setting, i: int, part: Seq<char>)
    requires
        0 <= i < td.variants.len(),
        forall|u: Seq<char>| inside(#[trigger] with_variant(u, td.ty, td.variants[i], s), part),
    ensures
        type_has(td, s, part),
{
    reveal(type_has);
    assert forall|t: Seq<char>, known: Seq<(TraitModel, TraitDefModel)>|
        inside(#[trigger] with_type(t, td, known, s), part) by {
        let t0 = with_type_head(t, td, s);
        lemma_has_variant(t0, td.ty, td.variants, td.variants.len(), s, i, part);
        let t1 = with_variants(t0, td.ty, td.variants, td.variants.len(), s);
        lemma_keep_behind_variants(t1, td, s, part);
        lemma_keep_tail(with_type_parts(with_type_head(t, td, s), td, s), td, known, s, part);
    }
}

/// What stands in what a type declares of itself stands in its text.
proof fn lemma_type_has_head(td: ZngurTypeModel, s: Setting, part: Seq<char>)
    requires
        forall|t: Seq<char>| inside(#[trigger] with_type_head(t, td, s), part),
    ensures
        type_has(td, s, part),
{
    reveal(type_has);
    assert forall|t: Seq<char>, known: Seq<(TraitModel, TraitDefModel)>|
        inside(#[trigger] with_type(t, td, known, s), part) by {
        assert(inside(with_type_head(t, td, s), part));
        lemma_keep_parts(with_type_head(t, td, s), td, s, part);
        lemma_keep_tail(with_type_parts(with_type_head(t, td, s), td, s), td, known, s, part);
    }
}

proof fn lemma_type_has_layout(td: ZngurTypeModel, s: Setting)
    ensures
        type_has(td, s, layout_text(td.ty, layout_of(td), s.base)),
        td.cpp_heap_allocated is Some ==> type_has(td, s, bridge_text(td.ty, s)),
{
    let a = layout_text(td.ty, layout_of(td), s.base);
    let b = bridge_text(td.ty, s);
    let c = closure_text(closure_trait(td.ty)->0, s);
    reveal(type_has);
    assert forall|t: Seq<char>, known: Seq<(TraitModel, TraitDefModel)>|
        inside(#[trigger] with_type(t, td, known, s), a) && (td.cpp_heap_allocated is Some
            ==> inside(with_type(t, td, known, s), b)) by {
        let u = with_type_parts(with_type_head(t, td, s), td, s);
        lemma_inside_end(u, a);
        lemma_inside_front(u + a, b, a);
        lemma_inside_end(u + a, b);
        let w = if td.cpp_heap_allocated is Some {
            u + a + b
        } else {
            u + a
        };
        lemma_inside_front(w, c, a);
        if td.cpp_heap_allocated is Some {
            lemma_inside_front(w, c, b);
        }
    }
}

/// The head of a Rust function that C++ calls by a link name.
pub open spec fn linked(link: Seq<char>) -> Seq<char> {
    "pub extern \"C\" fn "@ + link + "("@
}

proof fn lemma_function_linked(link: Seq<char>, inputs: nat, panic: bool, body: Seq<char>)
    ensures
        holds(function_text(link, inputs, panic, body), seq![linked(link)]),
{
    law_shim_has_its_link_name(link, inputs, panic, body);
    lemma_holds_fewer(
        function_text(link, inputs, panic, body),
        seq![linked(link)] + Seq::new(inputs, |k: int| "i"@ + dec_text(k as nat) + ": *mut u8, "@),
        seq!["o: *mut u8) { unsafe {\n"@ + guarded(panic, body) + " } }\n"@],
    );
    lemma_holds_fewer(
        function_text(link, inputs, panic, body),
        seq![linked(link)],
        Seq::new(inputs, |k: int| "i"@ + dec_text(k as nat) + ": *mut u8, "@),
    );
}

/// C++ knows each method of a type by the kind of its receiver, and the Rust half
/// holds the function that C++ links it by.
pub proof fn law_methods_are_linked(zng: SpecModel, s: Setting, z: bool, k: int, i: int)
    requires
        0 <= k < zng.types.len(),
        0 <= i < zng.types[k].methods.len(),
    ensures
        cpp_half(zng, s, z).type_defs.len() == zng.types.len(),
        cpp_half(zng, s, z).type_defs[k].methods.len() == zng.types[k].methods.len(),
        cpp_half(zng, s, z).type_defs[k].methods[i].kind == zng.types[k].methods[i].data.receiver,
        holds(
            rust_half(zng, s),
            seq![linked(cpp_half(zng, s, z).type_defs[k].methods[i].sig.rust_link_name)],
        ),
{
    law_each_type_is_declared(zng, s, z, k);
    let td = zng.types[k];
    let m = td.methods[i];
    lemma_type_has_method(td, s, i);
    lemma_half_has_type(zng, s, k, method_function(m, td.ty, s));
    let inputs = real_inputs(m.data, td.ty);
    lemma_function_linked(
        method_data(m, td.ty, s).sig.rust_link_name,
        inputs.len(),
        s.panic,
        function_body(
            method_rust_name(m, td.ty),
            inputs,
            m.data.output,
            m.use_path,
            method_deref(m),
        ),
    );
    lemma_inside_holds(
        rust_half(zng, s),
        method_function(m, td.ty, s),
        seq![linked(method_data(m, td.ty, s).sig.rust_link_name)],
    );
}

proof fn lemma_half_method_holds(zng: SpecModel, s: Setting, k: int, i: int, parts: Seq<Seq<char>>)
    requires
        0 <= k < zng.types.len(),
        0 <= i < zng.types[k].methods.len(),
        holds(method_function(zng.types[k].methods[i], zng.types[k].ty, s), parts),
    ensures
        holds(rust_half(zng, s), parts),
{
    let td = zng.types[k];
    lemma_type_has_method(td, s, i);
    lemma_half_type_holds(zng, s, k, method_function(td.methods[i], td.ty, s), parts);
}

proof fn lemma_half_type_holds(
    zng: SpecModel,
    s: Setting,
    k: int,
    part: Seq<char>,
    parts: Seq<Seq<char>>,
)
    requires
        0 <= k < zng.types.len(),
        type_has(zng.types[k], s, part),
        holds(part, parts),
    ensures
        holds(rust_half(zng, s), parts),
{
    lemma_half_has_type(zng, s, k, part);
    lemma_inside_holds(rust_half(zng, s), part, parts);
}

proof fn lemma_half_reads_receiver(zng: SpecModel, s: Setting, k: int, i: int)
    requires
        0 <= k < zng.types.len(),
        0 <= i < zng.types[k].methods.len(),
        zng.types[k].methods[i].data.receiver != ZngurMethodReceiver::Static,
    ensures
        holds(
            rust_half(zng, s),
            receiver_read(
                method_data(zng.types[k].methods[i], zng.types[k].ty, s).sig.rust_link_name,
                zng.types[k].methods[i].data.receiver,
                zng.types[k].ty,
            ),
        ),
{
    let td = zng.types[k];
    let m = td.methods[i];
    law_shim_reads_the_receiver(m, td.ty, s);
    lemma_half_method_holds(
        zng,
        s,
        k,
        i,
        receiver_read(method_data(m, td.ty, s).sig.rust_link_name, m.data.receiver, td.ty),
    );
}

/// A shim under its link name, and what it reads its receiver as.
pub open spec fn receiver_read(link: Seq<char>, r: ZngurMethodReceiver, ty: TypeModel) -> Seq<Seq<char>> {
    seq![
        linked(link),
        "(::std::ptr::read(i0 as *mut "@ + taken_receiver(r, ty) + ")), "@,
    ]
}

proof fn lemma_cpp_method(zng: SpecModel, s: Setting, z: bool, k: int, i: int)
    requires
        0 <= k < zng.types.len(),
        0 <= i < zng.types[k].methods.len(),
    ensures
        cpp_half(zng, s, z).type_defs[k].methods[i] == method_data(
            zng.types[k].methods[i],
            zng.types[k].ty,
            s,
        ),
{
    law_each_type_is_declared(zng, s, z, k);
}

/// Behind the name that C++ links a method by, the Rust half reads the receiver
/// that the method declares: `&mut T` for `&mut self`, `&T` for `&self`, `T` for
/// `self`; and C++ hands it over by `RefMut`, by `Ref` and as a value.
pub proof fn law_receivers_are_linked(zng: SpecModel, s: Setting, z: bool, k: int, i: int)
    requires
        0 <= k < zng.types.len(),
        0 <= i < zng.types[k].methods.len(),
        zng.types[k].methods[i].data.receiver != ZngurMethodReceiver::Static,
    ensures
        cpp_half(zng, s, z).type_defs[k].methods[i].sig.inputs.len()
            == zng.types[k].methods[i].data.inputs.len() + 1,
        cpp_half(zng, s, z).type_defs[k].methods[i].sig.inputs[0] == cpp_receiver(
            zng.types[k].methods[i].data.receiver,
            zng.types[k].ty,
            s,
        ),
        holds(
            rust_half(zng, s),
            receiver_read(
                cpp_half(zng, s, z).type_defs[k].methods[i].sig.rust_link_name,
                zng.types[k].methods[i].data.receiver,
                zng.types[k].ty,
            ),
        ),
{
    lemma_cpp_method(zng, s, z, k, i);
    lemma_half_reads_receiver(zng, s, k, i);
    law_receiver_keeps_its_mutability(zng.types[k].methods[i], zng.types[k].ty, s);
}

/// The Rust half holds the function that C++ links each function by.
pub proof fn law_functions_are_linked(zng: SpecModel, s: Setting, z: bool, k: int)
    requires
        0 <= k < zng.funcs.len(),
    ensures
        cpp_half(zng, s, z).fn_defs.len() == zng.funcs.len(),
        holds(
            rust_half(zng, s),
            seq![linked(cpp_half(zng, s, z).fn_defs[k].sig.rust_link_name)],
        ),
{
    let f = zng.funcs[k];
    lemma_half_has_fn(zng, s, k);
    lemma_function_linked(
        fn_data(f, s).sig.rust_link_name,
        f.inputs.len(),
        s.panic,
        function_body(f.path.text(), f.inputs, f.output, None, None),
    );
    lemma_inside_holds(
        rust_half(zng, s),
        fn_function(f, s),
        seq![linked(fn_data(f, s).sig.rust_link_name)],
    );
}

/// The inputs of a constructor, as raw pointers and as what is read of them.
pub open spec fn constructor_parts(rust_name: Seq<char>, args: Seq<(Seq<char>, TypeModel)>) -> Seq<Seq<char>> {
    Seq::new(args.len(), |j: int| "f_"@ + args[j].0 + ": *mut u8, "@) + seq![
        "::std::ptr::write(o as *mut _, "@ + rust_name + " { "@,
    ] + Seq::new(
        args.len(),
        |j: int|
            args[j].0 + ": ::std::ptr::read(f_"@ + args[j].0 + " as *mut "@ + args[j].1.text()
                + "), "@,
    )
}

proof fn lemma_constructor(rust_name: Seq<char>, args: Seq<(Seq<char>, TypeModel)>, base: Seq<char>)
    ensures
        holds(
            constructor_text(rust_name, args, base),
            seq![linked(mangled(rust_name, base))] + constructor_parts(rust_name, args),
        ),
{
    let open = filled(EXTERN_FN_OPEN@, seq![mangled(rust_name, base)]);
    let write = filled(STRUCT_WRITE@, seq![rust_name]);
    let raw = field_inputs(args);
    let read = field_reads(args);
    let head = seq![linked(mangled(rust_name, base))];
    let mid = seq!["::std::ptr::write(o as *mut _, "@ + rust_name + " { "@];
    lemma_fn_open(seq![mangled(rust_name, base)]);
    lemma_struct_write(seq![rust_name]);
    lemma_concat_in_order(raw);
    lemma_concat_in_order(read);
    lemma_holds_both(open, head, concat_all(raw), raw);
    lemma_holds_both(open + concat_all(raw), head + raw, write, mid);
    lemma_holds_both(open + concat_all(raw) + write, head + raw + mid, concat_all(read), read);
    let text = open + concat_all(raw) + write + concat_all(read);
    assert(constructor_text(rust_name, args, base) =~= Seq::<char>::empty() + text + "}) } }\n"@);
    lemma_holds_inside(
        constructor_text(rust_name, args, base),
        Seq::empty(),
        text,
        "}) } }\n"@,
        head + raw + mid + read,
    );
    assert(head + raw + mid + read =~= head + constructor_parts(rust_name, args));
}

/// C++ makes values of a type of the declared inputs in their order, each as its
/// C++ type, and the function that it links takes each as its Rust type and puts
/// it in the field of its name.
pub proof fn law_constructors_are_linked(zng: SpecModel, s: Setting, z: bool, k: int)
    requires
        0 <= k < zng.types.len(),
        zng.types[k].constructor is Some,
        !(zng.types[k].ty is Tuple),
    ensures
        ({
            let td = zng.types[k];
            let args = td.constructor->0.inputs;
            &&& cpp_half(zng, s, z).type_defs[k].constructor matches Some(sig)
            &&& sig.output == cpp_of(td.ty, s)
            &&& sig.inputs == Seq::new(args.len(), |j: int| cpp_of(args[j].1, s))
            &&& holds(
                rust_half(zng, s),
                seq![linked(sig.rust_link_name)] + constructor_parts(td.ty.text(), args),
            )
        }),
{
    law_each_type_is_declared(zng, s, z, k);
    let td = zng.types[k];
    let args = td.constructor->0.inputs;
    let part = constructor_text(td.ty.text(), args, s.base);
    assert forall|t: Seq<char>| inside(#[trigger] with_type_head(t, td, s), part) by {
        lemma_made_has_constructor(with_layout(t, td.ty, layout_of(td)), td, s);
        lemma_head(t, td, s);
    }
    lemma_type_has_head(td, s, part);
    lemma_half_has_type(zng, s, k, part);
    lemma_constructor(td.ty.text(), args, s.base);
    lemma_inside_holds(
        rust_half(zng, s),
        part,
        seq![linked(mangled(td.ty.text(), s.base))] + constructor_parts(td.ty.text(), args),
    );
    let sig = type_data(td, s).constructor->0;
    assert(sig.inputs =~= Seq::new(args.len(), |j: int| cpp_of(args[j].1, s)));
}

proof fn lemma_made_has_constructor(t: Seq<char>, td: ZngurTypeModel, s: Setting)
    requires
        td.constructor is Some,
    ensures
        inside(
            with_made(t, td, s),
            constructor_text(td.ty.text(), td.constructor->0.inputs, s.base),
        ),
{
    let part = constructor_text(td.ty.text(), td.constructor->0.inputs, s.base);
    let t1 = if td.wellknown_traits.contains(ZngurWellknownTrait::Copy) {
        t + copy_assertion(td.ty)
    } else {
        t
    };
    let t2 = if td.cpp_stack_owned is Some {
        t1 + destructor_text(td.ty, s)
    } else {
        t1
    };
    lemma_inside_end(t2, part);
    lemma_inside_front(t2 + part, discriminant_text(td.ty.text(), td.variants, s.base), part);
}

/// C++ makes tuples of values of their types in their order, and the function that
/// it links takes each as its Rust type.
pub proof fn law_tuples_are_linked(zng: SpecModel, s: Setting, z: bool, k: int)
    requires
        0 <= k < zng.types.len(),
        zng.types[k].ty matches TypeModel::Tuple(v) && v.len() > 0,
    ensures
        ({
            let v = zng.types[k].ty->Tuple_0;
            &&& cpp_half(zng, s, z).type_defs[k].constructor matches Some(sig)
            &&& sig.output == cpp_of(zng.types[k].ty, s)
            &&& sig.inputs == Seq::new(v.len(), |j: int| cpp_of(v[j], s))
            &&& holds(
                rust_half(zng, s),
                seq![linked(sig.rust_link_name)] + Seq::new(
                    v.len(),
                    |j: int| "f_"@ + dec_text(j as nat) + ": *mut u8, "@,
                ) + Seq::new(
                    v.len(),
                    |j: int|
                        "::std::ptr::read(f_"@ + dec_text(j as nat) + " as *mut "@ + v[j].text()
                            + "), "@,
                ),
            )
        }),
{
    law_each_type_is_declared(zng, s, z, k);
    let td = zng.types[k];
    let v = td.ty->Tuple_0;
    let part = tuple_constructor_text(v, s.base);
    lemma_type_has_tuple(td, s);
    lemma_half_has_type(zng, s, k, part);
    let link = mangled(join_text(types_text(v), "&"@), s.base);
    let open = filled(EXTERN_FN_OPEN@, seq![link]);
    let raw = numbered("f_"@, v.len(), ": *mut u8, "@);
    let read = numbered_items("::std::ptr::read(f_"@, 0, " as *mut "@, types_text(v), "), "@);
    let raw_parts = Seq::new(v.len(), |j: int| "f_"@ + dec_text(j as nat) + ": *mut u8, "@);
    let read_parts = Seq::new(
        v.len(),
        |j: int| "::std::ptr::read(f_"@ + dec_text(j as nat) + " as *mut "@ + v[j].text() + "), "@,
    );
    assert(raw =~= raw_parts);
    assert(read =~= read_parts);
    let head = seq![linked(link)];
    lemma_fn_open(seq![link]);
    lemma_concat_in_order(raw);
    lemma_concat_in_order(read);
    lemma_holds_both(open, head, concat_all(raw), raw_parts);
    let a = open + concat_all(raw) + TUPLE_WRITE@;
    assert(a =~= Seq::<char>::empty() + (open + concat_all(raw)) + TUPLE_WRITE@);
    lemma_holds_inside(a, Seq::empty(), open + concat_all(raw), TUPLE_WRITE@, head + raw_parts);
    lemma_holds_both(a, head + raw_parts, concat_all(read), read_parts);
    assert(part =~= Seq::<char>::empty() + (a + concat_all(read)) + ")) } }\n"@);
    lemma_holds_inside(
        part,
        Seq::empty(),
        a + concat_all(read),
        ")) } }\n"@,
        head + raw_parts + read_parts,
    );
    lemma_inside_holds(rust_half(zng, s), part, head + raw_parts + read_parts);
    let sig = type_data(td, s).constructor->0;
    assert(sig.inputs =~= Seq::new(v.len(), |j: int| cpp_of(v[j], s)));
}

/// C++ tells the variants of a type by their places: the function that it links
/// gives the place of each.
pub proof fn law_discriminants_are_linked(zng: SpecModel, s: Setting, z: bool, k: int)
    requires
        0 <= k < zng.types.len(),
    ensures
        ({
            let td = zng.types[k];
            let link = cpp_half(zng, s, z).type_defs[k].discriminant;
            &&& link is Some <==> td.exhaustive && td.variants.len() > 0
            &&& link is Some ==> holds(
                rust_half(zng, s),
                discriminant_parts(td.ty.text(), td.variants, link->0),
            )
        }),
{
    law_each_type_is_declared(zng, s, z, k);
    if zng.types[k].exhaustive && zng.types[k].variants.len() > 0 {
        lemma_half_tells_variants(zng, s, k);
    }
}

proof fn lemma_half_tells_variants(zng: SpecModel, s: Setting, k: int)
    requires
        0 <= k < zng.types.len(),
        zng.types[k].exhaustive,
        zng.types[k].variants.len() > 0,
    ensures
        holds(
            rust_half(zng, s),
            discriminant_parts(
                zng.types[k].ty.text(),
                zng.types[k].variants,
                discriminant_link(zng.types[k].ty.text(), s.base),
            ),
        ),
{
    let td = zng.types[k];
    let name = td.ty.text();
    let part = discriminant_text(name, td.variants, s.base);
    assert forall|t: Seq<char>| inside(#[trigger] with_type_head(t, td, s), part) by {
        lemma_made_has_discriminant(with_layout(t, td.ty, layout_of(td)), td, s);
        lemma_head(t, td, s);
    }
    lemma_type_has_head(td, s, part);
    lemma_half_has_type(zng, s, k, part);
    lemma_discriminant(name, td.variants, s.base);
    lemma_inside_holds(
        rust_half(zng, s),
        part,
        discriminant_parts(name, td.variants, discriminant_link(name, s.base)),
    );
}

/// What tells the variants of a type by their places, under a link name.
pub open spec fn discriminant_parts(name: Seq<char>, v: Seq<VariantModel>, link: Seq<char>) -> Seq<Seq<char>> {
    seq![
        linked(link) + "i: *mut u8) -> u32"@,
        "match &*(i as *mut "@ + name + " as *const _) {"@,
    ] + Seq::new(
        v.len(),
        |i: int| name + "::"@ + v[i].name + " { .. } => "@ + dec_text(i as nat) + ","@,
    )
}

proof fn lemma_made_has_discriminant(t: Seq<char>, td: ZngurTypeModel, s: Setting)
    requires
        td.exhaustive,
    ensures
        inside(with_made(t, td, s), discriminant_text(td.ty.text(), td.variants, s.base)),
{
    let t1 = if td.wellknown_traits.contains(ZngurWellknownTrait::Copy) {
        t + copy_assertion(td.ty)
    } else {
        t
    };
    let t2 = if td.cpp_stack_owned is Some {
        t1 + destructor_text(td.ty, s)
    } else {
        t1
    };
    let t3 = match td.constructor {
        Some(c) => t2 + constructor_text(td.ty.text(), c.inputs, s.base),
        None => t2,
    };
    lemma_inside_end(t3, discriminant_text(td.ty.text(), td.variants, s.base));
}

/// Texts that are put together hold what each of them holds, in order.
proof fn lemma_concat_of_parts(v: Seq<Seq<char>>, parts: Seq<Seq<char>>)
    requires
        v.len() == parts.len(),
        forall|i: int| 0 <= i < v.len() ==> holds(#[trigger] v[i], seq![parts[i]]),
    ensures
        holds(concat_all(v), parts),
    decreases v.len(),
{
    if v.len() > 0 {
        lemma_concat_of_parts(v.drop_last(), parts.drop_last());
        lemma_holds_both(
            concat_all(v.drop_last()),
            parts.drop_last(),
            v.last(),
            seq![parts.last()],
        );
        assert(parts.drop_last() + seq![parts.last()] =~= parts);
    }
}

proof fn lemma_discriminant(name: Seq<char>, v: Seq<VariantModel>, base: Seq<char>)
    requires
        v.len() > 0,
    ensures
        holds(
            discriminant_text(name, v, base),
            discriminant_parts(name, v, discriminant_link(name, base)),
        ),
{
    let link = discriminant_link(name, base);
    let open = filled(DISCRIMINANT_OPEN@, seq![link, name]);
    let arms = discriminant_arms(name, v);
    lemma_discriminant_open(seq![link, name]);
    lemma_paren_joins(link, "i: *mut u8) -> u32"@, "(i: *mut u8) -> u32"@);
    reveal_strlit("(i: *mut u8) -> u32");
    reveal_strlit("i: *mut u8) -> u32");
    reveal_strlit("(");
    assert("(i: *mut u8) -> u32"@ =~= "("@ + "i: *mut u8) -> u32"@);
    let head = seq![
        linked(link) + "i: *mut u8) -> u32"@,
        "match &*(i as *mut "@ + name + " as *const _) {"@,
    ];
    let parts = Seq::new(
        v.len(),
        |i: int| name + "::"@ + v[i].name + " { .. } => "@ + dec_text(i as nat) + ","@,
    );
    assert forall|i: int| 0 <= i < arms.len() implies holds(#[trigger] arms[i], seq![parts[i]]) by {
        lemma_discriminant_arm(seq![name, v[i].name, dec_text(i as nat)]);
    }
    lemma_concat_of_parts(arms, parts);
    lemma_holds_both(open, head, concat_all(arms), parts);
    let text = open + concat_all(arms);
    assert(discriminant_text(name, v, base) =~= Seq::<char>::empty() + text + DISCRIMINANT_CLOSE@);
    lemma_holds_inside(
        discriminant_text(name, v, base),
        Seq::empty(),
        text,
        DISCRIMINANT_CLOSE@,
        head + parts,
    );
}

proof fn lemma_paren_joins(link: Seq<char>, tail: Seq<char>, both: Seq<char>)
    ensures
        both == "("@ + tail ==> "pub extern \"C\" fn "@ + link + both == linked(link) + tail,
{
    if both == "("@ + tail {
        assert("pub extern \"C\" fn "@ + link + both =~= linked(link) + tail);
    }
}

/// What tells whether a value is of a variant, under a link name.
pub open spec fn check_parts(link: Seq<char>, variant: Seq<char>) -> Seq<Seq<char>> {
    seq![
        linked(link) + "i: *mut u8, o: *mut u8)"@,
        "*o = matches!(&*(i as *mut &_), "@ + variant + " { .. }) as u8;"@,
    ]
}

/// What gives the offset of a field of a variant, under a link name.
pub open spec fn variant_offset_parts(
    link: Seq<char>,
    ty: Seq<char>,
    variant: Seq<char>,
    field: Seq<char>,
) -> Seq<Seq<char>> {
    seq![
        linked(link) + "i: *const u8) -> usize"@,
        "let base = &*(i as *const "@ + ty + ");"@,
        ty + "::"@ + variant + " { "@ + field
            + ": f, .. } => {\n            (f as *const _ as usize) - (base as *const _ as usize)"@,
    ]
}

proof fn lemma_variant_texts(u: Seq<char>, ty: TypeModel, v: VariantModel, s: Setting)
    ensures
        inside(with_variant(u, ty, v, s), check_text(ty, v, s)),
        v.exhaustive ==> inside(
            with_variant(u, ty, v, s),
            constructor_text(variant_name(ty, v.name), field_pairs(v.fields), s.base),
        ),
        forall|j: int|
            0 <= j < v.fields.len() ==> inside(
                with_variant(u, ty, v, s),
                #[trigger] variant_field_text(v.fields[j].name, ty, v.name, s.base),
            ),
{
    let name = variant_name(ty, v.name);
    let made = constructor_text(name, field_pairs(v.fields), s.base);
    let check = check_text(ty, v, s);
    let u1 = if v.exhaustive {
        u + made
    } else {
        u
    };
    if v.exhaustive {
        lemma_inside_end(u, made);
        lemma_inside_front(u1, check, made);
        lemma_keep_variant_fields(u1 + check, ty, v, v.fields.len(), s, made);
    }
    lemma_inside_end(u1, check);
    lemma_keep_variant_fields(u1 + check, ty, v, v.fields.len(), s, check);
    assert forall|j: int| 0 <= j < v.fields.len() implies inside(
        with_variant(u, ty, v, s),
        #[trigger] variant_field_text(v.fields[j].name, ty, v.name, s.base),
    ) by {
        lemma_has_variant_field(u1 + check, ty, v, v.fields.len(), s, j);
    }
}

spec fn check_text(ty: TypeModel, v: VariantModel, s: Setting) -> Seq<char> {
    let name = variant_name(ty, v.name);
    filled(MATCH_CHECK@, seq![match_check_link(name, s.base), name])
}

proof fn lemma_half_variant_holds(
    zng: SpecModel,
    s: Setting,
    k: int,
    i: int,
    part: Seq<char>,
    parts: Seq<Seq<char>>,
)
    requires
        0 <= k < zng.types.len(),
        0 <= i < zng.types[k].variants.len(),
        forall|u: Seq<char>|
            inside(#[trigger] with_variant(u, zng.types[k].ty, zng.types[k].variants[i], s), part),
        holds(part, parts),
    ensures
        holds(rust_half(zng, s), parts),
{
    lemma_type_has_variant(zng.types[k], s, i, part);
    lemma_half_type_holds(zng, s, k, part, parts);
}

proof fn lemma_cpp_variant(zng: SpecModel, s: Setting, z: bool, k: int, i: int)
    requires
        0 <= k < zng.types.len(),
        0 <= i < zng.types[k].variants.len(),
    ensures
        cpp_half(zng, s, z).type_defs[k].variants[i] == variant_data(
            zng.types[k].ty,
            zng.types[k].variants[i],
            s,
        ),
{
    law_each_type_is_declared(zng, s, z, k);
}

proof fn lemma_check(link: Seq<char>, name: Seq<char>)
    ensures
        holds(filled(MATCH_CHECK@, seq![link, name]), check_parts(link, name)),
{
    lemma_match_check(seq![link, name]);
    reveal_strlit("(i: *mut u8, o: *mut u8)");
    reveal_strlit("i: *mut u8, o: *mut u8)");
    reveal_strlit("(");
    assert("(i: *mut u8, o: *mut u8)"@ =~= "("@ + "i: *mut u8, o: *mut u8)"@);
    lemma_paren_joins(link, "i: *mut u8, o: *mut u8)"@, "(i: *mut u8, o: *mut u8)"@);
}

/// C++ tests for a variant by the function that the Rust half holds for it.
pub proof fn law_variant_tests_are_linked(zng: SpecModel, s: Setting, z: bool, k: int, i: int)
    requires
        0 <= k < zng.types.len(),
        0 <= i < zng.types[k].variants.len(),
    ensures
        cpp_half(zng, s, z).type_defs[k].variants[i].name == zng.types[k].variants[i].name,
        holds(
            rust_half(zng, s),
            check_parts(
                cpp_half(zng, s, z).type_defs[k].variants[i].match_check,
                zng.types[k].ty.text() + "::"@ + zng.types[k].variants[i].name,
            ),
        ),
{
    lemma_cpp_variant(zng, s, z, k, i);
    let ty = zng.types[k].ty;
    let v = zng.types[k].variants[i];
    assert forall|u: Seq<char>|
        inside(#[trigger] with_variant(u, ty, v, s), check_text(ty, v, s)) by {
        lemma_variant_texts(u, ty, v, s);
    }
    let name = variant_name(ty, v.name);
    lemma_check(match_check_link(name, s.base), name);
    lemma_half_variant_holds(
        zng,
        s,
        k,
        i,
        check_text(ty, v, s),
        check_parts(match_check_link(name, s.base), name),
    );
}

/// C++ makes values of a variant exactly where its fields are all known, of their
/// values in their order, by the function that the Rust half holds for it.
pub proof fn law_variant_constructors_are_linked(zng: SpecModel, s: Setting, z: bool, k: int, i: int)
    requires
        0 <= k < zng.types.len(),
        0 <= i < zng.types[k].variants.len(),
    ensures
        cpp_half(zng, s, z).type_defs[k].variants[i].constructor is Some
            <==> zng.types[k].variants[i].exhaustive,
        cpp_half(zng, s, z).type_defs[k].variants[i].constructor matches Some(sig) ==> {
            let v = zng.types[k].variants[i];
            &&& sig.inputs == Seq::new(v.fields.len(), |j: int| cpp_of(v.fields[j].ty, s))
            &&& holds(
                rust_half(zng, s),
                seq![linked(sig.rust_link_name)] + constructor_parts(
                    zng.types[k].ty.text() + "::"@ + v.name,
                    Seq::new(v.fields.len(), |j: int| (v.fields[j].name, v.fields[j].ty)),
                ),
            )
        },
{
    lemma_cpp_variant(zng, s, z, k, i);
    let ty = zng.types[k].ty;
    let v = zng.types[k].variants[i];
    if v.exhaustive {
        let name = variant_name(ty, v.name);
        let made = constructor_text(name, field_pairs(v.fields), s.base);
        assert forall|u: Seq<char>| inside(#[trigger] with_variant(u, ty, v, s), made) by {
            lemma_variant_texts(u, ty, v, s);
        }
        lemma_constructor(name, field_pairs(v.fields), s.base);
        lemma_half_variant_holds(
            zng,
            s,
            k,
            i,
            made,
            seq![linked(mangled(name, s.base))] + constructor_parts(name, field_pairs(v.fields)),
        );
        let sig = variant_data(ty, v, s).constructor->0;
        assert(sig.inputs =~= Seq::new(v.fields.len(), |j: int| cpp_of(v.fields[j].ty, s)));
        assert(field_pairs(v.fields) =~= Seq::new(
            v.fields.len(),
            |j: int| (v.fields[j].name, v.fields[j].ty),
        ));
    }
}

/// C++ asks for the offset of a field of a variant by the function that the Rust
/// half holds for it.
pub proof fn law_variant_fields_are_linked(
    zng: SpecModel,
    s: Setting,
    z: bool,
    k: int,
    i: int,
    j: int,
)
    requires
        0 <= k < zng.types.len(),
        0 <= i < zng.types[k].variants.len(),
        0 <= j < zng.types[k].variants[i].fields.len(),
    ensures
        ({
            let ty = zng.types[k].ty;
            let v = zng.types[k].variants[i];
            let f = cpp_half(zng, s, z).type_defs[k].variants[i].fields[j];
            &&& f.name == v.fields[j].name
            &&& f.ty == v.fields[j].ty
            &&& f.offset matches OffsetModel::AutoDynamic(link) && holds(
                rust_half(zng, s),
                variant_offset_parts(link, ty.text(), v.name, f.name),
            )
        }),
{
    lemma_cpp_variant(zng, s, z, k, i);
    let ty = zng.types[k].ty;
    let v = zng.types[k].variants[i];
    let name = v.fields[j].name;
    let part = variant_field_text(name, ty, v.name, s.base);
    assert forall|u: Seq<char>| inside(#[trigger] with_variant(u, ty, v, s), part) by {
        lemma_variant_texts(u, ty, v, s);
    }
    let link = variant_field_link(name, ty, v.name, s.base);
    lemma_variant_offset(link, ty.text(), v.name, name);
    lemma_half_variant_holds(
        zng,
        s,
        k,
        i,
        part,
        variant_offset_parts(link, ty.text(), v.name, name),
    );
}

proof fn lemma_variant_offset(link: Seq<char>, ty: Seq<char>, variant: Seq<char>, field: Seq<char>)
    ensures
        holds(
            filled(VARIANT_FIELD_OFFSET@, seq![link, ty, variant, field]),
            variant_offset_parts(link, ty, variant, field),
        ),
{
    lemma_variant_field_offset(seq![link, ty, variant, field]);
    reveal_strlit("(i: *const u8) -> usize");
    reveal_strlit("i: *const u8) -> usize");
    reveal_strlit("(");
    assert("(i: *const u8) -> usize"@ =~= "("@ + "i: *const u8) -> usize"@);
    lemma_paren_joins(link, "i: *const u8) -> usize"@, "(i: *const u8) -> usize"@);
}

/// A call of an assertion macro of the Rust half.
pub open spec fn asserted(name: Seq<char>, args: Seq<Seq<char>>) -> Seq<char> {
    name + "!("@ + join_text(args, ", "@) + ");\n"@
}

/// What the Rust half holds of a field: that the type has it, and its offset, as
/// C++ is told it.
pub open spec fn field_parts(offset: OffsetModel, ty: Seq<char>, of: Seq<char>, name: Seq<char>) -> Seq<Seq<char>> {
    seq![
        asserted("__zngur_assert_has_field"@, seq![ty, of, name]),
        match offset {
            OffsetModel::Offset(n) => asserted(
                "__zngur_assert_field_offset"@,
                seq![ty, dec_text(n as nat), name],
            ),
            OffsetModel::Auto(link) => "pub static "@ + link
                + ": usize = ::std::mem::offset_of!("@ + ty + ", "@ + name + ");"@,
            OffsetModel::AutoDynamic(link) => Seq::empty(),
        },
    ]
}

/// The Rust half asserts that a type has each field, of its type. An offset that
/// is declared is asserted, and the same one is told to C++; else C++ is given the
/// name under which the Rust half holds it.
pub proof fn law_fields_are_linked(zng: SpecModel, s: Setting, z: bool, k: int, i: int)
    requires
        0 <= k < zng.types.len(),
        0 <= i < zng.types[k].fields.len(),
    ensures
        ({
            let f = zng.types[k].fields[i];
            let c = cpp_half(zng, s, z).type_defs[k].fields[i];
            &&& c.name == f.name && c.ty == f.ty
            &&& (f.offset matches Some(n) ==> c.offset == OffsetModel::Offset(n))
            &&& (f.offset is None ==> c.offset is Auto)
            &&& holds(
                rust_half(zng, s),
                field_parts(c.offset, zng.types[k].ty.text(), f.ty.text(), f.name),
            )
        }),
{
    lemma_cpp_field(zng, s, z, k, i);
    lemma_half_has_offset(zng, s, k, i);
}

proof fn lemma_cpp_field(zng: SpecModel, s: Setting, z: bool, k: int, i: int)
    requires
        0 <= k < zng.types.len(),
        0 <= i < zng.types[k].fields.len(),
    ensures
        cpp_half(zng, s, z).type_defs[k].fields[i] == field_data(
            zng.types[k].ty,
            zng.types[k].fields[i],
            s,
        ),
{
    law_each_type_is_declared(zng, s, z, k);
}

proof fn lemma_half_has_offset(zng: SpecModel, s: Setting, k: int, i: int)
    requires
        0 <= k < zng.types.len(),
        0 <= i < zng.types[k].fields.len(),
    ensures
        holds(
            rust_half(zng, s),
            field_parts(
                field_data(zng.types[k].ty, zng.types[k].fields[i], s).offset,
                zng.types[k].ty.text(),
                zng.types[k].fields[i].ty.text(),
                zng.types[k].fields[i].name,
            ),
        ),
{
    let td = zng.types[k];
    let f = td.fields[i];
    lemma_type_has_field(td, s, i);
    lemma_field_parts(f, td.ty, s);
    lemma_half_type_holds(
        zng,
        s,
        k,
        field_text(f, td.ty, s.base),
        field_parts(field_data(td.ty, f, s).offset, td.ty.text(), f.ty.text(), f.name),
    );
}

proof fn lemma_field_parts(f: FieldModel, ty: TypeModel, s: Setting)
    ensures
        holds(
            field_text(f, ty, s.base),
            field_parts(field_data(ty, f, s).offset, ty.text(), f.ty.text(), f.name),
        ),
{
    let a = asserted("__zngur_assert_has_field"@, seq![ty.text(), f.ty.text(), f.name]);
    lemma_holds_itself(a);
    let parts = field_parts(field_data(ty, f, s).offset, ty.text(), f.ty.text(), f.name);
    match f.offset {
        Some(n) => {
            let b = asserted(
                "__zngur_assert_field_offset"@,
                seq![ty.text(), dec_text(n as nat), f.name],
            );
            lemma_holds_itself(b);
            lemma_holds_both(a, seq![a], b, seq![b]);
        },
        None => {
            let args = seq![field_offset_link(f, ty, s.base), ty.text(), f.name];
            lemma_field_offset(args);
            lemma_holds_both(a, seq![a], filled(FIELD_OFFSET@, args), seq![parts[1]]);
        },
    }
    assert(seq![a] + seq![parts[1]] =~= parts);
}

/// What a well-known trait of a type needs in Rust, under the names that C++ links
/// it by.
pub open spec fn wellknown_parts(w: WellknownModel, ty: Seq<char>, is_unsized: bool) -> Seq<Seq<char>> {
    let shown = if is_unsized {
        "&"@ + ty
    } else {
        ty
    };
    match w {
        WellknownModel::Drop { drop_in_place } => seq![
            linked(drop_in_place) + "v: *mut u8)"@,
            "::std::ptr::drop_in_place(v as *mut "@ + ty + ");"@,
        ],
        WellknownModel::Debug { pretty_print, debug_print } => seq![
            linked(pretty_print) + "v: *mut u8)"@,
            "eprintln!(\"{:#?}\", unsafe { &*(v as *mut "@ + shown + ") });"@,
            linked(debug_print) + "v: *mut u8)"@,
            "eprintln!(\"{:?}\", unsafe { &*(v as *mut "@ + shown + ") });"@,
        ],
        _ => Seq::empty(),
    }
}

/// C++ knows each well-known trait of a type, in their order, and drops and prints
/// values by the functions that the Rust half holds for it.
pub proof fn law_wellknown_traits_are_linked(zng: SpecModel, s: Setting, z: bool, k: int, i: int)
    requires
        0 <= k < zng.types.len(),
        0 <= i < zng.types[k].wellknown_traits.len(),
    ensures
        ({
            let td = zng.types[k];
            let w = cpp_half(zng, s, z).type_defs[k].wellknown_traits;
            &&& w.len() == td.wellknown_traits.len()
            &&& (w[i] is Drop <==> td.wellknown_traits[i] == ZngurWellknownTrait::Drop)
            &&& (w[i] is Debug <==> td.wellknown_traits[i] == ZngurWellknownTrait::Debug)
            &&& (w[i] is Copy <==> td.wellknown_traits[i] == ZngurWellknownTrait::Copy)
            &&& (w[i] is Unsized <==> td.wellknown_traits[i] == ZngurWellknownTrait::Unsized)
            &&& holds(
                rust_half(zng, s),
                wellknown_parts(
                    w[i],
                    td.ty.text(),
                    td.wellknown_traits.contains(ZngurWellknownTrait::Unsized),
                ),
            )
        }),
{
    law_each_type_is_declared(zng, s, z, k);
    let td = zng.types[k];
    let t = td.wellknown_traits[i];
    let u = td.wellknown_traits.contains(ZngurWellknownTrait::Unsized);
    lemma_type_has_wellknown(td, s, i);
    lemma_wellknown(td.ty, t, u, s.base);
    lemma_half_type_holds(
        zng,
        s,
        k,
        wellknown_text(td.ty, t, u, s.base),
        wellknown_parts(wellknown_data(td.ty, t, s.base), td.ty.text(), u),
    );
}

proof fn lemma_wellknown(ty: TypeModel, t: ZngurWellknownTrait, u: bool, base: Seq<char>)
    ensures
        holds(
            wellknown_text(ty, t, u, base),
            wellknown_parts(wellknown_data(ty, t, base), ty.text(), u),
        ),
{
    let shown = if u {
        "&"@ + ty.text()
    } else {
        ty.text()
    };
    reveal_strlit("(v: *mut u8)");
    reveal_strlit("v: *mut u8)");
    reveal_strlit("(");
    assert("(v: *mut u8)"@ =~= "("@ + "v: *mut u8)"@);
    let w = wellknown_data(ty, t, base);
    match w {
        WellknownModel::Drop { drop_in_place } => {
            lemma_drop_shim(seq![drop_in_place, ty.text()]);
            lemma_paren_joins(drop_in_place, "v: *mut u8)"@, "(v: *mut u8)"@);
        },
        WellknownModel::Debug { pretty_print, debug_print } => {
            lemma_pretty_print_shim(seq![pretty_print, shown]);
            lemma_debug_print_shim(seq![debug_print, shown]);
            lemma_paren_joins(pretty_print, "v: *mut u8)"@, "(v: *mut u8)"@);
            lemma_paren_joins(debug_print, "v: *mut u8)"@, "(v: *mut u8)"@);
            let a = filled(PRETTY_PRINT_SHIM@, seq![pretty_print, shown]);
            let b = filled(DEBUG_PRINT_SHIM@, seq![debug_print, shown]);
            let parts = wellknown_parts(w, ty.text(), u);
            lemma_holds_both(a, seq![parts[0], parts[1]], b, seq![parts[2], parts[3]]);
            assert(seq![parts[0], parts[1]] + seq![parts[2], parts[3]] =~= parts);
        },
        _ => {},
    }
}

/// What the Rust half holds of the layout of a type that C++ is told.
pub open spec fn layout_parts(layout: CppLayoutModel, exact: bool, ty: Seq<char>) -> Seq<Seq<char>> {
    match layout {
        CppLayoutModel::StackAllocated { size, align } => if exact {
            seq![
                asserted("__zngur_assert_size"@, seq![ty, dec_text(size as nat)]),
                asserted("__zngur_assert_align"@, seq![ty, dec_text(align as nat)]),
            ]
        } else {
            seq![
                asserted("__zngur_assert_size_conservative"@, seq![ty, dec_text(size as nat)]),
                asserted("__zngur_assert_align_conservative"@, seq![ty, dec_text(align as nat)]),
            ]
        },
        CppLayoutModel::HeapAllocated { size_fn, alloc_fn, free_fn } => seq![
            "pub fn "@ + size_fn + "() -> usize {"@,
            "::std::mem::size_of::<"@ + ty + ">()"@,
            "pub fn "@ + alloc_fn + "() -> *mut u8 {"@,
            "::std::alloc::alloc(::std::alloc::Layout::new::<"@ + ty + ">())"@,
            "pub fn "@ + free_fn + "(p: *mut u8) {"@,
            "::std::alloc::dealloc(p, ::std::alloc::Layout::new::<"@ + ty + ">())"@,
        ],
        CppLayoutModel::OnlyByRef => Seq::empty(),
    }
}

/// C++ holds values of a type as it is declared: by the declared size and
/// alignment, which the Rust half asserts, on the heap by functions that the Rust
/// half holds, or by reference alone.
pub proof fn law_layouts_are_linked(zng: SpecModel, s: Setting, z: bool, k: int)
    requires
        0 <= k < zng.types.len(),
    ensures
        ({
            let td = zng.types[k];
            let c = cpp_half(zng, s, z).type_defs[k].layout;
            &&& (td.layout matches Some(LayoutPolicy::StackAllocated { size, align }) ==> c
                == (CppLayoutModel::StackAllocated { size, align }))
            &&& (td.layout matches Some(LayoutPolicy::Conservative { size, align }) ==> c
                == (CppLayoutModel::StackAllocated { size, align }))
            &&& (td.layout == Some(LayoutPolicy::HeapAllocated) <==> c is HeapAllocated)
            &&& (td.layout is None ==> c is OnlyByRef)
            &&& (td.layout == Some(LayoutPolicy::OnlyByRef) ==> c is OnlyByRef)
            &&& holds(
                rust_half(zng, s),
                layout_parts(
                    c,
                    td.layout matches Some(LayoutPolicy::StackAllocated { size, align }),
                    td.ty.text(),
                ),
            )
        }),
{
    law_each_type_is_declared(zng, s, z, k);
    lemma_half_has_layout(zng, s, k);
}

proof fn lemma_half_has_layout(zng: SpecModel, s: Setting, k: int)
    requires
        0 <= k < zng.types.len(),
    ensures
        holds(
            rust_half(zng, s),
            layout_parts(
                cpp_layout(zng.types[k].ty, layout_of(zng.types[k]), s.base),
                zng.types[k].layout matches Some(LayoutPolicy::StackAllocated { size, align }),
                zng.types[k].ty.text(),
            ),
        ),
{
    let td = zng.types[k];
    let c = cpp_layout(td.ty, layout_of(td), s.base);
    let exact = td.layout matches Some(LayoutPolicy::StackAllocated { size, align });
    let parts = layout_parts(c, exact, td.ty.text());
    match layout_of(td) {
        LayoutPolicy::HeapAllocated => {
            lemma_type_has_layout(td, s);
            if let CppLayoutModel::HeapAllocated { size_fn, alloc_fn, free_fn } = c {
                lemma_heap_shims(seq![size_fn, alloc_fn, free_fn, td.ty.text()]);
            }
            lemma_half_type_holds(zng, s, k, layout_text(td.ty, layout_of(td), s.base), parts);
        },
        LayoutPolicy::OnlyByRef => {},
        _ => {
            lemma_holds_itself(parts[0]);
            lemma_holds_itself(parts[1]);
            lemma_holds_both(parts[0], seq![parts[0]], parts[1], seq![parts[1]]);
            assert(seq![parts[0]] + seq![parts[1]] =~= parts);
            lemma_type_has_asserted(td, s, parts[0], parts[1]);
            lemma_half_type_holds(zng, s, k, parts[0] + parts[1], parts);
        },
    }
}

proof fn lemma_type_has_asserted(td: ZngurTypeModel, s: Setting, a: Seq<char>, b: Seq<char>)
    requires
        forall|t: Seq<char>| #[trigger] with_layout(t, td.ty, layout_of(td)) == t + a + b,
    ensures
        type_has(td, s, a + b),
{
    assert forall|t: Seq<char>| inside(#[trigger] with_type_head(t, td, s), a + b) by {
        lemma_inside_end(t, a + b);
        assert(t + a + b =~= t + (a + b));
        assert(with_layout(t, td.ty, layout_of(td)) == t + (a + b));
        lemma_keep_made(t + (a + b), td, s, a + b);
        lemma_head(t, td, s);
    }
    lemma_type_has_head(td, s, a + b);
}

/// C++ is told of a type that wraps a C++ value on the heap by the C++ type and by
/// the function that hands the value to Rust, which the Rust half holds.
pub proof fn law_cpp_values_are_linked(zng: SpecModel, s: Setting, z: bool, k: int)
    requires
        0 <= k < zng.types.len(),
    ensures
        ({
            let td = zng.types[k];
            let c = cpp_half(zng, s, z).type_defs[k].cpp_value;
            &&& (c is Some <==> td.cpp_heap_allocated is Some)
            &&& (c matches Some(v) ==> td.cpp_heap_allocated == Some(v.1) && holds(
                rust_half(zng, s),
                bridge_parts(v.0, td.ty.text()),
            ))
        }),
{
    law_each_type_is_declared(zng, s, z, k);
    if zng.types[k].cpp_heap_allocated is Some {
        lemma_half_has_bridge(zng, s, k);
    }
}

/// What takes C++ data for the type that wraps it, under a link name.
pub open spec fn bridge_parts(link: Seq<char>, ty: Seq<char>) -> Seq<Seq<char>> {
    seq![
        "pub extern \"C\" fn "@ + link + "(d: *mut u8) -> *mut "@ + ty + " {\n    d as *mut "@ + ty,
    ]
}

proof fn lemma_half_has_bridge(zng: SpecModel, s: Setting, k: int)
    requires
        0 <= k < zng.types.len(),
        zng.types[k].cpp_heap_allocated is Some,
    ensures
        holds(
            rust_half(zng, s),
            bridge_parts(bridge_link(zng.types[k].ty, s.base), zng.types[k].ty.text()),
        ),
{
    let ty = zng.types[k].ty;
    lemma_type_has_layout(zng.types[k], s);
    lemma_bridge(seq![bridge_link(ty, s.base), ty.text()]);
    lemma_half_type_holds(
        zng,
        s,
        k,
        bridge_text(ty, s),
        bridge_parts(bridge_link(ty, s.base), ty.text()),
    );
}

/// The Rust half asserts of each type that is declared `Copy` that it is.
pub proof fn law_copies_are_asserted(zng: SpecModel, s: Setting, k: int)
    requires
        0 <= k < zng.types.len(),
        zng.types[k].wellknown_traits.contains(ZngurWellknownTrait::Copy),
    ensures
        holds(
            rust_half(zng, s),
            seq![asserted("__zngur_assert_is_copy"@, seq![zng.types[k].ty.text()])],
        ),
{
    let td = zng.types[k];
    let part = copy_assertion(td.ty);
    assert forall|t: Seq<char>| inside(#[trigger] with_type_head(t, td, s), part) by {
        lemma_made_has_copy(with_layout(t, td.ty, layout_of(td)), td, s);
        lemma_head(t, td, s);
    }
    lemma_type_has_head(td, s, part);
    lemma_holds_itself(part);
    lemma_half_type_holds(zng, s, k, part, seq![part]);
}

proof fn lemma_made_has_copy(t: Seq<char>, td: ZngurTypeModel, s: Setting)
    requires
        td.wellknown_traits.contains(ZngurWellknownTrait::Copy),
    ensures
        inside(with_made(t, td, s), copy_assertion(td.ty)),
{
    let part = copy_assertion(td.ty);
    let t1 = t + part;
    lemma_inside_end(t, part);
    let b = destructor_text(td.ty, s);
    lemma_inside_front(t1, b, part);
    let t2 = if td.cpp_stack_owned is Some {
        t1 + b
    } else {
        t1
    };
    if let Some(c) = td.constructor {
        lemma_inside_front(t2, constructor_text(td.ty.text(), c.inputs, s.base), part);
    }
    let t3 = match td.constructor {
        Some(c) => t2 + constructor_text(td.ty.text(), c.inputs, s.base),
        None => t2,
    };
    lemma_inside_front(t3, discriminant_text(td.ty.text(), td.variants, s.base), part);
}

spec fn owned_text(ty: TypeModel, c: CppStackOwnedModel, s: Setting) -> Seq<char> {
    filled(
        STACK_OWNED_STRUCT@,
        seq![
            dec_text(c.align as nat),
            short_name(ty),
            dec_text(c.size as nat),
            mangled(destructor_name(ty), s.base),
        ],
    )
}

/// What the Rust types that wrap C++ values hold of a type.
pub open spec fn wrapper_parts(td: ZngurTypeModel, s: Setting) -> Seq<Seq<char>> {
    let name = short_name(td.ty);
    (match td.cpp_stack_owned {
        Some(c) => {
            let destroy = mangled(destructor_name(td.ty), s.base);
            seq![
                "#[repr(align("@ + dec_text(c.align as nat) + "))]\npub struct "@ + name + " {"@,
                "core::mem::MaybeUninit<[u8; "@ + dec_text(c.size as nat) + "]>"@,
                "fn "@ + destroy + "(i0: *mut u8, o: *mut u8);"@,
                destroy + "(self.buffer"@,
                "impl Drop for "@ + name + " {"@,
                "self.destruct();"@,
            ]
        },
        None => Seq::empty(),
    }) + (if td.cpp_heap_allocated is Some {
        seq![
            "pub struct "@ + name + " {"@,
            "impl Drop for "@ + name + " {"@,
            "(self.destructor)(self.data)"@,
        ]
    } else {
        Seq::empty()
    }) + (if td.cpp_ref is Some {
        seq!["pub struct "@ + name + "(());"@]
    } else {
        Seq::empty()
    })
}

proof fn lemma_wrapper(x: Seq<char>, td: ZngurTypeModel, s: Setting)
    ensures
        holds(with_wrappers(x, td, s), wrapper_parts(td, s)),
{
    let name = short_name(td.ty);
    let none = Seq::<Seq<char>>::empty();
    let a = match td.cpp_stack_owned {
        Some(c) => owned_text(td.ty, c, s),
        None => Seq::empty(),
    };
    let u = match td.cpp_stack_owned {
        Some(c) => {
            let destroy = mangled(destructor_name(td.ty), s.base);
            seq![
                "#[repr(align("@ + dec_text(c.align as nat) + "))]\npub struct "@ + name + " {"@,
                "core::mem::MaybeUninit<[u8; "@ + dec_text(c.size as nat) + "]>"@,
                "fn "@ + destroy + "(i0: *mut u8, o: *mut u8);"@,
                destroy + "(self.buffer"@,
                "impl Drop for "@ + name + " {"@,
                "self.destruct();"@,
            ]
        },
        None => none,
    };
    if let Some(c) = td.cpp_stack_owned {
        lemma_stack_owned(
            seq![
                dec_text(c.align as nat),
                name,
                dec_text(c.size as nat),
                mangled(destructor_name(td.ty), s.base),
            ],
        );
    }
    let b = if td.cpp_heap_allocated is Some {
        filled(CPP_VALUE_STRUCT@, seq![name])
    } else {
        Seq::empty()
    };
    let v = if td.cpp_heap_allocated is Some {
        seq![
            "pub struct "@ + name + " {"@,
            "impl Drop for "@ + name + " {"@,
            "(self.destructor)(self.data)"@,
        ]
    } else {
        none
    };
    lemma_cpp_value(seq![name]);
    let c = if td.cpp_ref is Some {
        filled(CPP_REF_STRUCT@, seq![name])
    } else {
        Seq::empty()
    };
    let w = if td.cpp_ref is Some {
        seq!["pub struct "@ + name + "(());"@]
    } else {
        none
    };
    lemma_cpp_ref(seq![name]);
    lemma_holds_both(a, u, b, v);
    lemma_holds_both(a + b, u + v, c, w);
    assert(with_wrappers(x, td, s) =~= x + (a + b + c) + Seq::<char>::empty());
    lemma_holds_inside(with_wrappers(x, td, s), x, a + b + c, Seq::empty(), u + v + w);
    assert(u + v + w =~= wrapper_parts(td, s));
}

proof fn lemma_wrappers_step(p: Progress, v: Seq<ZngurTypeModel>, n: nat, s: Setting)
    requires
        0 < n <= v.len(),
    ensures
        ({
            let q = after_types(p, v, (n - 1) as nat, s);
            &&& after_types(p, v, n, s).wrappers == with_wrappers(q.wrappers, v[n - 1], s)
            &&& after_types(p, v, n, s).aliases == with_alias(q.aliases, v[n - 1])
        }),
{
}

/// Parts that stand in a text stand in it with more behind it.
proof fn lemma_holds_longer(text: Seq<char>, tail: Seq<char>, parts: Seq<Seq<char>>)
    requires
        holds(text, parts),
    ensures
        holds(text + tail, parts),
{
    assert(text + tail =~= Seq::<char>::empty() + text + tail);
    lemma_holds_inside(text + tail, Seq::empty(), text, tail, parts);
}

proof fn lemma_has_wrapper(p: Progress, v: Seq<ZngurTypeModel>, n: nat, s: Setting, k: int)
    requires
        0 <= k < n <= v.len(),
    ensures
        holds(after_types(p, v, n, s).wrappers, wrapper_parts(v[k], s)),
    decreases n,
{
    lemma_wrappers_step(p, v, n, s);
    let x = after_types(p, v, (n - 1) as nat, s).wrappers;
    if k < n - 1 {
        lemma_has_wrapper(p, v, (n - 1) as nat, s, k);
        let tail = lemma_wrappers_grow(x, v[n - 1], s);
        lemma_holds_longer(x, tail, wrapper_parts(v[k], s));
    } else {
        lemma_wrapper(x, v[k], s);
    }
}

/// The old name of a type.
pub open spec fn old_name(ty: TypeModel) -> Seq<char> {
    "pub type "@ + short_name(ty) + " = super::"@ + short_name(ty) + ";"@
}

proof fn lemma_has_alias(p: Progress, v: Seq<ZngurTypeModel>, n: nat, s: Setting, k: int)
    requires
        0 <= k < n <= v.len(),
        v[k].cpp_stack_owned is Some || v[k].cpp_heap_allocated is Some || v[k].cpp_ref is Some,
    ensures
        holds(after_types(p, v, n, s).aliases, seq![old_name(v[k].ty)]),
    decreases n,
{
    lemma_wrappers_step(p, v, n, s);
    let x = after_types(p, v, (n - 1) as nat, s).aliases;
    if k < n - 1 {
        lemma_has_alias(p, v, (n - 1) as nat, s, k);
        lemma_holds_longer(
            x,
            filled(CPP_ALIAS@, seq![short_name(v[n - 1].ty)]),
            seq![old_name(v[k].ty)],
        );
    } else {
        lemma_alias(x, v[k].ty);
    }
}

proof fn lemma_alias(x: Seq<char>, ty: TypeModel)
    ensures
        holds(x + filled(CPP_ALIAS@, seq![short_name(ty)]), seq![old_name(ty)]),
{
    lemma_cpp_alias(seq![short_name(ty)]);
    let last = filled(CPP_ALIAS@, seq![short_name(ty)]);
    assert(x + last =~= x + last + Seq::<char>::empty());
    lemma_holds_inside(x + last, x, last, Seq::empty(), seq![old_name(ty)]);
}

proof fn lemma_not_empty(text: Seq<char>, parts: Seq<Seq<char>>)
    requires
        holds(text, parts),
        parts.len() == 1,
        parts[0].len() > 0,
    ensures
        text.len() > 0,
{
    let i = choose|i: int| 0 <= i && #[trigger] occurs_at(text, parts[0], i);
}

proof fn lemma_wrappers_grow(x: Seq<char>, td: ZngurTypeModel, s: Setting) -> (tail: Seq<char>)
    ensures
        with_wrappers(x, td, s) == x + tail,
{
    let name = short_name(td.ty);
    let a = match td.cpp_stack_owned {
        Some(c) => owned_text(td.ty, c, s),
        None => Seq::empty(),
    };
    let b = if td.cpp_heap_allocated is Some {
        filled(CPP_VALUE_STRUCT@, seq![name])
    } else {
        Seq::empty()
    };
    let c = if td.cpp_ref is Some {
        filled(CPP_REF_STRUCT@, seq![name])
    } else {
        Seq::empty()
    };
    assert(with_wrappers(x, td, s) =~= x + (a + b + c));
    a + b + c
}

/// The Rust half holds the Rust type of each type that wraps a C++ value: one with
/// the declared size and alignment and the destructor that C++ gives for a value
/// that is held in place, one that destroys its value for one on the heap, and one
/// without a size for one behind a reference; and the old name of each in a module.
pub proof fn law_wrapped_values_have_types(zng: SpecModel, s: Setting, k: int)
    requires
        0 <= k < zng.types.len(),
        zng.types[k].cpp_stack_owned is Some || zng.types[k].cpp_heap_allocated is Some
            || zng.types[k].cpp_ref is Some,
    ensures
        holds(rust_half(zng, s), wrapper_parts(zng.types[k], s)),
        holds(rust_half(zng, s), seq![old_name(zng.types[k].ty)]),
{
    let p = after_types(before_types(zng, s), zng.types, zng.types.len(), s);
    let td = zng.types[k];
    lemma_has_wrapper(before_types(zng, s), zng.types, zng.types.len(), s, k);
    lemma_has_alias(before_types(zng, s), zng.types, zng.types.len(), s, k);
    reveal_strlit("pub type ");
    lemma_not_empty(p.aliases, seq![old_name(td.ty)]);
    lemma_wrapped(zng, s, p, wrapper_parts(td, s), seq![old_name(td.ty)]);
}

proof fn lemma_wrapped(
    zng: SpecModel,
    s: Setting,
    p: Progress,
    u: Seq<Seq<char>>,
    v: Seq<Seq<char>>,
)
    requires
        p == after_types(before_types(zng, s), zng.types, zng.types.len(), s),
        holds(p.wrappers, u),
        holds(p.aliases, v),
        p.aliases.len() > 0,
    ensures
        holds(rust_half(zng, s), u),
        holds(rust_half(zng, s), v),
{
    let module = filled(CPP_MODULE@, seq![p.aliases]);
    lemma_cpp_module(seq![p.aliases]);
    lemma_inside_middle(p.rust, p.wrappers, module);
    lemma_keep_module(zng, s, p.wrappers);
    lemma_inside_holds(rust_half(zng, s), p.wrappers, u);
    lemma_inside_end(p.rust + p.wrappers, module);
    lemma_keep_module(zng, s, module);
    let whole = "pub mod cpp {\n"@ + p.aliases + "\n}"@;
    lemma_holds_inside(whole, "pub mod cpp {\n"@, p.aliases, "\n}"@, v);
    lemma_part_holds(module, whole, v);
    lemma_inside_holds(rust_half(zng, s), module, v);
}

/// What a part of a text holds, the text holds.
proof fn lemma_part_holds(text: Seq<char>, part: Seq<char>, parts: Seq<Seq<char>>)
    requires
        holds(text, seq![part]),
        holds(part, parts),
    ensures
        holds(text, parts),
{
    let i = choose|i: int| 0 <= i && #[trigger] occurs_at(text, seq![part][0], i);
    assert(occurs_at(text, part, i));
    lemma_inside_holds(text, part, parts);
}

/// What stands before the functions of an interface, its wrappers included, stands
/// in its Rust half.
proof fn lemma_keep_module(zng: SpecModel, s: Setting, part: Seq<char>)
    requires
        ({
            let p = after_types(before_types(zng, s), zng.types, zng.types.len(), s);
            inside(with_cpp_module(p.rust, p.wrappers, p.aliases), part)
        }),
    ensures
        inside(rust_half(zng, s), part),
{
    let p = after_types(before_types(zng, s), zng.types, zng.types.len(), s);
    let m = with_cpp_module(p.rust, p.wrappers, p.aliases);
    lemma_keep_fns(m, zng.funcs, zng.funcs.len(), s, part);
    let f = with_fns(m, zng.funcs, zng.funcs.len(), s);
    lemma_keep_extern_fns(f, zng.extern_cpp_funcs, zng.extern_cpp_funcs.len(), s, part);
    let e = with_extern_fns(f, zng.extern_cpp_funcs, zng.extern_cpp_funcs.len(), s);
    lemma_keep_extern_impls(e, zng.extern_cpp_impls, zng.extern_cpp_impls.len(), s, part);
}

/// What makes closures, under a link name: it takes the C++ data, what destroys it
/// and what calls it with all inputs, and makes a boxed closure of the trait.
pub open spec fn closure_parts(
    link: Seq<char>,
    name: Seq<char>,
    inputs: Seq<TypeModel>,
    output: TypeModel,
) -> Seq<Seq<char>> {
    seq![
        "pub extern \"C\" fn "@ + link
            + "(\n    data: *mut u8,\n    destructor: extern \"C\" fn(*mut u8),\n    call: extern \"C\" fn(data: *mut u8, "@
            + join_text(numbered("i"@, inputs.len(), ": *mut u8, "@), " "@)
            + " o: *mut u8),\n    o: *mut u8,\n)"@,
        "(self.destructor)(self.data)"@,
        "let r: Box<dyn "@ + (name + "("@ + join_text(types_text(inputs), ", "@) + ") -> "@
            + output.text()) + "> = Box::new(move |"@ + join_text(
            numbered_items("i"@, 0, ": "@, types_text(inputs), ""@),
            ", "@,
        ) + "| unsafe {"@,
    ] + seq![call_text("call(data, "@, inputs.len())]
}

/// A boxed closure whose trait is not known yet becomes known to C++ under the name
/// by which the text of the type makes such closures, with the inputs and the
/// output of the trait.
pub proof fn law_closures_are_linked(
    t: Seq<char>,
    td: ZngurTypeModel,
    known: Seq<(TraitModel, TraitDefModel)>,
    s: Setting,
    name: Seq<char>,
    inputs: Seq<TypeModel>,
    output: TypeModel,
)
    requires
        closure_trait(td.ty) == Some(TraitModel::Fn { name, inputs, output: Box::new(output) }),
        new_closure(td.ty, known),
    ensures
        ({
            let after = with_closure(known, td.ty, s);
            &&& after.len() == known.len() + 1
            &&& after.last().0 == (TraitModel::Fn { name, inputs, output: Box::new(output) })
            &&& after.last().1 matches TraitDefModel::Fn { sig } && sig.output == cpp_of(output, s)
                && sig.inputs == Seq::new(inputs.len(), |j: int| cpp_of(inputs[j], s)) && holds(
                with_type(t, td, known, s),
                closure_parts(sig.rust_link_name, name, inputs, output),
            )
        }),
{
    let link = closure_link(inputs, output, s.base);
    lemma_closure(name, inputs, output, s.base);
    let part = closure_builder_text(name, inputs, output, s.base);
    let u = with_type_parts(with_type_head(t, td, s), td, s) + layout_text(
        td.ty,
        layout_of(td),
        s.base,
    );
    let w = if td.cpp_heap_allocated is Some {
        u + bridge_text(td.ty, s)
    } else {
        u
    };
    lemma_inside_end(w, part);
    lemma_inside_holds(with_type(t, td, known, s), part, closure_parts(link, name, inputs, output));
    let sig = with_closure(known, td.ty, s).last().1->sig;
    assert(sig.inputs =~= Seq::new(inputs.len(), |j: int| cpp_of(inputs[j], s)));
}

proof fn lemma_closure(name: Seq<char>, inputs: Seq<TypeModel>, output: TypeModel, base: Seq<char>)
    ensures
        holds(
            closure_builder_text(name, inputs, output, base),
            closure_parts(closure_link(inputs, output, base), name, inputs, output),
        ),
{
    let args = seq![
        closure_link(inputs, output, base),
        join_text(numbered("i"@, inputs.len(), ": *mut u8, "@), " "@),
        name + "("@ + join_text(types_text(inputs), ", "@) + ") -> "@ + output.text(),
        join_text(numbered_items("i"@, 0, ": "@, types_text(inputs), ""@), ", "@),
    ];
    lemma_closure_open(args);
    let open = filled(CLOSURE_OPEN@, args);
    let call = call_text("call(data, "@, inputs.len());
    lemma_holds_itself(call);
    let parts = closure_parts(args[0], name, inputs, output);
    let head = seq![parts[0], parts[1], parts[2]];
    lemma_holds_both(open, head, call, seq![call]);
    assert(head + seq![call] =~= parts);
    assert(open + call + CLOSURE_CLOSE@ =~= Seq::<char>::empty() + (open + call) + CLOSURE_CLOSE@);
    lemma_holds_inside(
        closure_builder_text(name, inputs, output, base),
        Seq::empty(),
        open + call,
        CLOSURE_CLOSE@,
        parts,
    );
}

} // verus!
