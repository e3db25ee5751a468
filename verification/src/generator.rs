//! Making the two halves of an interface.

use crate::cpp::{cpp_handle_keyword, CppType};
use crate::cpp_file::{
    cpp_methods_view, cpp_variants_view, field_data_view, opt_sig, trait_def_of, trait_defs_view,
    wellknown_data_view, CppFnSig, CppMethod, CppTraitDefinition, CppTypeDefinition, CppValue,
    CppVariant, ZngurFieldData, ZngurFieldDataOffset, ZngurWellknownTraitData,
};
use crate::def::{
    fields_view, opt_text, opt_trait, LayoutPolicy, ZngurField, ZngurMethod, ZngurMethodDetails,
    ZngurMethodReceiver, ZngurType, ZngurVariant, ZngurWellknownTrait,
};
use crate::halves::{
    boxed_trait, callable, closure_text, closure_trait, constructor_sig, cpp_of, destructor_name,
    field_data, field_pairs, method_data, method_function, new_closure, object_trait, pair_types,
    real_inputs, short_name, tuple_types, type_data, type_renderable, variant_data,
    variant_field_data, with_alias, with_closure, with_fields, with_layout, with_methods, with_type,
    with_type_head, with_variant, with_variant_fields, with_variants, with_wellknown, with_wrappers,
    Setting,
};
use crate::into_cpp::{
    all_convertible, convertible, named_convertible, trait_convertible, types_into_cpp,
};
use crate::mangle::mangled;
use crate::merge::wellknown_contains;
use crate::rust_file::RustFile;
use crate::rust_templates::{CPP_ALIAS, CPP_REF_STRUCT, CPP_VALUE_STRUCT, STACK_OWNED_STRUCT};
use crate::rust_types::{
    named_view, type_texts, types_text, types_view, Mutability, RustTrait, RustType, TraitModel,
    TypeModel,
};
use crate::text::{decimal, fill1, fill4, join, split, texts};
use vstd::pervasive::unreached;
use vstd::prelude::*;

verus! {

broadcast use vstd::std_specs::vec::group_vec_axioms;

/// What the names in a file depend on.
pub open spec fn setting_in(f: RustFile, namespace: Seq<char>, crate_name: Seq<char>) -> Setting {
    Setting { namespace, crate_name, base: f.mangling_base@, panic: f.panic_to_exception }
}

/// Whether a file has become another one whose text is `text`.
pub open spec fn rewritten(before: RustFile, after: RustFile, text: Seq<char>) -> bool {
    after.text@ == text && after.panic_to_exception == before.panic_to_exception
        && after.mangling_base@ == before.mangling_base@
}

pub(crate) fn make_field_pairs(fields: &Vec<ZngurField>) -> (r: Vec<(String, RustType)>)
    ensures
        named_view(r@) == field_pairs(fields_view(fields@)),
{
    let mut r: Vec<(String, RustType)> = Vec::new();
    let mut i: usize = 0;
    while i < fields.len()
        invariant
            i <= fields.len(),
            r.len() == i,
            forall|k: int|
                0 <= k < i ==> (#[trigger] r@[k]).0@ == fields@[k].name@ && r@[k].1.view()
                    == fields@[k].ty@,
        decreases fields.len() - i,
    {
        r.push((fields[i].name.clone(), fields[i].ty.copy()));
        i += 1;
    }
    proof {
        assert(named_view(r@) =~= field_pairs(fields_view(fields@)));
    }
    r
}

fn make_pair_types(v: &Vec<(String, RustType)>) -> (r: Vec<RustType>)
    ensures
        types_view(r@) == pair_types(named_view(v@)),
{
    let mut r: Vec<RustType> = Vec::new();
    let mut i: usize = 0;
    while i < v.len()
        invariant
            i <= v.len(),
            r.len() == i,
            forall|k: int| 0 <= k < i ==> (#[trigger] r@[k]).view() == v@[k].1.view(),
        decreases v.len() - i,
    {
        r.push(v[i].1.copy());
        i += 1;
    }
    proof {
        assert(types_view(r@) =~= pair_types(named_view(v@)));
    }
    r
}

proof fn lemma_pair_types_convertible(v: Seq<(Seq<char>, TypeModel)>, namespace: Seq<char>)
    requires
        named_convertible(v, namespace),
    ensures
        all_convertible(pair_types(v), namespace),
{
    assert forall|i: int| 0 <= i < pair_types(v).len() implies convertible(
        #[trigger] pair_types(v)[i],
        namespace,
    ) by {
        assert(convertible(v[i].1, namespace));
    }
}

fn make_constructor_sig(
    link: String,
    inputs: &Vec<(String, RustType)>,
    output: CppType,
    rust: &RustFile,
    namespace: &str,
    crate_name: &str,
) -> (r: CppFnSig)
    requires
        named_convertible(named_view(inputs@), namespace@),
    ensures
        r@ == constructor_sig(
            link@,
            pair_types(named_view(inputs@)),
            output@,
            setting_in(*rust, namespace@, crate_name@),
        ),
{
    let types = make_pair_types(inputs);
    proof {
        lemma_pair_types_convertible(named_view(inputs@), namespace@);
    }
    CppFnSig {
        rust_link_name: link,
        inputs: types_into_cpp(&types, namespace, crate_name),
        output,
    }
}

fn add_variant_fields(
    rust: &mut RustFile,
    ty: &RustType,
    v: &ZngurVariant,
    namespace: &str,
    crate_name: &str,
) -> (r: Vec<ZngurFieldData>)
    ensures
        rewritten(
            *old(rust),
            *final(rust),
            with_variant_fields(
                old(rust).text@,
                ty@,
                v@,
                v@.fields.len(),
                setting_in(*old(rust), namespace@, crate_name@),
            ),
        ),
        field_data_view(r@) == variant_data(
            ty@,
            v@,
            setting_in(*old(rust), namespace@, crate_name@),
        ).fields,
{
    let mut r: Vec<ZngurFieldData> = Vec::new();
    let ghost model = v@;
    let ghost before = *rust;
    let ghost s = setting_in(before, namespace@, crate_name@);
    let mut i: usize = 0;
    while i < v.fields.len()
        invariant
            i <= v.fields.len(),
            model == v@,
            s == setting_in(before, namespace@, crate_name@),
            rewritten(before, *rust, with_variant_fields(before.text@, ty@, model, i as nat, s)),
            r.len() == i,
            forall|k: int|
                0 <= k < i ==> (#[trigger] r@[k])@ == variant_field_data(
                    ty@,
                    model,
                    model.fields[k],
                    s,
                ),
        decreases v.fields.len() - i,
    {
        let field = &v.fields[i];
        proof {
            assert(model.fields[i as int] == field@);
        }
        let link = rust.add_variant_field_calculations(field, ty, v.name.as_str());
        r.push(
            ZngurFieldData {
                name: field.name.clone(),
                ty: field.ty.copy(),
                offset: ZngurFieldDataOffset::AutoDynamic(link),
            },
        );
        i += 1;
    }
    proof {
        assert(field_data_view(r@) =~= variant_data(ty@, model, s).fields);
    }
    r
}

fn add_variant(
    rust: &mut RustFile,
    ty: &RustType,
    v: &ZngurVariant,
    namespace: &str,
    crate_name: &str,
) -> (r: CppVariant)
    requires
        convertible(ty@, namespace@),
        v@.exhaustive ==> named_convertible(field_pairs(v@.fields), namespace@),
    ensures
        rewritten(
            *old(rust),
            *final(rust),
            with_variant(
                old(rust).text@,
                ty@,
                v@,
                setting_in(*old(rust), namespace@, crate_name@),
            ),
        ),
        r@ == variant_data(ty@, v@, setting_in(*old(rust), namespace@, crate_name@)),
{
    let mut rust_name = ty.to_text();
    rust_name.append("::");
    rust_name.append(v.name.as_str());
    let constructor = if v.exhaustive {
        let pairs = make_field_pairs(&v.fields);
        let link = rust.add_constructor(rust_name.as_str(), &pairs);
        let output = ty.into_cpp(namespace, crate_name).with_tail(v.name.clone());
        Some(make_constructor_sig(link, &pairs, output, rust, namespace, crate_name))
    } else {
        None
    };
    let match_check = rust.add_match_check(rust_name.as_str());
    let fields = add_variant_fields(rust, ty, v, namespace, crate_name);
    CppVariant { name: v.name.clone(), constructor, match_check, fields }
}

fn add_variants(
    rust: &mut RustFile,
    td: &ZngurType,
    namespace: &str,
    crate_name: &str,
) -> (r: Vec<CppVariant>)
    requires
        type_renderable(td@, namespace@),
    ensures
        rewritten(
            *old(rust),
            *final(rust),
            with_variants(
                old(rust).text@,
                td@.ty,
                td@.variants,
                td@.variants.len(),
                setting_in(*old(rust), namespace@, crate_name@),
            ),
        ),
        cpp_variants_view(r@) == type_data(
            td@,
            setting_in(*old(rust), namespace@, crate_name@),
        ).variants,
{
    let mut r: Vec<CppVariant> = Vec::new();
    let ghost model = td@;
    let ghost before = *rust;
    let ghost s = setting_in(before, namespace@, crate_name@);
    let mut i: usize = 0;
    while i < td.variants.len()
        invariant
            i <= td.variants.len(),
            model == td@,
            type_renderable(model, namespace@),
            s == setting_in(before, namespace@, crate_name@),
            rewritten(
                before,
                *rust,
                with_variants(before.text@, model.ty, model.variants, i as nat, s),
            ),
            r.len() == i,
            forall|k: int|
                0 <= k < i ==> (#[trigger] r@[k])@ == variant_data(
                    model.ty,
                    model.variants[k],
                    s,
                ),
        decreases td.variants.len() - i,
    {
        proof {
            assert(model.variants[i as int] == td.variants@[i as int]@);
        }
        let x = add_variant(rust, &td.ty, &td.variants[i], namespace, crate_name);
        r.push(x);
        i += 1;
    }
    proof {
        assert(cpp_variants_view(r@) =~= type_data(model, s).variants);
    }
    r
}

fn add_fields(rust: &mut RustFile, td: &ZngurType, namespace: &str, crate_name: &str) -> (r: Vec<
    ZngurFieldData,
>)
    ensures
        rewritten(
            *old(rust),
            *final(rust),
            with_fields(
                old(rust).text@,
                td@.ty,
                td@.fields,
                td@.fields.len(),
                setting_in(*old(rust), namespace@, crate_name@),
            ),
        ),
        field_data_view(r@) == type_data(
            td@,
            setting_in(*old(rust), namespace@, crate_name@),
        ).fields,
{
    let mut r: Vec<ZngurFieldData> = Vec::new();
    let ghost model = td@;
    let ghost before = *rust;
    let ghost s = setting_in(before, namespace@, crate_name@);
    let mut i: usize = 0;
    while i < td.fields.len()
        invariant
            i <= td.fields.len(),
            model == td@,
            s == setting_in(before, namespace@, crate_name@),
            rewritten(
                before,
                *rust,
                with_fields(before.text@, model.ty, model.fields, i as nat, s),
            ),
            r.len() == i,
            forall|k: int|
                0 <= k < i ==> (#[trigger] r@[k])@ == field_data(model.ty, model.fields[k], s),
        decreases td.fields.len() - i,
    {
        let field = &td.fields[i];
        proof {
            assert(model.fields[i as int] == field@);
        }
        let link = rust.add_field_assertions(field, &td.ty);
        let offset = match field.offset {
            Some(offset) => ZngurFieldDataOffset::Offset(offset),
            None => match link {
                Some(link) => ZngurFieldDataOffset::Auto(link),
                None => unreached(),
            },
        };
        r.push(ZngurFieldData { name: field.name.clone(), ty: field.ty.copy(), offset });
        i += 1;
    }
    proof {
        assert(field_data_view(r@) =~= type_data(model, s).fields);
    }
    r
}

fn add_wellknown_traits(
    rust: &mut RustFile,
    td: &ZngurType,
    namespace: &str,
    crate_name: &str,
) -> (r: Vec<ZngurWellknownTraitData>)
    ensures
        rewritten(
            *old(rust),
            *final(rust),
            with_wellknown(
                old(rust).text@,
                td@.ty,
                td@.wellknown_traits,
                td@.wellknown_traits.len(),
                setting_in(*old(rust), namespace@, crate_name@),
            ),
        ),
        wellknown_data_view(r@) == type_data(
            td@,
            setting_in(*old(rust), namespace@, crate_name@),
        ).wellknown_traits,
{
    let mut r: Vec<ZngurWellknownTraitData> = Vec::new();
    let ghost model = td@;
    let ghost before = *rust;
    let ghost s = setting_in(before, namespace@, crate_name@);
    let is_unsized = wellknown_contains(&td.wellknown_traits, ZngurWellknownTrait::Unsized);
    let mut i: usize = 0;
    while i < td.wellknown_traits.len()
        invariant
            i <= td.wellknown_traits.len(),
            model == td@,
            is_unsized == model.wellknown_traits.contains(ZngurWellknownTrait::Unsized),
            s == setting_in(before, namespace@, crate_name@),
            rewritten(
                before,
                *rust,
                with_wellknown(before.text@, model.ty, model.wellknown_traits, i as nat, s),
            ),
            r.len() == i,
            forall|k: int|
                0 <= k < i ==> (#[trigger] r@[k])@ == crate::rust_file::wellknown_data(
                    model.ty,
                    model.wellknown_traits[k],
                    s.base,
                ),
        decreases td.wellknown_traits.len() - i,
    {
        let data = rust.add_wellknown_trait(&td.ty, td.wellknown_traits[i], is_unsized);
        r.push(data);
        i += 1;
    }
    proof {
        assert(wellknown_data_view(r@) =~= type_data(model, s).wellknown_traits);
    }
    r
}

/// The inputs of a method, its receiver first.
pub fn real_inputs_of_method(method: &ZngurMethod, ty: &RustType) -> (r: Vec<RustType>)
    ensures
        types_view(r@) == real_inputs(method@, ty@),
{
    let mut r: Vec<RustType> = Vec::new();
    match method.receiver {
        ZngurMethodReceiver::Static => {},
        ZngurMethodReceiver::Ref(m) => {
            r.push(RustType::Ref(m, Box::new(ty.copy())));
        },
        ZngurMethodReceiver::Move => {
            r.push(ty.copy());
        },
    }
    let ghost first = types_view(r@);
    let ghost rest = types_view(method.inputs@);
    proof {
        match method.receiver {
            ZngurMethodReceiver::Static => {
                assert(first =~= Seq::empty());
                assert(first + rest =~= rest);
            },
            ZngurMethodReceiver::Ref(m) => {
                assert(first =~= seq![TypeModel::Ref(m, Box::new(ty@))]);
            },
            ZngurMethodReceiver::Move => {
                assert(first =~= seq![ty@]);
            },
        }
        assert(first + rest.take(0) =~= first);
    }
    let mut i: usize = 0;
    while i < method.inputs.len()
        invariant
            i <= method.inputs.len(),
            rest == types_view(method.inputs@),
            types_view(r@) == first + rest.take(i as int),
        decreases method.inputs.len() - i,
    {
        let x = method.inputs[i].copy();
        proof {
            assert(types_view(r@.push(x)) =~= types_view(r@).push(x@));
            assert(first + rest.take(i + 1) =~= (first + rest.take(i as int)).push(x@));
        }
        r.push(x);
        i += 1;
    }
    proof {
        assert(rest.take(i as int) =~= rest);
    }
    r
}

pub(crate) proof fn lemma_real_inputs_convertible(
    m: crate::def::MethodModel,
    ty: TypeModel,
    namespace: Seq<char>,
)
    requires
        convertible(ty, namespace),
        all_convertible(m.inputs, namespace),
    ensures
        all_convertible(real_inputs(m, ty), namespace),
{
    let v = real_inputs(m, ty);
    assert forall|i: int| 0 <= i < v.len() implies convertible(#[trigger] v[i], namespace) by {
        match m.receiver {
            ZngurMethodReceiver::Static => {
                assert(v[i] == m.inputs[i]);
            },
            _ => {
                if i > 0 {
                    assert(v[i] == m.inputs[i - 1]);
                }
            },
        }
    }
}

fn add_method(
    rust: &mut RustFile,
    ty: &RustType,
    m: &ZngurMethodDetails,
    namespace: &str,
    crate_name: &str,
) -> (r: CppMethod)
    requires
        convertible(ty@, namespace@),
        callable(m@.data.inputs, m@.data.output, namespace@),
    ensures
        rewritten(
            *old(rust),
            *final(rust),
            old(rust).text@ + method_function(
                m@,
                ty@,
                setting_in(*old(rust), namespace@, crate_name@),
            ),
        ),
        r@ == method_data(m@, ty@, setting_in(*old(rust), namespace@, crate_name@)),
{
    let inputs = real_inputs_of_method(&m.data, ty);
    proof {
        lemma_real_inputs_convertible(m@.data, ty@, namespace@);
        assert(types_view(inputs@).len() == inputs@.len());
    }
    let cpp_name = match &m.cpp_name {
        Some(n) => n.clone(),
        None => m.data.name.clone(),
    };
    let mut rust_name = String::from_str("<");
    let target = match &m.deref {
        Some(d) => d.0.to_text(),
        None => ty.to_text(),
    };
    rust_name.append(target.as_str());
    rust_name.append(">::");
    rust_name.append(m.data.name.as_str());
    rust_name.append("::<");
    rust_name.append(join(&type_texts(&m.data.generics), ", ").as_str());
    rust_name.append(">");
    let deref = match &m.deref {
        Some(d) => Some(d.1),
        None => None,
    };
    let sig = rust.add_function(
        cpp_name.as_str(),
        rust_name.as_str(),
        &inputs,
        &m.data.output,
        &m.use_path,
        deref,
        namespace,
        crate_name,
    );
    CppMethod {
        name: String::from_str(cpp_handle_keyword(cpp_name.as_str())),
        kind: m.data.receiver,
        sig,
    }
}

fn add_methods(rust: &mut RustFile, td: &ZngurType, namespace: &str, crate_name: &str) -> (r: Vec<
    CppMethod,
>)
    requires
        type_renderable(td@, namespace@),
    ensures
        rewritten(
            *old(rust),
            *final(rust),
            with_methods(
                old(rust).text@,
                td@.ty,
                td@.methods,
                td@.methods.len(),
                setting_in(*old(rust), namespace@, crate_name@),
            ),
        ),
        cpp_methods_view(r@) == type_data(
            td@,
            setting_in(*old(rust), namespace@, crate_name@),
        ).methods,
{
    let mut r: Vec<CppMethod> = Vec::new();
    let ghost model = td@;
    let ghost before = *rust;
    let ghost s = setting_in(before, namespace@, crate_name@);
    let mut i: usize = 0;
    while i < td.methods.len()
        invariant
            i <= td.methods.len(),
            model == td@,
            type_renderable(model, namespace@),
            s == setting_in(before, namespace@, crate_name@),
            rewritten(
                before,
                *rust,
                with_methods(before.text@, model.ty, model.methods, i as nat, s),
            ),
            r.len() == i,
            forall|k: int|
                0 <= k < i ==> (#[trigger] r@[k])@ == method_data(model.methods[k], model.ty, s),
        decreases td.methods.len() - i,
    {
        proof {
            assert(model.methods[i as int] == td.methods@[i as int]@);
        }
        let x = add_method(rust, &td.ty, &td.methods[i], namespace, crate_name);
        r.push(x);
        i += 1;
    }
    proof {
        assert(cpp_methods_view(r@) =~= type_data(model, s).methods);
    }
    r
}

fn add_layout_assertions(rust: &mut RustFile, ty: &RustType, layout: LayoutPolicy)
    ensures
        rewritten(*old(rust), *final(rust), with_layout(old(rust).text@, ty@, layout)),
{
    match layout {
        LayoutPolicy::StackAllocated { size, align } => {
            rust.add_static_size_assert(ty, size);
            rust.add_static_align_assert(ty, align);
        },
        LayoutPolicy::Conservative { size, align } => {
            rust.add_static_size_upper_bound_assert(ty, size);
            rust.add_static_align_upper_bound_assert(ty, align);
        },
        LayoutPolicy::HeapAllocated => {},
        LayoutPolicy::OnlyByRef => {},
    }
}

fn make_short_name(ty: &RustType) -> (r: String)
    ensures
        r@ == short_name(ty@),
{
    proof {
        reveal_strlit("::");
    }
    let mut parts = split(ty.to_text().as_str(), "::");
    let ghost all = texts(parts@);
    proof {
        assert(all.last() == parts@.last()@);
    }
    match parts.pop() {
        Some(last) => last,
        None => unreached(),
    }
}

fn make_destructor_name(ty: &RustType) -> (r: String)
    ensures
        r@ == destructor_name(ty@),
{
    let mut r = String::from_str("_zngur_crate_");
    r.append(make_short_name(ty).as_str());
    r.append("_destructor");
    r
}

/// Adds what a type declares of itself, and returns its constructor and its
/// discriminant.
fn add_type_head(
    rust: &mut RustFile,
    td: &ZngurType,
    layout: LayoutPolicy,
    namespace: &str,
    crate_name: &str,
) -> (r: (Option<CppFnSig>, Option<String>))
    requires
        type_renderable(td@, namespace@),
        td@.layout == Some(layout),
    ensures
        rewritten(
            *old(rust),
            *final(rust),
            with_type_head(
                old(rust).text@,
                td@,
                setting_in(*old(rust), namespace@, crate_name@),
            ),
        ),
        opt_sig(r.0) == (match td@.constructor {
            Some(c) => Some(
                constructor_sig(
                    mangled(td@.ty.text(), old(rust).mangling_base@),
                    pair_types(c.inputs),
                    cpp_of(td@.ty, setting_in(*old(rust), namespace@, crate_name@)),
                    setting_in(*old(rust), namespace@, crate_name@),
                ),
            ),
            None => None,
        }),
        opt_text(r.1) == type_data(
            td@,
            setting_in(*old(rust), namespace@, crate_name@),
        ).discriminant,
{
    let ty = &td.ty;
    add_layout_assertions(rust, ty, layout);
    if wellknown_contains(&td.wellknown_traits, ZngurWellknownTrait::Copy) {
        rust.add_static_is_copy_assert(ty);
    }
    if td.cpp_stack_owned.is_some() {
        let mut inputs: Vec<RustType> = Vec::new();
        inputs.push(RustType::Ref(Mutability::Mut, Box::new(ty.copy())));
        proof {
            assert(types_view(inputs@) =~= seq![
                TypeModel::Ref(Mutability::Mut, Box::new(ty@)),
            ]);
        }
        let name = make_destructor_name(ty);
        let _ = rust.add_extern_cpp_function(name.as_str(), &inputs, &RustType::unit(), true);
    }
    let constructor = match &td.constructor {
        Some(c) => {
            let link = rust.add_constructor(ty.to_text().as_str(), &c.inputs);
            let output = ty.into_cpp(namespace, crate_name);
            Some(make_constructor_sig(link, &c.inputs, output, rust, namespace, crate_name))
        },
        None => None,
    };
    let discriminant = if td.exhaustive {
        proof {
            assert(td@.variants.len() == td.variants@.len());
        }
        rust.add_discriminant(ty.to_text().as_str(), &td.variants)
    } else {
        None
    };
    (constructor, discriminant)
}

/// Adds what makes a tuple, and returns how C++ calls it.
fn add_tuple(rust: &mut RustFile, ty: &RustType, namespace: &str, crate_name: &str) -> (r: Option<
    CppFnSig,
>)
    requires
        convertible(ty@, namespace@),
    ensures
        rewritten(
            *old(rust),
            *final(rust),
            match tuple_types(ty@) {
                Some(v) => old(rust).text@ + crate::rust_file::tuple_constructor_text(
                    v,
                    old(rust).mangling_base@,
                ),
                None => old(rust).text@,
            },
        ),
        opt_sig(r) == (match tuple_types(ty@) {
            Some(v) => Some(
                constructor_sig(
                    mangled(
                        crate::text::join_text(types_text(v), "&"@),
                        old(rust).mangling_base@,
                    ),
                    v,
                    cpp_of(ty@, setting_in(*old(rust), namespace@, crate_name@)),
                    setting_in(*old(rust), namespace@, crate_name@),
                ),
            ),
            None => None,
        }),
{
    match ty {
        RustType::Tuple(fields) => {
            proof {
                assert(types_view(fields@).len() == fields@.len());
            }
            if fields.len() == 0 {
                return None;
            }
            let link = rust.add_tuple_constructor(fields);
            Some(
                CppFnSig {
                    rust_link_name: link,
                    inputs: types_into_cpp(fields, namespace, crate_name),
                    output: ty.into_cpp(namespace, crate_name),
                },
            )
        },
        _ => None,
    }
}

fn find_trait(v: &Vec<(RustTrait, CppTraitDefinition)>, tr: &RustTrait) -> (r: bool)
    ensures
        r == (trait_def_of(trait_defs_view(v@), tr@, 0) is Some),
{
    let mut i: usize = 0;
    while i < v.len()
        invariant
            i <= v.len(),
            trait_def_of(trait_defs_view(v@), tr@, i as int) == trait_def_of(
                trait_defs_view(v@),
                tr@,
                0,
            ),
        decreases v.len() - i,
    {
        proof {
            assert(trait_defs_view(v@)[i as int] == (v@[i as int].0@, v@[i as int].1@));
        }
        if v[i].0.same_as(tr) {
            return true;
        }
        i += 1;
    }
    false
}

/// Adds what makes closures, where a type is a boxed closure of a trait that is
/// not known yet.
fn add_closure(
    rust: &mut RustFile,
    traits: &mut Vec<(RustTrait, CppTraitDefinition)>,
    ty: &RustType,
    namespace: &str,
    crate_name: &str,
)
    requires
        convertible(ty@, namespace@),
    ensures
        rewritten(
            *old(rust),
            *final(rust),
            if new_closure(ty@, trait_defs_view(old(traits)@)) {
                old(rust).text@ + closure_text(
                    closure_trait(ty@)->0,
                    setting_in(*old(rust), namespace@, crate_name@),
                )
            } else {
                old(rust).text@
            },
        ),
        trait_defs_view(final(traits)@) == with_closure(
            trait_defs_view(old(traits)@),
            ty@,
            setting_in(*old(rust), namespace@, crate_name@),
        ),
{
    match ty {
        RustType::Boxed(inner) => match &**inner {
            RustType::Dyn(tr, bounds) => {
                proof {
                    assert(inner@ == TypeModel::Dyn(tr@, texts(bounds@)));
                    assert(boxed_trait(ty@) == Some(tr@));
                    assert(convertible(inner@, namespace@));
                }
                match tr {
                    RustTrait::Fn { name, inputs, output } => {
                        proof {
                            assert(tr@ == TraitModel::Fn {
                                name: name@,
                                inputs: types_view(inputs@),
                                output: Box::new(output@),
                            });
                            assert(trait_convertible(tr@, namespace@));
                        }
                        if !find_trait(traits, tr) {
                            let link = rust.add_builder_for_dyn_fn(
                                name.as_str(),
                                inputs,
                                output,
                            );
                            let def = CppTraitDefinition::Fn {
                                sig: CppFnSig {
                                    rust_link_name: link,
                                    inputs: types_into_cpp(inputs, namespace, crate_name),
                                    output: output.into_cpp(namespace, crate_name),
                                },
                            };
                            let key = tr.copy();
                            proof {
                                assert(trait_defs_view(traits@.push((key, def)))
                                    =~= trait_defs_view(traits@).push((key@, def@)));
                            }
                            traits.push((key, def));
                        }
                    },
                    RustTrait::Normal(pg) => {
                        proof {
                            assert(tr@ is Normal);
                        }
                    },
                }
            },
            _ => {
                proof {
                    assert(boxed_trait(ty@) is None);
                }
            },
        },
        _ => {},
    }
}

fn make_boxed_trait(ty: &RustType) -> (r: Option<RustTrait>)
    ensures
        opt_trait(r) == boxed_trait(ty@),
{
    match ty {
        RustType::Boxed(inner) => make_object_trait(inner),
        _ => None,
    }
}

fn make_object_trait(ty: &RustType) -> (r: Option<RustTrait>)
    ensures
        opt_trait(r) == object_trait(ty@),
{
    match ty {
        RustType::Dyn(tr, _) => Some(tr.copy()),
        _ => None,
    }
}

/// Adds all that a type needs, and returns how C++ declares it.
pub(crate) fn add_type(
    rust: &mut RustFile,
    traits: &mut Vec<(RustTrait, CppTraitDefinition)>,
    td: &ZngurType,
    namespace: &str,
    crate_name: &str,
) -> (r: CppTypeDefinition)
    requires
        type_renderable(td@, namespace@),
    ensures
        rewritten(
            *old(rust),
            *final(rust),
            with_type(
                old(rust).text@,
                td@,
                trait_defs_view(old(traits)@),
                setting_in(*old(rust), namespace@, crate_name@),
            ),
        ),
        trait_defs_view(final(traits)@) == with_closure(
            trait_defs_view(old(traits)@),
            td@.ty,
            setting_in(*old(rust), namespace@, crate_name@),
        ),
        r@ == type_data(td@, setting_in(*old(rust), namespace@, crate_name@)),
{
    let layout = match td.layout {
        Some(l) => l,
        None => unreached(),
    };
    let (declared, discriminant) = add_type_head(rust, td, layout, namespace, crate_name);
    let variants = add_variants(rust, td, namespace, crate_name);
    let fields = add_fields(rust, td, namespace, crate_name);
    let tuple = add_tuple(rust, &td.ty, namespace, crate_name);
    let constructor = match tuple {
        Some(sig) => Some(sig),
        None => declared,
    };
    let wellknown_traits = add_wellknown_traits(rust, td, namespace, crate_name);
    let methods = add_methods(rust, td, namespace, crate_name);
    let cpp_layout = rust.add_layout_policy_shim(&td.ty, layout);
    let cpp_value = match &td.cpp_heap_allocated {
        Some(c) => {
            let link = rust.add_cpp_value_bridge(&td.ty);
            Some(CppValue(link, c.0.clone()))
        },
        None => None,
    };
    add_closure(rust, traits, &td.ty, namespace, crate_name);
    let cpp_ref = match &td.cpp_ref {
        Some(c) => Some(crate::def::CppRef(c.0.clone())),
        None => None,
    };
    let cpp_stack_owned = match &td.cpp_stack_owned {
        Some(c) => Some(c.copy()),
        None => None,
    };
    CppTypeDefinition {
        ty: td.ty.into_cpp(namespace, crate_name),
        layout: cpp_layout,
        methods,
        constructor,
        variants,
        discriminant,
        fields,
        from_trait: make_boxed_trait(&td.ty),
        from_trait_ref: make_object_trait(&td.ty),
        wellknown_traits,
        cpp_value,
        cpp_ref,
        cpp_stack_owned,
    }
}

/// Adds the Rust type that wraps a C++ value.
pub(crate) fn add_wrappers(wrappers: &mut String, td: &ZngurType, base: &str)
    ensures
        forall|s: Setting|
            s.base == base@ ==> final(wrappers)@ == #[trigger] with_wrappers(
                old(wrappers)@,
                td@,
                s,
            ),
{
    let name = make_short_name(&td.ty);
    match &td.cpp_stack_owned {
        Some(c) => {
            let destructor = crate::mangle::mangle_name(
                make_destructor_name(&td.ty).as_str(),
                base,
            );
            wrappers.append(
                fill4(
                    STACK_OWNED_STRUCT,
                    decimal(c.align).as_str(),
                    name.as_str(),
                    decimal(c.size).as_str(),
                    destructor.as_str(),
                ).as_str(),
            );
        },
        None => {},
    }
    if td.cpp_heap_allocated.is_some() {
        wrappers.append(fill1(CPP_VALUE_STRUCT, name.as_str()).as_str());
    }
    if td.cpp_ref.is_some() {
        wrappers.append(fill1(CPP_REF_STRUCT, name.as_str()).as_str());
    }
}

/// Adds the old name of a type that wraps a C++ value.
pub(crate) fn add_alias(aliases: &mut String, td: &ZngurType)
    ensures
        final(aliases)@ == with_alias(old(aliases)@, td@),
{
    if td.cpp_stack_owned.is_some() || td.cpp_heap_allocated.is_some() || td.cpp_ref.is_some() {
        aliases.append(fill1(CPP_ALIAS, make_short_name(&td.ty).as_str()).as_str());
    }
}

} // verus!
