//! Rendering a whole interface.

use crate::coro::{first_named, future_output, futures_convertible, opt_coro, CoroSupport};
use crate::cpp::{cpp_handle_keyword, CppPath};
use crate::cpp_file::{
    exported_fns_view, exported_impls_view, fn_defs_view, named_sigs_view, trait_defs_view,
    type_defs_view, CppExportedFnDefinition, CppExportedImplDefinition, CppFile, CppFnDefinition,
    CppFnSig, CppTraitDefinition, CppTypeDefinition, PanicToExceptionSymbols,
};
use crate::def::{
    cfg_view, extern_fns_view, extern_impls_view, fns_view, method_details_view, methods_view,
    modules_view, opt_text, traits_view, variants_view, zngur_types_view, ZngurExternCppFn,
    ZngurExternCppImpl, ZngurFn, ZngurMethodReceiver, ZngurSpec, ZngurTrait, ZngurMethod,
    ZngurMethodDetails, ZngurType, ZngurVariant,
};
use crate::finish::declared_types;
use crate::generator::{
    add_alias, add_type, add_wrappers, lemma_real_inputs_convertible, make_field_pairs,
    real_inputs_of_method, rewritten, setting_in,
};
use crate::halves::{
    after_types, before_types, callable, cfg_define, cpp_half, extern_fn_data, field_pairs, fn_data,
    impl_data, impl_method_data, impl_renderable, macro_char, namespace_of, renderable, rust_half,
    setting_of, traits_data, type_renderable, with_cpp_module, with_extern_fns, with_extern_impls,
    with_fns, with_modules, with_traits, Progress,
};
use crate::into_cpp::{
    all_convertible, can_all_convert, can_named_convert, convertible, named_convertible,
    trait_convertible, types_into_cpp,
};
use crate::outside::uppercase;
use crate::rust_file::{
    countable, extern_method_links, make_returned_type, method_convertible, trait_buildable,
    RustFile,
};
use crate::rust_templates::CPP_MODULE;
use crate::rust_types::{types_view, RustTrait, RustType, TypeModel};
use crate::text::{chars_of, fill1, replace, replace_text, texts, trim};
use vstd::prelude::*;

verus! {

broadcast use vstd::std_specs::vec::group_vec_axioms;

/// An interface, and the name of the crate that it is of.
#[derive(Debug)]
pub struct ZngurGenerator(pub ZngurSpec, pub String);

proof fn lemma_first_named(v: Seq<(Seq<char>, TypeModel)>, name: Seq<char>, i: int)
    requires
        0 <= i,
    ensures
        first_named(v, name, i) matches Some(t) ==> exists|k: int|
            0 <= k < v.len() && (#[trigger] v[k]).1 == t,
    decreases v.len() - i,
{
    if i < v.len() {
        if v[i].0 == name {
            assert(v[i].1 == v[i].1);
        } else {
            lemma_first_named(v, name, i + 1);
        }
    }
}

/// The output of a boxed future has a C++ type where the future has one.
proof fn lemma_future_convertible(ty: TypeModel, namespace: Seq<char>)
    requires
        convertible(ty, namespace),
    ensures
        future_output(ty) matches Some(o) ==> convertible(o.0, namespace),
{
    match future_output(ty) {
        Some(o) => {
            let inner = ty->Boxed_0;
            let tr = inner->Dyn_0;
            let pg = tr->Normal_0;
            assert(convertible(*inner, namespace));
            assert(trait_convertible(tr, namespace));
            assert(named_convertible(pg.named_generics, namespace));
            lemma_first_named(pg.named_generics, "Output"@, 0);
        },
        None => {},
    }
}

fn make_macro_text(v: &str) -> (r: String)
    ensures
        r@ == v@.map_values(|c: char| macro_char(c)),
{
    let chars = chars_of(v);
    let mut r = String::new();
    let mut i: usize = 0;
    while i < chars.len()
        invariant
            i <= chars.len(),
            chars@ == v@,
            r@ == v@.take(i as int).map_values(|c: char| macro_char(c)),
        decreases chars.len() - i,
    {
        let c = chars[i];
        let x = if ('0' <= c && c <= '9') || ('a' <= c && c <= 'z') || ('A' <= c && c <= 'Z') {
            c
        } else {
            '_'
        };
        r.push(x);
        i += 1;
        proof {
            assert(r@ =~= v@.take(i as int).map_values(|c: char| macro_char(c)));
        }
    }
    proof {
        assert(v@.take(i as int) =~= v@);
    }
    r
}

/// The macro that tells C++ of a configuration value.
pub fn make_cfg_define(key: &str, value: &Option<String>) -> (r: String)
    ensures
        r@ == cfg_define(key@, opt_text(*value)),
{
    let mut r = String::from_str("ZNGUR_CFG_");
    r.append(uppercase(key).as_str());
    match value {
        Some(v) => {
            if trim(v.as_str()).as_str().is_empty() {
                r.append("");
            } else {
                let mut s = String::from_str("_");
                s.append(uppercase(make_macro_text(v.as_str()).as_str()).as_str());
                r.append(s.as_str());
            }
        },
        None => {
            r.append("");
        },
    }
    r
}

fn make_cfg_defines(v: &Vec<(String, Option<String>)>) -> (r: Vec<String>)
    ensures
        texts(r@) == Seq::new(
            v@.len(),
            |i: int| cfg_define(cfg_view(v@)[i].0, cfg_view(v@)[i].1),
        ),
{
    let mut r: Vec<String> = Vec::new();
    let ghost all = cfg_view(v@);
    let mut i: usize = 0;
    while i < v.len()
        invariant
            i <= v.len(),
            all == cfg_view(v@),
            r.len() == i,
            forall|k: int| 0 <= k < i ==> (#[trigger] r@[k])@ == cfg_define(all[k].0, all[k].1),
        decreases v.len() - i,
    {
        r.push(make_cfg_define(v[i].0.as_str(), &v[i].1));
        i += 1;
    }
    proof {
        assert(texts(r@) =~= Seq::new(v@.len(), |i: int| cfg_define(all[i].0, all[i].1)));
    }
    r
}

fn make_types(v: &Vec<ZngurType>) -> (r: Vec<RustType>)
    ensures
        types_view(r@) == declared_types(zngur_types_view(v@)),
{
    let mut r: Vec<RustType> = Vec::new();
    let mut i: usize = 0;
    while i < v.len()
        invariant
            i <= v.len(),
            r.len() == i,
            forall|k: int| 0 <= k < i ==> (#[trigger] r@[k]).view() == v@[k].ty.view(),
        decreases v.len() - i,
    {
        r.push(v[i].ty.copy());
        i += 1;
    }
    proof {
        assert(types_view(r@) =~= declared_types(zngur_types_view(v@)));
    }
    r
}

fn add_traits(
    rust: &mut RustFile,
    v: &Vec<ZngurTrait>,
    namespace: &str,
    crate_name: &str,
) -> (r: Vec<(RustTrait, CppTraitDefinition)>)
    requires
        forall|i: int|
            0 <= i < v@.len() ==> trait_buildable(#[trigger] traits_view(v@)[i], namespace@),
    ensures
        rewritten(
            *old(rust),
            *final(rust),
            with_traits(
                old(rust).text@,
                traits_view(v@),
                v@.len(),
                setting_in(*old(rust), namespace@, crate_name@),
            ),
        ),
        trait_defs_view(r@) == traits_data(
            traits_view(v@),
            setting_in(*old(rust), namespace@, crate_name@),
        ),
{
    let mut r: Vec<(RustTrait, CppTraitDefinition)> = Vec::new();
    let ghost before = *rust;
    let ghost s = setting_in(before, namespace@, crate_name@);
    let ghost all = traits_view(v@);
    let mut i: usize = 0;
    while i < v.len()
        invariant
            i <= v.len(),
            all == traits_view(v@),
            s == setting_in(before, namespace@, crate_name@),
            forall|k: int| 0 <= k < v@.len() ==> trait_buildable(#[trigger] all[k], namespace@),
            rewritten(before, *rust, with_traits(before.text@, all, i as nat, s)),
            r.len() == i,
            forall|k: int|
                0 <= k < i ==> (#[trigger] r@[k]).0@ == traits_data(all, s)[k].0 && r@[k].1@
                    == traits_data(all, s)[k].1,
        decreases v.len() - i,
    {
        proof {
            assert(all[i as int] == v@[i as int]@);
        }
        let def = rust.add_builder_for_dyn_trait(&v[i], namespace, crate_name);
        r.push((v[i].tr.copy(), def));
        i += 1;
    }
    proof {
        assert(trait_defs_view(r@) =~= traits_data(all, s));
    }
    r
}

fn add_fns(rust: &mut RustFile, v: &Vec<ZngurFn>, namespace: &str, crate_name: &str) -> (r: Vec<
    CppFnDefinition,
>)
    requires
        forall|i: int|
            0 <= i < v@.len() ==> callable(
                (#[trigger] fns_view(v@)[i]).inputs,
                fns_view(v@)[i].output,
                namespace@,
            ),
    ensures
        rewritten(
            *old(rust),
            *final(rust),
            with_fns(
                old(rust).text@,
                fns_view(v@),
                v@.len(),
                setting_in(*old(rust), namespace@, crate_name@),
            ),
        ),
        fn_defs_view(r@) == Seq::new(
            v@.len(),
            |i: int| fn_data(fns_view(v@)[i], setting_in(*old(rust), namespace@, crate_name@)),
        ),
{
    let mut r: Vec<CppFnDefinition> = Vec::new();
    let ghost before = *rust;
    let ghost s = setting_in(before, namespace@, crate_name@);
    let ghost all = fns_view(v@);
    let mut i: usize = 0;
    while i < v.len()
        invariant
            i <= v.len(),
            all == fns_view(v@),
            s == setting_in(before, namespace@, crate_name@),
            forall|k: int|
                0 <= k < v@.len() ==> callable((#[trigger] all[k]).inputs, all[k].output, namespace@),
            rewritten(before, *rust, with_fns(before.text@, all, i as nat, s)),
            r.len() == i,
            forall|k: int| 0 <= k < i ==> (#[trigger] r@[k])@ == fn_data(all[k], s),
        decreases v.len() - i,
    {
        let f = &v[i];
        proof {
            assert(all[i as int] == f@);
            assert(types_view(f.inputs@).len() == f.inputs@.len());
        }
        let name = f.path.to_text();
        let sig = rust.add_function(
            name.as_str(),
            name.as_str(),
            &f.inputs,
            &f.output,
            &None,
            None,
            namespace,
            crate_name,
        );
        r.push(
            CppFnDefinition {
                name: CppPath::from_rust_path(&f.path.path, namespace, crate_name),
                sig,
            },
        );
        i += 1;
    }
    proof {
        assert(fn_defs_view(r@) =~= Seq::new(v@.len(), |i: int| fn_data(all[i], s)));
    }
    r
}

fn add_extern_fns(
    rust: &mut RustFile,
    v: &Vec<ZngurExternCppFn>,
    namespace: &str,
    crate_name: &str,
) -> (r: Vec<CppExportedFnDefinition>)
    requires
        forall|i: int|
            0 <= i < v@.len() ==> all_convertible(
                (#[trigger] extern_fns_view(v@)[i]).inputs,
                namespace@,
            ) && convertible(extern_fns_view(v@)[i].output, namespace@),
    ensures
        rewritten(
            *old(rust),
            *final(rust),
            with_extern_fns(
                old(rust).text@,
                extern_fns_view(v@),
                v@.len(),
                setting_in(*old(rust), namespace@, crate_name@),
            ),
        ),
        exported_fns_view(r@) == Seq::new(
            v@.len(),
            |i: int|
                extern_fn_data(
                    extern_fns_view(v@)[i],
                    setting_in(*old(rust), namespace@, crate_name@),
                ),
        ),
{
    let mut r: Vec<CppExportedFnDefinition> = Vec::new();
    let ghost before = *rust;
    let ghost s = setting_in(before, namespace@, crate_name@);
    let ghost all = extern_fns_view(v@);
    let mut i: usize = 0;
    while i < v.len()
        invariant
            i <= v.len(),
            all == extern_fns_view(v@),
            s == setting_in(before, namespace@, crate_name@),
            forall|k: int|
                0 <= k < v@.len() ==> all_convertible((#[trigger] all[k]).inputs, namespace@)
                    && convertible(all[k].output, namespace@),
            rewritten(before, *rust, with_extern_fns(before.text@, all, i as nat, s)),
            r.len() == i,
            forall|k: int| 0 <= k < i ==> (#[trigger] r@[k])@ == extern_fn_data(all[k], s),
        decreases v.len() - i,
    {
        let f = &v[i];
        proof {
            assert(all[i as int] == f@);
        }
        let link = rust.add_extern_cpp_function(f.name.as_str(), &f.inputs, &f.output, f.is_safe);
        r.push(
            CppExportedFnDefinition {
                name: f.name.clone(),
                sig: CppFnSig {
                    rust_link_name: link,
                    inputs: types_into_cpp(&f.inputs, namespace, crate_name),
                    output: f.output.into_cpp(namespace, crate_name),
                },
            },
        );
        i += 1;
    }
    proof {
        assert(exported_fns_view(r@) =~= Seq::new(v@.len(), |i: int| extern_fn_data(all[i], s)));
    }
    r
}

fn add_extern_impl(
    rust: &mut RustFile,
    b: &ZngurExternCppImpl,
    namespace: &str,
    crate_name: &str,
) -> (r: CppExportedImplDefinition)
    requires
        impl_renderable(b@, namespace@),
    ensures
        rewritten(
            *old(rust),
            *final(rust),
            old(rust).text@ + crate::rust_file::extern_impl_text(
                b@.ty,
                b@.tr,
                b@.methods,
                old(rust).mangling_base@,
            ),
        ),
        r@ == impl_data(b@, setting_in(*old(rust), namespace@, crate_name@)),
{
    let ghost s = setting_in(*rust, namespace@, crate_name@);
    let ghost model = b@;
    let links = rust.add_extern_cpp_impl(&b.ty, &b.tr, &b.methods);
    let mut methods: Vec<(String, CppFnSig)> = Vec::new();
    let mut i: usize = 0;
    proof {
        assert(texts(links@).len() == model.methods.len());
    }
    while i < b.methods.len()
        invariant
            i <= b.methods.len(),
            model == b@,
            impl_renderable(model, namespace@),
            links@.len() == model.methods.len(),
            s.namespace == namespace@,
            s.crate_name == crate_name@,
            texts(links@) == extern_method_links(model.ty, model.methods, s.base),
            methods.len() == i,
            forall|k: int|
                0 <= k < i ==> (#[trigger] methods@[k]).0@ == impl_method_data(
                    model.ty,
                    model.methods[k],
                    s,
                ).name && methods@[k].1@ == impl_method_data(model.ty, model.methods[k], s).sig,
        decreases b.methods.len() - i,
    {
        let m = &b.methods[i];
        proof {
            assert(model.methods[i as int] == m@);
            assert(texts(links@)[i as int] == links@[i as int]@);
            lemma_real_inputs_convertible(m@, model.ty, namespace@);
        }
        let inputs = real_inputs_of_method(m, &b.ty);
        methods.push(
            (
                String::from_str(cpp_handle_keyword(m.name.as_str())),
                CppFnSig {
                    rust_link_name: links[i].clone(),
                    inputs: types_into_cpp(&inputs, namespace, crate_name),
                    output: m.output.into_cpp(namespace, crate_name),
                },
            ),
        );
        i += 1;
    }
    proof {
        assert(named_sigs_view(methods@) =~= impl_data(model, s).methods);
    }
    let tr = match &b.tr {
        Some(tr) => Some(tr.into_cpp(namespace, crate_name)),
        None => None,
    };
    CppExportedImplDefinition { tr, ty: b.ty.into_cpp(namespace, crate_name), methods }
}

fn add_extern_impls(
    rust: &mut RustFile,
    v: &Vec<ZngurExternCppImpl>,
    namespace: &str,
    crate_name: &str,
) -> (r: Vec<CppExportedImplDefinition>)
    requires
        forall|i: int|
            0 <= i < v@.len() ==> impl_renderable(#[trigger] extern_impls_view(v@)[i], namespace@),
    ensures
        rewritten(
            *old(rust),
            *final(rust),
            with_extern_impls(
                old(rust).text@,
                extern_impls_view(v@),
                v@.len(),
                setting_in(*old(rust), namespace@, crate_name@),
            ),
        ),
        exported_impls_view(r@) == Seq::new(
            v@.len(),
            |i: int|
                impl_data(
                    extern_impls_view(v@)[i],
                    setting_in(*old(rust), namespace@, crate_name@),
                ),
        ),
{
    let mut r: Vec<CppExportedImplDefinition> = Vec::new();
    let ghost before = *rust;
    let ghost s = setting_in(before, namespace@, crate_name@);
    let ghost all = extern_impls_view(v@);
    let mut i: usize = 0;
    while i < v.len()
        invariant
            i <= v.len(),
            all == extern_impls_view(v@),
            s == setting_in(before, namespace@, crate_name@),
            forall|k: int| 0 <= k < v@.len() ==> impl_renderable(#[trigger] all[k], namespace@),
            rewritten(before, *rust, with_extern_impls(before.text@, all, i as nat, s)),
            r.len() == i,
            forall|k: int| 0 <= k < i ==> (#[trigger] r@[k])@ == impl_data(all[k], s),
        decreases v.len() - i,
    {
        proof {
            assert(all[i as int] == v@[i as int]@);
        }
        let x = add_extern_impl(rust, &v[i], namespace, crate_name);
        r.push(x);
        i += 1;
    }
    proof {
        assert(exported_impls_view(r@) =~= Seq::new(v@.len(), |i: int| impl_data(all[i], s)));
    }
    r
}

/// What comes of the types: the Rust types that wrap C++ values, their old names,
/// and how C++ declares the types.
fn add_types(
    rust: &mut RustFile,
    traits: &mut Vec<(RustTrait, CppTraitDefinition)>,
    v: &Vec<ZngurType>,
    namespace: &str,
    crate_name: &str,
) -> (r: (String, String, Vec<CppTypeDefinition>))
    requires
        forall|i: int|
            0 <= i < v@.len() ==> type_renderable(#[trigger] zngur_types_view(v@)[i], namespace@),
    ensures
        ({
            let p = after_types(
                Progress {
                    rust: old(rust).text@,
                    wrappers: Seq::empty(),
                    aliases: Seq::empty(),
                    traits: trait_defs_view(old(traits)@),
                    types: Seq::empty(),
                },
                zngur_types_view(v@),
                v@.len(),
                setting_in(*old(rust), namespace@, crate_name@),
            );
            &&& rewritten(*old(rust), *final(rust), p.rust)
            &&& trait_defs_view(final(traits)@) == p.traits
            &&& r.0@ == p.wrappers
            &&& r.1@ == p.aliases
            &&& type_defs_view(r.2@) == p.types
        }),
{
    let ghost before = *rust;
    let ghost s = setting_in(before, namespace@, crate_name@);
    let ghost all = zngur_types_view(v@);
    let ghost p0 = Progress {
        rust: rust.text@,
        wrappers: Seq::empty(),
        aliases: Seq::empty(),
        traits: trait_defs_view(traits@),
        types: Seq::empty(),
    };
    let base = rust.mangling_base.clone();
    let mut wrappers = String::new();
    let mut aliases = String::new();
    let mut types: Vec<CppTypeDefinition> = Vec::new();
    let mut i: usize = 0;
    proof {
        assert(type_defs_view(types@) =~= Seq::empty());
    }
    while i < v.len()
        invariant
            i <= v.len(),
            all == zngur_types_view(v@),
            s == setting_in(before, namespace@, crate_name@),
            base@ == s.base,
            forall|k: int| 0 <= k < v@.len() ==> type_renderable(#[trigger] all[k], namespace@),
            rewritten(before, *rust, after_types(p0, all, i as nat, s).rust),
            trait_defs_view(traits@) == after_types(p0, all, i as nat, s).traits,
            wrappers@ == after_types(p0, all, i as nat, s).wrappers,
            aliases@ == after_types(p0, all, i as nat, s).aliases,
            type_defs_view(types@) == after_types(p0, all, i as nat, s).types,
        decreases v.len() - i,
    {
        let td = &v[i];
        proof {
            assert(all[i as int] == td@);
        }
        let x = add_type(rust, traits, td, namespace, crate_name);
        add_wrappers(&mut wrappers, td, base.as_str());
        add_alias(&mut aliases, td);
        proof {
            assert(type_defs_view(types@.push(x)) =~= type_defs_view(types@).push(x@));
        }
        types.push(x);
        i += 1;
    }
    (wrappers, aliases, types)
}

impl ZngurGenerator {
    /// The generator for an interface.
    pub fn build_from_zng(zng: ZngurSpec, crate_name: String) -> (r: ZngurGenerator)
        ensures
            r.0 == zng,
            r.1 == crate_name,
    {
        ZngurGenerator(zng, crate_name)
    }

    /// The C++ namespace of the interface.
    pub fn namespace(&self) -> (r: String)
        ensures
            r@ == namespace_of(self.0@),
    {
        match &self.0.cpp_namespace {
            Some(n) => n.clone(),
            None => String::from_str("rust"),
        }
    }

    /// The name of the crate, as C++ can hold it.
    pub fn sanitized_crate_name(&self) -> (r: String)
        ensures
            r@ == replace_text(self.1@, "-"@, "_"@),
    {
        proof {
            reveal_strlit("-");
        }
        replace(self.1.as_str(), "-", "_")
    }

    fn additional_includes(&self) -> (r: String)
        ensures
            r@ == with_modules(
                self.0@.additional_includes,
                self.0@.imported_modules,
                self.0@.imported_modules.len(),
            ),
    {
        let mut r = self.0.additional_includes.0.clone();
        let ghost all = modules_view(self.0.imported_modules@);
        let ghost first = r@;
        let mut i: usize = 0;
        while i < self.0.imported_modules.len()
            invariant
                i <= self.0.imported_modules.len(),
                all == modules_view(self.0.imported_modules@),
                r@ == with_modules(first, all, i as nat),
            decreases self.0.imported_modules.len() - i,
        {
            proof {
                assert(all[i as int] == self.0.imported_modules@[i as int].path@);
            }
            r.append("\n#include \"");
            r.append(self.0.imported_modules[i].path.as_str());
            r.append(".h\"");
            i += 1;
        }
        r
    }

    /// What comes before the types: the Rust half with the coroutine support and
    /// the traits, the coroutine support, and the traits as C++ sees them.
    fn render_head(&self, namespace: &str, crate_name: &str) -> (r: (
        RustFile,
        Option<CoroSupport>,
        Vec<(RustTrait, CppTraitDefinition)>,
    ))
        requires
            renderable(self.0@),
            namespace@ == namespace_of(self.0@),
            crate_name@ == setting_of(self.0@, self.1@).crate_name,
        ensures
            setting_in(r.0, namespace@, crate_name@) == setting_of(self.0@, self.1@),
            r.0.text@ == before_types(self.0@, setting_of(self.0@, self.1@)).rust,
            opt_coro(r.1) == cpp_half(
                self.0@,
                setting_of(self.0@, self.1@),
                false,
            ).coro_support,
            trait_defs_view(r.2@) == before_types(self.0@, setting_of(self.0@, self.1@)).traits,
    {
        let zng = &self.0;
        let ghost model = zng@;
        let mut rust = RustFile::new(zng.mangling_base.as_str());
        rust.panic_to_exception = zng.convert_panic_to_exception.0;
        let types = make_types(&zng.types);
        proof {
            let declared = declared_types(model.types);
            assert forall|i: int| 0 <= i < declared.len() implies (future_output(
                #[trigger] declared[i],
            ) matches Some(o) ==> convertible(o.0, namespace@)) by {
                assert(type_renderable(model.types[i], namespace@));
                lemma_future_convertible(declared[i], namespace@);
            }
            assert(futures_convertible(declared, namespace@));
        }
        let coro_support = CoroSupport::from_types(
            &types,
            zng.mangling_base.as_str(),
            namespace,
            crate_name,
        );
        match &coro_support {
            Some(coro) => {
                rust.add_coro_support(coro);
            },
            None => {},
        }
        let trait_defs = add_traits(&mut rust, &zng.traits, namespace, crate_name);
        (rust, coro_support, trait_defs)
    }

    /// The two halves of the interface: the text of the Rust half, and what the
    /// C++ half is laid out from.
    #[verifier::rlimit(40)]
    pub fn render(&self, zng_header_in_place: bool) -> (r: (String, CppFile))
        requires
            renderable(self.0@),
        ensures
            r.0@ == rust_half(self.0@, setting_of(self.0@, self.1@)),
            r.1@ == cpp_half(self.0@, setting_of(self.0@, self.1@), zng_header_in_place),
    {
        let zng = &self.0;
        let ghost model = zng@;
        let ghost s = setting_of(model, self.1@);
        let ns = self.namespace();
        let namespace = ns.as_str();
        let cr = self.sanitized_crate_name();
        let crate_name = cr.as_str();
        let (rust, coro_support, trait_defs) = self.render_head(namespace, crate_name);
        let mut rust = rust;
        let mut trait_defs = trait_defs;
        let ghost p0 = before_types(model, s);
        proof {
            assert(p0 == Progress {
                rust: rust.text@,
                wrappers: Seq::empty(),
                aliases: Seq::empty(),
                traits: trait_defs_view(trait_defs@),
                types: Seq::empty(),
            });
        }
        let (wrappers, aliases, type_defs) = add_types(
            &mut rust,
            &mut trait_defs,
            &zng.types,
            namespace,
            crate_name,
        );
        let ghost p = after_types(p0, model.types, model.types.len(), s);
        if !aliases.as_str().is_empty() {
            rust.write(wrappers.as_str());
            rust.write(fill1(CPP_MODULE, aliases.as_str()).as_str());
        }
        proof {
            assert(rust.text@ == with_cpp_module(p.rust, p.wrappers, p.aliases));
            assert(setting_in(rust, namespace@, crate_name@) == s);
        }
        let fn_defs = add_fns(&mut rust, &zng.funcs, namespace, crate_name);
        let exported_fn_defs = add_extern_fns(
            &mut rust,
            &zng.extern_cpp_funcs,
            namespace,
            crate_name,
        );
        let exported_impls = add_extern_impls(
            &mut rust,
            &zng.extern_cpp_impls,
            namespace,
            crate_name,
        );
        let panic_to_exception = if zng.convert_panic_to_exception.0 {
            Some(
                PanicToExceptionSymbols {
                    detect_panic: String::from_str("__zngur_read_and_reset_rust_panic"),
                    take_panic: String::from_str("__zngur_read_and_reset_rust_panic"),
                },
            )
        } else {
            None
        };
        let file = CppFile {
            header_file_name: zng.cpp_include_header_name.clone(),
            type_defs,
            trait_defs,
            fn_defs,
            exported_fn_defs,
            exported_impls,
            additional_includes: self.additional_includes(),
            panic_to_exception,
            rust_cfg_defines: make_cfg_defines(&zng.rust_cfg),
            zng_header_in_place,
            coro_support,
        };
        proof {
            let half = cpp_half(model, s, zng_header_in_place);
            assert(file@.type_defs == half.type_defs);
            assert(file@.trait_defs == half.trait_defs);
            assert(file@.fn_defs =~= half.fn_defs);
            assert(file@.exported_fn_defs =~= half.exported_fn_defs);
            assert(file@.exported_impls =~= half.exported_impls);
            assert(file@.rust_cfg_defines =~= half.rust_cfg_defines);
            assert(file@.panic_to_exception == half.panic_to_exception);
        }
        (rust.text, file)
    }
}

fn can_call(inputs: &Vec<RustType>, output: &RustType, namespace: &str) -> (r: bool)
    ensures
        r == callable(types_view(inputs@), output@, namespace@),
{
    can_all_convert(inputs, namespace) && make_returned_type(output).can_convert(namespace)
}

fn can_call_methods(v: &Vec<ZngurMethodDetails>, namespace: &str) -> (r: bool)
    ensures
        r == (forall|i: int| 0 <= i < v@.len() ==> callable((#[trigger] method_details_view(v@)[i]).data.inputs, method_details_view(v@)[i].data.output, namespace@)),
{
    let ghost all = method_details_view(v@);
    let mut i: usize = 0;
    while i < v.len()
        invariant
            i <= v.len(),
            all == method_details_view(v@),
            forall|k: int| 0 <= k < i ==> callable((#[trigger] all[k]).data.inputs, all[k].data.output, namespace@),
        decreases v.len() - i,
    {
        let x = &v[i];
        proof {
            assert(all[i as int] == x@);
        }
        if !can_call(&x.data.inputs, &x.data.output, namespace) {
            return false;
        }
        i += 1;
    }
    true
}

fn can_make_variants(v: &Vec<ZngurVariant>, namespace: &str) -> (r: bool)
    ensures
        r == (forall|i: int| 0 <= i < v@.len() ==> ((#[trigger] variants_view(v@)[i]).exhaustive ==> named_convertible(field_pairs(variants_view(v@)[i].fields), namespace@))),
{
    let ghost all = variants_view(v@);
    let mut i: usize = 0;
    while i < v.len()
        invariant
            i <= v.len(),
            all == variants_view(v@),
            forall|k: int| 0 <= k < i ==> ((#[trigger] all[k]).exhaustive ==> named_convertible(field_pairs(all[k].fields), namespace@)),
        decreases v.len() - i,
    {
        let x = &v[i];
        proof {
            assert(all[i as int] == x@);
        }
        if x.exhaustive && !can_named_convert(&make_field_pairs(&x.fields), namespace) {
            return false;
        }
        i += 1;
    }
    true
}

fn can_convert_methods(v: &Vec<ZngurMethod>, namespace: &str) -> (r: bool)
    ensures
        r == (forall|i: int| 0 <= i < v@.len() ==> method_convertible((#[trigger] methods_view(v@)[i]), namespace@)),
{
    let ghost all = methods_view(v@);
    let mut i: usize = 0;
    while i < v.len()
        invariant
            i <= v.len(),
            all == methods_view(v@),
            forall|k: int| 0 <= k < i ==> method_convertible((#[trigger] all[k]), namespace@),
        decreases v.len() - i,
    {
        let x = &v[i];
        proof {
            assert(all[i as int] == x@);
        }
        if !(can_all_convert(&x.inputs, namespace) && x.output.can_convert(namespace)) {
            return false;
        }
        i += 1;
    }
    true
}

fn can_call_all(v: &Vec<ZngurFn>, namespace: &str) -> (r: bool)
    ensures
        r == (forall|i: int| 0 <= i < v@.len() ==> callable((#[trigger] fns_view(v@)[i]).inputs, fns_view(v@)[i].output, namespace@)),
{
    let ghost all = fns_view(v@);
    let mut i: usize = 0;
    while i < v.len()
        invariant
            i <= v.len(),
            all == fns_view(v@),
            forall|k: int| 0 <= k < i ==> callable((#[trigger] all[k]).inputs, all[k].output, namespace@),
        decreases v.len() - i,
    {
        let x = &v[i];
        proof {
            assert(all[i as int] == x@);
        }
        if !can_call(&x.inputs, &x.output, namespace) {
            return false;
        }
        i += 1;
    }
    true
}

fn can_convert_fns(v: &Vec<ZngurExternCppFn>, namespace: &str) -> (r: bool)
    ensures
        r == (forall|i: int| 0 <= i < v@.len() ==> all_convertible((#[trigger] extern_fns_view(v@)[i]).inputs, namespace@) && convertible(extern_fns_view(v@)[i].output, namespace@)),
{
    let ghost all = extern_fns_view(v@);
    let mut i: usize = 0;
    while i < v.len()
        invariant
            i <= v.len(),
            all == extern_fns_view(v@),
            forall|k: int| 0 <= k < i ==> all_convertible((#[trigger] all[k]).inputs, namespace@) && convertible(all[k].output, namespace@),
        decreases v.len() - i,
    {
        let x = &v[i];
        proof {
            assert(all[i as int] == x@);
        }
        if !(can_all_convert(&x.inputs, namespace) && x.output.can_convert(namespace)) {
            return false;
        }
        i += 1;
    }
    true
}

fn all_have_receivers(v: &Vec<ZngurMethod>) -> (r: bool)
    ensures
        r == (forall|i: int|
            0 <= i < v@.len() ==> (#[trigger] methods_view(v@)[i]).receiver
                != ZngurMethodReceiver::Static),
{
    let ghost all = methods_view(v@);
    let mut i: usize = 0;
    while i < v.len()
        invariant
            i <= v.len(),
            all == methods_view(v@),
            forall|k: int|
                0 <= k < i ==> (#[trigger] all[k]).receiver != ZngurMethodReceiver::Static,
        decreases v.len() - i,
    {
        proof {
            assert(all[i as int] == v@[i as int]@);
        }
        if v[i].receiver == ZngurMethodReceiver::Static {
            return false;
        }
        i += 1;
    }
    true
}

fn can_count(v: &Vec<ZngurMethod>) -> (r: bool)
    ensures
        r == countable(methods_view(v@)),
{
    let ghost all = methods_view(v@);
    let mut i: usize = 0;
    while i < v.len()
        invariant
            i <= v.len(),
            all == methods_view(v@),
            forall|k: int| 0 <= k < i ==> (#[trigger] all[k]).inputs.len() < usize::MAX,
        decreases v.len() - i,
    {
        proof {
            assert(all[i as int] == v@[i as int]@);
            assert(types_view(v@[i as int].inputs@).len() == v@[i as int].inputs@.len());
        }
        if v[i].inputs.len() == usize::MAX {
            return false;
        }
        i += 1;
    }
    true
}

fn can_build_trait(t: &ZngurTrait, namespace: &str) -> (r: bool)
    ensures
        r == trait_buildable(t@, namespace@),
{
    let is_normal = match &t.tr {
        RustTrait::Normal(_) => true,
        RustTrait::Fn { name, inputs, output } => false,
    };
    let ok = is_normal && t.tr.can_convert(namespace) && all_have_receivers(&t.methods)
        && can_convert_methods(&t.methods, namespace);
    proof {
        assert(t@.methods == methods_view(t.methods@));
        assert(t@.methods.len() == t.methods@.len());
    }
    ok
}

fn can_render_type(td: &ZngurType, namespace: &str) -> (r: bool)
    ensures
        r == type_renderable(td@, namespace@),
{
    let constructor_ok = match &td.constructor {
        Some(c) => can_named_convert(&c.inputs, namespace),
        None => true,
    };
    proof {
        assert(td@.variants == variants_view(td.variants@));
        assert(td@.methods == method_details_view(td.methods@));
        assert(td@.variants.len() == td.variants@.len());
        assert(td@.methods.len() == td.methods@.len());
    }
    td.layout.is_some() && td.ty.can_convert(namespace) && constructor_ok && can_make_variants(
        &td.variants,
        namespace,
    ) && can_call_methods(&td.methods, namespace)
}

fn can_render_impl(b: &ZngurExternCppImpl, namespace: &str) -> (r: bool)
    ensures
        r == impl_renderable(b@, namespace@),
{
    let trait_ok = match &b.tr {
        Some(tr) => tr.can_convert(namespace),
        None => true,
    };
    proof {
        assert(b@.methods == methods_view(b.methods@));
        assert(b@.methods.len() == b.methods@.len());
    }
    b.ty.can_convert(namespace) && trait_ok && can_count(&b.methods) && can_convert_methods(
        &b.methods,
        namespace,
    )
}

fn can_render_types(v: &Vec<ZngurType>, namespace: &str) -> (r: bool)
    ensures
        r == (forall|i: int| 0 <= i < v@.len() ==> type_renderable((#[trigger] zngur_types_view(v@)[i]), namespace@)),
{
    let ghost all = zngur_types_view(v@);
    let mut i: usize = 0;
    while i < v.len()
        invariant
            i <= v.len(),
            all == zngur_types_view(v@),
            forall|k: int| 0 <= k < i ==> type_renderable((#[trigger] all[k]), namespace@),
        decreases v.len() - i,
    {
        let x = &v[i];
        proof {
            assert(all[i as int] == x@);
        }
        if !can_render_type(x, namespace) {
            return false;
        }
        i += 1;
    }
    true
}

fn can_build_traits(v: &Vec<ZngurTrait>, namespace: &str) -> (r: bool)
    ensures
        r == (forall|i: int| 0 <= i < v@.len() ==> trait_buildable((#[trigger] traits_view(v@)[i]), namespace@)),
{
    let ghost all = traits_view(v@);
    let mut i: usize = 0;
    while i < v.len()
        invariant
            i <= v.len(),
            all == traits_view(v@),
            forall|k: int| 0 <= k < i ==> trait_buildable((#[trigger] all[k]), namespace@),
        decreases v.len() - i,
    {
        let x = &v[i];
        proof {
            assert(all[i as int] == x@);
        }
        if !can_build_trait(x, namespace) {
            return false;
        }
        i += 1;
    }
    true
}

fn can_render_impls(v: &Vec<ZngurExternCppImpl>, namespace: &str) -> (r: bool)
    ensures
        r == (forall|i: int| 0 <= i < v@.len() ==> impl_renderable((#[trigger] extern_impls_view(v@)[i]), namespace@)),
{
    let ghost all = extern_impls_view(v@);
    let mut i: usize = 0;
    while i < v.len()
        invariant
            i <= v.len(),
            all == extern_impls_view(v@),
            forall|k: int| 0 <= k < i ==> impl_renderable((#[trigger] all[k]), namespace@),
        decreases v.len() - i,
    {
        let x = &v[i];
        proof {
            assert(all[i as int] == x@);
        }
        if !can_render_impl(x, namespace) {
            return false;
        }
        i += 1;
    }
    true
}

impl ZngurGenerator {
    /// Whether the two halves of the interface can be made.
    pub fn can_render(&self) -> (r: bool)
        ensures
            r == renderable(self.0@),
    {
        let zng = &self.0;
        let ns = self.namespace();
        let namespace = ns.as_str();
        proof {
            assert(zng@.types.len() == zng.types@.len());
            assert(zng@.traits.len() == zng.traits@.len());
            assert(zng@.funcs.len() == zng.funcs@.len());
            assert(zng@.extern_cpp_funcs.len() == zng.extern_cpp_funcs@.len());
            assert(zng@.extern_cpp_impls.len() == zng.extern_cpp_impls@.len());
        }
        can_render_types(&zng.types, namespace) && can_build_traits(&zng.traits, namespace)
            && can_call_all(&zng.funcs, namespace) && can_convert_fns(
            &zng.extern_cpp_funcs,
            namespace,
        ) && can_render_impls(&zng.extern_cpp_impls, namespace)
    }
}

impl ZngurGenerator {
    /// The two halves of the interface, where they can be made.
    pub fn try_render(&self, zng_header_in_place: bool) -> (r: Option<(String, CppFile)>)
        ensures
            match r {
                Some(x) => renderable(self.0@) && x.0@ == rust_half(
                    self.0@,
                    setting_of(self.0@, self.1@),
                ) && x.1@ == cpp_half(
                    self.0@,
                    setting_of(self.0@, self.1@),
                    zng_header_in_place,
                ),
                None => !renderable(self.0@),
            },
    {
        if self.can_render() {
            Some(self.render(zng_header_in_place))
        } else {
            None
        }
    }
}

} // verus!
