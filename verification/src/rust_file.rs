//! The Rust half of an interface.

use crate::coro::{shims_view, CoroFutureShim, CoroModel, CoroSupport, ShimModel};
use crate::cpp_file::{
    trait_methods_view, CppFnSig, CppLayoutModel, CppLayoutPolicy, CppTraitDefinition,
    CppTraitMethod, SigModel, TraitDefModel, TraitMethodModel, WellknownModel,
    ZngurWellknownTraitData,
};
use crate::def::{
    methods_view, opt_text, opt_texts, opt_trait, variants_view, FieldModel, LayoutPolicy,
    MethodModel, VariantModel, ZngurField, ZngurMethod, ZngurMethodReceiver, ZngurTrait,
    ZngurTraitModel, ZngurVariant, ZngurWellknownTrait,
};
use crate::into_cpp::{
    all_convertible, convertible, trait_convertible, trait_to_cpp, type_to_cpp, types_into_cpp,
    types_to_cpp,
};
use crate::mangle::{hash_of_sig, mangle_name, mangled, signature_hash};
use crate::rust_templates::{
    CATCH_OPEN, CLOSURE_CLOSE, CLOSURE_OPEN, CPP_VALUE_BRIDGE, DEBUG_PRINT_SHIM, DISCRIMINANT_ARM,
    DISCRIMINANT_CLOSE, DISCRIMINANT_OPEN, DROP_SHIM, EXTERN_CPP_FN_OPEN, EXTERN_FN_OPEN,
    FIELD_OFFSET, FUNCTION_OPEN, FUTURE_SHIM_CLOSE, FUTURE_SHIM_OPEN, HEAP_SHIMS, MATCH_CHECK,
    PRELUDE, PRETTY_PRINT_SHIM, STRUCT_WRITE, TRAIT_BOX_CLOSE, TRAIT_BOX_OPEN, TRAIT_REF_CLOSE,
    TRAIT_REF_OPEN, TUPLE_WRITE, VARIANT_FIELD_OFFSET, WAKER_SHIMS,
};
use crate::rust_types::{
    named_view, type_texts, types_text, types_view, Mutability, RustTrait, RustType, TraitModel,
    TypeModel,
};
use crate::text::{
    concat_all, concat_strings, dec_text, decimal, fill1, fill2, fill3, fill4, fill6, filled, join,
    join_text, lemma_texts_push, number_items, number_texts, number_twice, numbered, numbered_items,
    numbered_twice, str_eq, strings_copy, texts,
};
use vstd::prelude::*;

verus! {

broadcast use vstd::std_specs::vec::group_vec_axioms;

/// The Rust half of an interface, as far as it is written.
#[derive(Debug)]
pub struct RustFile {
    pub text: String,
    /// Whether panics are caught, for C++ to throw an exception.
    pub panic_to_exception: bool,
    /// What tells the link names of this interface from those of others.
    pub mangling_base: String,
}

/// Whether a file is another one with more text at its end.
pub open spec fn extends(before: RustFile, after: RustFile, added: Seq<char>) -> bool {
    after.text@ == before.text@ + added && after.panic_to_exception == before.panic_to_exception
        && after.mangling_base@ == before.mangling_base@
}

/// The lines that hand inputs to a C++ function and take its output; `call` is
/// the call up to its first input.
pub open spec fn call_text(call: Seq<char>, inputs: nat) -> Seq<char> {
    concat_all(
        numbered_twice(
            "let mut i"@,
            " = ::core::mem::MaybeUninit::new(i"@,
            inputs,
            ");\n"@,
        ),
    ) + "let mut r = ::core::mem::MaybeUninit::uninit();\n"@ + call + concat_all(
        numbered("i"@, inputs, ".as_mut_ptr() as *mut u8, "@),
    ) + "r.as_mut_ptr() as *mut u8);\n"@ + "r.assume_init()\n"@
}

fn make_call(call: &str, inputs: usize) -> (r: String)
    ensures
        r@ == call_text(call@, inputs as nat),
{
    let moved = number_twice(
        "let mut i",
        " = ::core::mem::MaybeUninit::new(i",
        inputs,
        ");\n",
    );
    let passed = number_items("i", inputs, ".as_mut_ptr() as *mut u8, ");
    let mut r = concat_strings(&moved);
    r.append("let mut r = ::core::mem::MaybeUninit::uninit();\n");
    r.append(call);
    r.append(concat_strings(&passed).as_str());
    r.append("r.as_mut_ptr() as *mut u8);\n");
    r.append("r.assume_init()\n");
    r
}

/// The link name of a method of a trait.
pub open spec fn method_link(tr: TraitModel, m: MethodModel, base: Seq<char>) -> Seq<char> {
    mangled(tr.text(), base) + "_"@ + m.name + "_"@ + signature_hash(m.generics) + "_"@
        + signature_hash(m.inputs)
}

/// The link names of the methods of a trait.
pub open spec fn method_links(t: ZngurTraitModel, base: Seq<char>) -> Seq<Seq<char>> {
    Seq::new(t.methods.len(), |i: int| method_link(t.tr, t.methods[i], base))
}

/// The declarations of the C++ functions behind the methods of a trait.
pub open spec fn method_decls(t: ZngurTraitModel, base: Seq<char>) -> Seq<Seq<char>> {
    Seq::new(
        t.methods.len(),
        |i: int|
            "fn "@ + method_link(t.tr, t.methods[i], base) + "(data: *mut u8, "@ + join_text(
                numbered("i"@, t.methods[i].inputs.len(), ": *mut u8,"@),
                " "@,
            ) + " o: *mut u8);\n"@,
    )
}

/// The receiver of a method, as a parameter.
pub open spec fn receiver_text(r: ZngurMethodReceiver) -> Seq<char> {
    match r {
        ZngurMethodReceiver::Static => ""@,
        ZngurMethodReceiver::Ref(Mutability::Not) => "&self"@,
        ZngurMethodReceiver::Ref(Mutability::Mut) => "&mut self"@,
        ZngurMethodReceiver::Move => "self"@,
    }
}

fn make_receiver(r: ZngurMethodReceiver) -> (s: &'static str)
    ensures
        s@ == receiver_text(r),
{
    match r {
        ZngurMethodReceiver::Static => "",
        ZngurMethodReceiver::Ref(Mutability::Not) => "&self",
        ZngurMethodReceiver::Ref(Mutability::Mut) => "&mut self",
        ZngurMethodReceiver::Move => "self",
    }
}

/// A method of a trait, as a call of the C++ function behind it. `data` is the
/// line that finds the C++ data.
pub open spec fn forwarding_method(m: MethodModel, link: Seq<char>, data: Seq<char>) -> Seq<char> {
    "        fn "@ + m.name + "("@ + receiver_text(m.receiver) + concat_all(
        numbered_items(", i"@, 0, ": "@, types_text(m.inputs), ""@),
    ) + ") -> "@ + m.output.text() + " { unsafe {\n"@ + data + call_text(
        link + "(data, "@,
        m.inputs.len(),
    ) + "        } }\n"@
}

/// The methods of a trait, as calls of the C++ functions behind them.
pub open spec fn forwarding_methods(
    t: ZngurTraitModel,
    links: Seq<Seq<char>>,
    data: Seq<char>,
) -> Seq<Seq<char>> {
    Seq::new(t.methods.len(), |i: int| forwarding_method(t.methods[i], links[i], data))
}

/// The associated types of a trait, each as `before`, its name, ` = `, the type
/// and `after`.
pub open spec fn assoc_texts(
    before: Seq<char>,
    v: Seq<(Seq<char>, TypeModel)>,
    after: Seq<char>,
) -> Seq<Seq<char>> {
    Seq::new(v.len(), |i: int| before + v[i].0 + " = "@ + v[i].1.text() + after)
}

/// What makes boxed objects of a trait.
pub open spec fn trait_box_text(t: ZngurTraitModel, base: Seq<char>) -> Seq<char> {
    filled(TRAIT_BOX_OPEN@, seq![mangled(t.tr.text(), base), t.tr.without_assocs().text()])
        + concat_all(assoc_texts("        type "@, t.tr.assocs(), ";\n"@)) + concat_all(
        forwarding_methods(t, method_links(t, base), "            let data = self.data;\n"@),
    ) + filled(TRAIT_BOX_CLOSE@, seq![t.tr.text()])
}

/// What makes references to objects of a trait.
pub open spec fn trait_ref_text(t: ZngurTraitModel, base: Seq<char>) -> Seq<char> {
    filled(
        TRAIT_REF_OPEN@,
        seq![mangled(t.tr.text(), base) + "_borrowed"@, t.tr.without_assocs().text()],
    ) + concat_all(assoc_texts("        type "@, t.tr.assocs(), ";\n"@)) + concat_all(
        forwarding_methods(
            t,
            method_links(t, base),
            "            let data = ::std::mem::transmute::<_, *mut u8>(self);\n"@,
        ),
    ) + filled(TRAIT_REF_CLOSE@, seq![t.tr.text()])
}

/// What makes objects of a trait.
pub open spec fn trait_builder_text(t: ZngurTraitModel, base: Seq<char>) -> Seq<char> {
    "unsafe extern \"C\" {\n"@ + concat_all(method_decls(t, base)) + "}\n"@ + trait_box_text(t, base)
        + trait_ref_text(t, base)
}

/// The methods of a trait, as C++ sees them.
pub open spec fn trait_methods_of(
    t: ZngurTraitModel,
    base: Seq<char>,
    namespace: Seq<char>,
    crate_name: Seq<char>,
) -> Seq<TraitMethodModel> {
    Seq::new(
        t.methods.len(),
        |i: int|
            TraitMethodModel {
                name: t.methods[i].name,
                rust_link_name: method_link(t.tr, t.methods[i], base),
                inputs: types_to_cpp(t.methods[i].inputs, namespace, crate_name),
                output: type_to_cpp(t.methods[i].output, namespace, crate_name),
            },
    )
}

/// A trait, as C++ sees it.
pub open spec fn trait_def(
    t: ZngurTraitModel,
    base: Seq<char>,
    namespace: Seq<char>,
    crate_name: Seq<char>,
) -> TraitDefModel {
    TraitDefModel::Normal {
        as_ty: trait_to_cpp(t.tr, namespace, crate_name),
        methods: trait_methods_of(t, base, namespace, crate_name),
        link_name: mangled(t.tr.text(), base),
        link_name_ref: mangled(t.tr.text(), base) + "_borrowed"@,
    }
}

/// Whether the inputs and the output of a method have C++ types.
pub open spec fn method_convertible(m: MethodModel, namespace: Seq<char>) -> bool {
    all_convertible(m.inputs, namespace) && convertible(m.output, namespace)
}

/// Whether C++ can make objects of a trait: it is no closure trait, each of its
/// methods has a receiver, and its types have C++ types.
pub open spec fn trait_buildable(t: ZngurTraitModel, namespace: Seq<char>) -> bool {
    t.tr is Normal && trait_convertible(t.tr, namespace) && forall|i: int|
        0 <= i < t.methods.len() ==> (#[trigger] t.methods[i]).receiver
            != ZngurMethodReceiver::Static && method_convertible(t.methods[i], namespace)
}

fn make_assocs(before: &str, v: &Vec<(String, RustType)>, after: &str) -> (r: String)
    ensures
        r@ == concat_all(assoc_texts(before@, named_view(v@), after@)),
{
    let mut parts: Vec<String> = Vec::new();
    let mut i: usize = 0;
    while i < v.len()
        invariant
            i <= v.len(),
            parts.len() == i,
            forall|k: int|
                0 <= k < i ==> (#[trigger] parts@[k])@ == assoc_texts(
                    before@,
                    named_view(v@),
                    after@,
                )[k],
        decreases v.len() - i,
    {
        proof {
            assert(named_view(v@)[i as int] == (v@[i as int].0@, v@[i as int].1.view()));
        }
        let mut s = String::from_str(before);
        s.append(v[i].0.as_str());
        s.append(" = ");
        s.append(v[i].1.to_text().as_str());
        s.append(after);
        parts.push(s);
        i += 1;
    }
    proof {
        assert(texts(parts@) =~= assoc_texts(before@, named_view(v@), after@));
    }
    concat_strings(&parts)
}

fn make_method_link(tr: &RustTrait, m: &ZngurMethod, base: &str) -> (r: String)
    ensures
        r@ == method_link(tr@, m@, base@),
{
    let mut r = mangle_name(tr.to_text().as_str(), base);
    r.append("_");
    r.append(m.name.as_str());
    r.append("_");
    r.append(hash_of_sig(&m.generics).as_str());
    r.append("_");
    r.append(hash_of_sig(&m.inputs).as_str());
    r
}

fn make_method_links(t: &ZngurTrait, base: &str) -> (r: Vec<String>)
    ensures
        texts(r@) == method_links(t@, base@),
        r@.len() == t.methods@.len(),
{
    let mut r: Vec<String> = Vec::new();
    let mut i: usize = 0;
    while i < t.methods.len()
        invariant
            i <= t.methods.len(),
            r.len() == i,
            forall|k: int| 0 <= k < i ==> (#[trigger] r@[k])@ == method_links(t@, base@)[k],
        decreases t.methods.len() - i,
    {
        proof {
            assert(methods_view(t.methods@)[i as int] == t.methods@[i as int]@);
        }
        r.push(make_method_link(&t.tr, &t.methods[i], base));
        i += 1;
    }
    proof {
        assert(texts(r@) =~= method_links(t@, base@));
    }
    r
}

fn make_method_decls(t: &ZngurTrait, links: &Vec<String>, base: &str) -> (r: String)
    requires
        texts(links@) == method_links(t@, base@),
    ensures
        r@ == concat_all(method_decls(t@, base@)),
{
    let mut parts: Vec<String> = Vec::new();
    let mut i: usize = 0;
    proof {
        assert(texts(links@).len() == t.methods@.len());
    }
    while i < t.methods.len()
        invariant
            i <= t.methods.len(),
            texts(links@) == method_links(t@, base@),
            links@.len() == t.methods@.len(),
            parts.len() == i,
            forall|k: int| 0 <= k < i ==> (#[trigger] parts@[k])@ == method_decls(t@, base@)[k],
        decreases t.methods.len() - i,
    {
        let m = &t.methods[i];
        proof {
            assert(methods_view(t.methods@)[i as int] == t.methods@[i as int]@);
            assert(texts(links@)[i as int] == links@[i as int]@);
            assert(types_view(m.inputs@).len() == m.inputs@.len());
        }
        let raw = number_items("i", m.inputs.len(), ": *mut u8,");
        let mut s = String::from_str("fn ");
        s.append(links[i].as_str());
        s.append("(data: *mut u8, ");
        s.append(join(&raw, " ").as_str());
        s.append(" o: *mut u8);\n");
        parts.push(s);
        i += 1;
    }
    proof {
        assert(texts(parts@) =~= method_decls(t@, base@));
    }
    concat_strings(&parts)
}

fn make_forwarding_method(m: &ZngurMethod, link: &str, data: &str) -> (r: String)
    ensures
        r@ == forwarding_method(m@, link@, data@),
{
    let inputs = type_texts(&m.inputs);
    let count: usize = inputs.len();
    proof {
        assert(types_view(m.inputs@).len() == count);
    }
    let params = number_texts(", i", 0, ": ", &inputs, "");
    let mut call = String::from_str(link);
    call.append("(data, ");
    let mut r = String::from_str("        fn ");
    r.append(m.name.as_str());
    r.append("(");
    r.append(make_receiver(m.receiver));
    r.append(concat_strings(&params).as_str());
    r.append(") -> ");
    r.append(m.output.to_text().as_str());
    r.append(" { unsafe {\n");
    r.append(data);
    r.append(make_call(call.as_str(), count).as_str());
    r.append("        } }\n");
    r
}

fn make_forwarding_methods(t: &ZngurTrait, links: &Vec<String>, data: &str) -> (r: String)
    requires
        links@.len() == t.methods@.len(),
    ensures
        r@ == concat_all(forwarding_methods(t@, texts(links@), data@)),
{
    let mut parts: Vec<String> = Vec::new();
    let mut i: usize = 0;
    while i < t.methods.len()
        invariant
            i <= t.methods.len(),
            links@.len() == t.methods@.len(),
            parts.len() == i,
            forall|k: int|
                0 <= k < i ==> (#[trigger] parts@[k])@ == forwarding_methods(
                    t@,
                    texts(links@),
                    data@,
                )[k],
        decreases t.methods.len() - i,
    {
        proof {
            assert(methods_view(t.methods@)[i as int] == t.methods@[i as int]@);
        }
        parts.push(make_forwarding_method(&t.methods[i], links[i].as_str(), data));
        i += 1;
    }
    proof {
        assert(texts(parts@) =~= forwarding_methods(t@, texts(links@), data@));
    }
    concat_strings(&parts)
}

impl RustFile {
    /// A file that holds what every one starts with.
    pub fn new(mangling_base: &str) -> (r: RustFile)
        ensures
            r.text@ == PRELUDE@,
            r.panic_to_exception == false,
            r.mangling_base@ == mangling_base@,
    {
        RustFile {
            text: String::from_str(PRELUDE),
            panic_to_exception: false,
            mangling_base: String::from_str(mangling_base),
        }
    }

    /// Adds text at the end.
    pub fn write(&mut self, text: &str)
        ensures
            extends(*old(self), *final(self), text@),
    {
        self.text.append(text);
    }

    /// The link name of something with that name.
    pub fn mangle_name(&self, name: &str) -> (r: String)
        ensures
            r@ == mangled(name@, self.mangling_base@),
    {
        mangle_name(name, self.mangling_base.as_str())
    }

    /// Adds the call of a C++ function.
    pub fn call_cpp_function(&mut self, name: &str, inputs: usize)
        ensures
            extends(*old(self), *final(self), call_text(name@, inputs as nat)),
    {
        self.write(make_call(name, inputs).as_str());
    }

    /// Adds what makes objects of a trait out of C++ data.
    pub fn add_builder_for_dyn_trait(
        &mut self,
        tr: &ZngurTrait,
        namespace: &str,
        crate_name: &str,
    ) -> (r: CppTraitDefinition)
        requires
            trait_buildable(tr@, namespace@),
        ensures
            extends(
                *old(self),
                *final(self),
                trait_builder_text(tr@, old(self).mangling_base@),
            ),
            r@ == trait_def(tr@, old(self).mangling_base@, namespace@, crate_name@),
    {
        let base = self.mangling_base.clone();
        let links = make_method_links(tr, base.as_str());
        let mut text = String::from_str("unsafe extern \"C\" {\n");
        text.append(make_method_decls(tr, &links, base.as_str()).as_str());
        text.append("}\n");
        let (owned, link_name) = make_builder_for_dyn_trait_owned(tr, &links, base.as_str());
        text.append(owned.as_str());
        let (borrowed, link_name_ref) = make_builder_for_dyn_trait_borrowed(
            tr,
            &links,
            base.as_str(),
        );
        text.append(borrowed.as_str());
        self.write(text.as_str());
        let methods = make_trait_methods(tr, links, base.as_str(), namespace, crate_name);
        CppTraitDefinition::Normal {
            as_ty: tr.tr.into_cpp(namespace, crate_name),
            methods,
            link_name,
            link_name_ref,
        }
    }
}

fn make_builder_for_dyn_trait_owned(t: &ZngurTrait, links: &Vec<String>, base: &str) -> (r: (
    String,
    String,
))
    requires
        texts(links@) == method_links(t@, base@),
        links@.len() == t.methods@.len(),
    ensures
        r.0@ == trait_box_text(t@, base@),
        r.1@ == mangled(t@.tr.text(), base@),
{
    let trait_name = t.tr.to_text();
    let (trait_without_assocs, assocs) = t.tr.take_assocs();
    let mangled_name = mangle_name(trait_name.as_str(), base);
    let mut r = fill2(
        TRAIT_BOX_OPEN,
        mangled_name.as_str(),
        trait_without_assocs.to_text().as_str(),
    );
    r.append(make_assocs("        type ", &assocs, ";\n").as_str());
    r.append(
        make_forwarding_methods(t, links, "            let data = self.data;\n").as_str(),
    );
    r.append(fill1(TRAIT_BOX_CLOSE, trait_name.as_str()).as_str());
    (r, mangled_name)
}

fn make_builder_for_dyn_trait_borrowed(t: &ZngurTrait, links: &Vec<String>, base: &str) -> (r: (
    String,
    String,
))
    requires
        texts(links@) == method_links(t@, base@),
        links@.len() == t.methods@.len(),
    ensures
        r.0@ == trait_ref_text(t@, base@),
        r.1@ == mangled(t@.tr.text(), base@) + "_borrowed"@,
{
    let trait_name = t.tr.to_text();
    let (trait_without_assocs, assocs) = t.tr.take_assocs();
    let mut mangled_name = mangle_name(trait_name.as_str(), base);
    mangled_name.append("_borrowed");
    let mut r = fill2(
        TRAIT_REF_OPEN,
        mangled_name.as_str(),
        trait_without_assocs.to_text().as_str(),
    );
    r.append(make_assocs("        type ", &assocs, ";\n").as_str());
    r.append(
        make_forwarding_methods(
            t,
            links,
            "            let data = ::std::mem::transmute::<_, *mut u8>(self);\n",
        ).as_str(),
    );
    r.append(fill1(TRAIT_REF_CLOSE, trait_name.as_str()).as_str());
    (r, mangled_name)
}

fn make_trait_methods(
    t: &ZngurTrait,
    links: Vec<String>,
    base: &str,
    namespace: &str,
    crate_name: &str,
) -> (r: Vec<CppTraitMethod>)
    requires
        trait_buildable(t@, namespace@),
        texts(links@) == method_links(t@, base@),
        links@.len() == t.methods@.len(),
    ensures
        trait_methods_view(r@) == trait_methods_of(t@, base@, namespace@, crate_name@),
{
    let mut r: Vec<CppTraitMethod> = Vec::new();
    let mut i: usize = 0;
    while i < t.methods.len()
        invariant
            i <= t.methods.len(),
            trait_buildable(t@, namespace@),
            texts(links@) == method_links(t@, base@),
            links@.len() == t.methods@.len(),
            r.len() == i,
            forall|k: int|
                0 <= k < i ==> (#[trigger] r@[k])@ == trait_methods_of(
                    t@,
                    base@,
                    namespace@,
                    crate_name@,
                )[k],
        decreases t.methods.len() - i,
    {
        let m = &t.methods[i];
        proof {
            assert(t@.methods[i as int] == m@);
            assert(texts(links@)[i as int] == links@[i as int]@);
        }
        r.push(
            CppTraitMethod {
                name: m.name.clone(),
                rust_link_name: links[i].clone(),
                inputs: types_into_cpp(&m.inputs, namespace, crate_name),
                output: m.output.into_cpp(namespace, crate_name),
            },
        );
        i += 1;
    }
    proof {
        assert(trait_methods_view(r@) =~= trait_methods_of(
            t@,
            base@,
            namespace@,
            crate_name@,
        ));
    }
    r
}

/// An assertion of the Rust half: a macro and what it is applied to.
pub open spec fn assertion_text(name: Seq<char>, args: Seq<Seq<char>>) -> Seq<char> {
    name + "!("@ + join_text(args, ", "@) + ");\n"@
}

fn make_assertion(name: &str, args: &Vec<String>) -> (r: String)
    ensures
        r@ == assertion_text(name@, texts(args@)),
{
    let mut r = String::from_str(name);
    r.append("!(");
    r.append(join(args, ", ").as_str());
    r.append(");\n");
    r
}

fn make_type_assertion(name: &str, ty: &RustType, value: usize) -> (r: String)
    ensures
        r@ == assertion_text(name@, seq![ty@.text(), dec_text(value as nat)]),
{
    let args = vec![ty.to_text(), decimal(value)];
    proof {
        assert(texts(args@) =~= seq![ty@.text(), dec_text(value as nat)]);
    }
    make_assertion(name, &args)
}

/// The link name of what makes closures with these inputs and output.
pub open spec fn closure_link(
    inputs: Seq<TypeModel>,
    output: TypeModel,
    base: Seq<char>,
) -> Seq<char> {
    mangled(join_text(types_text(inputs).push(output.text()), ", "@), base)
}

/// What makes closures out of C++ data.
pub open spec fn closure_builder_text(
    name: Seq<char>,
    inputs: Seq<TypeModel>,
    output: TypeModel,
    base: Seq<char>,
) -> Seq<char> {
    filled(
        CLOSURE_OPEN@,
        seq![
            closure_link(inputs, output, base),
            join_text(numbered("i"@, inputs.len(), ": *mut u8, "@), " "@),
            name + "("@ + join_text(types_text(inputs), ", "@) + ") -> "@ + output.text(),
            join_text(numbered_items("i"@, 0, ": "@, types_text(inputs), ""@), ", "@),
        ],
    ) + call_text("call(data, "@, inputs.len()) + CLOSURE_CLOSE@
}

/// What makes tuples.
pub open spec fn tuple_constructor_text(fields: Seq<TypeModel>, base: Seq<char>) -> Seq<char> {
    filled(EXTERN_FN_OPEN@, seq![mangled(join_text(types_text(fields), "&"@), base)]) + concat_all(
        numbered("f_"@, fields.len(), ": *mut u8, "@),
    ) + TUPLE_WRITE@ + concat_all(
        numbered_items("::std::ptr::read(f_"@, 0, " as *mut "@, types_text(fields), "), "@),
    ) + ")) } }\n"@
}

/// The raw inputs of a constructor.
pub open spec fn field_inputs(args: Seq<(Seq<char>, TypeModel)>) -> Seq<Seq<char>> {
    Seq::new(args.len(), |i: int| "f_"@ + args[i].0 + ": *mut u8, "@)
}

/// The fields of a value that is made of raw inputs.
pub open spec fn field_reads(args: Seq<(Seq<char>, TypeModel)>) -> Seq<Seq<char>> {
    Seq::new(
        args.len(),
        |i: int|
            args[i].0 + ": ::std::ptr::read(f_"@ + args[i].0 + " as *mut "@ + args[i].1.text()
                + "), "@,
    )
}

/// What makes values of a type or a variant.
pub open spec fn constructor_text(
    rust_name: Seq<char>,
    args: Seq<(Seq<char>, TypeModel)>,
    base: Seq<char>,
) -> Seq<char> {
    filled(EXTERN_FN_OPEN@, seq![mangled(rust_name, base)]) + concat_all(field_inputs(args))
        + filled(STRUCT_WRITE@, seq![rust_name]) + concat_all(field_reads(args)) + "}) } }\n"@
}

fn make_field_inputs(args: &Vec<(String, RustType)>) -> (r: String)
    ensures
        r@ == concat_all(field_inputs(named_view(args@))),
{
    let mut parts: Vec<String> = Vec::new();
    let mut i: usize = 0;
    while i < args.len()
        invariant
            i <= args.len(),
            parts.len() == i,
            forall|k: int|
                0 <= k < i ==> (#[trigger] parts@[k])@ == field_inputs(named_view(args@))[k],
        decreases args.len() - i,
    {
        let mut s = String::from_str("f_");
        s.append(args[i].0.as_str());
        s.append(": *mut u8, ");
        parts.push(s);
        i += 1;
    }
    proof {
        assert(texts(parts@) =~= field_inputs(named_view(args@)));
    }
    concat_strings(&parts)
}

fn make_field_reads(args: &Vec<(String, RustType)>) -> (r: String)
    ensures
        r@ == concat_all(field_reads(named_view(args@))),
{
    let mut parts: Vec<String> = Vec::new();
    let mut i: usize = 0;
    while i < args.len()
        invariant
            i <= args.len(),
            parts.len() == i,
            forall|k: int|
                0 <= k < i ==> (#[trigger] parts@[k])@ == field_reads(named_view(args@))[k],
        decreases args.len() - i,
    {
        proof {
            assert(named_view(args@)[i as int] == (args@[i as int].0@, args@[i as int].1.view()));
        }
        let mut s = args[i].0.clone();
        s.append(": ::std::ptr::read(f_");
        s.append(args[i].0.as_str());
        s.append(" as *mut ");
        s.append(args[i].1.to_text().as_str());
        s.append("), ");
        parts.push(s);
        i += 1;
    }
    proof {
        assert(texts(parts@) =~= field_reads(named_view(args@)));
    }
    concat_strings(&parts)
}

/// The link name of what tells whether a value is of a variant.
pub open spec fn match_check_link(rust_name: Seq<char>, base: Seq<char>) -> Seq<char> {
    mangled(rust_name + "_check"@, base)
}

/// The link name of what tells the number of the variant of a value.
pub open spec fn discriminant_link(rust_name: Seq<char>, base: Seq<char>) -> Seq<char> {
    mangled(rust_name + "::match"@, base)
}

/// The arms that tell the variants of a type by their numbers.
pub open spec fn discriminant_arms(rust_name: Seq<char>, v: Seq<VariantModel>) -> Seq<Seq<char>> {
    Seq::new(
        v.len(),
        |i: int| filled(DISCRIMINANT_ARM@, seq![rust_name, v[i].name, dec_text(i as nat)]),
    )
}

/// What tells the number of the variant of a value.
pub open spec fn discriminant_text(
    rust_name: Seq<char>,
    v: Seq<VariantModel>,
    base: Seq<char>,
) -> Seq<char> {
    if v.len() == 0 {
        Seq::empty()
    } else {
        filled(DISCRIMINANT_OPEN@, seq![discriminant_link(rust_name, base), rust_name])
            + concat_all(discriminant_arms(rust_name, v)) + DISCRIMINANT_CLOSE@
    }
}

fn make_discriminant_arms(rust_name: &str, v: &Vec<ZngurVariant>) -> (r: String)
    ensures
        r@ == concat_all(discriminant_arms(rust_name@, variants_view(v@))),
{
    let mut parts: Vec<String> = Vec::new();
    let mut i: usize = 0;
    while i < v.len()
        invariant
            i <= v.len(),
            parts.len() == i,
            forall|k: int|
                0 <= k < i ==> (#[trigger] parts@[k])@ == discriminant_arms(
                    rust_name@,
                    variants_view(v@),
                )[k],
        decreases v.len() - i,
    {
        proof {
            assert(variants_view(v@)[i as int] == v@[i as int]@);
        }
        parts.push(
            fill3(DISCRIMINANT_ARM, rust_name, v[i].name.as_str(), decimal(i).as_str()),
        );
        i += 1;
    }
    proof {
        assert(texts(parts@) =~= discriminant_arms(rust_name@, variants_view(v@)));
    }
    concat_strings(&parts)
}

/// The link name of the offset of a field.
pub open spec fn field_offset_link(field: FieldModel, owner: TypeModel, base: Seq<char>) -> Seq<char> {
    mangled(owner.text() + "_field_"@ + field.name + "_offset"@, base)
}

/// What asserts that a type has a field, and asserts or tells its offset.
pub open spec fn field_text(field: FieldModel, owner: TypeModel, base: Seq<char>) -> Seq<char> {
    assertion_text(
        "__zngur_assert_has_field"@,
        seq![owner.text(), field.ty.text(), field.name],
    ) + (match field.offset {
        Some(offset) => assertion_text(
            "__zngur_assert_field_offset"@,
            seq![owner.text(), dec_text(offset as nat), field.name],
        ),
        None => filled(
            FIELD_OFFSET@,
            seq![field_offset_link(field, owner, base), owner.text(), field.name],
        ),
    })
}

/// The link name of the offset of a field of a variant.
pub open spec fn variant_field_link(
    name: Seq<char>,
    owner: TypeModel,
    variant: Seq<char>,
    base: Seq<char>,
) -> Seq<char> {
    mangled(owner.text() + "_"@ + variant + "_field_"@ + name + "_offset"@, base)
}

/// What tells the offset of a field of a variant.
pub open spec fn variant_field_text(
    name: Seq<char>,
    owner: TypeModel,
    variant: Seq<char>,
    base: Seq<char>,
) -> Seq<char> {
    filled(
        VARIANT_FIELD_OFFSET@,
        seq![variant_field_link(name, owner, variant, base), owner.text(), variant, name],
    )
}

impl RustFile {
    /// Asserts that a type is `Copy`.
    pub fn add_static_is_copy_assert(&mut self, ty: &RustType)
        ensures
            extends(
                *old(self),
                *final(self),
                assertion_text("__zngur_assert_is_copy"@, seq![ty@.text()]),
            ),
    {
        let args = vec![ty.to_text()];
        proof {
            assert(texts(args@) =~= seq![ty@.text()]);
        }
        self.write(make_assertion("__zngur_assert_is_copy", &args).as_str());
    }

    /// Asserts the size of a type.
    pub fn add_static_size_assert(&mut self, ty: &RustType, size: usize)
        ensures
            extends(
                *old(self),
                *final(self),
                assertion_text(
                    "__zngur_assert_size"@,
                    seq![ty@.text(), dec_text(size as nat)],
                ),
            ),
    {
        self.write(make_type_assertion("__zngur_assert_size", ty, size).as_str());
    }

    /// Asserts the alignment of a type.
    pub fn add_static_align_assert(&mut self, ty: &RustType, align: usize)
        ensures
            extends(
                *old(self),
                *final(self),
                assertion_text(
                    "__zngur_assert_align"@,
                    seq![ty@.text(), dec_text(align as nat)],
                ),
            ),
    {
        self.write(make_type_assertion("__zngur_assert_align", ty, align).as_str());
    }

    /// Asserts that a type is no larger.
    pub fn add_static_size_upper_bound_assert(&mut self, ty: &RustType, size: usize)
        ensures
            extends(
                *old(self),
                *final(self),
                assertion_text(
                    "__zngur_assert_size_conservative"@,
                    seq![ty@.text(), dec_text(size as nat)],
                ),
            ),
    {
        self.write(make_type_assertion("__zngur_assert_size_conservative", ty, size).as_str());
    }

    /// Asserts that the alignment of a type is no larger.
    pub fn add_static_align_upper_bound_assert(&mut self, ty: &RustType, align: usize)
        ensures
            extends(
                *old(self),
                *final(self),
                assertion_text(
                    "__zngur_assert_align_conservative"@,
                    seq![ty@.text(), dec_text(align as nat)],
                ),
            ),
    {
        self.write(make_type_assertion("__zngur_assert_align_conservative", ty, align).as_str());
    }

    /// Adds what makes closures out of C++ data, and returns its link name.
    pub fn add_builder_for_dyn_fn(
        &mut self,
        name: &str,
        inputs: &Vec<RustType>,
        output: &RustType,
    ) -> (r: String)
        ensures
            extends(
                *old(self),
                *final(self),
                closure_builder_text(
                    name@,
                    types_view(inputs@),
                    output@,
                    old(self).mangling_base@,
                ),
            ),
            r@ == closure_link(types_view(inputs@), output@, old(self).mangling_base@),
    {
        let input_texts = type_texts(inputs);
        let count: usize = input_texts.len();
        let output_text = output.to_text();
        let last = output.to_text();
        let mut all = strings_copy(&input_texts);
        proof {
            assert(types_view(inputs@).len() == count);
            lemma_texts_push(all@, last);
        }
        all.push(last);
        let link = self.mangle_name(join(&all, ", ").as_str());
        let raw = number_items("i", count, ": *mut u8, ");
        let typed = number_texts("i", 0, ": ", &input_texts, "");
        let mut trait_text = String::from_str(name);
        trait_text.append("(");
        trait_text.append(join(&input_texts, ", ").as_str());
        trait_text.append(") -> ");
        trait_text.append(output_text.as_str());
        let mut text = fill4(
            CLOSURE_OPEN,
            link.as_str(),
            join(&raw, " ").as_str(),
            trait_text.as_str(),
            join(&typed, ", ").as_str(),
        );
        text.append(make_call("call(data, ", count).as_str());
        text.append(CLOSURE_CLOSE);
        self.write(text.as_str());
        link
    }

    /// Adds what makes tuples, and returns its link name.
    pub fn add_tuple_constructor(&mut self, fields: &Vec<RustType>) -> (r: String)
        ensures
            extends(
                *old(self),
                *final(self),
                tuple_constructor_text(types_view(fields@), old(self).mangling_base@),
            ),
            r@ == mangled(
                join_text(types_text(types_view(fields@)), "&"@),
                old(self).mangling_base@,
            ),
    {
        let field_texts = type_texts(fields);
        let count: usize = field_texts.len();
        proof {
            assert(types_view(fields@).len() == count);
        }
        let link = self.mangle_name(join(&field_texts, "&").as_str());
        let raw = number_items("f_", count, ": *mut u8, ");
        let reads = number_texts("::std::ptr::read(f_", 0, " as *mut ", &field_texts, "), ");
        let mut text = fill1(EXTERN_FN_OPEN, link.as_str());
        text.append(concat_strings(&raw).as_str());
        text.append(TUPLE_WRITE);
        text.append(concat_strings(&reads).as_str());
        text.append(")) } }\n");
        self.write(text.as_str());
        link
    }

    /// Adds what makes values of a type or a variant, and returns its link name.
    pub fn add_constructor(&mut self, rust_name: &str, args: &Vec<(String, RustType)>) -> (r:
        String)
        ensures
            extends(
                *old(self),
                *final(self),
                constructor_text(rust_name@, named_view(args@), old(self).mangling_base@),
            ),
            r@ == mangled(rust_name@, old(self).mangling_base@),
    {
        let link = self.mangle_name(rust_name);
        let mut text = fill1(EXTERN_FN_OPEN, link.as_str());
        text.append(make_field_inputs(args).as_str());
        text.append(fill1(STRUCT_WRITE, rust_name).as_str());
        text.append(make_field_reads(args).as_str());
        text.append("}) } }\n");
        self.write(text.as_str());
        link
    }

    /// Adds what tells whether a value is of a variant, and returns its link name.
    pub fn add_match_check(&mut self, rust_name: &str) -> (r: String)
        ensures
            extends(
                *old(self),
                *final(self),
                filled(
                    MATCH_CHECK@,
                    seq![match_check_link(rust_name@, old(self).mangling_base@), rust_name@],
                ),
            ),
            r@ == match_check_link(rust_name@, old(self).mangling_base@),
    {
        let mut name = String::from_str(rust_name);
        name.append("_check");
        let link = self.mangle_name(name.as_str());
        self.write(fill2(MATCH_CHECK, link.as_str(), rust_name).as_str());
        link
    }

    /// Adds what tells the number of the variant of a value, and returns its link
    /// name; a type without variants has none.
    pub fn add_discriminant(&mut self, rust_name: &str, variants: &Vec<ZngurVariant>) -> (r: Option<
        String,
    >)
        ensures
            extends(
                *old(self),
                *final(self),
                discriminant_text(
                    rust_name@,
                    variants_view(variants@),
                    old(self).mangling_base@,
                ),
            ),
            opt_text(r) == (if variants@.len() == 0 {
                None
            } else {
                Some(discriminant_link(rust_name@, old(self).mangling_base@))
            }),
    {
        proof {
            assert(variants_view(variants@).len() == variants@.len());
        }
        if variants.len() == 0 {
            proof {
                assert(self.text@ + Seq::<char>::empty() =~= self.text@);
            }
            return None;
        }
        let mut name = String::from_str(rust_name);
        name.append("::match");
        let link = self.mangle_name(name.as_str());
        let mut text = fill2(DISCRIMINANT_OPEN, link.as_str(), rust_name);
        text.append(make_discriminant_arms(rust_name, variants).as_str());
        text.append(DISCRIMINANT_CLOSE);
        self.write(text.as_str());
        Some(link)
    }

    /// Asserts that a type has a field. Where the field has a declared offset it
    /// is asserted too; else the link name of the offset is returned.
    pub fn add_field_assertions(&mut self, field: &ZngurField, owner: &RustType) -> (r: Option<
        String,
    >)
        ensures
            extends(
                *old(self),
                *final(self),
                field_text(field@, owner@, old(self).mangling_base@),
            ),
            opt_text(r) == (match field.offset {
                Some(_) => None,
                None => Some(field_offset_link(field@, owner@, old(self).mangling_base@)),
            }),
    {
        let owner_text = owner.to_text();
        let args = vec![owner.to_text(), field.ty.to_text(), field.name.clone()];
        proof {
            assert(texts(args@) =~= seq![owner@.text(), field.ty@.text(), field.name@]);
        }
        let mut text = make_assertion("__zngur_assert_has_field", &args);
        match field.offset {
            Some(offset) => {
                let args = vec![owner.to_text(), decimal(offset), field.name.clone()];
                proof {
                    assert(texts(args@) =~= seq![
                        owner@.text(),
                        dec_text(offset as nat),
                        field.name@,
                    ]);
                }
                text.append(make_assertion("__zngur_assert_field_offset", &args).as_str());
                self.write(text.as_str());
                None
            },
            None => {
                let mut name = owner.to_text();
                name.append("_field_");
                name.append(field.name.as_str());
                name.append("_offset");
                let link = self.mangle_name(name.as_str());
                text.append(
                    fill3(
                        FIELD_OFFSET,
                        link.as_str(),
                        owner_text.as_str(),
                        field.name.as_str(),
                    ).as_str(),
                );
                self.write(text.as_str());
                Some(link)
            },
        }
    }

    /// Adds what tells the offset of a field of a variant, and returns its link
    /// name.
    pub fn add_variant_field_calculations(
        &mut self,
        field: &ZngurField,
        owner: &RustType,
        variant: &str,
    ) -> (r: String)
        ensures
            extends(
                *old(self),
                *final(self),
                variant_field_text(field.name@, owner@, variant@, old(self).mangling_base@),
            ),
            r@ == variant_field_link(field.name@, owner@, variant@, old(self).mangling_base@),
    {
        let owner_text = owner.to_text();
        let mut name = owner.to_text();
        name.append("_");
        name.append(variant);
        name.append("_field_");
        name.append(field.name.as_str());
        name.append("_offset");
        let link = self.mangle_name(name.as_str());
        self.write(
            fill4(
                VARIANT_FIELD_OFFSET,
                link.as_str(),
                owner_text.as_str(),
                variant,
                field.name.as_str(),
            ).as_str(),
        );
        link
    }
}

/// The link name of a method that C++ implements.
pub open spec fn extern_method_link(owner: TypeModel, m: MethodModel, base: Seq<char>) -> Seq<char> {
    mangled(owner.text() + "_extern_method_"@ + m.name, base)
}

/// The number of inputs of a method, with its receiver.
pub open spec fn input_count(m: MethodModel) -> nat {
    m.inputs.len() + first_input(m)
}

/// The number of the first input behind the receiver.
pub open spec fn first_input(m: MethodModel) -> nat {
    if m.receiver == ZngurMethodReceiver::Static {
        0
    } else {
        1
    }
}

/// The declaration of the C++ function behind a method that C++ implements.
pub open spec fn extern_method_decl(owner: TypeModel, m: MethodModel, base: Seq<char>) -> Seq<char> {
    "\n    fn "@ + extern_method_link(owner, m, base) + "("@ + concat_all(
        numbered("i"@, input_count(m), ": *mut u8, "@),
    ) + "o: *mut u8);\n"@
}

/// A method that C++ implements, as a call of the C++ function behind it.
pub open spec fn extern_method(
    owner: TypeModel,
    m: MethodModel,
    inherent: bool,
    base: Seq<char>,
) -> Seq<char> {
    (if inherent {
        "pub "@
    } else {
        ""@
    }) + (if m.is_safe {
        ""@
    } else {
        "unsafe "@
    }) + "fn "@ + m.name + "("@ + receiver_text(m.receiver) + (if m.receiver
        == ZngurMethodReceiver::Static {
        ""@
    } else {
        ", "@
    }) + concat_all(numbered_items("i"@, first_input(m), ": "@, types_text(m.inputs), ", "@))
        + ") -> "@ + m.output.text() + " { unsafe {\n"@ + (if m.receiver
        == ZngurMethodReceiver::Static {
        ""@
    } else {
        "let i0 = self;\n"@
    }) + call_text(extern_method_link(owner, m, base) + "("@, input_count(m)) + "} }\n"@
}

/// The link names of the methods that C++ implements.
pub open spec fn extern_method_links(
    owner: TypeModel,
    methods: Seq<MethodModel>,
    base: Seq<char>,
) -> Seq<Seq<char>> {
    Seq::new(methods.len(), |i: int| extern_method_link(owner, methods[i], base))
}

/// The declarations of the C++ functions behind methods that C++ implements.
pub open spec fn extern_method_decls(
    owner: TypeModel,
    methods: Seq<MethodModel>,
    base: Seq<char>,
) -> Seq<Seq<char>> {
    Seq::new(methods.len(), |i: int| extern_method_decl(owner, methods[i], base))
}

/// The methods that C++ implements.
pub open spec fn extern_methods(
    owner: TypeModel,
    methods: Seq<MethodModel>,
    inherent: bool,
    base: Seq<char>,
) -> Seq<Seq<char>> {
    Seq::new(methods.len(), |i: int| extern_method(owner, methods[i], inherent, base))
}

/// The head of an implementation block.
pub open spec fn impl_head(owner: TypeModel, tr: Option<TraitModel>) -> Seq<char> {
    match tr {
        Some(tr) => "impl "@ + tr.without_assocs().text() + " for "@ + owner.text() + " {"@
            + concat_all(assoc_texts("type "@, tr.assocs(), ";"@)),
        None => "impl "@ + owner.text() + " {"@,
    }
}

/// An implementation block that C++ writes.
pub open spec fn extern_impl_text(
    owner: TypeModel,
    tr: Option<TraitModel>,
    methods: Seq<MethodModel>,
    base: Seq<char>,
) -> Seq<char> {
    "unsafe extern \"C\" {"@ + concat_all(extern_method_decls(owner, methods, base)) + "}"@
        + impl_head(owner, tr) + concat_all(extern_methods(owner, methods, tr is None, base)) + "}"@
}

/// A C++ function, as Rust calls it.
pub open spec fn extern_fn_text(
    rust_name: Seq<char>,
    inputs: Seq<TypeModel>,
    output: TypeModel,
    is_safe: bool,
    base: Seq<char>,
) -> Seq<char> {
    filled(EXTERN_CPP_FN_OPEN@, seq![mangled(rust_name, base)]) + concat_all(
        numbered("i"@, inputs.len(), ": *mut u8, "@),
    ) + "o: *mut u8); }\n"@ + "\n#[allow(non_snake_case)]\npub "@ + (if is_safe {
        ""@
    } else {
        "unsafe "@
    }) + "fn "@ + rust_name + "("@ + concat_all(
        numbered_items("i"@, 0, ": "@, types_text(inputs), ", "@),
    ) + ") -> "@ + output.text() + " { unsafe {\n"@ + call_text(
        mangled(rust_name, base) + "("@,
        inputs.len(),
    ) + "} }\n"@
}

/// The link name of the bridge to a type that wraps a C++ value.
pub open spec fn bridge_link(ty: TypeModel, base: Seq<char>) -> Seq<char> {
    mangled(ty.text() + "_cpp_value"@, base)
}

/// What a function returns to C++: a boxed trait object in place of `impl Trait`.
pub open spec fn returned_type(output: TypeModel) -> TypeModel {
    match output {
        TypeModel::Impl(tr, bounds) => TypeModel::Boxed(Box::new(TypeModel::Dyn(tr, bounds))),
        _ => output,
    }
}

/// The link name of the function that calls a Rust function for C++.
pub open spec fn function_link(
    cxx_name: Seq<char>,
    rust_name: Seq<char>,
    inputs: Seq<TypeModel>,
    deref: bool,
    base: Seq<char>,
) -> Seq<char> {
    let name = mangled(cxx_name + "="@ + rust_name, base) + "_"@ + signature_hash(inputs);
    if deref {
        name + "_deref"@
    } else {
        name
    }
}

/// A body, with its panics caught where C++ has to know of them.
pub open spec fn guarded(panic_to_exception: bool, body: Seq<char>) -> Seq<char> {
    if panic_to_exception {
        CATCH_OPEN@ + body + "});\n"@ + "if let Err(_) = e { __zngur_mark_panicked(); }\n"@
    } else {
        body
    }
}

/// The line that imports what a method needs.
pub open spec fn use_text(use_path: Option<Seq<Seq<char>>>) -> Seq<char> {
    match use_path {
        Some(path) => if path.len() > 0 && path[0] == "crate"@ {
            "    use "@ + join_text(path, "::"@) + ";\n"@
        } else {
            "    use ::"@ + join_text(path, "::"@) + ";\n"@
        },
        None => ""@,
    }
}

/// The function that a receiver goes through.
pub open spec fn deref_text(deref: Option<Mutability>) -> Seq<char> {
    match deref {
        Some(Mutability::Mut) => "::std::ops::DerefMut::deref_mut"@,
        Some(Mutability::Not) => "::std::ops::Deref::deref"@,
        None => ""@,
    }
}

/// The call of a Rust function, whose output goes to C++.
pub open spec fn function_body(
    rust_name: Seq<char>,
    inputs: Seq<TypeModel>,
    output: TypeModel,
    use_path: Option<Seq<Seq<char>>>,
    deref: Option<Mutability>,
) -> Seq<char> {
    use_text(use_path) + "    ::std::ptr::write(o as *mut "@ + returned_type(output).text() + ", "@
        + (if output is Impl {
        "Box::new( "@
    } else {
        ""@
    }) + " "@ + rust_name + "("@ + deref_text(deref) + concat_all(
        numbered_items("(::std::ptr::read(i"@, 0, " as *mut "@, types_text(inputs), ")), "@),
    ) + (if output is Impl {
        ")));\n"@
    } else {
        "));\n"@
    })
}

/// The function that calls a Rust function for C++.
pub open spec fn function_text(
    link: Seq<char>,
    inputs: nat,
    panic_to_exception: bool,
    body: Seq<char>,
) -> Seq<char> {
    filled(FUNCTION_OPEN@, seq![link]) + concat_all(numbered("i"@, inputs, ": *mut u8, "@))
        + "o: *mut u8) { unsafe {\n"@ + guarded(panic_to_exception, body) + " } }\n"@
}

/// A well-known trait of a type, as C++ sees it.
pub open spec fn wellknown_data(
    ty: TypeModel,
    wellknown_trait: ZngurWellknownTrait,
    base: Seq<char>,
) -> WellknownModel {
    match wellknown_trait {
        ZngurWellknownTrait::Unsized => WellknownModel::Unsized,
        ZngurWellknownTrait::Copy => WellknownModel::Copy,
        ZngurWellknownTrait::Drop => WellknownModel::Drop {
            drop_in_place: mangled(ty.text() + "=drop_in_place"@, base),
        },
        ZngurWellknownTrait::Debug => WellknownModel::Debug {
            pretty_print: mangled(ty.text() + "=debug_pretty"@, base),
            debug_print: mangled(ty.text() + "=debug_print"@, base),
        },
    }
}

/// What a well-known trait of a type needs in Rust.
pub open spec fn wellknown_text(
    ty: TypeModel,
    wellknown_trait: ZngurWellknownTrait,
    is_unsized: bool,
    base: Seq<char>,
) -> Seq<char> {
    let shown = if is_unsized {
        "&"@ + ty.text()
    } else {
        ty.text()
    };
    match wellknown_data(ty, wellknown_trait, base) {
        WellknownModel::Drop { drop_in_place } => filled(
            DROP_SHIM@,
            seq![drop_in_place, ty.text()],
        ),
        WellknownModel::Debug { pretty_print, debug_print } => filled(
            PRETTY_PRINT_SHIM@,
            seq![pretty_print, shown],
        ) + filled(DEBUG_PRINT_SHIM@, seq![debug_print, shown]),
        _ => Seq::empty(),
    }
}

/// The bounds of a future that is `Send` and `Sync`.
pub open spec fn send_sync_bound(is_send_sync: bool) -> Seq<char> {
    if is_send_sync {
        " + Send + Sync"@
    } else {
        ""@
    }
}

/// The Rust half of the support for futures of one output.
pub open spec fn shim_text(s: ShimModel) -> Seq<char> {
    filled(
        FUTURE_SHIM_OPEN@,
        seq![
            s.poll_future_fn,
            s.rust_output.text(),
            send_sync_bound(s.is_send_sync),
            s.coro_poll_fn,
            s.coro_destroy_fn,
            s.make_coro_future_fn,
        ],
    ) + (if s.is_send_sync {
        "    unsafe impl Send for CoroState {} unsafe impl Sync for CoroState {}\n"@
    } else {
        ""@
    }) + filled(
        FUTURE_SHIM_CLOSE@,
        seq![s.rust_output.text(), send_sync_bound(s.is_send_sync)],
    )
}

/// The Rust half of the coroutine support.
pub open spec fn coro_text(c: CoroModel) -> Seq<char> {
    filled(WAKER_SHIMS@, seq![c.clone_waker_fn, c.waker_wake_fn, c.waker_drop_fn]) + concat_all(
        Seq::new(c.shims.len(), |i: int| shim_text(c.shims[i])),
    )
}

/// How C++ holds values of a type.
pub open spec fn cpp_layout(ty: TypeModel, layout: LayoutPolicy, base: Seq<char>) -> CppLayoutModel {
    match layout {
        LayoutPolicy::StackAllocated { size, align } => CppLayoutModel::StackAllocated {
            size,
            align,
        },
        LayoutPolicy::Conservative { size, align } => CppLayoutModel::StackAllocated {
            size,
            align,
        },
        LayoutPolicy::HeapAllocated => CppLayoutModel::HeapAllocated {
            size_fn: mangled(ty.text() + "_size_fn"@, base),
            alloc_fn: mangled(ty.text() + "_alloc_fn"@, base),
            free_fn: mangled(ty.text() + "_free_fn"@, base),
        },
        LayoutPolicy::OnlyByRef => CppLayoutModel::OnlyByRef,
    }
}

/// What C++ needs in Rust to hold values of a type.
pub open spec fn layout_text(ty: TypeModel, layout: LayoutPolicy, base: Seq<char>) -> Seq<char> {
    match cpp_layout(ty, layout, base) {
        CppLayoutModel::HeapAllocated { size_fn, alloc_fn, free_fn } => filled(
            HEAP_SHIMS@,
            seq![size_fn, alloc_fn, free_fn, ty.text()],
        ),
        _ => Seq::empty(),
    }
}

fn make_extern_method_link(owner: &str, m: &ZngurMethod, base: &str) -> (r: String)
    ensures
        r@ == mangled(owner@ + "_extern_method_"@ + m.name@, base@),
{
    let mut name = String::from_str(owner);
    name.append("_extern_method_");
    name.append(m.name.as_str());
    mangle_name(name.as_str(), base)
}

/// Whether the inputs of each method can be counted with its receiver.
pub open spec fn countable(methods: Seq<MethodModel>) -> bool {
    forall|i: int| 0 <= i < methods.len() ==> (#[trigger] methods[i]).inputs.len() < usize::MAX
}

fn make_extern_method_decl(owner: &RustType, m: &ZngurMethod, base: &str) -> (r: String)
    requires
        m@.inputs.len() < usize::MAX,
    ensures
        r@ == extern_method_decl(owner@, m@, base@),
{
    let offset: usize = if m.receiver == ZngurMethodReceiver::Static {
        0
    } else {
        1
    };
    proof {
        assert(types_view(m.inputs@).len() == m.inputs@.len());
    }
    let raw = number_items("i", m.inputs.len() + offset, ": *mut u8, ");
    let owner_text = owner.to_text();
    let mut r = String::from_str("\n    fn ");
    r.append(make_extern_method_link(owner_text.as_str(), m, base).as_str());
    r.append("(");
    r.append(concat_strings(&raw).as_str());
    r.append("o: *mut u8);\n");
    r
}

fn make_extern_method(owner: &RustType, m: &ZngurMethod, inherent: bool, base: &str) -> (r: String)
    requires
        m@.inputs.len() < usize::MAX,
    ensures
        r@ == extern_method(owner@, m@, inherent, base@),
{
    let is_static = m.receiver == ZngurMethodReceiver::Static;
    let offset: usize = if is_static {
        0
    } else {
        1
    };
    let inputs = type_texts(&m.inputs);
    let count: usize = inputs.len();
    proof {
        assert(types_view(m.inputs@).len() == count);
    }
    let params = number_texts("i", offset, ": ", &inputs, ", ");
    let owner_text = owner.to_text();
    let mut call = make_extern_method_link(owner_text.as_str(), m, base);
    call.append("(");
    let mut r = String::from_str(
        if inherent {
            "pub "
        } else {
            ""
        },
    );
    r.append(
        if m.is_safe {
            ""
        } else {
            "unsafe "
        },
    );
    r.append("fn ");
    r.append(m.name.as_str());
    r.append("(");
    r.append(make_receiver(m.receiver));
    r.append(
        if is_static {
            ""
        } else {
            ", "
        },
    );
    r.append(concat_strings(&params).as_str());
    r.append(") -> ");
    r.append(m.output.to_text().as_str());
    r.append(" { unsafe {\n");
    r.append(
        if is_static {
            ""
        } else {
            "let i0 = self;\n"
        },
    );
    r.append(make_call(call.as_str(), count + offset).as_str());
    r.append("} }\n");
    r
}

fn make_impl_head(owner: &RustType, tr: &Option<RustTrait>) -> (r: String)
    ensures
        r@ == impl_head(owner@, opt_trait(*tr)),
{
    let mut r = String::from_str("impl ");
    match tr {
        Some(tr) => {
            let (bare, assocs) = tr.take_assocs();
            r.append(bare.to_text().as_str());
            r.append(" for ");
            r.append(owner.to_text().as_str());
            r.append(" {");
            r.append(make_assocs("type ", &assocs, ";").as_str());
        },
        None => {
            r.append(owner.to_text().as_str());
            r.append(" {");
        },
    }
    r
}

fn make_shim_text(s: &CoroFutureShim) -> (r: String)
    ensures
        r@ == shim_text(s@),
{
    let ty = s.rust_output.to_text();
    let bound = if s.is_send_sync {
        " + Send + Sync"
    } else {
        ""
    };
    let mut r = fill6(
        FUTURE_SHIM_OPEN,
        s.poll_future_fn.as_str(),
        ty.as_str(),
        bound,
        s.coro_poll_fn.as_str(),
        s.coro_destroy_fn.as_str(),
        s.make_coro_future_fn.as_str(),
    );
    r.append(
        if s.is_send_sync {
            "    unsafe impl Send for CoroState {} unsafe impl Sync for CoroState {}\n"
        } else {
            ""
        },
    );
    r.append(fill2(FUTURE_SHIM_CLOSE, ty.as_str(), bound).as_str());
    r
}

fn make_function_body(
    rust_name: &str,
    inputs: &Vec<String>,
    output: &RustType,
    returned: &str,
    use_path: &Option<Vec<String>>,
    deref: Option<Mutability>,
) -> (r: String)
    requires
        returned@ == returned_type(output@).text(),
    ensures
        forall|v: Seq<TypeModel>|
            types_text(v) == texts(inputs@) ==> r@ == #[trigger] function_body(
                rust_name@,
                v,
                output@,
                opt_texts(*use_path),
                deref,
            ),
{
    let is_impl = matches!(output, RustType::Impl(_, _));
    let mut r = match use_path {
        Some(path) => {
            let mut line = if path.len() > 0 && str_eq(path[0].as_str(), "crate") {
                String::from_str("    use ")
            } else {
                String::from_str("    use ::")
            };
            line.append(join(path, "::").as_str());
            line.append(";\n");
            line
        },
        None => String::from_str(""),
    };
    let count: usize = inputs.len();
    let reads = number_texts("(::std::ptr::read(i", 0, " as *mut ", inputs, ")), ");
    r.append("    ::std::ptr::write(o as *mut ");
    r.append(returned);
    r.append(", ");
    r.append(
        if is_impl {
            "Box::new( "
        } else {
            ""
        },
    );
    r.append(" ");
    r.append(rust_name);
    r.append("(");
    r.append(
        match deref {
            Some(Mutability::Mut) => "::std::ops::DerefMut::deref_mut",
            Some(Mutability::Not) => "::std::ops::Deref::deref",
            None => "",
        },
    );
    r.append(concat_strings(&reads).as_str());
    r.append(
        if is_impl {
            ")));\n"
        } else {
            "));\n"
        },
    );
    r
}

/// What a function returns to C++.
pub fn make_returned_type(output: &RustType) -> (r: RustType)
    ensures
        r@ == returned_type(output@),
{
    match output {
        RustType::Impl(tr, bounds) => {
            let object = RustType::Dyn(tr.copy(), strings_copy(bounds));
            proof {
                assert(object@ == TypeModel::Dyn(tr@, texts(bounds@)));
                assert(output@ == TypeModel::Impl(tr@, texts(bounds@)));
            }
            RustType::Boxed(Box::new(object))
        },
        _ => output.copy(),
    }
}

impl RustFile {
    /// Adds an implementation block that C++ writes, and returns the link names of
    /// its methods.
    pub fn add_extern_cpp_impl(
        &mut self,
        owner: &RustType,
        tr: &Option<RustTrait>,
        methods: &Vec<ZngurMethod>,
    ) -> (r: Vec<String>)
        requires
            countable(methods_view(methods@)),
        ensures
            extends(
                *old(self),
                *final(self),
                extern_impl_text(
                    owner@,
                    opt_trait(*tr),
                    methods_view(methods@),
                    old(self).mangling_base@,
                ),
            ),
            texts(r@) == extern_method_links(
                owner@,
                methods_view(methods@),
                old(self).mangling_base@,
            ),
    {
        let base = self.mangling_base.clone();
        let owner_text = owner.to_text();
        let ghost all = methods_view(methods@);
        let mut links: Vec<String> = Vec::new();
        let mut decls: Vec<String> = Vec::new();
        let mut bodies: Vec<String> = Vec::new();
        let inherent = tr.is_none();
        let mut i: usize = 0;
        while i < methods.len()
            invariant
                i <= methods.len(),
                all == methods_view(methods@),
                countable(all),
                owner_text@ == owner@.text(),
                links.len() == i,
                decls.len() == i,
                bodies.len() == i,
                forall|k: int|
                    0 <= k < i ==> (#[trigger] links@[k])@ == extern_method_link(
                        owner@,
                        all[k],
                        base@,
                    ),
                forall|k: int|
                    0 <= k < i ==> (#[trigger] decls@[k])@ == extern_method_decl(
                        owner@,
                        all[k],
                        base@,
                    ),
                forall|k: int|
                    0 <= k < i ==> (#[trigger] bodies@[k])@ == extern_method(
                        owner@,
                        all[k],
                        inherent,
                        base@,
                    ),
            decreases methods.len() - i,
        {
            let m = &methods[i];
            proof {
                assert(all[i as int] == m@);
            }
            links.push(make_extern_method_link(owner_text.as_str(), m, base.as_str()));
            decls.push(make_extern_method_decl(owner, m, base.as_str()));
            bodies.push(make_extern_method(owner, m, inherent, base.as_str()));
            i += 1;
        }
        proof {
            assert(texts(links@) =~= extern_method_links(owner@, all, base@));
            assert(texts(decls@) =~= extern_method_decls(owner@, all, base@));
            assert(texts(bodies@) =~= extern_methods(owner@, all, inherent, base@));
        }
        let mut text = String::from_str("unsafe extern \"C\" {");
        text.append(concat_strings(&decls).as_str());
        text.append("}");
        text.append(make_impl_head(owner, tr).as_str());
        text.append(concat_strings(&bodies).as_str());
        text.append("}");
        self.write(text.as_str());
        links
    }

    /// Adds a C++ function, and returns its link name.
    pub fn add_extern_cpp_function(
        &mut self,
        rust_name: &str,
        inputs: &Vec<RustType>,
        output: &RustType,
        is_safe: bool,
    ) -> (r: String)
        ensures
            extends(
                *old(self),
                *final(self),
                extern_fn_text(
                    rust_name@,
                    types_view(inputs@),
                    output@,
                    is_safe,
                    old(self).mangling_base@,
                ),
            ),
            r@ == mangled(rust_name@, old(self).mangling_base@),
    {
        let link = self.mangle_name(rust_name);
        let input_texts = type_texts(inputs);
        let count: usize = input_texts.len();
        proof {
            assert(types_view(inputs@).len() == count);
        }
        let raw = number_items("i", count, ": *mut u8, ");
        let params = number_texts("i", 0, ": ", &input_texts, ", ");
        let mut call = link.clone();
        call.append("(");
        let mut text = fill1(EXTERN_CPP_FN_OPEN, link.as_str());
        text.append(concat_strings(&raw).as_str());
        text.append("o: *mut u8); }\n");
        text.append("\n#[allow(non_snake_case)]\npub ");
        text.append(
            if is_safe {
                ""
            } else {
                "unsafe "
            },
        );
        text.append("fn ");
        text.append(rust_name);
        text.append("(");
        text.append(concat_strings(&params).as_str());
        text.append(") -> ");
        text.append(output.to_text().as_str());
        text.append(" { unsafe {\n");
        text.append(make_call(call.as_str(), count).as_str());
        text.append("} }\n");
        self.write(text.as_str());
        link
    }

    /// Adds the bridge to a type that wraps a C++ value, and returns its link name.
    pub fn add_cpp_value_bridge(&mut self, ty: &RustType) -> (r: String)
        ensures
            extends(
                *old(self),
                *final(self),
                filled(
                    CPP_VALUE_BRIDGE@,
                    seq![bridge_link(ty@, old(self).mangling_base@), ty@.text()],
                ),
            ),
            r@ == bridge_link(ty@, old(self).mangling_base@),
    {
        let ty_text = ty.to_text();
        let mut name = ty.to_text();
        name.append("_cpp_value");
        let link = self.mangle_name(name.as_str());
        self.write(fill2(CPP_VALUE_BRIDGE, link.as_str(), ty_text.as_str()).as_str());
        link
    }

    /// A body, with its panics caught where C++ has to know of them.
    pub fn wrap_in_catch_unwind(&self, body: &str) -> (r: String)
        ensures
            r@ == guarded(self.panic_to_exception, body@),
    {
        if !self.panic_to_exception {
            return String::from_str(body);
        }
        let mut r = String::from_str(CATCH_OPEN);
        r.append(body);
        r.append("});\n");
        r.append("if let Err(_) = e { __zngur_mark_panicked(); }\n");
        r
    }

    /// Adds the function that calls a Rust function for C++, and returns how C++
    /// calls it.
    pub fn add_function(
        &mut self,
        cxx_name: &str,
        rust_name: &str,
        inputs: &Vec<RustType>,
        output: &RustType,
        use_path: &Option<Vec<String>>,
        deref: Option<Mutability>,
        namespace: &str,
        crate_name: &str,
    ) -> (r: CppFnSig)
        requires
            all_convertible(types_view(inputs@), namespace@),
            convertible(returned_type(output@), namespace@),
        ensures
            extends(
                *old(self),
                *final(self),
                function_text(
                    function_link(
                        cxx_name@,
                        rust_name@,
                        types_view(inputs@),
                        deref is Some,
                        old(self).mangling_base@,
                    ),
                    inputs@.len(),
                    old(self).panic_to_exception,
                    function_body(
                        rust_name@,
                        types_view(inputs@),
                        output@,
                        opt_texts(*use_path),
                        deref,
                    ),
                ),
            ),
            r@ == (SigModel {
                rust_link_name: function_link(
                    cxx_name@,
                    rust_name@,
                    types_view(inputs@),
                    deref is Some,
                    old(self).mangling_base@,
                ),
                inputs: types_to_cpp(types_view(inputs@), namespace@, crate_name@),
                output: type_to_cpp(returned_type(output@), namespace@, crate_name@),
            }),
    {
        let mut name = String::from_str(cxx_name);
        name.append("=");
        name.append(rust_name);
        let mut link = self.mangle_name(name.as_str());
        link.append("_");
        link.append(hash_of_sig(inputs).as_str());
        if deref.is_some() {
            link.append("_deref");
        }
        let raw = number_items("i", inputs.len(), ": *mut u8, ");
        let returned = make_returned_type(output);
        let input_texts = type_texts(inputs);
        let body = make_function_body(
            rust_name,
            &input_texts,
            output,
            returned.to_text().as_str(),
            use_path,
            deref,
        );
        let mut text = fill1(FUNCTION_OPEN, link.as_str());
        text.append(concat_strings(&raw).as_str());
        text.append("o: *mut u8) { unsafe {\n");
        text.append(self.wrap_in_catch_unwind(body.as_str()).as_str());
        text.append(" } }\n");
        self.write(text.as_str());
        CppFnSig {
            rust_link_name: link,
            inputs: types_into_cpp(inputs, namespace, crate_name),
            output: returned.into_cpp(namespace, crate_name),
        }
    }

    /// Adds what a well-known trait of a type needs, and returns how C++ sees it.
    pub fn add_wellknown_trait(
        &mut self,
        ty: &RustType,
        wellknown_trait: ZngurWellknownTrait,
        is_unsized: bool,
    ) -> (r: ZngurWellknownTraitData)
        ensures
            extends(
                *old(self),
                *final(self),
                wellknown_text(ty@, wellknown_trait, is_unsized, old(self).mangling_base@),
            ),
            r@ == wellknown_data(ty@, wellknown_trait, old(self).mangling_base@),
    {
        let ty_text = ty.to_text();
        match wellknown_trait {
            ZngurWellknownTrait::Unsized => {
                self.write("");
                proof {
                    reveal_strlit("");
                    assert(""@ =~= Seq::<char>::empty());
                }
                ZngurWellknownTraitData::Unsized
            },
            ZngurWellknownTrait::Copy => {
                self.write("");
                proof {
                    reveal_strlit("");
                    assert(""@ =~= Seq::<char>::empty());
                }
                ZngurWellknownTraitData::Copy
            },
            ZngurWellknownTrait::Drop => {
                let mut name = ty.to_text();
                name.append("=drop_in_place");
                let drop_in_place = self.mangle_name(name.as_str());
                self.write(fill2(DROP_SHIM, drop_in_place.as_str(), ty_text.as_str()).as_str());
                ZngurWellknownTraitData::Drop { drop_in_place }
            },
            ZngurWellknownTrait::Debug => {
                let mut name = ty.to_text();
                name.append("=debug_pretty");
                let pretty_print = self.mangle_name(name.as_str());
                let mut name = ty.to_text();
                name.append("=debug_print");
                let debug_print = self.mangle_name(name.as_str());
                let shown = if is_unsized {
                    let mut s = String::from_str("&");
                    s.append(ty_text.as_str());
                    s
                } else {
                    ty_text
                };
                let mut text = fill2(PRETTY_PRINT_SHIM, pretty_print.as_str(), shown.as_str());
                text.append(
                    fill2(DEBUG_PRINT_SHIM, debug_print.as_str(), shown.as_str()).as_str(),
                );
                self.write(text.as_str());
                ZngurWellknownTraitData::Debug { pretty_print, debug_print }
            },
        }
    }

    /// Adds the Rust half of the coroutine support.
    pub fn add_coro_support(&mut self, coro: &CoroSupport)
        ensures
            extends(*old(self), *final(self), coro_text(coro@)),
    {
        let mut text = fill3(
            WAKER_SHIMS,
            coro.clone_waker_fn.as_str(),
            coro.waker_wake_fn.as_str(),
            coro.waker_drop_fn.as_str(),
        );
        let mut parts: Vec<String> = Vec::new();
        let ghost all = shims_view(coro.shims@);
        let mut i: usize = 0;
        while i < coro.shims.len()
            invariant
                i <= coro.shims.len(),
                all == shims_view(coro.shims@),
                parts.len() == i,
                forall|k: int| 0 <= k < i ==> (#[trigger] parts@[k])@ == shim_text(all[k]),
            decreases coro.shims.len() - i,
        {
            proof {
                assert(all[i as int] == coro.shims@[i as int]@);
            }
            parts.push(make_shim_text(&coro.shims[i]));
            i += 1;
        }
        proof {
            let c = coro@;
            assert(texts(parts@) =~= Seq::new(c.shims.len(), |i: int| shim_text(c.shims[i])));
        }
        text.append(concat_strings(&parts).as_str());
        self.write(text.as_str());
    }

    /// Adds what C++ needs to hold values of a type, and returns how it holds them.
    pub fn add_layout_policy_shim(&mut self, ty: &RustType, layout: LayoutPolicy) -> (r:
        CppLayoutPolicy)
        ensures
            extends(
                *old(self),
                *final(self),
                layout_text(ty@, layout, old(self).mangling_base@),
            ),
            r@ == cpp_layout(ty@, layout, old(self).mangling_base@),
    {
        proof {
            assert(self.text@ + Seq::<char>::empty() =~= self.text@);
        }
        match layout {
            LayoutPolicy::StackAllocated { size, align } => CppLayoutPolicy::StackAllocated {
                size,
                align,
            },
            LayoutPolicy::Conservative { size, align } => CppLayoutPolicy::StackAllocated {
                size,
                align,
            },
            LayoutPolicy::HeapAllocated => {
                let ty_text = ty.to_text();
                let mut name = ty.to_text();
                name.append("_size_fn");
                let size_fn = self.mangle_name(name.as_str());
                let mut name = ty.to_text();
                name.append("_alloc_fn");
                let alloc_fn = self.mangle_name(name.as_str());
                let mut name = ty.to_text();
                name.append("_free_fn");
                let free_fn = self.mangle_name(name.as_str());
                self.write(
                    fill4(
                        HEAP_SHIMS,
                        size_fn.as_str(),
                        alloc_fn.as_str(),
                        free_fn.as_str(),
                        ty_text.as_str(),
                    ).as_str(),
                );
                CppLayoutPolicy::HeapAllocated { size_fn, alloc_fn, free_fn }
            },
            LayoutPolicy::OnlyByRef => CppLayoutPolicy::OnlyByRef,
        }
    }
}

} // verus!
