//! The parts of the C++ header that are made of what the interface declares.

use crate::cpp::{
    closing_lines, cpp_handle_field_name, cpp_texts, cpp_type_texts, cpp_types_view,
    handle_field_name, opening_lines, CppType, CppTypeModel,
};
use crate::cpp_file::{
    exported_impls_view, fn_defs_view, is_unsized, named_sigs_view, trait_def_of, trait_defs_view,
    CppExportedImplDefinition, CppFile, CppFnDefinition, CppFnSig, CppMethod, CppMethodModel,
    CppTraitDefinition, CppTypeDefinition, ExportedImplModel, FnDefModel, NamedSigModel, PanicModel,
    SigModel, TraitDefModel, TypeDefModel,
};
use crate::cpp_templates::{
    BOX_FROM_CLOSURE, BOX_FROM_IMPL, FIELD_METHOD, FUNCTION, IMPL_METHOD, IMPL_OPEN, METHOD,
    OWNED_METHOD, PANIC_HANDLER, REF_FROM_IMPL, REF_METHOD,
};
use crate::def::{opt_trait, ZngurMethodReceiver};
use crate::rust_types::{Mutability, RustTrait, TraitModel};
use crate::text::{
    concat_all, concat_strings, drop_prefix, fill10, fill2, fill3, fill4, fill5, fill6,
    fill7, fill8, filled, items_numbered, join, join_text, number_items, numbered, occurs_at,
    starts_with, str_eq, texts, texts_numbered, without_prefix,
};
use vstd::prelude::*;

verus! {

broadcast use vstd::std_specs::vec::group_vec_axioms;

/// What the header is laid out from.
pub struct CppHeaderTemplate<'a> {
    pub file: &'a CppFile,
    pub namespace: &'a str,
}

/// What throws where Rust has panicked.
pub open spec fn panic_handler_text(panic: Option<PanicModel>, namespace: Seq<char>) -> Seq<char> {
    match panic {
        Some(p) => filled(PANIC_HANDLER@, seq![p.detect_panic, namespace]),
        None => ""@,
    }
}

/// The parameters of a function.
pub open spec fn params_text(inputs: Seq<CppTypeModel>) -> Seq<char> {
    join_text(items_numbered(""@, cpp_texts(inputs), " i"@, ""@), ", "@)
}

/// All but the first of a list.
pub open spec fn behind_first<T>(v: Seq<T>) -> Seq<T> {
    if v.len() == 0 {
        v
    } else {
        v.skip(1)
    }
}

/// What gives the inputs of a function up.
pub open spec fn deinit_text(inputs: nat, namespace: Seq<char>) -> Seq<char> {
    concat_all(
        numbered("::"@ + namespace + "::__zngur_internal_assume_deinit(i"@, inputs, "); "@),
    )
}

/// The inputs of a function as pointers.
pub open spec fn pointers_text(inputs: nat, namespace: Seq<char>) -> Seq<char> {
    if inputs == 0 {
        ""@
    } else {
        join_text(
            numbered("::"@ + namespace + "::__zngur_internal_data_ptr(i"@, inputs, ")"@),
            ", "@,
        ) + ", "@
    }
}

/// The inputs of a method but its receiver, moved.
pub open spec fn moved_text(inputs: nat) -> Seq<char> {
    concat_all(
        numbered(
            ", ::std::move(i"@,
            if inputs == 0 {
                0
            } else {
                (inputs - 1) as nat
            },
            ")"@,
        ),
    )
}

/// How a type is written without its first `::`.
pub open spec fn bare_name(ty: CppTypeModel) -> Seq<char> {
    without_prefix(ty.text(), "::"@)
}

/// How a method is called by its full name.
pub open spec fn method_name(ty: CppTypeModel, name: Seq<char>) -> Seq<char> {
    bare_name(ty) + "::"@ + name
}

/// A method on each kind of field or reference.
pub open spec fn methods_on(
    template: Seq<char>,
    kinds: Seq<Seq<char>>,
    ty: CppTypeModel,
    m: CppMethodModel,
    namespace: Seq<char>,
) -> Seq<Seq<char>> {
    Seq::new(
        kinds.len(),
        |i: int|
            filled(
                template,
                seq![
                    m.sig.output.text(),
                    namespace,
                    kinds[i],
                    ty.text(),
                    m.name,
                    params_text(behind_first(m.sig.inputs)),
                    method_name(ty, m.name),
                    moved_text(m.sig.inputs.len()),
                ],
            ),
    )
}

/// The kinds of fields that a method by reference can be called on.
pub open spec fn field_kinds(m: Mutability) -> Seq<Seq<char>> {
    if m == Mutability::Mut {
        seq!["FieldOwned"@, "FieldRefMut"@]
    } else {
        seq!["FieldOwned"@, "FieldRefMut"@, "FieldRef"@]
    }
}

/// The kinds of references that a method by reference can be called on.
pub open spec fn ref_kinds(m: Mutability) -> Seq<Seq<char>> {
    if m == Mutability::Mut {
        seq!["RefMut"@]
    } else {
        seq!["Ref"@, "RefMut"@]
    }
}

/// A method on a value of its type.
pub open spec fn owned_method(ty: CppTypeModel, m: CppMethodModel) -> Seq<char> {
    filled(
        OWNED_METHOD@,
        seq![
            m.sig.output.text(),
            method_name(ty, m.name),
            params_text(behind_first(m.sig.inputs)),
            if m.kind == ZngurMethodReceiver::Ref(Mutability::Not) {
                "const"@
            } else {
                ""@
            },
            if m.kind == ZngurMethodReceiver::Move {
                "::std::move(*this)"@
            } else {
                "*this"@
            },
            moved_text(m.sig.inputs.len()),
        ],
    )
}

/// A method, in all its forms: as a function, on fields and references where it
/// takes its receiver by reference, and on values where there are any.
pub open spec fn method_text(
    td: TypeDefModel,
    m: CppMethodModel,
    panic: Option<PanicModel>,
    namespace: Seq<char>,
) -> Seq<char> {
    filled(
        METHOD@,
        seq![
            m.sig.output.text(),
            method_name(td.ty, m.name),
            params_text(m.sig.inputs),
            deinit_text(m.sig.inputs.len(), namespace),
            m.sig.rust_link_name,
            pointers_text(m.sig.inputs.len(), namespace),
            namespace,
            panic_handler_text(panic, namespace),
        ],
    ) + (match m.kind {
        ZngurMethodReceiver::Ref(mutability) => concat_all(
            methods_on(FIELD_METHOD@, field_kinds(mutability), td.ty, m, namespace),
        ) + concat_all(methods_on(REF_METHOD@, ref_kinds(mutability), td.ty, m, namespace)),
        _ => ""@,
    }) + (if !is_unsized(td.wellknown_traits) && !(td.layout is OnlyByRef) && m.kind
        != ZngurMethodReceiver::Static {
        owned_method(td.ty, m)
    } else {
        ""@
    })
}

/// The methods of a type.
pub open spec fn type_methods_text(
    td: TypeDefModel,
    panic: Option<PanicModel>,
    namespace: Seq<char>,
) -> Seq<char> {
    concat_all(
        Seq::new(td.methods.len(), |i: int| method_text(td, td.methods[i], panic, namespace)),
    )
}

/// The C++ closure of a signature.
pub open spec fn std_function(sig: SigModel) -> Seq<char> {
    "::std::function< "@ + sig.output.text() + "("@ + join_text(cpp_texts(sig.inputs), ", "@)
        + ")>"@
}

/// What makes a boxed trait object of a type.
pub open spec fn from_trait_text(
    td: TypeDefModel,
    trait_defs: Seq<(TraitModel, TraitDefModel)>,
    namespace: Seq<char>,
) -> Seq<char> {
    match td.from_trait {
        Some(tr) => match trait_def_of(trait_defs, tr, 0) {
            Some(TraitDefModel::Fn { sig }) => filled(
                BOX_FROM_CLOSURE@,
                seq![
                    bare_name(td.ty),
                    std_function(sig),
                    namespace,
                    sig.rust_link_name,
                    if sig.inputs.len() == 0 {
                        ""@
                    } else {
                        join_text(numbered("uint8_t* i"@, sig.inputs.len(), ""@), ", "@) + ", "@
                    },
                    sig.output.text(),
                    join_text(
                        items_numbered(
                            "::"@ + namespace + "::__zngur_internal_move_from_rust< "@,
                            cpp_texts(sig.inputs),
                            " >(i"@,
                            ")"@,
                        ),
                        ", "@,
                    ),
                ],
            ),
            Some(TraitDefModel::Normal { as_ty, methods, link_name, link_name_ref }) => filled(
                BOX_FROM_IMPL@,
                seq![bare_name(td.ty), as_ty.text(), namespace, link_name],
            ),
            None => ""@,
        },
        None => ""@,
    }
}

/// What makes references to a trait object of a type.
pub open spec fn from_trait_ref_text(
    td: TypeDefModel,
    trait_defs: Seq<(TraitModel, TraitDefModel)>,
    namespace: Seq<char>,
) -> Seq<char> {
    match td.from_trait_ref {
        Some(tr) => match trait_def_of(trait_defs, tr, 0) {
            Some(TraitDefModel::Normal { as_ty, methods, link_name, link_name_ref }) => filled(
                REF_FROM_IMPL@,
                seq![namespace, "Ref"@, bare_name(td.ty), as_ty.text(), link_name_ref],
            ) + filled(
                REF_FROM_IMPL@,
                seq![namespace, "RefMut"@, bare_name(td.ty), as_ty.text(), link_name_ref],
            ),
            _ => ""@,
        },
        None => ""@,
    }
}

/// A function, in its namespaces.
pub open spec fn fn_dep_text(
    fd: FnDefModel,
    panic: Option<PanicModel>,
    namespace: Seq<char>,
) -> Seq<char> {
    filled(
        FUNCTION@,
        seq![
            join_text(opening_lines(fd.name.drop_last()), "\n"@),
            fd.sig.output.text(),
            fd.name.last(),
            params_text(fd.sig.inputs),
            deinit_text(fd.sig.inputs.len(), namespace),
            fd.sig.rust_link_name,
            pointers_text(fd.sig.inputs.len(), namespace),
            namespace,
            panic_handler_text(panic, namespace),
            join_text(closing_lines(fd.name.drop_last()), "\n"@),
        ],
    )
}

/// The functions of an interface.
pub open spec fn fn_deps_text(
    v: Seq<FnDefModel>,
    panic: Option<PanicModel>,
    namespace: Seq<char>,
) -> Seq<char> {
    concat_all(Seq::new(v.len(), |i: int| fn_dep_text(v[i], panic, namespace)))
}

/// The methods of an implementation block.
pub open spec fn impl_methods(v: Seq<NamedSigModel>) -> Seq<Seq<char>> {
    Seq::new(
        v.len(),
        |i: int|
            filled(
                IMPL_METHOD@,
                seq![v[i].sig.output.text(), v[i].name, params_text(v[i].sig.inputs)],
            ),
    )
}

/// The trait of an implementation block.
pub open spec fn impl_trait_text(tr: Option<CppTypeModel>, namespace: Seq<char>) -> Seq<char> {
    match tr {
        Some(tr) => tr.text(),
        None => "::"@ + namespace + "::Inherent"@,
    }
}

/// An implementation block.
pub open spec fn exported_impl_text(imp: ExportedImplModel, namespace: Seq<char>) -> Seq<char> {
    filled(IMPL_OPEN@, seq![imp.ty.text(), impl_trait_text(imp.tr, namespace)]) + concat_all(impl_methods(imp.methods)) + "  };\n"@
}

/// The implementation blocks of an interface.
pub open spec fn exported_impls_text(v: Seq<ExportedImplModel>, namespace: Seq<char>) -> Seq<char> {
    concat_all(Seq::new(v.len(), |i: int| exported_impl_text(v[i], namespace)))
}

fn make_params(inputs: &Vec<CppType>) -> (r: String)
    ensures
        r@ == params_text(cpp_types_view(inputs@)),
{
    let items = cpp_type_texts(inputs);
    let params = texts_numbered("", &items, " i", "");
    join(&params, ", ")
}

fn make_rest_params(inputs: &Vec<CppType>) -> (r: String)
    ensures
        r@ == params_text(behind_first(cpp_types_view(inputs@))),
{
    let items = cpp_type_texts(inputs);
    let ghost rest = behind_first(cpp_types_view(inputs@));
    let mut behind: Vec<String> = Vec::new();
    let mut i: usize = 1;
    while i < items.len()
        invariant
            1 <= i,
            i <= items.len() || items.len() == 0,
            texts(items@) == cpp_texts(cpp_types_view(inputs@)),
            items@.len() == inputs@.len(),
            behind@.len() == (if items@.len() == 0 {
                0
            } else {
                i - 1
            }),
            forall|k: int|
                0 <= k < behind@.len() ==> (#[trigger] behind@[k])@ == texts(items@)[k + 1],
        decreases items.len() - i,
    {
        behind.push(items[i].clone());
        i += 1;
    }
    proof {
        assert(texts(behind@) =~= cpp_texts(rest)) by {
            assert(rest.len() == behind@.len());
            assert forall|k: int| 0 <= k < behind@.len() implies #[trigger] texts(behind@)[k]
                == cpp_texts(rest)[k] by {
                assert(behind@[k]@ == cpp_texts(cpp_types_view(inputs@))[k + 1]);
                assert(rest[k] == cpp_types_view(inputs@)[k + 1]);
            }
        }
    }
    let params = texts_numbered("", &behind, " i", "");
    join(&params, ", ")
}

fn make_in_namespace(namespace: &str, name: &str) -> (r: String)
    ensures
        r@ == "::"@ + namespace@ + name@,
{
    let mut r = String::from_str("::");
    r.append(namespace);
    r.append(name);
    r
}

fn make_deinit(inputs: usize, namespace: &str) -> (r: String)
    ensures
        r@ == deinit_text(inputs as nat, namespace@),
{
    let prefix = make_in_namespace(namespace, "::__zngur_internal_assume_deinit(i");
    concat_strings(&number_items(prefix.as_str(), inputs, "); "))
}

fn make_pointers(inputs: usize, namespace: &str) -> (r: String)
    ensures
        r@ == pointers_text(inputs as nat, namespace@),
{
    if inputs == 0 {
        return String::from_str("");
    }
    let prefix = make_in_namespace(namespace, "::__zngur_internal_data_ptr(i");
    let mut r = join(&number_items(prefix.as_str(), inputs, ")"), ", ");
    r.append(", ");
    r
}

fn make_moved(inputs: usize) -> (r: String)
    ensures
        r@ == moved_text(inputs as nat),
{
    let count: usize = if inputs == 0 {
        0
    } else {
        inputs - 1
    };
    concat_strings(&number_items(", ::std::move(i", count, ")"))
}

fn make_bare_name(ty: &CppType) -> (r: String)
    ensures
        r@ == bare_name(ty@),
{
    drop_prefix(ty.to_text().as_str(), "::")
}

fn make_method_name(ty: &CppType, name: &str) -> (r: String)
    ensures
        r@ == method_name(ty@, name@),
{
    let mut r = make_bare_name(ty);
    r.append("::");
    r.append(name);
    r
}

fn make_methods_on(
    template: &str,
    kinds: &Vec<String>,
    ty: &CppType,
    m: &CppMethod,
    namespace: &str,
) -> (r: String)
    ensures
        r@ == concat_all(methods_on(template@, texts(kinds@), ty@, m@, namespace@)),
{
    let out = m.sig.output.to_text();
    let ty_text = ty.to_text();
    let params = make_rest_params(&m.sig.inputs);
    let name = make_method_name(ty, m.name.as_str());
    let moved = make_moved(m.sig.inputs.len());
    proof {
        assert(cpp_types_view(m.sig.inputs@).len() == m.sig.inputs@.len());
    }
    let mut parts: Vec<String> = Vec::new();
    let mut i: usize = 0;
    while i < kinds.len()
        invariant
            i <= kinds.len(),
            out@ == m@.sig.output.text(),
            ty_text@ == ty@.text(),
            params@ == params_text(behind_first(m@.sig.inputs)),
            name@ == method_name(ty@, m@.name),
            moved@ == moved_text(m@.sig.inputs.len()),
            parts.len() == i,
            forall|k: int|
                0 <= k < i ==> (#[trigger] parts@[k])@ == methods_on(
                    template@,
                    texts(kinds@),
                    ty@,
                    m@,
                    namespace@,
                )[k],
        decreases kinds.len() - i,
    {
        parts.push(
            fill8(
                template,
                out.as_str(),
                namespace,
                kinds[i].as_str(),
                ty_text.as_str(),
                m.name.as_str(),
                params.as_str(),
                name.as_str(),
                moved.as_str(),
            ),
        );
        i += 1;
    }
    proof {
        assert(texts(parts@) =~= methods_on(template@, texts(kinds@), ty@, m@, namespace@));
    }
    concat_strings(&parts)
}

fn make_field_kinds(m: Mutability) -> (r: Vec<String>)
    ensures
        texts(r@) == field_kinds(m),
{
    let mut r: Vec<String> = Vec::new();
    r.push(String::from_str("FieldOwned"));
    r.push(String::from_str("FieldRefMut"));
    if m == Mutability::Not {
        r.push(String::from_str("FieldRef"));
    }
    proof {
        assert(texts(r@) =~= field_kinds(m));
    }
    r
}

fn make_ref_kinds(m: Mutability) -> (r: Vec<String>)
    ensures
        texts(r@) == ref_kinds(m),
{
    let mut r: Vec<String> = Vec::new();
    if m == Mutability::Not {
        r.push(String::from_str("Ref"));
    }
    r.push(String::from_str("RefMut"));
    proof {
        assert(texts(r@) =~= ref_kinds(m));
    }
    r
}

fn make_owned_method(ty: &CppType, m: &CppMethod) -> (r: String)
    ensures
        r@ == owned_method(ty@, m@),
{
    proof {
        assert(cpp_types_view(m.sig.inputs@).len() == m.sig.inputs@.len());
    }
    let constness = if m.kind == ZngurMethodReceiver::Ref(Mutability::Not) {
        "const"
    } else {
        ""
    };
    let this_arg = if m.kind == ZngurMethodReceiver::Move {
        "::std::move(*this)"
    } else {
        "*this"
    };
    fill6(
        OWNED_METHOD,
        m.sig.output.to_text().as_str(),
        make_method_name(ty, m.name.as_str()).as_str(),
        make_rest_params(&m.sig.inputs).as_str(),
        constness,
        this_arg,
        make_moved(m.sig.inputs.len()).as_str(),
    )
}

fn find_trait_def<'a>(
    v: &'a Vec<(RustTrait, CppTraitDefinition)>,
    tr: &Option<RustTrait>,
) -> (r: Option<&'a CppTraitDefinition>)
    ensures
        match opt_trait(*tr) {
            Some(t) => match trait_def_of(trait_defs_view(v@), t, 0) {
                Some(d) => r matches Some(x) && x@ == d,
                None => r is None,
            },
            None => r is None,
        },
{
    match tr {
        Some(t) => {
            let mut i: usize = 0;
            while i < v.len()
                invariant
                    i <= v.len(),
                    trait_def_of(trait_defs_view(v@), t@, i as int) == trait_def_of(
                        trait_defs_view(v@),
                        t@,
                        0,
                    ),
                    opt_trait(*tr) == Some(t@),
                decreases v.len() - i,
            {
                proof {
                    assert(trait_defs_view(v@)[i as int] == (v@[i as int].0@, v@[i as int].1@));
                }
                if v[i].0.same_as(t) {
                    return Some(&v[i].1);
                }
                i += 1;
            }
            None
        },
        None => None,
    }
}

fn make_std_function(sig: &CppFnSig) -> (r: String)
    ensures
        r@ == std_function(sig@),
{
    let mut r = String::from_str("::std::function< ");
    r.append(sig.output.to_text().as_str());
    r.append("(");
    r.append(join(&cpp_type_texts(&sig.inputs), ", ").as_str());
    r.append(")>");
    r
}

fn make_impl_methods(v: &Vec<(String, CppFnSig)>) -> (r: String)
    ensures
        r@ == concat_all(impl_methods(named_sigs_view(v@))),
{
    let mut parts: Vec<String> = Vec::new();
    let mut i: usize = 0;
    while i < v.len()
        invariant
            i <= v.len(),
            parts.len() == i,
            forall|k: int|
                0 <= k < i ==> (#[trigger] parts@[k])@ == impl_methods(named_sigs_view(v@))[k],
        decreases v.len() - i,
    {
        proof {
            assert(named_sigs_view(v@)[i as int] == (NamedSigModel {
                name: v@[i as int].0@,
                sig: v@[i as int].1@,
            }));
        }
        parts.push(
            fill3(
                IMPL_METHOD,
                v[i].1.output.to_text().as_str(),
                v[i].0.as_str(),
                make_params(&v[i].1.inputs).as_str(),
            ),
        );
        i += 1;
    }
    proof {
        assert(texts(parts@) =~= impl_methods(named_sigs_view(v@)));
    }
    concat_strings(&parts)
}

fn make_exported_impl(imp: &CppExportedImplDefinition, namespace: &str) -> (r: String)
    ensures
        r@ == exported_impl_text(imp@, namespace@),
{
    let x = match &imp.tr {
        Some(tr) => tr.to_text(),
        None => make_in_namespace(namespace, "::Inherent"),
    };
    let mut r = fill2(IMPL_OPEN, imp.ty.to_text().as_str(), x.as_str());
    r.append(make_impl_methods(&imp.methods).as_str());
    r.append("  };\n");
    r
}

impl<'a> CppHeaderTemplate<'a> {
    /// A field name that C++ accepts.
    pub fn cpp_handle_field_name(&self, name: &str) -> (r: String)
        ensures
            r@ == handle_field_name(name@),
    {
        cpp_handle_field_name(name)
    }

    /// What throws where Rust has panicked.
    pub fn panic_handler(&self) -> (r: String)
        ensures
            r@ == panic_handler_text(self.file@.panic_to_exception, self.namespace@),
    {
        match &self.file.panic_to_exception {
            Some(p) => fill2(PANIC_HANDLER, p.detect_panic.as_str(), self.namespace),
            None => String::from_str(""),
        }
    }

    fn render_method(&self, td: &CppTypeDefinition, m: &CppMethod) -> (r: String)
        ensures
            r@ == method_text(td@, m@, self.file@.panic_to_exception, self.namespace@),
    {
        let count: usize = m.sig.inputs.len();
        proof {
            assert(cpp_types_view(m.sig.inputs@).len() == count);
        }
        let mut r = fill8(
            METHOD,
            m.sig.output.to_text().as_str(),
            make_method_name(&td.ty, m.name.as_str()).as_str(),
            make_params(&m.sig.inputs).as_str(),
            make_deinit(count, self.namespace).as_str(),
            m.sig.rust_link_name.as_str(),
            make_pointers(count, self.namespace).as_str(),
            self.namespace,
            self.panic_handler().as_str(),
        );
        let by_ref = match m.kind {
            ZngurMethodReceiver::Ref(mutability) => {
                let mut s = make_methods_on(
                    FIELD_METHOD,
                    &make_field_kinds(mutability),
                    &td.ty,
                    m,
                    self.namespace,
                );
                s.append(
                    make_methods_on(
                        REF_METHOD,
                        &make_ref_kinds(mutability),
                        &td.ty,
                        m,
                        self.namespace,
                    ).as_str(),
                );
                s
            },
            _ => String::from_str(""),
        };
        r.append(by_ref.as_str());
        if !td.has_unsized() && !td.layout.is_only_by_ref() && m.kind
            != ZngurMethodReceiver::Static {
            r.append(make_owned_method(&td.ty, m).as_str());
        } else {
            r.append("");
        }
        r
    }

    /// The methods of a type.
    pub fn render_type_methods(&self, td: &CppTypeDefinition) -> (r: String)
        ensures
            r@ == type_methods_text(td@, self.file@.panic_to_exception, self.namespace@),
    {
        let mut parts: Vec<String> = Vec::new();
        let ghost panic = self.file@.panic_to_exception;
        let ghost d = td@;
        let mut i: usize = 0;
        while i < td.methods.len()
            invariant
                i <= td.methods.len(),
                panic == self.file@.panic_to_exception,
                d == td@,
                parts.len() == i,
                forall|k: int|
                    0 <= k < i ==> (#[trigger] parts@[k])@ == method_text(
                        d,
                        d.methods[k],
                        panic,
                        self.namespace@,
                    ),
            decreases td.methods.len() - i,
        {
            proof {
                assert(d.methods[i as int] == td.methods@[i as int]@);
            }
            parts.push(self.render_method(td, &td.methods[i]));
            i += 1;
        }
        proof {
            assert(texts(parts@) =~= Seq::new(
                d.methods.len(),
                |i: int| method_text(d, d.methods[i], panic, self.namespace@),
            ));
        }
        concat_strings(&parts)
    }

    /// What makes a boxed trait object of a type.
    pub fn render_from_trait(&self, td: &CppTypeDefinition) -> (r: String)
        ensures
            r@ == from_trait_text(td@, self.file@.trait_defs, self.namespace@),
    {
        let name = make_bare_name(&td.ty);
        match find_trait_def(&self.file.trait_defs, &td.from_trait) {
            Some(CppTraitDefinition::Fn { sig }) => {
                let count: usize = sig.inputs.len();
                proof {
                    assert(cpp_types_view(sig.inputs@).len() == count);
                }
                let prefix = make_in_namespace(
                    self.namespace,
                    "::__zngur_internal_move_from_rust< ",
                );
                let items = cpp_type_texts(&sig.inputs);
                let taken = texts_numbered(prefix.as_str(), &items, " >(i", ")");
                let raw = if count == 0 {
                    String::from_str("")
                } else {
                    let mut s = join(&number_items("uint8_t* i", count, ""), ", ");
                    s.append(", ");
                    s
                };
                fill7(
                    BOX_FROM_CLOSURE,
                    name.as_str(),
                    make_std_function(sig).as_str(),
                    self.namespace,
                    sig.rust_link_name.as_str(),
                    raw.as_str(),
                    sig.output.to_text().as_str(),
                    join(&taken, ", ").as_str(),
                )
            },
            Some(CppTraitDefinition::Normal { as_ty, methods, link_name, link_name_ref }) => fill4(
                BOX_FROM_IMPL,
                name.as_str(),
                as_ty.to_text().as_str(),
                self.namespace,
                link_name.as_str(),
            ),
            None => String::from_str(""),
        }
    }

    /// What makes references to a trait object of a type.
    pub fn render_from_trait_ref(&self, td: &CppTypeDefinition) -> (r: String)
        ensures
            r@ == from_trait_ref_text(td@, self.file@.trait_defs, self.namespace@),
    {
        let name = make_bare_name(&td.ty);
        match find_trait_def(&self.file.trait_defs, &td.from_trait_ref) {
            Some(CppTraitDefinition::Normal { as_ty, methods, link_name, link_name_ref }) => {
                let mut r = fill5(
                    REF_FROM_IMPL,
                    self.namespace,
                    "Ref",
                    name.as_str(),
                    as_ty.to_text().as_str(),
                    link_name_ref.as_str(),
                );
                r.append(
                    fill5(
                        REF_FROM_IMPL,
                        self.namespace,
                        "RefMut",
                        name.as_str(),
                        as_ty.to_text().as_str(),
                        link_name_ref.as_str(),
                    ).as_str(),
                );
                r
            },
            _ => String::from_str(""),
        }
    }

    fn render_fn_dep(&self, fd: &CppFnDefinition) -> (r: String)
        requires
            fd@.name.len() > 0,
        ensures
            r@ == fn_dep_text(fd@, self.file@.panic_to_exception, self.namespace@),
    {
        let count: usize = fd.sig.inputs.len();
        proof {
            assert(cpp_types_view(fd.sig.inputs@).len() == count);
        }
        fill10(
            FUNCTION,
            fd.name.open_namespace().as_str(),
            fd.sig.output.to_text().as_str(),
            fd.name.name(),
            make_params(&fd.sig.inputs).as_str(),
            make_deinit(count, self.namespace).as_str(),
            fd.sig.rust_link_name.as_str(),
            make_pointers(count, self.namespace).as_str(),
            self.namespace,
            self.panic_handler().as_str(),
            fd.name.close_namespace().as_str(),
        )
    }

    /// The functions of the interface.
    pub fn render_fn_deps(&self) -> (r: String)
        requires
            forall|i: int|
                0 <= i < self.file@.fn_defs.len() ==> (#[trigger] self.file@.fn_defs[i]).name.len()
                    > 0,
        ensures
            r@ == fn_deps_text(
                self.file@.fn_defs,
                self.file@.panic_to_exception,
                self.namespace@,
            ),
    {
        let mut parts: Vec<String> = Vec::new();
        let ghost panic = self.file@.panic_to_exception;
        let ghost all = fn_defs_view(self.file.fn_defs@);
        proof {
            assert(all == self.file@.fn_defs);
        }
        let mut i: usize = 0;
        while i < self.file.fn_defs.len()
            invariant
                i <= self.file.fn_defs.len(),
                panic == self.file@.panic_to_exception,
                all == fn_defs_view(self.file.fn_defs@),
                forall|k: int| 0 <= k < all.len() ==> (#[trigger] all[k]).name.len() > 0,
                parts.len() == i,
                forall|k: int|
                    0 <= k < i ==> (#[trigger] parts@[k])@ == fn_dep_text(
                        all[k],
                        panic,
                        self.namespace@,
                    ),
            decreases self.file.fn_defs.len() - i,
        {
            proof {
                assert(all[i as int] == self.file.fn_defs@[i as int]@);
            }
            parts.push(self.render_fn_dep(&self.file.fn_defs[i]));
            i += 1;
        }
        proof {
            assert(texts(parts@) =~= Seq::new(
                all.len(),
                |i: int| fn_dep_text(all[i], panic, self.namespace@),
            ));
        }
        concat_strings(&parts)
    }

    /// The implementation blocks of the interface.
    pub fn render_exported_impls(&self) -> (r: String)
        ensures
            r@ == exported_impls_text(self.file@.exported_impls, self.namespace@),
    {
        let mut parts: Vec<String> = Vec::new();
        let ghost all = exported_impls_view(self.file.exported_impls@);
        let mut i: usize = 0;
        while i < self.file.exported_impls.len()
            invariant
                i <= self.file.exported_impls.len(),
                all == exported_impls_view(self.file.exported_impls@),
                parts.len() == i,
                forall|k: int|
                    0 <= k < i ==> (#[trigger] parts@[k])@ == exported_impl_text(
                        all[k],
                        self.namespace@,
                    ),
            decreases self.file.exported_impls.len() - i,
        {
            proof {
                assert(all[i as int] == self.file.exported_impls@[i as int]@);
            }
            parts.push(make_exported_impl(&self.file.exported_impls[i], self.namespace));
            i += 1;
        }
        proof {
            assert(texts(parts@) =~= Seq::new(
                all.len(),
                |i: int| exported_impl_text(all[i], self.namespace@),
            ));
        }
        concat_strings(&parts)
    }
}

/// What the header that all interfaces share is laid out from.
#[derive(Debug)]
pub struct ZngHeaderTemplate {
    pub panic_to_exception: bool,
    pub cpp_namespace: String,
}

/// The names of the C++ numbers but `size_t`.
pub open spec fn number_types() -> Seq<Seq<char>> {
    seq![
        "int8_t"@,
        "uint8_t"@,
        "int16_t"@,
        "uint16_t"@,
        "int32_t"@,
        "uint32_t"@,
        "int64_t"@,
        "uint64_t"@,
        "::double_t"@,
        "::float_t"@,
    ]
}

/// A type and the references to it.
pub open spec fn with_references(ty: Seq<char>, namespace: Seq<char>) -> Seq<Seq<char>> {
    seq![
        ty,
        "::"@ + namespace + "::Ref<"@ + ty + ">"@,
        "::"@ + namespace + "::RefMut<"@ + ty + ">"@,
    ]
}

/// The first `n` types, each with the references to it.
pub open spec fn all_with_references(v: Seq<Seq<char>>, n: nat, namespace: Seq<char>) -> Seq<
    Seq<char>,
>
    decreases n,
{
    if n == 0 || n > v.len() {
        Seq::empty()
    } else {
        all_with_references(v, (n - 1) as nat, namespace) + with_references(v[n - 1], namespace)
    }
}

/// The types that C++ has by itself.
pub open spec fn builtin_type_names(namespace: Seq<char>) -> Seq<Seq<char>> {
    all_with_references(number_types(), number_types().len(), namespace) + seq![
        "::"@ + namespace + "::ZngurCppOpaqueOwnedObject"@,
        "::size_t"@,
    ]
}

impl ZngHeaderTemplate {
    /// Whether a kind of reference is the shared one.
    pub fn is_ref_kind_ref(&self, ref_kind: &str) -> (r: bool)
        ensures
            r == (ref_kind@ == "Ref"@),
    {
        str_eq(ref_kind, "Ref")
    }

    /// Whether a type is `size_t`.
    pub fn is_size_t(&self, ty: &str) -> (r: bool)
        ensures
            r == (ty@ == "::size_t"@),
    {
        str_eq(ty, "::size_t")
    }

    /// Whether C++ can print values of a type.
    pub fn is_printable(&self, ty: &str) -> (r: bool)
        ensures
            r == (occurs_at(ty@, "int"@, 0) || occurs_at(ty@, "uint"@, 0) || occurs_at(
                ty@,
                "::size_t"@,
                0,
            ) || occurs_at(ty@, "::double"@, 0) || occurs_at(ty@, "::float"@, 0)),
    {
        starts_with(ty, "int") || starts_with(ty, "uint") || starts_with(ty, "::size_t")
            || starts_with(ty, "::double") || starts_with(ty, "::float")
    }

    /// The types that C++ has by itself.
    pub fn builtin_types(&self) -> (r: Vec<String>)
        ensures
            texts(r@) == builtin_type_names(self.cpp_namespace@),
    {
        let names: Vec<&str> = vec![
            "int8_t",
            "uint8_t",
            "int16_t",
            "uint16_t",
            "int32_t",
            "uint32_t",
            "int64_t",
            "uint64_t",
            "::double_t",
            "::float_t",
        ];
        let namespace = self.cpp_namespace.as_str();
        let ghost all = number_types();
        proof {
            assert(crate::text::slices(names@) =~= all);
        }
        let mut r: Vec<String> = Vec::new();
        let mut i: usize = 0;
        proof {
            assert(texts(r@) =~= Seq::empty());
        }
        while i < names.len()
            invariant
                i <= names.len(),
                all == number_types(),
                crate::text::slices(names@) == all,
                namespace@ == self.cpp_namespace@,
                texts(r@) == all_with_references(all, i as nat, namespace@),
            decreases names.len() - i,
        {
            proof {
                assert(all[i as int] == names@[i as int]@);
            }
            let ghost before = texts(r@);
            let mut shared = make_in_namespace(namespace, "::Ref<");
            shared.append(names[i]);
            shared.append(">");
            let mut unique = make_in_namespace(namespace, "::RefMut<");
            unique.append(names[i]);
            unique.append(">");
            r.push(String::from_str(names[i]));
            r.push(shared);
            r.push(unique);
            proof {
                assert(texts(r@) =~= before + with_references(all[i as int], namespace@));
            }
            i += 1;
        }
        let ghost before = texts(r@);
        let object = make_in_namespace(namespace, "::ZngurCppOpaqueOwnedObject");
        r.push(object);
        r.push(String::from_str("::size_t"));
        proof {
            assert(names@.len() == crate::text::slices(names@).len());
            assert(texts(r@) =~= before + seq![
                "::"@ + namespace@ + "::ZngurCppOpaqueOwnedObject"@,
                "::size_t"@,
            ]);
        }
        r
    }
}

} // verus!
