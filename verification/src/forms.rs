//! The forms in which C++ has a function: what each takes, what it hands to Rust,
//! and on which kinds of values it can be called.

use crate::cpp::{cpp_texts, CppTypeModel};
use crate::cpp_file::{
    is_unsized, trait_def_of, CppMethodModel, ExportedImplModel, PanicModel, TraitDefModel,
    TypeDefModel,
};
use crate::cpp_templates::{FIELD_METHOD, IMPL_OPEN, METHOD, REF_FROM_IMPL, REF_METHOD};
use crate::def::ZngurMethodReceiver;
use crate::filling::{
    lemma_box_from_closure, lemma_box_from_impl, lemma_field_method, lemma_impl_method,
    lemma_impl_open, lemma_owned_method, lemma_ref_from_impl, lemma_ref_method,
};
use crate::header::{
    bare_name, behind_first, deinit_text, exported_impl_text, field_kinds, from_trait_ref_text,
    from_trait_text, impl_methods, impl_trait_text, method_name, method_text, methods_on,
    moved_text, owned_method, panic_handler_text, params_text, pointers_text, ref_kinds,
    std_function,
};
use crate::holding::{
    holds, lemma_concat_holds, lemma_concat_in_order, lemma_holds_both, lemma_holds_inside,
    lemma_join_in_order,
};
use crate::rust_types::{Mutability, TraitModel};
use crate::text::{concat_all, dec_text, filled, items_numbered, join_text, numbered};
use vstd::prelude::*;

verus! {

/// A function takes each input by its C++ type, under a name of its own, in their
/// order.
pub proof fn law_parameters_stand_in_order(inputs: Seq<CppTypeModel>)
    ensures
        holds(
            params_text(inputs),
            Seq::new(inputs.len(), |k: int| inputs[k].text() + " i"@ + dec_text(k as nat)),
        ),
{
    let v = items_numbered(""@, cpp_texts(inputs), " i"@, ""@);
    let parts = Seq::new(inputs.len(), |k: int| inputs[k].text() + " i"@ + dec_text(k as nat));
    reveal_strlit("");
    assert forall|k: int| 0 <= k < v.len() implies #[trigger] v[k] == parts[k] by {
        assert(v[k] =~= parts[k]);
    }
    assert(v =~= parts);
    lemma_join_in_order(v, ", "@);
}

/// Rust is handed a pointer to each input, in their order, and each input is given
/// up.
pub proof fn law_inputs_are_handed_over_and_given_up(n: nat, namespace: Seq<char>)
    ensures
        holds(
            pointers_text(n, namespace),
            Seq::new(
                n,
                |k: int|
                    "::"@ + namespace + "::__zngur_internal_data_ptr(i"@ + dec_text(k as nat) + ")"@,
            ),
        ),
        holds(
            deinit_text(n, namespace),
            Seq::new(
                n,
                |k: int|
                    "::"@ + namespace + "::__zngur_internal_assume_deinit(i"@ + dec_text(k as nat)
                        + "); "@,
            ),
        ),
{
    let a = numbered("::"@ + namespace + "::__zngur_internal_data_ptr(i"@, n, ")"@);
    assert(a =~= Seq::new(
        n,
        |k: int| "::"@ + namespace + "::__zngur_internal_data_ptr(i"@ + dec_text(k as nat) + ")"@,
    ));
    lemma_join_in_order(a, ", "@);
    if n > 0 {
        let text = join_text(a, ", "@);
        assert(text + ", "@ =~= Seq::<char>::empty() + text + ", "@);
        lemma_holds_inside(text + ", "@, Seq::empty(), text, ", "@, a);
    } else {
        assert(a =~= Seq::empty());
    }
    let b = numbered("::"@ + namespace + "::__zngur_internal_assume_deinit(i"@, n, "); "@);
    assert(b =~= Seq::new(
        n,
        |k: int|
            "::"@ + namespace + "::__zngur_internal_assume_deinit(i"@ + dec_text(k as nat) + "); "@,
    ));
    lemma_concat_in_order(b);
}

/// A method on a value hands on all inputs but its receiver, in their order.
pub proof fn law_inputs_are_moved_on(n: nat)
    requires
        n > 0,
    ensures
        holds(
            moved_text(n),
            Seq::new((n - 1) as nat, |k: int| ", ::std::move(i"@ + dec_text(k as nat) + ")"@),
        ),
{
    let a = numbered(", ::std::move(i"@, (n - 1) as nat, ")"@);
    assert(a =~= Seq::new(
        (n - 1) as nat,
        |k: int| ", ::std::move(i"@ + dec_text(k as nat) + ")"@,
    ));
    lemma_concat_in_order(a);
}

/// A method that changes its receiver cannot be called on a shared reference or on
/// a field of one; one that does not can be called on whatever the other can, and
/// on those.
pub proof fn law_shared_references_are_not_changed(kind: Seq<char>)
    ensures
        !ref_kinds(Mutability::Mut).contains("Ref"@),
        !field_kinds(Mutability::Mut).contains("FieldRef"@),
        ref_kinds(Mutability::Mut).contains("RefMut"@),
        field_kinds(Mutability::Mut).contains("FieldOwned"@),
        field_kinds(Mutability::Mut).contains("FieldRefMut"@),
        ref_kinds(Mutability::Not).contains(kind) <==> ref_kinds(Mutability::Mut).contains(kind)
            || kind == "Ref"@,
        field_kinds(Mutability::Not).contains(kind) <==> field_kinds(Mutability::Mut).contains(kind)
            || kind == "FieldRef"@,
{
    reveal_strlit("Ref");
    reveal_strlit("RefMut");
    reveal_strlit("FieldRef");
    reveal_strlit("FieldRefMut");
    reveal_strlit("FieldOwned");
    assert("Ref"@.len() == 3 && "RefMut"@.len() == 6);
    assert("FieldRef"@.len() == 8 && "FieldRefMut"@.len() == 11 && "FieldOwned"@.len() == 10);
    let a = ref_kinds(Mutability::Mut);
    let b = ref_kinds(Mutability::Not);
    let c = field_kinds(Mutability::Mut);
    let d = field_kinds(Mutability::Not);
    assert(a[0] == "RefMut"@);
    assert(b[0] == "Ref"@ && b[1] == "RefMut"@);
    assert(c[0] == "FieldOwned"@ && c[1] == "FieldRefMut"@);
    assert(d[0] == "FieldOwned"@ && d[1] == "FieldRefMut"@ && d[2] == "FieldRef"@);
}

/// A method on a reference or a field: it takes all inputs but the receiver, and
/// calls the method with itself as the receiver.
pub open spec fn form_on(
    before: Seq<char>,
    after: Seq<char>,
    td: TypeDefModel,
    m: CppMethodModel,
    namespace: Seq<char>,
) -> Seq<char> {
    "inline "@ + m.sig.output.text() + " "@ + namespace + "::"@ + before + "< "@ + td.ty.text()
        + after + m.name + "(\n            "@ + params_text(behind_first(m.sig.inputs))
        + "\n        ) const noexcept {\n          return "@ + method_name(td.ty, m.name)
        + "(\n            *this\n            "@ + moved_text(m.sig.inputs.len())
}

proof fn lemma_on_reference(
    td: TypeDefModel,
    m: CppMethodModel,
    panic: Option<PanicModel>,
    namespace: Seq<char>,
    mu: Mutability,
    i: int,
)
    requires
        m.kind == ZngurMethodReceiver::Ref(mu),
        0 <= i < ref_kinds(mu).len(),
    ensures
        holds(
            method_text(td, m, panic, namespace),
            seq![form_on(ref_kinds(mu)[i], " >::"@, td, m, namespace)],
        ),
{
    let v = methods_on(REF_METHOD@, ref_kinds(mu), td.ty, m, namespace);
    let args = seq![
        m.sig.output.text(),
        namespace,
        ref_kinds(mu)[i],
        td.ty.text(),
        m.name,
        params_text(behind_first(m.sig.inputs)),
        method_name(td.ty, m.name),
        moved_text(m.sig.inputs.len()),
    ];
    lemma_ref_method(args);
    let part = seq![form_on(ref_kinds(mu)[i], " >::"@, td, m, namespace)];
    let (a, b) = lemma_concat_holds(v, i);
    lemma_holds_inside(concat_all(v), a, v[i], b, part);
    let f = concat_all(methods_on(FIELD_METHOD@, field_kinds(mu), td.ty, m, namespace));
    lemma_in_method(td, m, panic, namespace, f, concat_all(v), part);
}

proof fn lemma_on_field(
    td: TypeDefModel,
    m: CppMethodModel,
    panic: Option<PanicModel>,
    namespace: Seq<char>,
    mu: Mutability,
    i: int,
)
    requires
        m.kind == ZngurMethodReceiver::Ref(mu),
        0 <= i < field_kinds(mu).len(),
    ensures
        holds(
            method_text(td, m, panic, namespace),
            seq![form_on(field_kinds(mu)[i], ", Offset, Offsets... >::"@, td, m, namespace)],
        ),
{
    let v = methods_on(FIELD_METHOD@, field_kinds(mu), td.ty, m, namespace);
    let args = seq![
        m.sig.output.text(),
        namespace,
        field_kinds(mu)[i],
        td.ty.text(),
        m.name,
        params_text(behind_first(m.sig.inputs)),
        method_name(td.ty, m.name),
        moved_text(m.sig.inputs.len()),
    ];
    lemma_field_method(args);
    let part = seq![form_on(field_kinds(mu)[i], ", Offset, Offsets... >::"@, td, m, namespace)];
    let (a, b) = lemma_concat_holds(v, i);
    lemma_holds_inside(concat_all(v), a, v[i], b, part);
    let r = concat_all(methods_on(REF_METHOD@, ref_kinds(mu), td.ty, m, namespace));
    lemma_in_method_front(td, m, panic, namespace, concat_all(v), r, part);
}

spec fn method_head(td: TypeDefModel, m: CppMethodModel, panic: Option<PanicModel>, namespace: Seq<char>) -> Seq<char> {
    filled(
        METHOD@,
        seq![
            m.sig.output.text(),
            method_name(td.ty, m.name),
            params_text(m.sig.inputs),
            deinit_text(m.sig.inputs.len(), namespace),
            m.sig.rust_link_name,
            pointers_text(m.sig.inputs.len(), namespace),
            namespace,
            panic_handler_text(panic, namespace),
        ],
    )
}

spec fn method_tail(td: TypeDefModel, m: CppMethodModel) -> Seq<char> {
    if !is_unsized(td.wellknown_traits) && !(td.layout is OnlyByRef) && m.kind
        != ZngurMethodReceiver::Static {
        owned_method(td.ty, m)
    } else {
        ""@
    }
}

proof fn lemma_in_method(
    td: TypeDefModel,
    m: CppMethodModel,
    panic: Option<PanicModel>,
    namespace: Seq<char>,
    f: Seq<char>,
    r: Seq<char>,
    part: Seq<Seq<char>>,
)
    requires
        method_text(td, m, panic, namespace) == method_head(td, m, panic, namespace) + (f + r)
            + method_tail(td, m),
        holds(r, part),
    ensures
        holds(method_text(td, m, panic, namespace), part),
{
    let h = method_head(td, m, panic, namespace);
    let t = method_tail(td, m);
    assert(h + (f + r) + t =~= (h + f) + r + t);
    lemma_holds_inside(method_text(td, m, panic, namespace), h + f, r, t, part);
}

proof fn lemma_in_method_front(
    td: TypeDefModel,
    m: CppMethodModel,
    panic: Option<PanicModel>,
    namespace: Seq<char>,
    f: Seq<char>,
    r: Seq<char>,
    part: Seq<Seq<char>>,
)
    requires
        method_text(td, m, panic, namespace) == method_head(td, m, panic, namespace) + (f + r)
            + method_tail(td, m),
        holds(f, part),
    ensures
        holds(method_text(td, m, panic, namespace), part),
{
    let h = method_head(td, m, panic, namespace);
    let t = method_tail(td, m);
    assert(h + (f + r) + t =~= h + f + (r + t));
    lemma_holds_inside(method_text(td, m, panic, namespace), h, f, r + t, part);
}

/// A method by `&mut self` can be called on a `RefMut` and on fields of values and
/// of mutable references; one by `&self` on a `Ref` and fields of one as well.
pub proof fn law_methods_by_reference_have_forms(
    td: TypeDefModel,
    m: CppMethodModel,
    panic: Option<PanicModel>,
    namespace: Seq<char>,
    mu: Mutability,
)
    requires
        m.kind == ZngurMethodReceiver::Ref(mu),
    ensures
        ({
            let text = method_text(td, m, panic, namespace);
            let field = ", Offset, Offsets... >::"@;
            &&& holds(text, seq![form_on("RefMut"@, " >::"@, td, m, namespace)])
            &&& holds(text, seq![form_on("FieldOwned"@, field, td, m, namespace)])
            &&& holds(text, seq![form_on("FieldRefMut"@, field, td, m, namespace)])
            &&& mu == Mutability::Not ==> holds(
                text,
                seq![form_on("Ref"@, " >::"@, td, m, namespace)],
            ) && holds(text, seq![form_on("FieldRef"@, field, td, m, namespace)])
        }),
{
    lemma_on_field(td, m, panic, namespace, mu, 0);
    lemma_on_field(td, m, panic, namespace, mu, 1);
    lemma_on_reference(td, m, panic, namespace, mu, 0);
    if mu == Mutability::Not {
        lemma_on_reference(td, m, panic, namespace, mu, 1);
        lemma_on_field(td, m, panic, namespace, mu, 2);
    }
}

/// A method on a value: `const` exactly where it takes `&self`, and the value is
/// moved exactly where it takes `self`.
pub open spec fn form_on_value(td: TypeDefModel, m: CppMethodModel) -> Seq<char> {
    "inline "@ + m.sig.output.text() + " "@ + method_name(td.ty, m.name) + "(\n            "@
        + params_text(behind_first(m.sig.inputs)) + "\n      ) "@ + (match m.kind {
        ZngurMethodReceiver::Ref(mu) => if mu == Mutability::Mut {
            Seq::empty()
        } else {
            "const"@
        },
        _ => Seq::empty(),
    }) + " noexcept {\n        return "@ + method_name(td.ty, m.name) + "(\n          "@ + (
    match m.kind {
        ZngurMethodReceiver::Move => "::std::move(*this)"@,
        _ => "*this"@,
    }) + "\n          "@ + moved_text(m.sig.inputs.len())
}

/// A type that has values, and values of which can be held, has each method with a
/// receiver on its values.
pub proof fn law_values_have_methods(
    td: TypeDefModel,
    m: CppMethodModel,
    panic: Option<PanicModel>,
    namespace: Seq<char>,
)
    requires
        !is_unsized(td.wellknown_traits),
        !(td.layout is OnlyByRef),
        m.kind != ZngurMethodReceiver::Static,
    ensures
        holds(method_text(td, m, panic, namespace), seq![form_on_value(td, m)]),
{
    reveal_strlit("");
    assert(""@ =~= Seq::<char>::empty());
    let args = seq![
        m.sig.output.text(),
        method_name(td.ty, m.name),
        params_text(behind_first(m.sig.inputs)),
        if m.kind == ZngurMethodReceiver::Ref(Mutability::Not) {
            "const"@
        } else {
            ""@
        },
        if m.kind == ZngurMethodReceiver::Move {
            "::std::move(*this)"@
        } else {
            "*this"@
        },
        moved_text(m.sig.inputs.len()),
    ];
    lemma_owned_method(args);
    let text = method_text(td, m, panic, namespace);
    let owned = owned_method(td.ty, m);
    let mid = match m.kind {
        ZngurMethodReceiver::Ref(mutability) => concat_all(
            methods_on(FIELD_METHOD@, field_kinds(mutability), td.ty, m, namespace),
        ) + concat_all(methods_on(REF_METHOD@, ref_kinds(mutability), td.ty, m, namespace)),
        _ => ""@,
    };
    let before = method_head(td, m, panic, namespace) + mid;
    assert(text =~= before + owned + Seq::<char>::empty());
    lemma_holds_inside(text, before, owned, Seq::empty(), seq![form_on_value(td, m)]);
}

/// A type without a size, or one that is held by reference alone, has all forms of
/// a method but the one on values.
pub proof fn law_no_values_no_methods_on_them(
    td: TypeDefModel,
    without: TypeDefModel,
    m: CppMethodModel,
    panic: Option<PanicModel>,
    namespace: Seq<char>,
)
    requires
        !is_unsized(td.wellknown_traits) && !(td.layout is OnlyByRef),
        is_unsized(without.wellknown_traits) || without.layout is OnlyByRef,
        without.ty == td.ty,
        m.kind != ZngurMethodReceiver::Static,
    ensures
        method_text(td, m, panic, namespace) == method_text(without, m, panic, namespace)
            + owned_method(td.ty, m),
{
    reveal_strlit("");
    let short = method_text(without, m, panic, namespace);
    assert(short + ""@ =~= short);
    assert(method_text(td, m, panic, namespace) =~= short + owned_method(td.ty, m));
}

/// C++ makes a boxed closure through the function that the Rust half holds for its
/// trait, which gets the closure, what deletes it, and what calls it with all its
/// inputs.
pub proof fn law_boxed_closures_go_to_rust(
    td: TypeDefModel,
    trait_defs: Seq<(TraitModel, TraitDefModel)>,
    namespace: Seq<char>,
    tr: TraitModel,
)
    requires
        td.from_trait == Some(tr),
        trait_def_of(trait_defs, tr, 0) is Some,
        trait_def_of(trait_defs, tr, 0)->0 is Fn,
    ensures
        ({
            let sig = trait_def_of(trait_defs, tr, 0)->0->sig;
            let closure = std_function(sig);
            holds(
                from_trait_text(td, trait_defs, namespace),
                seq![
                    "inline "@ + bare_name(td.ty) + " "@ + bare_name(td.ty) + "::make_box("@
                        + closure + " f) {"@,
                    sig.rust_link_name
                        + " (\n        reinterpret_cast<uint8_t*>(__zngur_data),\n        [](uint8_t *d) { delete reinterpret_cast< "@
                        + closure + "*>(d); },\n        [](uint8_t *d, "@ + (if sig.inputs.len()
                        == 0 {
                        ""@
                    } else {
                        join_text(numbered("uint8_t* i"@, sig.inputs.len(), ""@), ", "@) + ", "@
                    }) + " uint8_t* o) {"@,
                    sig.output.text() + " oo = (*dd)("@ + join_text(
                        items_numbered(
                            "::"@ + namespace + "::__zngur_internal_move_from_rust< "@,
                            cpp_texts(sig.inputs),
                            " >(i"@,
                            ")"@,
                        ),
                        ", "@,
                    ) + ");"@,
                    "__zngur_internal_move_to_rust< "@ + sig.output.text() + " >(o, oo);"@,
                ],
            )
        }),
{
    let sig = trait_def_of(trait_defs, tr, 0)->0->sig;
    let args = seq![
        bare_name(td.ty),
        std_function(sig),
        namespace,
        sig.rust_link_name,
        if sig.inputs.len() == 0 {
            ""@
        } else {
            join_text(numbered("uint8_t* i"@, sig.inputs.len(), ""@), ", "@) + ", "@
        },
        sig.output.text(),
        join_text(
            items_numbered(
                "::"@ + namespace + "::__zngur_internal_move_from_rust< "@,
                cpp_texts(sig.inputs),
                " >(i"@,
                ")"@,
            ),
            ", "@,
        ),
    ];
    lemma_box_from_closure(args);
}

/// C++ makes boxed trait objects through the function that the Rust half holds for
/// the trait.
pub proof fn law_boxed_objects_go_to_rust(
    td: TypeDefModel,
    trait_defs: Seq<(TraitModel, TraitDefModel)>,
    namespace: Seq<char>,
    tr: TraitModel,
)
    requires
        td.from_trait == Some(tr),
        trait_def_of(trait_defs, tr, 0) is Some,
        trait_def_of(trait_defs, tr, 0)->0 is Normal,
    ensures
        ({
            let d = trait_def_of(trait_defs, tr, 0)->0;
            holds(
                from_trait_text(td, trait_defs, namespace),
                seq![
                    bare_name(td.ty) + " "@ + bare_name(td.ty) + "::make_box(Args&&... args) {"@,
                    "dynamic_cast< "@ + d->as_ty.text() + "*>(__zngur_data);"@,
                    d->link_name
                        + " (\n        reinterpret_cast<uint8_t*>(data_as_impl),\n        [](uint8_t *d) { delete reinterpret_cast< "@
                        + d->as_ty.text() + "*>(d); },"@,
                ],
            )
        }),
{
    let d = trait_def_of(trait_defs, tr, 0)->0;
    lemma_box_from_impl(seq![bare_name(td.ty), d->as_ty.text(), namespace, d->link_name]);
}

/// C++ makes references to trait objects, shared and mutable ones, through the
/// function that the Rust half holds for references to the trait.
pub proof fn law_references_to_objects_go_to_rust(
    td: TypeDefModel,
    trait_defs: Seq<(TraitModel, TraitDefModel)>,
    namespace: Seq<char>,
    tr: TraitModel,
)
    requires
        td.from_trait_ref == Some(tr),
        trait_def_of(trait_defs, tr, 0) is Some,
        trait_def_of(trait_defs, tr, 0)->0 is Normal,
    ensures
        ({
            let d = trait_def_of(trait_defs, tr, 0)->0;
            holds(
                from_trait_ref_text(td, trait_defs, namespace),
                reference_parts(namespace, "Ref"@, bare_name(td.ty), d->as_ty.text(), d->link_name_ref)
                    + reference_parts(
                    namespace,
                    "RefMut"@,
                    bare_name(td.ty),
                    d->as_ty.text(),
                    d->link_name_ref,
                ),
            )
        }),
{
    let d = trait_def_of(trait_defs, tr, 0)->0;
    let a = seq![namespace, "Ref"@, bare_name(td.ty), d->as_ty.text(), d->link_name_ref];
    let b = seq![namespace, "RefMut"@, bare_name(td.ty), d->as_ty.text(), d->link_name_ref];
    lemma_ref_from_impl(a);
    lemma_ref_from_impl(b);
    lemma_holds_both(
        filled(REF_FROM_IMPL@, a),
        reference_parts(namespace, a[1], a[2], a[3], a[4]),
        filled(REF_FROM_IMPL@, b),
        reference_parts(namespace, b[1], b[2], b[3], b[4]),
    );
}

/// What makes one kind of reference to a trait object.
pub open spec fn reference_parts(
    namespace: Seq<char>,
    kind: Seq<char>,
    ty: Seq<char>,
    class: Seq<char>,
    link: Seq<char>,
) -> Seq<Seq<char>> {
    seq![
        namespace + "::"@ + kind + "< "@ + ty + " >::"@ + kind + "("@ + class + "& args) {"@,
        link + "(\n          (uint8_t *)data_as_impl,"@,
    ]
}

/// What the class of an implementation block holds of a method.
pub open spec fn class_parts(imp: ExportedImplModel, namespace: Seq<char>, i: int) -> Seq<Seq<char>> {
    seq![
        "class Impl< "@ + imp.ty.text() + ", "@ + class_trait(imp, namespace)
            + " > {\n    public:\n"@,
        "static "@ + imp.methods[i].sig.output.text() + " "@ + imp.methods[i].name
            + "(\n          "@ + params_text(imp.methods[i].sig.inputs) + "\n        );"@,
    ]
}

/// The trait of a class: that of the block, or the stand-in for none.
pub open spec fn class_trait(imp: ExportedImplModel, namespace: Seq<char>) -> Seq<char> {
    match imp.tr {
        Some(t) => t.text(),
        None => "::"@ + namespace + "::Inherent"@,
    }
}

/// An implementation block is a class of its type and trait, or of no trait, with
/// each of its methods.
pub proof fn law_implementation_blocks_have_classes(imp: ExportedImplModel, namespace: Seq<char>, i: int)
    requires
        0 <= i < imp.methods.len(),
    ensures
        holds(exported_impl_text(imp, namespace), class_parts(imp, namespace, i)),
{
    let tr = class_trait(imp, namespace);
    assert(impl_trait_text(imp.tr, namespace) == tr);
    let open = filled(IMPL_OPEN@, seq![imp.ty.text(), tr]);
    let v = impl_methods(imp.methods);
    lemma_impl_open(seq![imp.ty.text(), tr]);
    let m = imp.methods[i];
    lemma_impl_method(seq![m.sig.output.text(), m.name, params_text(m.sig.inputs)]);
    let head = class_parts(imp, namespace, i)[0];
    let part = class_parts(imp, namespace, i)[1];
    let (a, b) = lemma_concat_holds(v, i);
    lemma_holds_inside(concat_all(v), a, v[i], b, seq![part]);
    lemma_holds_both(open, seq![head], concat_all(v), seq![part]);
    let text = open + concat_all(v);
    assert(exported_impl_text(imp, namespace) =~= Seq::<char>::empty() + text + "  };\n"@);
    lemma_holds_inside(
        exported_impl_text(imp, namespace),
        Seq::empty(),
        text,
        "  };\n"@,
        seq![head] + seq![part],
    );
    assert(seq![head] + seq![part] =~= class_parts(imp, namespace, i));
}

} // verus!
