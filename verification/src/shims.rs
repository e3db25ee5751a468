//! How C++ calls Rust: what the functions that stand between the two take, call
//! and give back, and that both halves mean the same ones.

use crate::cpp::{handle_keyword, path_from, CppTypeModel};
use crate::def::{FnModel, MethodDetailsModel, MethodModel, ZngurMethodReceiver};
use crate::halves::{
    cpp_of, fn_data, fn_function, method_data, method_function, method_rust_name, real_inputs,
    Setting,
};
use crate::holding::{
    holds, lemma_concat_in_order, lemma_filled_literal, lemma_filled_reaches, lemma_holds_both,
    lemma_holds_inside, lemma_holds_itself, lemma_holds_nothing, lemma_holds_one, lemma_holds_step,
    lemma_regroup,
};
use crate::into_cpp::named_in;
use crate::rust_file::{
    deref_text, function_body, function_link, function_text, guarded, returned_type, use_text,
};
use crate::rust_templates::{CATCH_OPEN, FUNCTION_OPEN};
use crate::rust_types::{types_text, Mutability, TypeModel};
use crate::text::{
    concat_all, dec_text, filled, filled_from, is_digit, join_text, numbered, numbered_items,
    occurs_at,
};
use vstd::prelude::*;

verus! {

proof fn lemma_open_template()
    ensures
        occurs_at(FUNCTION_OPEN@, "pub extern \"C\" fn "@, 71),
        FUNCTION_OPEN@[89] == '$',
        FUNCTION_OPEN@[90] == '0',
        occurs_at(FUNCTION_OPEN@, "("@, 91),
        !is_digit(FUNCTION_OPEN@[71]),
        "pub extern \"C\" fn "@.len() == 18,
        !"pub extern \"C\" fn "@.contains('$'),
        "("@.len() == 1,
        !"("@.contains('$'),
        FUNCTION_OPEN@.len() == 92,
{
    reveal_strlit(r#"
#[allow(non_snake_case)]
#[unsafe(no_mangle)]
#[allow(unused_parens)]
pub extern "C" fn $0("#);
    reveal_strlit("pub extern \"C\" fn ");
    reveal_strlit("(");
    assert(FUNCTION_OPEN@.subrange(71, 89) =~= "pub extern \"C\" fn "@);
    assert(FUNCTION_OPEN@.subrange(91, 92) =~= "("@);
}

proof fn lemma_open_0(args: Seq<Seq<char>>)
    requires
        args.len() == 1,
    ensures
        filled_from(FUNCTION_OPEN@, args, 71) == ("pub extern \"C\" fn "@ + args[0] + "("@) + filled_from(FUNCTION_OPEN@, args, 92),
{
    lemma_open_template();
    let t = FUNCTION_OPEN@;
    lemma_filled_literal(t, args, 71, "pub extern \"C\" fn "@);
    assert(filled_from(t, args, 89) == args[0] + filled_from(t, args, 91));
    lemma_filled_literal(t, args, 91, "("@);
    assert(filled_from(t, args, 71) =~= ("pub extern \"C\" fn "@ + args[0] + "("@) + filled_from(t, args, 92));
}

proof fn lemma_open(args: Seq<Seq<char>>)
    requires
        args.len() == 1,
    ensures
        holds(filled(FUNCTION_OPEN@, args), seq!["pub extern \"C\" fn "@ + args[0] + "("@]),
{
    lemma_open_template();
    let t = FUNCTION_OPEN@;
    let parts = seq!["pub extern \"C\" fn "@ + args[0] + "("@];
    lemma_holds_nothing(filled_from(t, args, 92), parts);
    lemma_open_0(args);
    let before = lemma_filled_reaches(t, args, 0, 71);
    lemma_holds_step(filled_from(t, args, 0), before, filled_from(t, args, 92), parts, 0);
    assert(parts.skip(0) =~= parts);
}

/// What a shim reads its inputs as, in their order.
pub open spec fn input_reads(inputs: Seq<TypeModel>) -> Seq<Seq<char>> {
    Seq::new(
        inputs.len(),
        |k: int|
            "(::std::ptr::read(i"@ + dec_text(k as nat) + " as *mut "@ + inputs[k].text() + ")), "@,
    )
}

/// The call of a Rust function reads each input as its type, in their order,
/// hands them to the function, and writes what it gives back as the output type;
/// `impl Trait` is boxed.
pub proof fn law_body_calls_with_inputs(
    rust_name: Seq<char>,
    inputs: Seq<TypeModel>,
    output: TypeModel,
    use_path: Option<Seq<Seq<char>>>,
    deref: Option<Mutability>,
)
    ensures
        holds(
            function_body(rust_name, inputs, output, use_path, deref),
            seq![
                "::std::ptr::write(o as *mut "@ + (match output {
                    TypeModel::Impl(tr, bounds) => TypeModel::Boxed(
                        Box::new(TypeModel::Dyn(tr, bounds)),
                    ).text(),
                    _ => output.text(),
                }) + ", "@ + (if output is Impl {
                    "Box::new( "@
                } else {
                    ""@
                }) + " "@ + rust_name + "("@ + (match deref {
                    Some(m) => if m == Mutability::Mut {
                        "::std::ops::DerefMut::deref_mut"@
                    } else {
                        "::std::ops::Deref::deref"@
                    },
                    None => ""@,
                }),
            ] + input_reads(inputs),
        ),
{
    let whole = function_body(rust_name, inputs, output, use_path, deref);
    let reads = numbered_items("(::std::ptr::read(i"@, 0, " as *mut "@, types_text(inputs), ")), "@);
    assert(reads =~= input_reads(inputs));
    lemma_concat_in_order(reads);
    let head = "::std::ptr::write(o as *mut "@ + returned_type(output).text() + ", "@ + (if output is Impl {
        "Box::new( "@
    } else {
        ""@
    }) + " "@ + rust_name + "("@ + deref_text(deref);
    let blank = "    "@;
    lemma_holds_itself(head);
    lemma_holds_both(head, seq![head], concat_all(reads), reads);
    let behind = if output is Impl {
        ")));\n"@
    } else {
        "));\n"@
    };
    lemma_write_line();
    lemma_body_grouped(
        use_text(use_path),
        blank,
        "::std::ptr::write(o as *mut "@,
        returned_type(output).text(),
        if output is Impl {
            "Box::new( "@
        } else {
            ""@
        },
        rust_name,
        deref_text(deref),
        concat_all(reads),
        behind,
    );
    lemma_holds_inside(
        whole,
        use_text(use_path) + blank,
        head + concat_all(reads),
        behind,
        seq![head] + reads,
    );
}

proof fn lemma_write_line()
    ensures
        "    ::std::ptr::write(o as *mut "@ == "    "@ + "::std::ptr::write(o as *mut "@,
{
    reveal_strlit("    ::std::ptr::write(o as *mut ");
    reveal_strlit("    ");
    reveal_strlit("::std::ptr::write(o as *mut ");
    assert("    ::std::ptr::write(o as *mut "@ =~= "    "@ + "::std::ptr::write(o as *mut "@);
}

proof fn lemma_body_grouped(
    a: Seq<char>,
    b: Seq<char>,
    c: Seq<char>,
    d: Seq<char>,
    e: Seq<char>,
    f: Seq<char>,
    g: Seq<char>,
    h: Seq<char>,
    i: Seq<char>,
)
    ensures
        a + (b + c) + d + ", "@ + e + " "@ + f + "("@ + g + h + i == (a + b) + (c + d + ", "@ + e
            + " "@ + f + "("@ + g + h) + i,
{
    assert(a + (b + c) + d + ", "@ + e + " "@ + f + "("@ + g + h + i =~= (a + b) + (c + d + ", "@
        + e + " "@ + f + "("@ + g + h) + i);
}

/// Where panics are converted a body runs inside `catch_unwind`, and a panic in
/// it is marked behind it; where they are not it stands as it is.
pub proof fn law_panics_are_caught(panic: bool, body: Seq<char>)
    ensures
        panic ==> holds(
            guarded(panic, body),
            seq![
                "::std::panic::catch_unwind(|| {\n"@ + body + "});\n"@,
                "if let Err(_) = e { __zngur_mark_panicked(); }\n"@,
            ],
        ),
        !panic ==> guarded(panic, body) == body,
{
    if panic {
        let open = "::std::panic::catch_unwind(|| {\n"@;
        let mark = "if let Err(_) = e { __zngur_mark_panicked(); }\n"@;
        let at = lemma_catch_open();
        let before = CATCH_OPEN@.take(at);
        assert(CATCH_OPEN@ =~= before + open);
        let parts = seq![open + body + "});\n"@, mark];
        lemma_holds_nothing(Seq::empty(), parts);
        assert(mark =~= Seq::<char>::empty() + (mark + Seq::<char>::empty()));
        lemma_holds_step(mark, Seq::empty(), Seq::empty(), parts, 1);
        assert(guarded(panic, body) =~= before + ((open + body + "});\n"@) + mark));
        lemma_holds_step(guarded(panic, body), before, mark, parts, 0);
        assert(parts.skip(0) =~= parts);
    }
}

proof fn lemma_catch_open() -> (at: int)
    ensures
        0 <= at <= CATCH_OPEN@.len(),
        CATCH_OPEN@.skip(at) == "::std::panic::catch_unwind(|| {\n"@,
{
    reveal_strlit(r#"unsafe extern "C" {
                fn __zngur_mark_panicked();   
            }
            let e = ::std::panic::catch_unwind(|| {
"#);
    reveal_strlit("::std::panic::catch_unwind(|| {\n");
    let at: int = 101;
    assert(CATCH_OPEN@.skip(at) =~= "::std::panic::catch_unwind(|| {\n"@);
    at
}

/// A shim is known by its link name, and takes a raw pointer for each input and
/// one for the output; behind that stands its body.
pub proof fn law_shim_has_its_link_name(link: Seq<char>, inputs: nat, panic: bool, body: Seq<char>)
    ensures
        holds(
            function_text(link, inputs, panic, body),
            seq!["pub extern \"C\" fn "@ + link + "("@] + Seq::new(
                inputs,
                |k: int| "i"@ + dec_text(k as nat) + ": *mut u8, "@,
            ) + seq!["o: *mut u8) { unsafe {\n"@ + guarded(panic, body) + " } }\n"@],
        ),
{
    let whole = function_text(link, inputs, panic, body);
    let open = filled(FUNCTION_OPEN@, seq![link]);
    lemma_open(seq![link]);
    let params = numbered("i"@, inputs, ": *mut u8, "@);
    let named = Seq::new(inputs, |k: int| "i"@ + dec_text(k as nat) + ": *mut u8, "@);
    assert(params =~= named);
    lemma_concat_in_order(params);
    let tail = "o: *mut u8) { unsafe {\n"@ + guarded(panic, body) + " } }\n"@;
    lemma_holds_itself(tail);
    let head = seq!["pub extern \"C\" fn "@ + link + "("@];
    lemma_holds_both(open, head, concat_all(params), named);
    lemma_holds_both(open + concat_all(params), head + named, tail, seq![tail]);
    lemma_regroup(open + concat_all(params), "o: *mut u8) { unsafe {\n"@, guarded(panic, body));
    lemma_regroup(
        open + concat_all(params),
        "o: *mut u8) { unsafe {\n"@ + guarded(panic, body),
        " } }\n"@,
    );
}

/// The type by which a shim takes the receiver of a method, as Rust writes it: a
/// reference with the mutability of the receiver, or the value.
pub open spec fn taken_receiver(r: ZngurMethodReceiver, ty: TypeModel) -> Seq<char> {
    match r {
        ZngurMethodReceiver::Ref(Mutability::Mut) => "&mut "@ + ty.text(),
        ZngurMethodReceiver::Ref(Mutability::Not) => "&"@ + ty.text(),
        _ => ty.text(),
    }
}

/// The C++ type by which a method takes its receiver.
pub open spec fn cpp_receiver(r: ZngurMethodReceiver, ty: TypeModel, s: Setting) -> CppTypeModel {
    let wrapped = |name: Seq<char>|
        CppTypeModel {
            path: path_from(s.namespace + "::"@ + name),
            generic_args: seq![cpp_of(ty, s)],
            tail: None,
        };
    match r {
        ZngurMethodReceiver::Ref(Mutability::Mut) => wrapped("RefMut"@),
        ZngurMethodReceiver::Ref(Mutability::Not) => wrapped("Ref"@),
        _ => cpp_of(ty, s),
    }
}

proof fn lemma_real_inputs(m: MethodModel, ty: TypeModel, s: Setting)
    ensures
        m.receiver == ZngurMethodReceiver::Static ==> real_inputs(m, ty) == m.inputs,
        m.receiver != ZngurMethodReceiver::Static ==> {
            &&& real_inputs(m, ty).len() == m.inputs.len() + 1
            &&& real_inputs(m, ty)[0].text() == taken_receiver(m.receiver, ty)
            &&& cpp_of(real_inputs(m, ty)[0], s) == cpp_receiver(m.receiver, ty, s)
            &&& forall|k: int|
                0 <= k < m.inputs.len() ==> (#[trigger] real_inputs(m, ty)[k + 1]) == m.inputs[k]
        },
{
    assert(named_in(s.namespace, "RefMut"@) == s.namespace + "::"@ + "RefMut"@);
    assert(named_in(s.namespace, "Ref"@) == s.namespace + "::"@ + "Ref"@);
    if let ZngurMethodReceiver::Ref(mu) = m.receiver {
        let t = TypeModel::Ref(mu, Box::new(ty));
        assert(crate::into_cpp::builtin(t) is None);
        assert(real_inputs(m, ty)[0] == t);
        assert(t.text() =~= taken_receiver(m.receiver, ty));
    }
}

/// C++ hands a method its receiver first, by `RefMut` for `&mut self`, by `Ref`
/// for `&self` and as a value for `self`, and then the declared inputs, each as
/// its C++ type; a function without a receiver takes the declared inputs alone.
pub proof fn law_methods_take_their_receiver(m: MethodDetailsModel, ty: TypeModel, s: Setting, k: int)
    requires
        0 <= k < m.data.inputs.len(),
    ensures
        m.data.receiver == ZngurMethodReceiver::Static ==> {
            let sig = method_data(m, ty, s).sig;
            sig.inputs.len() == m.data.inputs.len() && sig.inputs[k] == cpp_of(m.data.inputs[k], s)
        },
        m.data.receiver != ZngurMethodReceiver::Static ==> {
            let sig = method_data(m, ty, s).sig;
            &&& sig.inputs.len() == m.data.inputs.len() + 1
            &&& sig.inputs[k + 1] == cpp_of(m.data.inputs[k], s)
        },
{
    lemma_real_inputs(m.data, ty, s);
    if m.data.receiver != ZngurMethodReceiver::Static {
        assert(real_inputs(m.data, ty)[k + 1] == m.data.inputs[k]);
    }
}

/// The first C++ input of a method with a receiver is the receiver, by the kind
/// of reference that the method is declared with.
pub proof fn law_receiver_keeps_its_mutability(m: MethodDetailsModel, ty: TypeModel, s: Setting)
    requires
        m.data.receiver != ZngurMethodReceiver::Static,
    ensures
        method_data(m, ty, s).sig.inputs.len() == m.data.inputs.len() + 1,
        method_data(m, ty, s).sig.inputs[0] == cpp_receiver(m.data.receiver, ty, s),
        method_data(m, ty, s).kind == m.data.receiver,
{
    lemma_real_inputs(m.data, ty, s);
}

/// The shim of a method with a receiver is found under the link name that C++
/// calls, and reads its first input as the receiver: `&mut T` for `&mut self`,
/// `&T` for `&self`, and `T` for `self`.
pub proof fn law_shim_reads_the_receiver(m: MethodDetailsModel, ty: TypeModel, s: Setting)
    requires
        m.data.receiver != ZngurMethodReceiver::Static,
    ensures
        holds(
            method_function(m, ty, s),
            seq![
                "pub extern \"C\" fn "@ + method_data(m, ty, s).sig.rust_link_name + "("@,
                "(::std::ptr::read(i0 as *mut "@ + taken_receiver(m.data.receiver, ty) + ")), "@,
            ],
        ),
{
    let inputs = real_inputs(m.data, ty);
    lemma_real_inputs(m.data, ty, s);
    lemma_method_reads(m, ty, s, 0);
    lemma_zero();
    reveal_strlit("(::std::ptr::read(i");
    reveal_strlit("(::std::ptr::read(i0 as *mut ");
    reveal_strlit(" as *mut ");
    assert("(::std::ptr::read(i"@ + dec_text(0) + " as *mut "@ =~= "(::std::ptr::read(i0 as *mut "@);
}

proof fn lemma_zero()
    ensures
        dec_text(0) == seq!['0'],
{
}

/// The shim of a method is found under the link name that C++ calls, and reads
/// each declared input as its type, behind the receiver.
pub proof fn law_shim_reads_the_inputs(m: MethodDetailsModel, ty: TypeModel, s: Setting, k: int)
    requires
        0 <= k < m.data.inputs.len(),
    ensures
        holds(
            method_function(m, ty, s),
            seq![
                "pub extern \"C\" fn "@ + method_data(m, ty, s).sig.rust_link_name + "("@,
                "(::std::ptr::read(i"@ + dec_text(
                    (if m.data.receiver == ZngurMethodReceiver::Static {
                        k
                    } else {
                        k + 1
                    }) as nat,
                ) + " as *mut "@ + m.data.inputs[k].text() + ")), "@,
            ],
        ),
{
    lemma_real_inputs(m.data, ty, s);
    if m.data.receiver == ZngurMethodReceiver::Static {
        lemma_method_reads(m, ty, s, k);
    } else {
        assert(real_inputs(m.data, ty)[k + 1] == m.data.inputs[k]);
        lemma_method_reads(m, ty, s, k + 1);
    }
}

proof fn lemma_method_reads(m: MethodDetailsModel, ty: TypeModel, s: Setting, k: int)
    requires
        0 <= k < real_inputs(m.data, ty).len(),
    ensures
        holds(
            method_function(m, ty, s),
            seq![
                "pub extern \"C\" fn "@ + method_data(m, ty, s).sig.rust_link_name + "("@,
                input_reads(real_inputs(m.data, ty))[k],
            ],
        ),
{
    let inputs = real_inputs(m.data, ty);
    lemma_shim_reads(
        method_data(m, ty, s).sig.rust_link_name,
        s.panic,
        method_rust_name(m, ty),
        inputs,
        m.data.output,
        m.use_path,
        crate::halves::method_deref(m),
        k,
    );
}

proof fn lemma_shim_reads(
    link: Seq<char>,
    panic: bool,
    rust_name: Seq<char>,
    inputs: Seq<TypeModel>,
    output: TypeModel,
    use_path: Option<Seq<Seq<char>>>,
    deref: Option<Mutability>,
    k: int,
)
    requires
        0 <= k < inputs.len(),
    ensures
        holds(
            function_text(
                link,
                inputs.len(),
                panic,
                function_body(rust_name, inputs, output, use_path, deref),
            ),
            seq!["pub extern \"C\" fn "@ + link + "("@, input_reads(inputs)[k]],
        ),
{
    let body = function_body(rust_name, inputs, output, use_path, deref);
    let whole = function_text(link, inputs.len(), panic, body);
    let reads = numbered_items("(::std::ptr::read(i"@, 0, " as *mut "@, types_text(inputs), ")), "@);
    assert(reads =~= input_reads(inputs));
    let (a, b) = crate::holding::lemma_concat_holds(reads, k);
    let body_head = use_text(use_path) + "    ::std::ptr::write(o as *mut "@ + returned_type(output).text()
        + ", "@ + (if output is Impl {
        "Box::new( "@
    } else {
        ""@
    }) + " "@ + rust_name + "("@ + deref_text(deref);
    let body_tail = if output is Impl {
        ")));\n"@
    } else {
        "));\n"@
    };
    assert(body =~= (body_head + a) + (reads[k] + (b + body_tail)));
    lemma_holds_one(body, body_head + a, reads[k], b + body_tail);
    let open = filled(FUNCTION_OPEN@, seq![link]);
    lemma_open(seq![link]);
    let params = concat_all(numbered("i"@, inputs.len(), ": *mut u8, "@));
    let inside = params + "o: *mut u8) { unsafe {\n"@ + guarded(panic, body) + " } }\n"@;
    if panic {
        let behind = "});\n"@ + "if let Err(_) = e { __zngur_mark_panicked(); }\n"@ + " } }\n"@;
        let before = params + "o: *mut u8) { unsafe {\n"@ + CATCH_OPEN@;
        assert(inside =~= before + body + behind);
        lemma_holds_inside(inside, before, body, behind, seq![reads[k]]);
    } else {
        let before = params + "o: *mut u8) { unsafe {\n"@;
        assert(inside =~= before + body + " } }\n"@);
        lemma_holds_inside(inside, before, body, " } }\n"@, seq![reads[k]]);
    }
    let head = seq!["pub extern \"C\" fn "@ + link + "("@];
    lemma_holds_both(open, head, inside, seq![reads[k]]);
    assert(whole =~= open + inside);
    assert(head + seq![reads[k]] =~= seq!["pub extern \"C\" fn "@ + link + "("@, reads[k]]);
}

/// The function that calls a free function for C++ is found under the link name
/// that C++ calls, and reads each input as its declared type, which C++ hands it
/// as its C++ type.
pub proof fn law_function_reads_its_inputs(f: FnModel, s: Setting, k: int)
    requires
        0 <= k < f.inputs.len(),
    ensures
        fn_data(f, s).sig.inputs.len() == f.inputs.len(),
        fn_data(f, s).sig.inputs[k] == cpp_of(f.inputs[k], s),
        holds(
            fn_function(f, s),
            seq![
                "pub extern \"C\" fn "@ + fn_data(f, s).sig.rust_link_name + "("@,
                "(::std::ptr::read(i"@ + dec_text(k as nat) + " as *mut "@ + f.inputs[k].text()
                    + ")), "@,
            ],
        ),
{
    lemma_shim_reads(
        fn_data(f, s).sig.rust_link_name,
        s.panic,
        f.path.text(),
        f.inputs,
        f.output,
        None,
        None,
        k,
    );
}

/// C++ gets what a function gives back as its C++ type, and a boxed trait object
/// in place of `impl Trait`.
pub proof fn law_outputs_are_kept(f: FnModel, m: MethodDetailsModel, ty: TypeModel, s: Setting)
    ensures
        !(f.output is Impl) ==> fn_data(f, s).sig.output == cpp_of(f.output, s),
        !(m.data.output is Impl) ==> method_data(m, ty, s).sig.output == cpp_of(m.data.output, s),
        f.output matches TypeModel::Impl(tr, bounds) ==> fn_data(f, s).sig.output == cpp_of(
            TypeModel::Boxed(Box::new(TypeModel::Dyn(tr, bounds))),
            s,
        ),
        m.data.output matches TypeModel::Impl(tr, bounds) ==> method_data(m, ty, s).sig.output
            == cpp_of(TypeModel::Boxed(Box::new(TypeModel::Dyn(tr, bounds))), s),
{
}

/// What a shim needs is imported from the root, but for what is in the crate.
pub proof fn law_imports_start_at_the_root(path: Seq<Seq<char>>)
    requires
        path.len() > 0,
    ensures
        use_text(Some(path)) == "    use "@ + (if path[0] == "crate"@ {
            Seq::empty()
        } else {
            "::"@
        }) + join_text(path, "::"@) + ";\n"@,
        use_text(None).len() == 0,
{
    reveal_strlit("");
    reveal_strlit("    use ");
    reveal_strlit("    use ::");
    reveal_strlit("::");
    assert("    use ::"@ =~= "    use "@ + "::"@);
    assert("    use "@ + Seq::<char>::empty() =~= "    use "@);
}

/// A method that is reached through `deref` has a link name of its own, apart from
/// the same method without.
pub proof fn law_deref_links_apart(
    cxx_name: Seq<char>,
    rust_name: Seq<char>,
    inputs: Seq<TypeModel>,
    base: Seq<char>,
)
    ensures
        function_link(cxx_name, rust_name, inputs, true, base) == function_link(
            cxx_name,
            rust_name,
            inputs,
            false,
            base,
        ) + "_deref"@,
        function_link(cxx_name, rust_name, inputs, true, base) != function_link(
            cxx_name,
            rust_name,
            inputs,
            false,
            base,
        ),
{
    reveal_strlit("_deref");
    let a = function_link(cxx_name, rust_name, inputs, false, base);
    assert((a + "_deref"@).len() == a.len() + 6);
}

/// A method is called by its own name on its type, or on the type that `deref`
/// leads to, with its type arguments; C++ calls it by the name that is given for
/// it, or by its own.
pub proof fn law_methods_are_called_by_name(m: MethodDetailsModel, ty: TypeModel, s: Setting)
    ensures
        method_rust_name(m, ty) == "<"@ + (if m.deref is Some {
            (m.deref->0).0.text()
        } else {
            ty.text()
        }) + ">::"@ + m.data.name + "::<"@ + join_text(types_text(m.data.generics), ", "@) + ">"@,
        m.cpp_name matches Some(n) ==> method_data(m, ty, s).name == handle_keyword(n),
        m.cpp_name is None ==> method_data(m, ty, s).name == handle_keyword(m.data.name),
{
}

} // verus!
