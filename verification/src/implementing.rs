//! How Rust calls C++: what the methods and functions that C++ implements take and
//! hand over.

use crate::def::{
    ExternCppFnModel, MethodDetailsModel, MethodModel, SpecModel, ZngurMethodReceiver,
    ZngurTraitModel, ZngurTypeModel,
};
use crate::filling::{
    lemma_cpp_fn_open, lemma_trait_box_close, lemma_trait_box_open, lemma_trait_ref_close,
    lemma_trait_ref_open,
};
use crate::halves::{
    after_types, before_types, cpp_half, cpp_of, extern_fn_data, impl_data, impl_method_data,
    method_data, rust_half, Progress, Setting,
};
use crate::holding::{
    holds, lemma_concat_holds, lemma_concat_in_order, lemma_holds_both, lemma_holds_inside,
    lemma_holds_itself, lemma_join_in_order, lemma_regroup,
};
use crate::linking::{
    lemma_half_has_extern_fn, lemma_half_has_extern_impl, lemma_half_has_trait, lemma_inside_holds,
};
use crate::mangle::mangled;
use crate::rust_file::{
    assoc_texts, call_text, extern_fn_text, extern_impl_text, extern_method, extern_method_decl,
    extern_method_decls, extern_method_link, extern_methods, first_input, forwarding_method,
    forwarding_methods, impl_head, input_count, method_decls, method_link, method_links,
    receiver_text, trait_box_text, trait_builder_text, trait_def, trait_ref_text,
};
use crate::rust_templates::{
    EXTERN_CPP_FN_OPEN, TRAIT_BOX_CLOSE, TRAIT_BOX_OPEN, TRAIT_REF_CLOSE, TRAIT_REF_OPEN,
};
use crate::rust_types::{types_text, Mutability, TraitModel, TypeModel};
use crate::shims::{cpp_receiver, law_receiver_keeps_its_mutability};
use crate::text::{
    concat_all, dec_text, filled, join_text, numbered, numbered_items, numbered_twice,
};
use vstd::prelude::*;

verus! {

/// Receivers of different kinds are written differently, each ends in `self`, one
/// by reference starts with `&` and one by value holds none.
pub proof fn law_receivers_are_told_apart(a: ZngurMethodReceiver, b: ZngurMethodReceiver)
    ensures
        receiver_text(a) == receiver_text(b) ==> a == b,
        a == ZngurMethodReceiver::Move ==> receiver_text(a) == "self"@ && !receiver_text(
            a,
        ).contains('&'),
        a matches ZngurMethodReceiver::Ref(m) ==> receiver_text(a) == (if m == Mutability::Mut {
            "&mut "@
        } else {
            "&"@
        }) + "self"@,
        a == ZngurMethodReceiver::Static <==> receiver_text(a).len() == 0,
{
    reveal_strlit("");
    reveal_strlit("self");
    reveal_strlit("&self");
    reveal_strlit("&mut self");
    reveal_strlit("&mut ");
    reveal_strlit("&");
    assert("&mut self"@ =~= "&mut "@ + "self"@);
    assert("&self"@ =~= "&"@ + "self"@);
    assert("&self"@.len() == 5 && "&mut self"@.len() == 9 && "self"@.len() == 4);
}

/// What the parameters of a method of an implementation block are, behind its
/// name: the receiver as it is declared, then the inputs, each with its type.
pub open spec fn declared_head(m: MethodModel) -> Seq<char> {
    "fn "@ + m.name + "("@ + (match m.receiver {
        ZngurMethodReceiver::Static => Seq::empty(),
        ZngurMethodReceiver::Move => "self, "@,
        ZngurMethodReceiver::Ref(mu) => if mu == Mutability::Mut {
            "&mut self, "@
        } else {
            "&self, "@
        },
    })
}

/// The raw pointers to the first `n` inputs, as they are handed to C++.
pub open spec fn pointers(n: nat) -> Seq<Seq<char>> {
    Seq::new(n, |k: int| "i"@ + dec_text(k as nat) + ".as_mut_ptr() as *mut u8, "@)
}

proof fn lemma_receiver_words()
    ensures
        "self"@ + ", "@ == "self, "@,
        "&self"@ + ", "@ == "&self, "@,
        "&mut self"@ + ", "@ == "&mut self, "@,
        ""@ == Seq::<char>::empty(),
{
    reveal_strlit("");
    reveal_strlit(", ");
    reveal_strlit("self");
    reveal_strlit("&self");
    reveal_strlit("&mut self");
    reveal_strlit("self, ");
    reveal_strlit("&self, ");
    reveal_strlit("&mut self, ");
    assert("self"@ + ", "@ =~= "self, "@);
    assert("&self"@ + ", "@ =~= "&self, "@);
    assert("&mut self"@ + ", "@ =~= "&mut self, "@);
    assert(""@ =~= Seq::<char>::empty());
}

proof fn lemma_head(m: MethodModel)
    ensures
        "fn "@ + m.name + "("@ + receiver_text(m.receiver) + (if m.receiver
            == ZngurMethodReceiver::Static {
            ""@
        } else {
            ", "@
        }) == declared_head(m),
{
    lemma_receiver_words();
    let a = "fn "@ + m.name + "("@;
    let r = receiver_text(m.receiver);
    lemma_regroup(
        a,
        r,
        if m.receiver == ZngurMethodReceiver::Static {
            ""@
        } else {
            ", "@
        },
    );
    if m.receiver == ZngurMethodReceiver::Static {
        assert(""@ + ""@ =~= Seq::<char>::empty());
    }
}

/// What is handed to C++: a pointer to each input, in their order, and one to the
/// place for the output, which is read behind the call.
pub proof fn law_calls_hand_over_all_inputs(call: Seq<char>, n: nat)
    ensures
        holds(
            call_text(call, n),
            Seq::new(
                n,
                |k: int|
                    "let mut i"@ + dec_text(k as nat) + " = ::core::mem::MaybeUninit::new(i"@
                        + dec_text(k as nat) + ");\n"@,
            ) + seq![call] + pointers(n) + seq![
                "r.as_mut_ptr() as *mut u8);\n"@ + "r.assume_init()\n"@,
            ],
        ),
{
    let moved = numbered_twice("let mut i"@, " = ::core::mem::MaybeUninit::new(i"@, n, ");\n"@);
    let named = Seq::new(
        n,
        |k: int|
            "let mut i"@ + dec_text(k as nat) + " = ::core::mem::MaybeUninit::new(i"@ + dec_text(
                k as nat,
            ) + ");\n"@,
    );
    assert(moved =~= named);
    lemma_concat_in_order(moved);
    let passed = numbered("i"@, n, ".as_mut_ptr() as *mut u8, "@);
    assert(passed =~= pointers(n));
    lemma_concat_in_order(passed);
    let place = "let mut r = ::core::mem::MaybeUninit::uninit();\n"@;
    let tail = "r.as_mut_ptr() as *mut u8);\n"@ + "r.assume_init()\n"@;
    lemma_holds_itself(call);
    lemma_holds_itself(tail);
    let a = concat_all(moved) + place;
    assert(a =~= Seq::<char>::empty() + concat_all(moved) + place);
    lemma_holds_inside(a, Seq::empty(), concat_all(moved), place, named);
    lemma_holds_both(a, named, call, seq![call]);
    lemma_holds_both(a + call, named + seq![call], concat_all(passed), pointers(n));
    lemma_holds_both(
        a + call + concat_all(passed),
        named + seq![call] + pointers(n),
        tail,
        seq![tail],
    );
    lemma_regroup(
        a + call + concat_all(passed),
        "r.as_mut_ptr() as *mut u8);\n"@,
        "r.assume_init()\n"@,
    );
}

/// A method that C++ implements is written with the receiver that it is declared
/// with and all its inputs, each with its type, gives back its output, and calls
/// the C++ function under its link name.
pub proof fn law_extern_method_is_as_declared(
    owner: TypeModel,
    m: MethodModel,
    inherent: bool,
    base: Seq<char>,
)
    ensures
        holds(
            extern_method(owner, m, inherent, base),
            seq![declared_head(m)] + Seq::new(
                m.inputs.len(),
                |k: int|
                    "i"@ + dec_text(
                        (if m.receiver == ZngurMethodReceiver::Static {
                            k
                        } else {
                            k + 1
                        }) as nat,
                    ) + ": "@ + m.inputs[k].text() + ", "@,
            ) + seq![") -> "@ + m.output.text() + " { unsafe {\n"@] + seq![
                (if m.receiver == ZngurMethodReceiver::Static {
                    Seq::empty()
                } else {
                    "let i0 = self;\n"@
                }) + call_text(
                    extern_method_link(owner, m, base) + "("@,
                    (if m.receiver == ZngurMethodReceiver::Static {
                        m.inputs.len() as nat
                    } else {
                        (m.inputs.len() + 1) as nat
                    }),
                ),
            ],
        ),
{
    lemma_receiver_words();
    lemma_head(m);
    let none = m.receiver == ZngurMethodReceiver::Static;
    let front = (if inherent {
        "pub "@
    } else {
        ""@
    }) + (if m.is_safe {
        ""@
    } else {
        "unsafe "@
    });
    let first: nat = if none {
        0
    } else {
        1
    };
    let params = numbered_items("i"@, first, ": "@, types_text(m.inputs), ", "@);
    let named = Seq::new(
        m.inputs.len(),
        |k: int|
            "i"@ + dec_text(
                (if m.receiver == ZngurMethodReceiver::Static {
                    k
                } else {
                    k + 1
                }) as nat,
            ) + ": "@ + m.inputs[k].text() + ", "@,
    );
    assert(params =~= named);
    lemma_concat_in_order(params);
    let out = ") -> "@ + m.output.text() + " { unsafe {\n"@;
    let taken = if none {
        ""@
    } else {
        "let i0 = self;\n"@
    };
    let call = call_text(extern_method_link(owner, m, base) + "("@, input_count(m));
    let body = taken + call;
    lemma_holds_itself(declared_head(m));
    lemma_holds_itself(out);
    lemma_holds_itself(body);
    let h = seq![declared_head(m)];
    lemma_holds_both(declared_head(m), h, concat_all(params), named);
    lemma_holds_both(declared_head(m) + concat_all(params), h + named, out, seq![out]);
    lemma_holds_both(
        declared_head(m) + concat_all(params) + out,
        h + named + seq![out],
        body,
        seq![body],
    );
    let text = declared_head(m) + concat_all(params) + out + body;
    lemma_method_grouped(
        front,
        "fn "@,
        m.name,
        "("@,
        receiver_text(m.receiver),
        if none {
            ""@
        } else {
            ", "@
        },
        concat_all(params),
        ") -> "@,
        m.output.text(),
        " { unsafe {\n"@,
        taken,
        call,
        "} }\n"@,
    );
    lemma_holds_inside(
        extern_method(owner, m, inherent, base),
        front,
        text,
        "} }\n"@,
        h + named + seq![out] + seq![body],
    );
}

proof fn lemma_method_grouped(
    front: Seq<char>,
    a: Seq<char>,
    b: Seq<char>,
    c: Seq<char>,
    d: Seq<char>,
    e: Seq<char>,
    p: Seq<char>,
    f: Seq<char>,
    g: Seq<char>,
    h: Seq<char>,
    i: Seq<char>,
    j: Seq<char>,
    z: Seq<char>,
)
    ensures
        front + a + b + c + d + e + p + f + g + h + i + j + z == front + ((a + b + c + d + e) + p
            + (f + g + h) + (i + j)) + z,
{
    assert(front + a + b + c + d + e + p + f + g + h + i + j + z =~= front + ((a + b + c + d + e)
        + p + (f + g + h) + (i + j)) + z);
}

/// A method that C++ implements starts with `pub` exactly in an inherent block,
/// and is `unsafe` exactly where it is not declared safe.
pub proof fn law_extern_method_is_as_visible_and_safe(
    owner: TypeModel,
    m: MethodModel,
    inherent: bool,
    base: Seq<char>,
) -> (rest: Seq<char>)
    ensures
        extern_method(owner, m, inherent, base) == (if inherent {
            if m.is_safe {
                "pub fn "@
            } else {
                "pub unsafe fn "@
            }
        } else if m.is_safe {
            "fn "@
        } else {
            "unsafe fn "@
        }) + m.name + "("@ + rest,
{
    lemma_front_words();
    let none = m.receiver == ZngurMethodReceiver::Static;
    let vis = if inherent {
        "pub "@
    } else {
        ""@
    };
    let safe = if m.is_safe {
        ""@
    } else {
        "unsafe "@
    };
    let rest = receiver_text(m.receiver) + (if none {
        ""@
    } else {
        ", "@
    }) + concat_all(
        numbered_items(
            "i"@,
            first_input(m),
            ": "@,
            types_text(m.inputs),
            ", "@,
        ),
    ) + ") -> "@ + m.output.text() + " { unsafe {\n"@ + (if none {
        ""@
    } else {
        "let i0 = self;\n"@
    }) + call_text(extern_method_link(owner, m, base) + "("@, input_count(m)) + "} }\n"@;
    lemma_front_grouped(
        vis + safe + "fn "@ + m.name + "("@,
        receiver_text(m.receiver),
        if none {
            ""@
        } else {
            ", "@
        },
        concat_all(numbered_items("i"@, first_input(m), ": "@, types_text(m.inputs), ", "@)),
        m.output.text(),
        if none {
            ""@
        } else {
            "let i0 = self;\n"@
        },
        call_text(extern_method_link(owner, m, base) + "("@, input_count(m)),
    );
    rest
}

proof fn lemma_front_grouped(
    a: Seq<char>,
    b: Seq<char>,
    c: Seq<char>,
    d: Seq<char>,
    e: Seq<char>,
    f: Seq<char>,
    g: Seq<char>,
)
    ensures
        a + b + c + d + ") -> "@ + e + " { unsafe {\n"@ + f + g + "} }\n"@ == a + (b + c + d
            + ") -> "@ + e + " { unsafe {\n"@ + f + g + "} }\n"@),
{
    assert(a + b + c + d + ") -> "@ + e + " { unsafe {\n"@ + f + g + "} }\n"@ =~= a + (b + c + d
        + ") -> "@ + e + " { unsafe {\n"@ + f + g + "} }\n"@));
}

proof fn lemma_front_words()
    ensures
        "pub "@ + ""@ + "fn "@ == "pub fn "@,
        "pub "@ + "unsafe "@ + "fn "@ == "pub unsafe fn "@,
        ""@ + ""@ + "fn "@ == "fn "@,
        ""@ + "unsafe "@ + "fn "@ == "unsafe fn "@,
{
    reveal_strlit("");
    reveal_strlit("pub ");
    reveal_strlit("unsafe ");
    reveal_strlit("fn ");
    reveal_strlit("pub fn ");
    reveal_strlit("pub unsafe fn ");
    reveal_strlit("unsafe fn ");
    assert("pub "@ + ""@ + "fn "@ =~= "pub fn "@);
    assert("pub "@ + "unsafe "@ + "fn "@ =~= "pub unsafe fn "@);
    assert(""@ + ""@ + "fn "@ =~= "fn "@);
    assert(""@ + "unsafe "@ + "fn "@ =~= "unsafe fn "@);
}

/// A method of a trait that C++ implements is written with the receiver that it is
/// declared with and all its inputs, each with its type, gives back its output,
/// and calls the C++ function under its link name with the C++ data first.
pub proof fn law_forwarding_method_is_as_declared(m: MethodModel, link: Seq<char>, data: Seq<char>)
    ensures
        holds(
            forwarding_method(m, link, data),
            seq![
                "fn "@ + m.name + "("@ + (match m.receiver {
                    ZngurMethodReceiver::Static => Seq::empty(),
                    ZngurMethodReceiver::Move => "self"@,
                    ZngurMethodReceiver::Ref(mu) => if mu == Mutability::Mut {
                        "&mut self"@
                    } else {
                        "&self"@
                    },
                }),
            ] + Seq::new(
                m.inputs.len(),
                |k: int| ", i"@ + dec_text(k as nat) + ": "@ + m.inputs[k].text(),
            ) + seq![") -> "@ + m.output.text() + " { unsafe {\n"@] + seq![
                data + call_text(link + "(data, "@, m.inputs.len()),
            ],
        ),
{
    lemma_receiver_words();
    reveal_strlit("        fn ");
    reveal_strlit("        ");
    reveal_strlit("fn ");
    assert("        fn "@ =~= "        "@ + "fn "@);
    let head = "fn "@ + m.name + "("@ + receiver_text(m.receiver);
    let params = numbered_items(", i"@, 0, ": "@, types_text(m.inputs), ""@);
    let named = Seq::new(
        m.inputs.len(),
        |k: int| ", i"@ + dec_text(k as nat) + ": "@ + m.inputs[k].text(),
    );
    assert forall|k: int| 0 <= k < params.len() implies #[trigger] params[k] == named[k] by {
        assert(params[k] =~= named[k]);
    }
    assert(params =~= named);
    lemma_concat_in_order(params);
    let out = ") -> "@ + m.output.text() + " { unsafe {\n"@;
    let body = data + call_text(link + "(data, "@, m.inputs.len());
    lemma_holds_itself(head);
    lemma_holds_itself(out);
    lemma_holds_itself(body);
    lemma_holds_both(head, seq![head], concat_all(params), named);
    lemma_holds_both(head + concat_all(params), seq![head] + named, out, seq![out]);
    lemma_holds_both(
        head + concat_all(params) + out,
        seq![head] + named + seq![out],
        body,
        seq![body],
    );
    let text = head + concat_all(params) + out + body;
    lemma_forward_grouped(
        "        "@,
        "fn "@,
        m.name,
        "("@,
        receiver_text(m.receiver),
        concat_all(params),
        ") -> "@,
        m.output.text(),
        " { unsafe {\n"@,
        data,
        call_text(link + "(data, "@, m.inputs.len()),
        "        } }\n"@,
    );
    lemma_holds_inside(
        forwarding_method(m, link, data),
        "        "@,
        text,
        "        } }\n"@,
        seq![head] + named + seq![out] + seq![body],
    );
}

proof fn lemma_forward_grouped(
    front: Seq<char>,
    a: Seq<char>,
    b: Seq<char>,
    c: Seq<char>,
    d: Seq<char>,
    p: Seq<char>,
    f: Seq<char>,
    g: Seq<char>,
    h: Seq<char>,
    i: Seq<char>,
    j: Seq<char>,
    z: Seq<char>,
)
    ensures
        (front + a) + b + c + d + p + f + g + h + i + j + z == front + ((a + b + c + d) + p + (f + g
            + h) + (i + j)) + z,
{
    assert((front + a) + b + c + d + p + f + g + h + i + j + z =~= front + ((a + b + c + d) + p + (f
        + g + h) + (i + j)) + z);
}

/// A C++ function with these inputs and an output, as Rust declares it.
pub open spec fn declared_parts(link: Seq<char>, n: nat) -> Seq<Seq<char>> {
    seq!["fn "@ + link + "("@] + Seq::new(
        n,
        |k: int| "i"@ + dec_text(k as nat) + ": *mut u8, "@,
    ) + seq!["o: *mut u8);"@]
}

proof fn lemma_declared(before: Seq<char>, link: Seq<char>, n: nat, behind: Seq<char>)
    ensures
        holds(
            before + "fn "@ + link + "("@ + concat_all(numbered("i"@, n, ": *mut u8, "@))
                + ("o: *mut u8);"@ + behind),
            declared_parts(link, n),
        ),
{
    let params = numbered("i"@, n, ": *mut u8, "@);
    let named = Seq::new(n, |k: int| "i"@ + dec_text(k as nat) + ": *mut u8, "@);
    assert(params =~= named);
    lemma_concat_in_order(params);
    let head = "fn "@ + link + "("@;
    let tail = "o: *mut u8);"@;
    lemma_holds_itself(head);
    lemma_holds_itself(tail);
    lemma_holds_both(head, seq![head], concat_all(params), named);
    lemma_holds_both(head + concat_all(params), seq![head] + named, tail, seq![tail]);
    let text = head + concat_all(params) + tail;
    let whole = before + "fn "@ + link + "("@ + concat_all(params) + (tail + behind);
    lemma_declared_grouped(before, "fn "@, link, "("@, concat_all(params), tail, behind);
    lemma_holds_inside(whole, before, text, behind, seq![head] + named + seq![tail]);
}

proof fn lemma_declared_grouped(
    a: Seq<char>,
    b: Seq<char>,
    c: Seq<char>,
    d: Seq<char>,
    e: Seq<char>,
    f: Seq<char>,
    g: Seq<char>,
)
    ensures
        a + b + c + d + e + (f + g) == a + ((b + c + d) + e + f) + g,
{
    assert(a + b + c + d + e + (f + g) =~= a + ((b + c + d) + e + f) + g);
}

/// The declaration of the C++ function behind a method takes the receiver and each
/// input, and is known by the link name that the method calls.
pub proof fn law_extern_method_is_declared(owner: TypeModel, m: MethodModel, base: Seq<char>)
    ensures
        holds(
            extern_method_decl(owner, m, base),
            declared_parts(
                extern_method_link(owner, m, base),
                if m.receiver == ZngurMethodReceiver::Static {
                    m.inputs.len() as nat
                } else {
                    (m.inputs.len() + 1) as nat
                },
            ),
        ),
{
    reveal_strlit("\n    fn ");
    reveal_strlit("\n    ");
    reveal_strlit("fn ");
    assert("\n    fn "@ =~= "\n    "@ + "fn "@);
    reveal_strlit("o: *mut u8);\n");
    reveal_strlit("o: *mut u8);");
    reveal_strlit("\n");
    assert("o: *mut u8);\n"@ =~= "o: *mut u8);"@ + "\n"@);
    lemma_declared("\n    "@, extern_method_link(owner, m, base), input_count(m), "\n"@);
}

/// What an implementation block holds of a method: the declaration of the C++
/// function behind it, the head of the block, of the declared type and of the
/// declared trait where there is one, and the method.
pub open spec fn block_parts(
    owner: TypeModel,
    tr: Option<TraitModel>,
    m: MethodModel,
    base: Seq<char>,
) -> Seq<Seq<char>> {
    seq![
        "unsafe extern \"C\" {"@,
        extern_method_decl(owner, m, base),
        block_head(owner, tr),
        extern_method(owner, m, tr is None, base),
    ]
}

/// The head of an implementation block.
pub open spec fn block_head(owner: TypeModel, tr: Option<TraitModel>) -> Seq<char> {
    match tr {
        Some(t) => "impl "@ + t.without_assocs().text() + " for "@ + owner.text() + " {"@,
        None => "impl "@ + owner.text() + " {"@,
    }
}

/// An implementation block that C++ writes declares the C++ function behind each
/// of its methods and then holds the method; it is of the declared type, and of
/// the declared trait where there is one.
pub proof fn law_impl_block_holds_its_methods(
    owner: TypeModel,
    tr: Option<TraitModel>,
    methods: Seq<MethodModel>,
    base: Seq<char>,
    i: int,
)
    requires
        0 <= i < methods.len(),
    ensures
        holds(
            extern_impl_text(owner, tr, methods, base),
            block_parts(owner, tr, methods[i], base),
        ),
{
    let decls = extern_method_decls(owner, methods, base);
    let texts = extern_methods(owner, methods, tr is None, base);
    let head = block_head(owner, tr);
    let assocs = match tr {
        Some(t) => concat_all(assoc_texts("type "@, t.assocs(), ";"@)),
        None => Seq::empty(),
    };
    assert(impl_head(owner, tr) == head + assocs) by {
        if tr is None {
            assert(head + Seq::<char>::empty() =~= head);
        }
    }
    let (a, b) = lemma_concat_holds(decls, i);
    let (c, d) = lemma_concat_holds(texts, i);
    lemma_block("unsafe extern \"C\" {"@, a, decls[i], b, head, assocs, c, texts[i], d);
    assert(decls[i] == extern_method_decl(owner, methods[i], base));
    assert(texts[i] == extern_method(owner, methods[i], tr is None, base));
}

proof fn lemma_block(
    open: Seq<char>,
    a: Seq<char>,
    decl: Seq<char>,
    b: Seq<char>,
    head: Seq<char>,
    assocs: Seq<char>,
    c: Seq<char>,
    text: Seq<char>,
    d: Seq<char>,
)
    ensures
        holds(
            open + (a + decl + b) + "}"@ + (head + assocs) + (c + text + d) + "}"@,
            seq![open, decl, head, text],
        ),
{
    lemma_holds_itself(open);
    lemma_holds_itself(decl);
    lemma_holds_itself(head);
    lemma_holds_itself(text);
    lemma_holds_inside(a + decl + b, a, decl, b, seq![decl]);
    lemma_holds_inside(c + text + d, c, text, d, seq![text]);
    lemma_holds_both(open, seq![open], a + decl + b, seq![decl]);
    let x = open + (a + decl + b);
    assert(x + "}"@ =~= Seq::<char>::empty() + x + "}"@);
    lemma_holds_inside(x + "}"@, Seq::empty(), x, "}"@, seq![open] + seq![decl]);
    lemma_holds_both(x + "}"@, seq![open] + seq![decl], head, seq![head]);
    let y = x + "}"@ + head;
    assert(y + assocs =~= Seq::<char>::empty() + y + assocs);
    lemma_holds_inside(y + assocs, Seq::empty(), y, assocs, seq![open] + seq![decl] + seq![head]);
    lemma_holds_both(
        y + assocs,
        seq![open] + seq![decl] + seq![head],
        c + text + d,
        seq![text],
    );
    let w = y + assocs + (c + text + d);
    let parts = seq![open] + seq![decl] + seq![head] + seq![text];
    assert(parts =~= seq![open, decl, head, text]);
    lemma_block_grouped(open, a + decl + b, head, assocs, c + text + d);
    lemma_holds_inside(
        open + (a + decl + b) + "}"@ + (head + assocs) + (c + text + d) + "}"@,
        Seq::empty(),
        w,
        "}"@,
        seq![open, decl, head, text],
    );
}

proof fn lemma_block_grouped(
    a: Seq<char>,
    b: Seq<char>,
    c: Seq<char>,
    d: Seq<char>,
    e: Seq<char>,
)
    ensures
        a + b + "}"@ + (c + d) + e + "}"@ == Seq::<char>::empty() + ((a + b) + "}"@ + c + d + e)
            + "}"@,
{
    assert(a + b + "}"@ + (c + d) + e + "}"@ =~= Seq::<char>::empty() + ((a + b) + "}"@ + c + d + e)
        + "}"@);
}

/// The Rust half declares and calls each method of an implementation block.
pub proof fn law_impl_blocks_stand_in_the_rust_half(zng: SpecModel, s: Setting, k: int, i: int)
    requires
        0 <= k < zng.extern_cpp_impls.len(),
        0 <= i < zng.extern_cpp_impls[k].methods.len(),
    ensures
        holds(
            rust_half(zng, s),
            block_parts(
                zng.extern_cpp_impls[k].ty,
                zng.extern_cpp_impls[k].tr,
                zng.extern_cpp_impls[k].methods[i],
                s.base,
            ),
        ),
{
    let b = zng.extern_cpp_impls[k];
    lemma_half_has_extern_impl(zng, s, k);
    law_impl_block_holds_its_methods(b.ty, b.tr, b.methods, s.base, i);
    lemma_inside_holds(
        rust_half(zng, s),
        extern_impl_text(b.ty, b.tr, b.methods, s.base),
        block_parts(b.ty, b.tr, b.methods[i], s.base),
    );
}

/// C++ knows each method of an implementation block by the name that Rust calls it
/// by, and takes its receiver by the declared kind of reference and then its
/// inputs.
pub proof fn law_impl_blocks_are_linked(zng: SpecModel, s: Setting, z: bool, k: int, i: int)
    requires
        0 <= k < zng.extern_cpp_impls.len(),
        0 <= i < zng.extern_cpp_impls[k].methods.len(),
    ensures
        ({
            let b = zng.extern_cpp_impls[k];
            let m = b.methods[i];
            let c = cpp_half(zng, s, z).exported_impls[k];
            &&& c.ty == cpp_of(b.ty, s)
            &&& (c.tr is Some <==> b.tr is Some)
            &&& c.methods.len() == b.methods.len()
            &&& c.methods[i].sig.output == cpp_of(m.output, s)
            &&& (m.receiver != ZngurMethodReceiver::Static ==> c.methods[i].sig.inputs.len()
                == m.inputs.len() + 1 && c.methods[i].sig.inputs[0] == cpp_receiver(
                m.receiver,
                b.ty,
                s,
            ))
            &&& (m.receiver == ZngurMethodReceiver::Static ==> c.methods[i].sig.inputs.len()
                == m.inputs.len())
            &&& c.methods[i].sig.rust_link_name == extern_method_link(b.ty, m, s.base)
        }),
{
    let b = zng.extern_cpp_impls[k];
    let m = b.methods[i];
    lemma_impl_inputs(b.ty, m, s);
    let c = cpp_half(zng, s, z).exported_impls[k];
    assert(c == impl_data(b, s));
    assert(c.methods[i] == impl_method_data(b.ty, m, s));
}

proof fn lemma_impl_inputs(ty: TypeModel, m: MethodModel, s: Setting)
    ensures
        m.receiver != ZngurMethodReceiver::Static ==> impl_method_data(ty, m, s).sig.inputs.len()
            == m.inputs.len() + 1 && impl_method_data(ty, m, s).sig.inputs[0] == cpp_receiver(
            m.receiver,
            ty,
            s,
        ),
        m.receiver == ZngurMethodReceiver::Static ==> impl_method_data(ty, m, s).sig.inputs.len()
            == m.inputs.len(),
{
    let d = MethodDetailsModel { data: m, use_path: None, deref: None, cpp_name: None };
    if m.receiver != ZngurMethodReceiver::Static {
        law_receiver_keeps_its_mutability(d, ty, s);
        assert(method_data(d, ty, s).sig.inputs == impl_method_data(ty, m, s).sig.inputs);
    }
}

/// A C++ function that Rust calls: its declaration, and then the function with all
/// its inputs, each with its type, `unsafe` exactly where it is not declared safe.
pub open spec fn extern_fn_parts(f: ExternCppFnModel, link: Seq<char>) -> Seq<Seq<char>> {
    seq!["unsafe extern \"C\" { fn "@ + link + "("@] + Seq::new(
        f.inputs.len(),
        |k: int| "i"@ + dec_text(k as nat) + ": *mut u8, "@,
    ) + seq![
        "\npub "@ + (if f.is_safe {
            Seq::empty()
        } else {
            "unsafe "@
        }) + "fn "@ + f.name + "("@,
    ] + Seq::new(
        f.inputs.len(),
        |k: int| "i"@ + dec_text(k as nat) + ": "@ + f.inputs[k].text() + ", "@,
    ) + seq![
        ") -> "@ + f.output.text() + " { unsafe {\n"@ + call_text(link + "("@, f.inputs.len()),
    ]
}

/// C++ knows each C++ function by the name that Rust calls it by, and takes each
/// input as its C++ type.
pub proof fn law_extern_fns_are_linked(zng: SpecModel, s: Setting, z: bool, k: int)
    requires
        0 <= k < zng.extern_cpp_funcs.len(),
    ensures
        ({
            let f = zng.extern_cpp_funcs[k];
            let c = cpp_half(zng, s, z).exported_fn_defs[k];
            &&& c.name == f.name
            &&& c.sig.inputs == Seq::new(f.inputs.len(), |j: int| cpp_of(f.inputs[j], s))
            &&& c.sig.output == cpp_of(f.output, s)
            &&& holds(rust_half(zng, s), extern_fn_parts(f, c.sig.rust_link_name))
        }),
{
    let f = zng.extern_cpp_funcs[k];
    lemma_half_has_extern_fn(zng, s, k);
    lemma_extern_fn(f, s.base);
    lemma_inside_holds(
        rust_half(zng, s),
        extern_fn_text(f.name, f.inputs, f.output, f.is_safe, s.base),
        extern_fn_parts(f, mangled(f.name, s.base)),
    );
    let c = cpp_half(zng, s, z).exported_fn_defs[k];
    assert(c == extern_fn_data(f, s));
    assert(c.sig.inputs =~= Seq::new(f.inputs.len(), |j: int| cpp_of(f.inputs[j], s)));
}

proof fn lemma_extern_fn(f: ExternCppFnModel, base: Seq<char>)
    ensures
        holds(
            extern_fn_text(f.name, f.inputs, f.output, f.is_safe, base),
            extern_fn_parts(f, mangled(f.name, base)),
        ),
{
    let link = mangled(f.name, base);
    let open = filled(EXTERN_CPP_FN_OPEN@, seq![link]);
    let params = numbered("i"@, f.inputs.len(), ": *mut u8, "@);
    let named = Seq::new(f.inputs.len(), |k: int| "i"@ + dec_text(k as nat) + ": *mut u8, "@);
    assert(params =~= named);
    let typed = numbered_items("i"@, 0, ": "@, types_text(f.inputs), ", "@);
    let with_types = Seq::new(
        f.inputs.len(),
        |k: int| "i"@ + dec_text(k as nat) + ": "@ + f.inputs[k].text() + ", "@,
    );
    assert(typed =~= with_types);
    lemma_concat_in_order(params);
    lemma_concat_in_order(typed);
    lemma_cpp_fn_open(seq![link]);
    let safe = if f.is_safe {
        ""@
    } else {
        "unsafe "@
    };
    lemma_receiver_words();
    let head = "\npub "@ + safe + "fn "@ + f.name + "("@;
    let body = ") -> "@ + f.output.text() + " { unsafe {\n"@ + call_text(
        link + "("@,
        f.inputs.len(),
    );
    lemma_holds_itself(head);
    lemma_holds_itself(body);
    lemma_visible();
    let gap = "o: *mut u8); }\n"@ + "\n#[allow(non_snake_case)]"@;
    let a = open + concat_all(params);
    let parts = seq!["unsafe extern \"C\" { fn "@ + link + "("@];
    lemma_holds_both(open, parts, concat_all(params), named);
    assert(a + gap =~= Seq::<char>::empty() + a + gap);
    lemma_holds_inside(a + gap, Seq::empty(), a, gap, parts + named);
    lemma_holds_both(a + gap, parts + named, head, seq![head]);
    lemma_holds_both(
        a + gap + head,
        parts + named + seq![head],
        concat_all(typed),
        with_types,
    );
    lemma_holds_both(
        a + gap + head + concat_all(typed),
        parts + named + seq![head] + with_types,
        body,
        seq![body],
    );
    let text = a + gap + head + concat_all(typed) + body;
    lemma_extern_grouped(
        a,
        "o: *mut u8); }\n"@,
        "\n#[allow(non_snake_case)]"@,
        "\npub "@,
        safe,
        f.name,
        concat_all(typed),
        f.output.text(),
        call_text(link + "("@, f.inputs.len()),
    );
    lemma_holds_inside(
        extern_fn_text(f.name, f.inputs, f.output, f.is_safe, base),
        Seq::empty(),
        text,
        "} }\n"@,
        parts + named + seq![head] + with_types + seq![body],
    );
}

proof fn lemma_visible()
    ensures
        "\n#[allow(non_snake_case)]\npub "@ == "\n#[allow(non_snake_case)]"@ + "\npub "@,
{
    reveal_strlit("\n#[allow(non_snake_case)]\npub ");
    reveal_strlit("\n#[allow(non_snake_case)]");
    reveal_strlit("\npub ");
    assert("\n#[allow(non_snake_case)]\npub "@ =~= "\n#[allow(non_snake_case)]"@ + "\npub "@);
}

proof fn lemma_extern_grouped(
    a: Seq<char>,
    b: Seq<char>,
    c: Seq<char>,
    d: Seq<char>,
    e: Seq<char>,
    f: Seq<char>,
    g: Seq<char>,
    h: Seq<char>,
    i: Seq<char>,
)
    ensures
        a + b + (c + d) + e + "fn "@ + f + "("@ + g + ") -> "@ + h + " { unsafe {\n"@ + i
            + "} }\n"@ == Seq::<char>::empty() + (a + (b + c) + (d + e + "fn "@ + f + "("@) + g + (
        ") -> "@ + h + " { unsafe {\n"@ + i)) + "} }\n"@,
{
    assert(a + b + (c + d) + e + "fn "@ + f + "("@ + g + ") -> "@ + h + " { unsafe {\n"@ + i
        + "} }\n"@ =~= Seq::<char>::empty() + (a + (b + c) + (d + e + "fn "@ + f + "("@) + g + (
    ") -> "@ + h + " { unsafe {\n"@ + i)) + "} }\n"@);
}

proof fn lemma_known_traits(p: Progress, v: Seq<ZngurTypeModel>, n: nat, s: Setting, k: int)
    requires
        0 <= k < p.traits.len(),
    ensures
        after_types(p, v, n, s).traits.len() >= p.traits.len(),
        after_types(p, v, n, s).traits[k] == p.traits[k],
    decreases n,
{
    if 0 < n <= v.len() {
        lemma_known_traits(p, v, (n - 1) as nat, s, k);
    }
}

/// C++ knows each trait by the names under which the Rust half makes objects of it,
/// and each of its methods by its name, its inputs and its output.
pub proof fn law_traits_are_known_to_cpp(zng: SpecModel, s: Setting, z: bool, k: int, i: int)
    requires
        0 <= k < zng.traits.len(),
        0 <= i < zng.traits[k].methods.len(),
    ensures
        ({
            let t = zng.traits[k];
            let c = cpp_half(zng, s, z).trait_defs[k];
            &&& c.0 == t.tr
            &&& c.1 is Normal
            &&& c.1->methods.len() == t.methods.len()
            &&& c.1->methods[i].name == t.methods[i].name
            &&& c.1->methods[i].inputs == Seq::new(
                t.methods[i].inputs.len(),
                |j: int| cpp_of(t.methods[i].inputs[j], s),
            )
            &&& c.1->methods[i].output == cpp_of(t.methods[i].output, s)
            &&& c.1->link_name != c.1->link_name_ref
        }),
{
    let t = zng.traits[k];
    lemma_known_traits(before_types(zng, s), zng.types, zng.types.len(), s, k);
    let c = cpp_half(zng, s, z).trait_defs[k];
    assert(c == (t.tr, trait_def(t, s.base, s.namespace, s.crate_name)));
    assert(c.1->methods[i].inputs =~= Seq::new(
        t.methods[i].inputs.len(),
        |j: int| cpp_of(t.methods[i].inputs[j], s),
    ));
    reveal_strlit("_borrowed");
    assert(c.1->link_name_ref.len() == c.1->link_name.len() + 9);
}

/// What makes boxed objects of a trait, under a link name: it takes the C++ data
/// and what destroys it, which is called once the object is dropped.
pub open spec fn box_parts(t: TraitModel, link: Seq<char>) -> Seq<Seq<char>> {
    box_head(t, link) + box_tail(t)
}

/// The head of what makes boxed objects of a trait.
pub open spec fn box_head(t: TraitModel, link: Seq<char>) -> Seq<Seq<char>> {
    seq![
        "pub extern \"C\" fn "@ + link
            + "(\n    data: *mut u8,\n    destructor: extern \"C\" fn(*mut u8),\n    o: *mut u8,\n)"@,
        "(self.destructor)(self.data)"@,
        "impl "@ + t.without_assocs().text() + " for Wrapper {"@,
    ]
}

/// The end of what makes boxed objects of a trait.
pub open spec fn box_tail(t: TraitModel) -> Seq<Seq<char>> {
    seq![
        "let this = Wrapper {\n            data,\n            destructor,\n        };"@,
        "let r: Box<dyn "@ + t.text()
            + "> = Box::new(this);\n        std::ptr::write(o as *mut _, r)"@,
    ]
}

/// What makes references to objects of a trait, under a link name: it takes the
/// C++ data alone.
pub open spec fn borrow_parts(t: TraitModel, link: Seq<char>) -> Seq<Seq<char>> {
    borrow_head(t, link) + borrow_tail(t)
}

/// The head of what makes references to objects of a trait.
pub open spec fn borrow_head(t: TraitModel, link: Seq<char>) -> Seq<Seq<char>> {
    seq![
        "pub extern \"C\" fn "@ + link + "(\n    data: *mut u8,\n    o: *mut u8,\n)"@,
        "impl "@ + t.without_assocs().text() + " for Wrapper {"@,
    ]
}

/// The end of what makes references to objects of a trait.
pub open spec fn borrow_tail(t: TraitModel) -> Seq<Seq<char>> {
    seq![
        "let this = data as *mut Wrapper;"@,
        "let r: &dyn "@ + t.text() + " = &*this;\n        std::ptr::write(o as *mut _, r)"@,
    ]
}

proof fn lemma_trait_box(t: ZngurTraitModel, base: Seq<char>)
    ensures
        holds(trait_box_text(t, base), box_parts(t.tr, mangled(t.tr.text(), base))),
{
    let a = seq![mangled(t.tr.text(), base), t.tr.without_assocs().text()];
    let b = seq![t.tr.text()];
    lemma_trait_box_open(a);
    lemma_trait_box_close(b);
    let assocs = concat_all(assoc_texts("        type "@, t.tr.assocs(), ";\n"@));
    let methods = concat_all(
        forwarding_methods(t, method_links(t, base), "            let data = self.data;\n"@),
    );
    lemma_around(
        filled(TRAIT_BOX_OPEN@, a),
        box_head(t.tr, a[0]),
        assocs,
        methods,
        filled(TRAIT_BOX_CLOSE@, b),
        box_tail(t.tr),
    );
}

proof fn lemma_around(
    a: Seq<char>,
    u: Seq<Seq<char>>,
    b: Seq<char>,
    c: Seq<char>,
    d: Seq<char>,
    v: Seq<Seq<char>>,
)
    requires
        holds(a, u),
        holds(d, v),
    ensures
        holds(a + b + c + d, u + v),
{
    assert(a + b + c =~= Seq::<char>::empty() + a + (b + c));
    lemma_holds_inside(a + b + c, Seq::empty(), a, b + c, u);
    lemma_holds_both(a + b + c, u, d, v);
}

proof fn lemma_trait_ref(t: ZngurTraitModel, base: Seq<char>)
    ensures
        holds(
            trait_ref_text(t, base),
            borrow_parts(t.tr, mangled(t.tr.text(), base) + "_borrowed"@),
        ),
{
    let a = seq![mangled(t.tr.text(), base) + "_borrowed"@, t.tr.without_assocs().text()];
    let b = seq![t.tr.text()];
    lemma_trait_ref_open(a);
    lemma_trait_ref_close(b);
    let assocs = concat_all(assoc_texts("        type "@, t.tr.assocs(), ";\n"@));
    let methods = concat_all(
        forwarding_methods(
            t,
            method_links(t, base),
            "            let data = ::std::mem::transmute::<_, *mut u8>(self);\n"@,
        ),
    );
    lemma_around(
        filled(TRAIT_REF_OPEN@, a),
        borrow_head(t.tr, a[0]),
        assocs,
        methods,
        filled(TRAIT_REF_CLOSE@, b),
        borrow_tail(t.tr),
    );
}

/// The Rust half makes boxed objects of each trait, and references to them, under
/// the names that C++ links them by.
pub proof fn law_traits_are_linked(zng: SpecModel, s: Setting, z: bool, k: int)
    requires
        0 <= k < zng.traits.len(),
    ensures
        cpp_half(zng, s, z).trait_defs[k].1 is Normal,
        holds(
            rust_half(zng, s),
            box_parts(zng.traits[k].tr, cpp_half(zng, s, z).trait_defs[k].1->link_name),
        ),
        holds(
            rust_half(zng, s),
            borrow_parts(zng.traits[k].tr, cpp_half(zng, s, z).trait_defs[k].1->link_name_ref),
        ),
{
    lemma_known_traits(before_types(zng, s), zng.types, zng.types.len(), s, k);
    let t = zng.traits[k];
    let c = cpp_half(zng, s, z).trait_defs[k];
    assert(c == (t.tr, trait_def(t, s.base, s.namespace, s.crate_name)));
    lemma_half_has_objects(zng, s, k);
}

proof fn lemma_half_has_objects(zng: SpecModel, s: Setting, k: int)
    requires
        0 <= k < zng.traits.len(),
    ensures
        holds(
            rust_half(zng, s),
            box_parts(zng.traits[k].tr, mangled(zng.traits[k].tr.text(), s.base)),
        ),
        holds(
            rust_half(zng, s),
            borrow_parts(
                zng.traits[k].tr,
                mangled(zng.traits[k].tr.text(), s.base) + "_borrowed"@,
            ),
        ),
{
    let t = zng.traits[k];
    let text = trait_builder_text(t, s.base);
    let front = "unsafe extern \"C\" {\n"@ + concat_all(method_decls(t, s.base)) + "}\n"@;
    let a = trait_box_text(t, s.base);
    let b = trait_ref_text(t, s.base);
    lemma_half_has_trait(zng, s, k);
    lemma_trait_box(t, s.base);
    lemma_trait_ref(t, s.base);
    lemma_holds_inside(text, front, a, b, box_parts(t.tr, mangled(t.tr.text(), s.base)));
    assert(text =~= (front + a) + b + Seq::<char>::empty());
    lemma_holds_inside(
        text,
        front + a,
        b,
        Seq::empty(),
        borrow_parts(t.tr, mangled(t.tr.text(), s.base) + "_borrowed"@),
    );
    lemma_inside_holds(
        rust_half(zng, s),
        text,
        box_parts(t.tr, mangled(t.tr.text(), s.base)),
    );
    lemma_inside_holds(
        rust_half(zng, s),
        text,
        borrow_parts(t.tr, mangled(t.tr.text(), s.base) + "_borrowed"@),
    );
}

/// The declaration of the C++ function behind a method of a trait: it takes the
/// C++ data, each input and the place for the output.
pub open spec fn trait_decl_parts(m: MethodModel, link: Seq<char>) -> Seq<Seq<char>> {
    seq!["fn "@ + link + "(data: *mut u8, "@] + Seq::new(
        m.inputs.len(),
        |j: int| "i"@ + dec_text(j as nat) + ": *mut u8,"@,
    ) + seq![" o: *mut u8);\n"@]
}

/// The C++ function behind each method of a trait is declared.
pub proof fn law_trait_methods_are_declared(t: ZngurTraitModel, base: Seq<char>, i: int)
    requires
        0 <= i < t.methods.len(),
    ensures
        holds(
            trait_builder_text(t, base),
            trait_decl_parts(t.methods[i], method_link(t.tr, t.methods[i], base)),
        ),
{
    lemma_trait_decl(t, base, i);
    let decls = method_decls(t, base);
    let (a, b) = lemma_concat_holds(decls, i);
    lemma_declared_inside(
        "unsafe extern \"C\" {\n"@,
        a,
        decls[i],
        b,
        "}\n"@,
        trait_box_text(t, base),
        trait_ref_text(t, base),
        trait_decl_parts(t.methods[i], method_link(t.tr, t.methods[i], base)),
    );
}

proof fn lemma_declared_inside(
    open: Seq<char>,
    a: Seq<char>,
    d: Seq<char>,
    b: Seq<char>,
    x: Seq<char>,
    y: Seq<char>,
    z: Seq<char>,
    parts: Seq<Seq<char>>,
)
    requires
        holds(d, parts),
    ensures
        holds(open + (a + d + b) + x + y + z, parts),
{
    let whole = open + (a + d + b) + x + y + z;
    assert(whole =~= (open + a) + d + (b + x + y + z));
    lemma_holds_inside(whole, open + a, d, b + x + y + z, parts);
}

/// Boxed objects of a trait have each of its methods, which call the C++ functions
/// that are declared for them with the data of the object.
pub proof fn law_boxed_objects_have_their_methods(t: ZngurTraitModel, base: Seq<char>, i: int)
    requires
        0 <= i < t.methods.len(),
    ensures
        holds(
            trait_box_text(t, base),
            seq![
                forwarding_method(
                    t.methods[i],
                    method_link(t.tr, t.methods[i], base),
                    "            let data = self.data;\n"@,
                ),
            ],
        ),
{
    let v = forwarding_methods(t, method_links(t, base), "            let data = self.data;\n"@);
    let assocs = concat_all(assoc_texts("        type "@, t.tr.assocs(), ";\n"@));
    lemma_member(
        filled(TRAIT_BOX_OPEN@, seq![mangled(t.tr.text(), base), t.tr.without_assocs().text()])
            + assocs,
        v,
        filled(TRAIT_BOX_CLOSE@, seq![t.tr.text()]),
        i,
    );
    assert(v[i] == forwarding_method(
        t.methods[i],
        method_link(t.tr, t.methods[i], base),
        "            let data = self.data;\n"@,
    ));
}

/// As [`law_boxed_objects_have_their_methods`], for references to objects.
pub proof fn law_borrowed_objects_have_their_methods(t: ZngurTraitModel, base: Seq<char>, i: int)
    requires
        0 <= i < t.methods.len(),
    ensures
        holds(
            trait_ref_text(t, base),
            seq![
                forwarding_method(
                    t.methods[i],
                    method_link(t.tr, t.methods[i], base),
                    "            let data = ::std::mem::transmute::<_, *mut u8>(self);\n"@,
                ),
            ],
        ),
{
    let data = "            let data = ::std::mem::transmute::<_, *mut u8>(self);\n"@;
    let v = forwarding_methods(t, method_links(t, base), data);
    let assocs = concat_all(assoc_texts("        type "@, t.tr.assocs(), ";\n"@));
    lemma_member(
        filled(
            TRAIT_REF_OPEN@,
            seq![mangled(t.tr.text(), base) + "_borrowed"@, t.tr.without_assocs().text()],
        ) + assocs,
        v,
        filled(TRAIT_REF_CLOSE@, seq![t.tr.text()]),
        i,
    );
    assert(v[i] == forwarding_method(t.methods[i], method_link(t.tr, t.methods[i], base), data));
}

proof fn lemma_member(a: Seq<char>, v: Seq<Seq<char>>, b: Seq<char>, i: int)
    requires
        0 <= i < v.len(),
    ensures
        holds(a + concat_all(v) + b, seq![v[i]]),
{
    let (x, y) = lemma_concat_holds(v, i);
    lemma_holds_itself(v[i]);
    assert(a + concat_all(v) + b =~= (a + x) + v[i] + (y + b));
    lemma_holds_inside(a + concat_all(v) + b, a + x, v[i], y + b, seq![v[i]]);
}

proof fn lemma_trait_decl(t: ZngurTraitModel, base: Seq<char>, i: int)
    requires
        0 <= i < t.methods.len(),
    ensures
        holds(
            method_decls(t, base)[i],
            trait_decl_parts(t.methods[i], method_link(t.tr, t.methods[i], base)),
        ),
{
    let m = t.methods[i];
    let head = "fn "@ + method_link(t.tr, m, base) + "(data: *mut u8, "@;
    let raw = numbered("i"@, m.inputs.len(), ": *mut u8,"@);
    let named = Seq::new(m.inputs.len(), |j: int| "i"@ + dec_text(j as nat) + ": *mut u8,"@);
    assert(raw =~= named);
    lemma_join_in_order(raw, " "@);
    let tail = " o: *mut u8);\n"@;
    lemma_holds_itself(head);
    lemma_holds_itself(tail);
    lemma_holds_both(head, seq![head], join_text(raw, " "@), named);
    lemma_holds_both(head + join_text(raw, " "@), seq![head] + named, tail, seq![tail]);
}

} // verus!
