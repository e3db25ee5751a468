//! How a panic of Rust reaches C++: what the functions that C++ calls do about it.

use crate::cpp::{closing_lines, opening_lines};
use crate::cpp_file::{CppMethodModel, FnDefModel, PanicModel, TypeDefModel};
use crate::cpp_templates::{FUNCTION, METHOD, PANIC_HANDLER};
use crate::header::{
    deinit_text, fn_dep_text, fn_deps_text, method_name, method_text, panic_handler_text,
    params_text, pointers_text, type_methods_text,
};
use crate::holding::{
    holds, lemma_concat_holds, lemma_filled_literal, lemma_filled_reaches, lemma_holds_inside,
    lemma_holds_nothing, lemma_holds_step,
};
use crate::text::{concat_all, filled, filled_from, is_digit, join_text, occurs_at};
use vstd::prelude::*;

verus! {

/// What throws the exception where C++ learns by `detect` that Rust has panicked.
pub open spec fn throwing(detect: Seq<char>, namespace: Seq<char>) -> Seq<char> {
    "\n            if ("@ + detect + "()) {\n                throw ::"@ + namespace + "::Panic{};\n            }\n            "@
}

/// What stands between the call of a function of Rust and the end of the C++
/// function: a panic is thrown before the output counts and is returned, and
/// without exceptions for panics there is nothing in between.
pub open spec fn ending(panic: Option<PanicModel>, namespace: Seq<char>) -> Seq<char> {
    ");\n      "@ + (match panic {
        Some(p) => throwing(p.detect_panic, namespace),
        None => Seq::empty(),
    }) + "\n      ::"@ + namespace + "::__zngur_internal_assume_init(o);\n      return o;"@
}

proof fn lemma_handler_template()
    ensures
        occurs_at(PANIC_HANDLER@, "\n            if ("@, 0),
        PANIC_HANDLER@[17] == '$',
        PANIC_HANDLER@[18] == '0',
        occurs_at(PANIC_HANDLER@, "()) {\n                throw ::"@, 19),
        PANIC_HANDLER@[49] == '$',
        PANIC_HANDLER@[50] == '1',
        occurs_at(PANIC_HANDLER@, "::Panic{};\n            }\n            "@, 51),
        !is_digit(PANIC_HANDLER@[0]),
        "\n            if ("@.len() == 17,
        !"\n            if ("@.contains('$'),
        "()) {\n                throw ::"@.len() == 30,
        !"()) {\n                throw ::"@.contains('$'),
        "::Panic{};\n            }\n            "@.len() == 37,
        !"::Panic{};\n            }\n            "@.contains('$'),
        PANIC_HANDLER@.len() == 88,
{
    reveal_strlit(r#"
            if ($0()) {
                throw ::$1::Panic{};
            }
            "#);
    reveal_strlit("\n            if (");
    reveal_strlit("()) {\n                throw ::");
    reveal_strlit("::Panic{};\n            }\n            ");
    assert(PANIC_HANDLER@.subrange(0, 17) =~= "\n            if ("@);
    assert(PANIC_HANDLER@.subrange(19, 49) =~= "()) {\n                throw ::"@);
    assert(PANIC_HANDLER@.subrange(51, 88) =~= "::Panic{};\n            }\n            "@);
}

proof fn lemma_handler_0(args: Seq<Seq<char>>)
    requires
        args.len() == 2,
    ensures
        filled_from(PANIC_HANDLER@, args, 0) == ("\n            if ("@ + args[0] + "()) {\n                throw ::"@ + args[1] + "::Panic{};\n            }\n            "@) + filled_from(PANIC_HANDLER@, args, 88),
{
    lemma_handler_template();
    let t = PANIC_HANDLER@;
    lemma_filled_literal(t, args, 0, "\n            if ("@);
    assert(filled_from(t, args, 17) == args[0] + filled_from(t, args, 19));
    lemma_filled_literal(t, args, 19, "()) {\n                throw ::"@);
    assert(filled_from(t, args, 49) == args[1] + filled_from(t, args, 51));
    lemma_filled_literal(t, args, 51, "::Panic{};\n            }\n            "@);
    assert(filled_from(t, args, 0) =~= ("\n            if ("@ + args[0] + "()) {\n                throw ::"@ + args[1] + "::Panic{};\n            }\n            "@) + filled_from(t, args, 88));
}

proof fn lemma_function_template()
    ensures
        occurs_at(FUNCTION@, "inline "@, 8),
        FUNCTION@[15] == '$',
        FUNCTION@[16] == '1',
        occurs_at(FUNCTION@, " "@, 17),
        FUNCTION@[18] == '$',
        FUNCTION@[19] == '2',
        occurs_at(FUNCTION@, "("@, 20),
        FUNCTION@[21] == '$',
        FUNCTION@[22] == '3',
        occurs_at(FUNCTION@, ") noexcept {"@, 23),
        !is_digit(FUNCTION@[8]),
        FUNCTION@[65] == '$',
        FUNCTION@[66] == '5',
        occurs_at(FUNCTION@, " (\n        "@, 67),
        FUNCTION@[78] == '$',
        FUNCTION@[79] == '6',
        occurs_at(FUNCTION@, ");\n      "@, 130),
        FUNCTION@[139] == '$',
        FUNCTION@[140] == '8',
        occurs_at(FUNCTION@, "\n      ::"@, 141),
        FUNCTION@[150] == '$',
        FUNCTION@[151] == '7',
        occurs_at(FUNCTION@, "::__zngur_internal_assume_init(o);\n      return o;"@, 152),
        !is_digit(FUNCTION@[130]),
        "inline "@.len() == 7,
        !"inline "@.contains('$'),
        " "@.len() == 1,
        !" "@.contains('$'),
        "("@.len() == 1,
        !"("@.contains('$'),
        ") noexcept {"@.len() == 12,
        !") noexcept {"@.contains('$'),
        " (\n        "@.len() == 11,
        !" (\n        "@.contains('$'),
        ");\n      "@.len() == 9,
        !");\n      "@.contains('$'),
        "\n      ::"@.len() == 9,
        !"\n      ::"@.contains('$'),
        "::__zngur_internal_assume_init(o);\n      return o;"@.len() == 50,
        !"::__zngur_internal_assume_init(o);\n      return o;"@.contains('$'),
        FUNCTION@.len() == 212,
{
    reveal_strlit(r#"
$0
    inline $1 $2($3) noexcept {
      $1 o{};
      $4
      $5 (
        $6
        ::$7::__zngur_internal_data_ptr(o)
      );
      $8
      ::$7::__zngur_internal_assume_init(o);
      return o;
    }
$9
"#);
    reveal_strlit("inline ");
    reveal_strlit(" ");
    reveal_strlit("(");
    reveal_strlit(") noexcept {");
    reveal_strlit(" (\n        ");
    reveal_strlit(");\n      ");
    reveal_strlit("\n      ::");
    reveal_strlit("::__zngur_internal_assume_init(o);\n      return o;");
    assert(FUNCTION@.subrange(8, 15) =~= "inline "@);
    assert(FUNCTION@.subrange(17, 18) =~= " "@);
    assert(FUNCTION@.subrange(20, 21) =~= "("@);
    assert(FUNCTION@.subrange(23, 35) =~= ") noexcept {"@);
    assert(FUNCTION@.subrange(67, 78) =~= " (\n        "@);
    assert(FUNCTION@.subrange(130, 139) =~= ");\n      "@);
    assert(FUNCTION@.subrange(141, 150) =~= "\n      ::"@);
    assert(FUNCTION@.subrange(152, 202) =~= "::__zngur_internal_assume_init(o);\n      return o;"@);
}

proof fn lemma_function_0(args: Seq<Seq<char>>)
    requires
        args.len() == 10,
    ensures
        filled_from(FUNCTION@, args, 8) == ("inline "@ + args[1] + " "@ + args[2] + "("@ + args[3] + ") noexcept {"@) + filled_from(FUNCTION@, args, 35),
{
    lemma_function_template();
    let t = FUNCTION@;
    lemma_filled_literal(t, args, 8, "inline "@);
    assert(filled_from(t, args, 15) == args[1] + filled_from(t, args, 17));
    lemma_filled_literal(t, args, 17, " "@);
    assert(filled_from(t, args, 18) == args[2] + filled_from(t, args, 20));
    lemma_filled_literal(t, args, 20, "("@);
    assert(filled_from(t, args, 21) == args[3] + filled_from(t, args, 23));
    lemma_filled_literal(t, args, 23, ") noexcept {"@);
    assert(filled_from(t, args, 8) =~= ("inline "@ + args[1] + " "@ + args[2] + "("@ + args[3] + ") noexcept {"@) + filled_from(t, args, 35));
}

proof fn lemma_function_1(args: Seq<Seq<char>>)
    requires
        args.len() == 10,
    ensures
        filled_from(FUNCTION@, args, 65) == (args[5] + " (\n        "@ + args[6]) + filled_from(FUNCTION@, args, 80),
{
    lemma_function_template();
    let t = FUNCTION@;
    assert(filled_from(t, args, 65) == args[5] + filled_from(t, args, 67));
    lemma_filled_literal(t, args, 67, " (\n        "@);
    assert(filled_from(t, args, 78) == args[6] + filled_from(t, args, 80));
    assert(filled_from(t, args, 65) =~= (args[5] + " (\n        "@ + args[6]) + filled_from(t, args, 80));
}

proof fn lemma_function_2(args: Seq<Seq<char>>)
    requires
        args.len() == 10,
    ensures
        filled_from(FUNCTION@, args, 130) == (");\n      "@ + args[8] + "\n      ::"@ + args[7] + "::__zngur_internal_assume_init(o);\n      return o;"@) + filled_from(FUNCTION@, args, 202),
{
    lemma_function_template();
    let t = FUNCTION@;
    lemma_filled_literal(t, args, 130, ");\n      "@);
    assert(filled_from(t, args, 139) == args[8] + filled_from(t, args, 141));
    lemma_filled_literal(t, args, 141, "\n      ::"@);
    assert(filled_from(t, args, 150) == args[7] + filled_from(t, args, 152));
    lemma_filled_literal(t, args, 152, "::__zngur_internal_assume_init(o);\n      return o;"@);
    assert(filled_from(t, args, 130) =~= (");\n      "@ + args[8] + "\n      ::"@ + args[7] + "::__zngur_internal_assume_init(o);\n      return o;"@) + filled_from(t, args, 202));
}

proof fn lemma_function(args: Seq<Seq<char>>)
    requires
        args.len() == 10,
    ensures
        holds(filled(FUNCTION@, args), seq!["inline "@ + args[1] + " "@ + args[2] + "("@ + args[3] + ") noexcept {"@, args[5] + " (\n        "@ + args[6], ");\n      "@ + args[8] + "\n      ::"@ + args[7] + "::__zngur_internal_assume_init(o);\n      return o;"@]),
{
    lemma_function_template();
    let t = FUNCTION@;
    let parts = seq!["inline "@ + args[1] + " "@ + args[2] + "("@ + args[3] + ") noexcept {"@, args[5] + " (\n        "@ + args[6], ");\n      "@ + args[8] + "\n      ::"@ + args[7] + "::__zngur_internal_assume_init(o);\n      return o;"@];
    lemma_holds_nothing(filled_from(t, args, 202), parts);
    lemma_function_2(args);
    let before = lemma_filled_reaches(t, args, 80, 130);
    lemma_holds_step(filled_from(t, args, 80), before, filled_from(t, args, 202), parts, 2);
    lemma_function_1(args);
    let before = lemma_filled_reaches(t, args, 35, 65);
    lemma_holds_step(filled_from(t, args, 35), before, filled_from(t, args, 80), parts, 1);
    lemma_function_0(args);
    let before = lemma_filled_reaches(t, args, 0, 8);
    lemma_holds_step(filled_from(t, args, 0), before, filled_from(t, args, 35), parts, 0);
    assert(parts.skip(0) =~= parts);
}

proof fn lemma_method_template()
    ensures
        occurs_at(METHOD@, "inline "@, 5),
        METHOD@[12] == '$',
        METHOD@[13] == '0',
        occurs_at(METHOD@, " "@, 14),
        METHOD@[15] == '$',
        METHOD@[16] == '1',
        occurs_at(METHOD@, " ("@, 17),
        METHOD@[19] == '$',
        METHOD@[20] == '2',
        occurs_at(METHOD@, ") noexcept {"@, 21),
        !is_digit(METHOD@[5]),
        METHOD@[63] == '$',
        METHOD@[64] == '4',
        occurs_at(METHOD@, " (\n        "@, 65),
        METHOD@[76] == '$',
        METHOD@[77] == '5',
        occurs_at(METHOD@, ");\n      "@, 128),
        METHOD@[137] == '$',
        METHOD@[138] == '7',
        occurs_at(METHOD@, "\n      ::"@, 139),
        METHOD@[148] == '$',
        METHOD@[149] == '6',
        occurs_at(METHOD@, "::__zngur_internal_assume_init(o);\n      return o;"@, 150),
        !is_digit(METHOD@[128]),
        "inline "@.len() == 7,
        !"inline "@.contains('$'),
        " "@.len() == 1,
        !" "@.contains('$'),
        " ("@.len() == 2,
        !" ("@.contains('$'),
        ") noexcept {"@.len() == 12,
        !") noexcept {"@.contains('$'),
        " (\n        "@.len() == 11,
        !" (\n        "@.contains('$'),
        ");\n      "@.len() == 9,
        !");\n      "@.contains('$'),
        "\n      ::"@.len() == 9,
        !"\n      ::"@.contains('$'),
        "::__zngur_internal_assume_init(o);\n      return o;"@.len() == 50,
        !"::__zngur_internal_assume_init(o);\n      return o;"@.contains('$'),
        METHOD@.len() == 207,
{
    reveal_strlit(r#"
    inline $0 $1 ($2) noexcept {
      $0 o{};
      $3
      $4 (
        $5
        ::$6::__zngur_internal_data_ptr(o)
      );
      $7
      ::$6::__zngur_internal_assume_init(o);
      return o;
    }
"#);
    reveal_strlit("inline ");
    reveal_strlit(" ");
    reveal_strlit(" (");
    reveal_strlit(") noexcept {");
    reveal_strlit(" (\n        ");
    reveal_strlit(");\n      ");
    reveal_strlit("\n      ::");
    reveal_strlit("::__zngur_internal_assume_init(o);\n      return o;");
    assert(METHOD@.subrange(5, 12) =~= "inline "@);
    assert(METHOD@.subrange(14, 15) =~= " "@);
    assert(METHOD@.subrange(17, 19) =~= " ("@);
    assert(METHOD@.subrange(21, 33) =~= ") noexcept {"@);
    assert(METHOD@.subrange(65, 76) =~= " (\n        "@);
    assert(METHOD@.subrange(128, 137) =~= ");\n      "@);
    assert(METHOD@.subrange(139, 148) =~= "\n      ::"@);
    assert(METHOD@.subrange(150, 200) =~= "::__zngur_internal_assume_init(o);\n      return o;"@);
}

proof fn lemma_method_0(args: Seq<Seq<char>>)
    requires
        args.len() == 8,
    ensures
        filled_from(METHOD@, args, 5) == ("inline "@ + args[0] + " "@ + args[1] + " ("@ + args[2] + ") noexcept {"@) + filled_from(METHOD@, args, 33),
{
    lemma_method_template();
    let t = METHOD@;
    lemma_filled_literal(t, args, 5, "inline "@);
    assert(filled_from(t, args, 12) == args[0] + filled_from(t, args, 14));
    lemma_filled_literal(t, args, 14, " "@);
    assert(filled_from(t, args, 15) == args[1] + filled_from(t, args, 17));
    lemma_filled_literal(t, args, 17, " ("@);
    assert(filled_from(t, args, 19) == args[2] + filled_from(t, args, 21));
    lemma_filled_literal(t, args, 21, ") noexcept {"@);
    assert(filled_from(t, args, 5) =~= ("inline "@ + args[0] + " "@ + args[1] + " ("@ + args[2] + ") noexcept {"@) + filled_from(t, args, 33));
}

proof fn lemma_method_1(args: Seq<Seq<char>>)
    requires
        args.len() == 8,
    ensures
        filled_from(METHOD@, args, 63) == (args[4] + " (\n        "@ + args[5]) + filled_from(METHOD@, args, 78),
{
    lemma_method_template();
    let t = METHOD@;
    assert(filled_from(t, args, 63) == args[4] + filled_from(t, args, 65));
    lemma_filled_literal(t, args, 65, " (\n        "@);
    assert(filled_from(t, args, 76) == args[5] + filled_from(t, args, 78));
    assert(filled_from(t, args, 63) =~= (args[4] + " (\n        "@ + args[5]) + filled_from(t, args, 78));
}

proof fn lemma_method_2(args: Seq<Seq<char>>)
    requires
        args.len() == 8,
    ensures
        filled_from(METHOD@, args, 128) == (");\n      "@ + args[7] + "\n      ::"@ + args[6] + "::__zngur_internal_assume_init(o);\n      return o;"@) + filled_from(METHOD@, args, 200),
{
    lemma_method_template();
    let t = METHOD@;
    lemma_filled_literal(t, args, 128, ");\n      "@);
    assert(filled_from(t, args, 137) == args[7] + filled_from(t, args, 139));
    lemma_filled_literal(t, args, 139, "\n      ::"@);
    assert(filled_from(t, args, 148) == args[6] + filled_from(t, args, 150));
    lemma_filled_literal(t, args, 150, "::__zngur_internal_assume_init(o);\n      return o;"@);
    assert(filled_from(t, args, 128) =~= (");\n      "@ + args[7] + "\n      ::"@ + args[6] + "::__zngur_internal_assume_init(o);\n      return o;"@) + filled_from(t, args, 200));
}

proof fn lemma_method(args: Seq<Seq<char>>)
    requires
        args.len() == 8,
    ensures
        holds(filled(METHOD@, args), seq!["inline "@ + args[0] + " "@ + args[1] + " ("@ + args[2] + ") noexcept {"@, args[4] + " (\n        "@ + args[5], ");\n      "@ + args[7] + "\n      ::"@ + args[6] + "::__zngur_internal_assume_init(o);\n      return o;"@]),
{
    lemma_method_template();
    let t = METHOD@;
    let parts = seq!["inline "@ + args[0] + " "@ + args[1] + " ("@ + args[2] + ") noexcept {"@, args[4] + " (\n        "@ + args[5], ");\n      "@ + args[7] + "\n      ::"@ + args[6] + "::__zngur_internal_assume_init(o);\n      return o;"@];
    lemma_holds_nothing(filled_from(t, args, 200), parts);
    lemma_method_2(args);
    let before = lemma_filled_reaches(t, args, 78, 128);
    lemma_holds_step(filled_from(t, args, 78), before, filled_from(t, args, 200), parts, 2);
    lemma_method_1(args);
    let before = lemma_filled_reaches(t, args, 33, 63);
    lemma_holds_step(filled_from(t, args, 33), before, filled_from(t, args, 78), parts, 1);
    lemma_method_0(args);
    let before = lemma_filled_reaches(t, args, 0, 5);
    lemma_holds_step(filled_from(t, args, 0), before, filled_from(t, args, 33), parts, 0);
    assert(parts.skip(0) =~= parts);
}

proof fn lemma_panic_text(panic: Option<PanicModel>, namespace: Seq<char>)
    ensures
        panic_handler_text(panic, namespace) == (match panic {
            Some(p) => throwing(p.detect_panic, namespace),
            None => Seq::empty(),
        }),
{
    if let Some(p) = panic {
        let args = seq![p.detect_panic, namespace];
        lemma_handler_0(args);
        lemma_handler_template();
        assert(filled_from(PANIC_HANDLER@, args, 88) =~= Seq::<char>::empty());
        assert(throwing(p.detect_panic, namespace) + Seq::<char>::empty() =~= throwing(
            p.detect_panic,
            namespace,
        ));
    } else {
        reveal_strlit("");
        assert(""@ =~= Seq::<char>::empty());
    }
}

/// A function of C++ that calls Rust calls it by its link name with the inputs,
/// and behind the call throws where Rust has panicked, before it returns the
/// output; where panics are not converted nothing stands in between.
pub proof fn law_functions_handle_panics(
    fd: FnDefModel,
    panic: Option<PanicModel>,
    namespace: Seq<char>,
)
    ensures
        holds(
            fn_dep_text(fd, panic, namespace),
            seq![
                "inline "@ + fd.sig.output.text() + " "@ + fd.name.last() + "("@ + params_text(
                    fd.sig.inputs,
                ) + ") noexcept {"@,
                fd.sig.rust_link_name + " (\n        "@ + pointers_text(
                    fd.sig.inputs.len(),
                    namespace,
                ),
                ending(panic, namespace),
            ],
        ),
{
    lemma_panic_text(panic, namespace);
    lemma_function(
        seq![
            join_text(opening_lines(fd.name.drop_last()), "\n"@),
            fd.sig.output.text(),
            fd.name.last(),
            params_text(fd.sig.inputs),
            deinit_text(fd.sig.inputs.len(), namespace),
            fd.sig.rust_link_name,
            pointers_text(fd.sig.inputs.len(), namespace),
            namespace,
            panic_handler_text(panic, namespace),
            join_text(closing_lines(fd.name.drop_last()), "\n"@),
        ],
    );
}

/// As [`law_functions_handle_panics`], for the methods of a type.
pub proof fn law_methods_handle_panics(
    td: TypeDefModel,
    m: CppMethodModel,
    panic: Option<PanicModel>,
    namespace: Seq<char>,
)
    ensures
        holds(
            method_text(td, m, panic, namespace),
            seq![
                "inline "@ + m.sig.output.text() + " "@ + method_name(td.ty, m.name) + " ("@
                    + params_text(m.sig.inputs) + ") noexcept {"@,
                m.sig.rust_link_name + " (\n        "@ + pointers_text(
                    m.sig.inputs.len(),
                    namespace,
                ),
                ending(panic, namespace),
            ],
        ),
{
    lemma_panic_text(panic, namespace);
    let args = seq![
        m.sig.output.text(),
        method_name(td.ty, m.name),
        params_text(m.sig.inputs),
        deinit_text(m.sig.inputs.len(), namespace),
        m.sig.rust_link_name,
        pointers_text(m.sig.inputs.len(), namespace),
        namespace,
        panic_handler_text(panic, namespace),
    ];
    lemma_method(args);
    let first = filled(METHOD@, args);
    let whole = method_text(td, m, panic, namespace);
    let rest = whole.skip(first.len() as int);
    assert(whole =~= Seq::<char>::empty() + first + rest);
    lemma_holds_inside(
        whole,
        Seq::empty(),
        first,
        rest,
        seq![
            "inline "@ + m.sig.output.text() + " "@ + method_name(td.ty, m.name) + " ("@
                + params_text(m.sig.inputs) + ") noexcept {"@,
            m.sig.rust_link_name + " (\n        "@ + pointers_text(m.sig.inputs.len(), namespace),
            ending(panic, namespace),
        ],
    );
}

/// Every function of an interface handles panics in the text that they make
/// together.
pub proof fn law_all_functions_handle_panics(
    v: Seq<FnDefModel>,
    i: int,
    panic: Option<PanicModel>,
    namespace: Seq<char>,
)
    requires
        0 <= i < v.len(),
    ensures
        holds(
            fn_deps_text(v, panic, namespace),
            seq![
                "inline "@ + v[i].sig.output.text() + " "@ + v[i].name.last() + "("@ + params_text(
                    v[i].sig.inputs,
                ) + ") noexcept {"@,
                v[i].sig.rust_link_name + " (\n        "@ + pointers_text(
                    v[i].sig.inputs.len(),
                    namespace,
                ),
                ending(panic, namespace),
            ],
        ),
{
    law_functions_handle_panics(v[i], panic, namespace);
    let all = Seq::new(v.len(), |k: int| fn_dep_text(v[k], panic, namespace));
    let (x, y) = lemma_concat_holds(all, i);
    lemma_holds_inside(
        concat_all(all),
        x,
        all[i],
        y,
        seq![
            "inline "@ + v[i].sig.output.text() + " "@ + v[i].name.last() + "("@ + params_text(
                v[i].sig.inputs,
            ) + ") noexcept {"@,
            v[i].sig.rust_link_name + " (\n        "@ + pointers_text(
                v[i].sig.inputs.len(),
                namespace,
            ),
            ending(panic, namespace),
        ],
    );
}

/// Every method of a type handles panics in the text that they make together.
pub proof fn law_all_methods_handle_panics(
    td: TypeDefModel,
    i: int,
    panic: Option<PanicModel>,
    namespace: Seq<char>,
)
    requires
        0 <= i < td.methods.len(),
    ensures
        holds(
            type_methods_text(td, panic, namespace),
            seq![
                "inline "@ + td.methods[i].sig.output.text() + " "@ + method_name(
                    td.ty,
                    td.methods[i].name,
                ) + " ("@ + params_text(td.methods[i].sig.inputs) + ") noexcept {"@,
                td.methods[i].sig.rust_link_name + " (\n        "@ + pointers_text(
                    td.methods[i].sig.inputs.len(),
                    namespace,
                ),
                ending(panic, namespace),
            ],
        ),
{
    let m = td.methods[i];
    law_methods_handle_panics(td, m, panic, namespace);
    let all = Seq::new(td.methods.len(), |k: int| method_text(td, td.methods[k], panic, namespace));
    let (x, y) = lemma_concat_holds(all, i);
    lemma_holds_inside(
        concat_all(all),
        x,
        all[i],
        y,
        seq![
            "inline "@ + m.sig.output.text() + " "@ + method_name(td.ty, m.name) + " ("@
                + params_text(m.sig.inputs) + ") noexcept {"@,
            m.sig.rust_link_name + " (\n        "@ + pointers_text(m.sig.inputs.len(), namespace),
            ending(panic, namespace),
        ],
    );
}

} // verus!
