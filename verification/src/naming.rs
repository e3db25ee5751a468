//! How types are named on both sides, and what the names depend on.

use crate::coro::{future_output, CoroModel, ShimModel};
use crate::cpp::{handle_field_name, handle_keyword, path_from, CppTypeModel};
use crate::cpp_file::{header_text, source_needed};
use crate::def::SpecModel;
use crate::filling::{lemma_future_close, lemma_future_open, lemma_wakers};
use crate::halves::{cfg_define, cpp_half, rust_half, setting_of, with_modules, Setting};
use crate::holding::{
    holds, lemma_concat_holds, lemma_holds_both, lemma_holds_inside, lemma_holds_itself,
    lemma_regroup,
};
use crate::into_cpp::{builtin, convertible, type_to_cpp, types_to_cpp};
use crate::linking::{lemma_half_has_coro, lemma_inside_holds};
use crate::outside::uppercase_text;
use crate::rust_file::{coro_text, send_sync_bound, shim_text};
use crate::rust_templates::{FUTURE_SHIM_CLOSE, FUTURE_SHIM_OPEN, WAKER_SHIMS};
use crate::rust_types::{Mutability, PrimitiveRustType, TraitModel, TypeModel};
use crate::text::{concat_all, dec_text, filled, parse_uint};
use vstd::prelude::*;

verus! {

/// A C++ type of the namespace, over other types.
pub open spec fn over(namespace: Seq<char>, name: Seq<char>, args: Seq<CppTypeModel>) -> CppTypeModel {
    CppTypeModel { path: path_from(namespace + "::"@ + name), generic_args: args, tail: None }
}

/// A reference is a `RefMut` or a `Ref` in C++, as Rust writes it `&mut` or `&`; a
/// raw pointer a `RawMut` or a `Raw`, as Rust writes it `*mut` or `*const`, but for
/// those to numbers; a box, a slice and a tuple keep what they hold.
pub proof fn law_types_are_named_on_both_sides(
    m: Mutability,
    t: TypeModel,
    v: Seq<TypeModel>,
    namespace: Seq<char>,
    crate_name: Seq<char>,
)
    ensures
        ({
            let inner = type_to_cpp(t, namespace, crate_name);
            let reference = TypeModel::Ref(m, Box::new(t));
            let raw = TypeModel::Raw(m, Box::new(t));
            &&& type_to_cpp(reference, namespace, crate_name) == over(
                namespace,
                if m == Mutability::Mut {
                    "RefMut"@
                } else {
                    "Ref"@
                },
                seq![inner],
            )
            &&& reference.text() == (if m == Mutability::Mut {
                "&mut "@
            } else {
                "&"@
            }) + t.text()
            &&& builtin(t) is None ==> type_to_cpp(raw, namespace, crate_name) == over(
                namespace,
                if m == Mutability::Mut {
                    "RawMut"@
                } else {
                    "Raw"@
                },
                seq![inner],
            )
            &&& raw.text() == (if m == Mutability::Mut {
                "*mut "@
            } else {
                "*const "@
            }) + t.text()
            &&& type_to_cpp(TypeModel::Boxed(Box::new(t)), namespace, crate_name) == over(
                namespace,
                "Box"@,
                seq![inner],
            )
            &&& TypeModel::Boxed(Box::new(t)).text() == "Box<"@ + t.text() + ">"@
            &&& type_to_cpp(TypeModel::Slice(Box::new(t)), namespace, crate_name) == over(
                namespace,
                "Slice"@,
                seq![inner],
            )
            &&& TypeModel::Slice(Box::new(t)).text() == "["@ + t.text() + "]"@
            &&& v.len() > 0 ==> type_to_cpp(TypeModel::Tuple(v), namespace, crate_name) == over(
                namespace,
                "Tuple"@,
                Seq::new(v.len(), |i: int| type_to_cpp(v[i], namespace, crate_name)),
            )
        }),
{
    if v.len() > 0 {
        assert(types_to_cpp(v, namespace, crate_name) =~= Seq::new(
            v.len(),
            |i: int| type_to_cpp(v[i], namespace, crate_name),
        ));
    }
    assert(builtin(TypeModel::Ref(m, Box::new(t))) is None);
    assert(builtin(TypeModel::Boxed(Box::new(t))) is None);
    assert(builtin(TypeModel::Slice(Box::new(t))) is None);
    assert(builtin(TypeModel::Tuple(v)) is None);
    reveal_with_fuel(builtin, 2);
}

/// References that differ in mutability alone have different Rust texts, and so do
/// raw pointers.
pub proof fn law_mutability_is_written(t: TypeModel)
    ensures
        TypeModel::Ref(Mutability::Mut, Box::new(t)).text() != TypeModel::Ref(
            Mutability::Not,
            Box::new(t),
        ).text(),
        TypeModel::Raw(Mutability::Mut, Box::new(t)).text() != TypeModel::Raw(
            Mutability::Not,
            Box::new(t),
        ).text(),
{
    reveal_strlit("&mut ");
    reveal_strlit("&");
    reveal_strlit("*mut ");
    reveal_strlit("*const ");
    let a = TypeModel::Ref(Mutability::Mut, Box::new(t)).text();
    let b = TypeModel::Ref(Mutability::Not, Box::new(t)).text();
    assert(a.len() == 5 + t.text().len() && b.len() == 1 + t.text().len());
    let c = TypeModel::Raw(Mutability::Mut, Box::new(t)).text();
    let d = TypeModel::Raw(Mutability::Not, Box::new(t)).text();
    assert(c.len() == 5 + t.text().len() && d.len() == 7 + t.text().len());
}

/// A number of Rust is the number of C++ with as many bits and the same sign, and
/// has no C++ type where C++ has no such number.
pub proof fn law_numbers_keep_bits_and_sign(n: u32, namespace: Seq<char>, crate_name: Seq<char>)
    ensures
        ({
            let cpp = |p: PrimitiveRustType|
                type_to_cpp(TypeModel::Primitive(p), namespace, crate_name);
            let plain = |name: Seq<char>|
                CppTypeModel {
                    path: path_from(name),
                    generic_args: Seq::<CppTypeModel>::empty(),
                    tail: None,
                };
            &&& cpp(PrimitiveRustType::Int(n)) == plain("int"@ + dec_text(n as nat) + "_t"@)
            &&& cpp(PrimitiveRustType::Uint(n)) == plain("uint"@ + dec_text(n as nat) + "_t"@)
            &&& cpp(PrimitiveRustType::Float(32)) == plain("float_t"@)
            &&& cpp(PrimitiveRustType::Float(64)) == plain("double_t"@)
            &&& cpp(PrimitiveRustType::Usize) == plain("size_t"@)
            &&& (convertible(TypeModel::Primitive(PrimitiveRustType::Float(n)), namespace) <==> n
                == 32 || n == 64)
        }),
{
}

/// `impl Trait`, a type variable and a C++ type have no C++ type, and neither has
/// what holds one of them.
pub proof fn law_some_types_stay_in_rust(
    tr: TraitModel,
    bounds: Seq<Seq<char>>,
    name: Seq<char>,
    path: Seq<Seq<char>>,
    m: Mutability,
    t: TypeModel,
    namespace: Seq<char>,
)
    ensures
        !convertible(TypeModel::Impl(tr, bounds), namespace),
        !convertible(TypeModel::TypeVar(name), namespace),
        !convertible(TypeModel::Cpp(path), namespace),
        convertible(TypeModel::Ref(m, Box::new(t)), namespace) == convertible(t, namespace),
        convertible(TypeModel::Raw(m, Box::new(t)), namespace) == convertible(t, namespace),
        convertible(TypeModel::Boxed(Box::new(t)), namespace) == convertible(t, namespace),
        convertible(TypeModel::Slice(Box::new(t)), namespace) == convertible(t, namespace),
{
    reveal_with_fuel(convertible, 2);
}

/// No name in C++ is one of the keywords that Rust allows as names, and no field
/// name starts with a digit.
pub proof fn law_names_are_fit_for_cpp(name: Seq<char>)
    ensures
        handle_keyword(name) != "new"@,
        handle_keyword(name) != "default"@,
        name != "new"@ && name != "default"@ ==> handle_keyword(name) == name,
        parse_uint(name, u32::MAX as nat) is Some ==> handle_field_name(name).len() == name.len() + 1
            && handle_field_name(name)[0] == 'f' && handle_field_name(name).skip(1) == name,
        parse_uint(name, u32::MAX as nat) is None ==> handle_field_name(name) == handle_keyword(
            name,
        ),
{
    reveal_strlit("new");
    reveal_strlit("default");
    reveal_strlit("new_");
    reveal_strlit("default_");
    reveal_strlit("f");
    assert("new"@.len() == 3 && "new_"@.len() == 4 && "default"@.len() == 7 && "default_"@.len()
        == 8);
    assert(("f"@ + name).skip(1) =~= name);
}

/// The two halves agree on panics: C++ knows how to learn of one exactly where the
/// interface asks for exceptions, and then the Rust half catches them; the function
/// that takes a panic is the one that detects it.
pub proof fn law_halves_agree_on_panics(zng: SpecModel, crate_name: Seq<char>, z: bool)
    ensures
        ({
            let s = setting_of(zng, crate_name);
            let c = cpp_half(zng, s, z).panic_to_exception;
            &&& s.panic == zng.convert_panic_to_exception
            &&& (c is Some <==> zng.convert_panic_to_exception)
            &&& (c matches Some(p) ==> p.detect_panic == p.take_panic && p.detect_panic.len() > 0)
        }),
{
    reveal_strlit("__zngur_read_and_reset_rust_panic");
}

/// The namespace of an interface is the chosen one, or `rust`, and its names are
/// mangled by its own base.
pub proof fn law_names_follow_the_interface(zng: SpecModel, crate_name: Seq<char>)
    ensures
        setting_of(zng, crate_name).base == zng.mangling_base,
        zng.cpp_namespace matches Some(n) ==> setting_of(zng, crate_name).namespace == n,
        zng.cpp_namespace is None ==> setting_of(zng, crate_name).namespace == "rust"@,
{
}

/// C++ is told of a configuration value by a macro that starts with its key in
/// upper case, and holds the value where there is one.
pub proof fn law_configuration_macros(key: Seq<char>, value: Seq<char>)
    ensures
        cfg_define(key, None) == "ZNGUR_CFG_"@ + uppercase_text(key),
        cfg_define(key, Some(Seq::empty())) == cfg_define(key, None),
        cfg_define(key, Some(value)) == cfg_define(key, None) || exists|tail: Seq<char>|
            cfg_define(key, Some(value)) == #[trigger] (cfg_define(key, None) + ("_"@ + tail)),
{
    reveal_strlit("");
    let head = "ZNGUR_CFG_"@ + uppercase_text(key);
    assert(head + ""@ =~= head);
    let empty = Seq::<char>::empty();
    assert(crate::text::trim_text(empty).len() == 0);
    let tail = uppercase_text(value.map_values(|c: char| crate::halves::macro_char(c)));
    let all = cfg_define(key, None) + ("_"@ + tail);
}

/// A boxed future is known by its trait and its output; it is `Send` and `Sync`
/// exactly where both are among its bounds.
pub proof fn law_futures_are_known(ty: TypeModel)
    ensures
        future_output(ty) matches Some(f) ==> ty matches TypeModel::Boxed(inner) && (
        *inner matches TypeModel::Dyn(tr, bounds) && (f.1 <==> bounds.contains("Send"@)
            && bounds.contains("Sync"@)) && (tr matches TraitModel::Normal(p) && p.path.len() >= 3
            && p.path.last() == "Future"@)),
{
}

/// What the Rust half holds for the futures of one output, under the names that
/// C++ links it by.
pub open spec fn shim_parts(s: ShimModel) -> Seq<Seq<char>> {
    let out = s.rust_output.text();
    let bound = if s.is_send_sync {
        " + Send + Sync"@
    } else {
        Seq::empty()
    };
    seq![
        "pub extern \"C\" fn "@ + s.poll_future_fn
            + "(fut: *mut u8, waker: *mut u8, out: *mut u8) -> u8"@,
        "::std::boxed::Box<dyn ::std::future::Future<Output = "@ + out + ">"@ + bound + ">);"@,
        "::std::ptr::write(out as *mut "@ + out + ", v);\n                1"@,
        "fn "@ + s.coro_poll_fn + "(handle: *mut u8, waker: *mut u8, out: *mut u8) -> u8;\n    fn "@
            + s.coro_destroy_fn + "(handle: *mut u8);"@,
        "pub extern \"C\" fn "@ + s.make_coro_future_fn + "(handle: *mut u8, out: *mut u8)"@,
        "type Output = "@ + out + ";"@,
        "unsafe { "@ + s.coro_poll_fn + "(self.handle, waker_ptr"@,
        "unsafe { "@ + s.coro_destroy_fn + "(self.handle) }"@,
    ] + seq![
        "let state = CoroState { handle };"@,
        "::std::boxed::Box<dyn ::std::future::Future<Output = "@ + out + ">"@ + bound
            + "> =\n        ::std::boxed::Box::new(state);"@,
    ]
}

/// The Rust half polls the futures of an output, and makes such futures of C++
/// coroutines, which it polls and destroys, under the names that C++ links it by.
pub proof fn law_futures_are_linked(s: ShimModel)
    ensures
        holds(shim_text(s), shim_parts(s)),
{
    reveal_strlit("");
    assert(""@ =~= Seq::<char>::empty());
    let a = seq![
        s.poll_future_fn,
        s.rust_output.text(),
        send_sync_bound(s.is_send_sync),
        s.coro_poll_fn,
        s.coro_destroy_fn,
        s.make_coro_future_fn,
    ];
    let b = seq![s.rust_output.text(), send_sync_bound(s.is_send_sync)];
    lemma_future_open(a);
    lemma_future_close(b);
    let marks = if s.is_send_sync {
        "    unsafe impl Send for CoroState {} unsafe impl Sync for CoroState {}\n"@
    } else {
        ""@
    };
    let front = filled(FUTURE_SHIM_OPEN@, a);
    let parts = shim_parts(s);
    let u = seq![
        parts[0],
        parts[1],
        parts[2],
        parts[3],
        parts[4],
        parts[5],
        parts[6],
        parts[7],
    ];
    let v = seq![parts[8], parts[9]];
    assert(u + v =~= parts);
    assert(front + marks =~= Seq::<char>::empty() + front + marks);
    lemma_holds_inside(front + marks, Seq::empty(), front, marks, u);
    lemma_holds_both(front + marks, u, filled(FUTURE_SHIM_CLOSE@, b), v);
}

/// What the Rust half holds for wakers, under the names that C++ links it by.
pub open spec fn waker_parts(c: CoroModel) -> Seq<Seq<char>> {
    seq![
        "pub extern \"C\" fn "@ + c.clone_waker_fn + "(src: *mut u8, dst: *mut u8)"@,
        "let cloned = src.clone();"@,
        "pub extern \"C\" fn "@ + c.waker_wake_fn + "(w: *mut u8)"@,
        "w.wake();"@,
        "pub extern \"C\" fn "@ + c.waker_drop_fn + "(w: *mut u8)"@,
        "::std::ptr::drop_in_place(w as *mut ::std::task::Waker);"@,
    ]
}

/// The Rust half clones, wakes and drops wakers under the names that C++ links
/// these by, and holds what each kind of future needs.
pub proof fn law_wakers_are_linked(c: CoroModel, i: int)
    requires
        0 <= i < c.shims.len(),
    ensures
        holds(
            coro_text(c),
            waker_parts(c) + shim_parts(c.shims[i]),
        ),
{
    let a = seq![c.clone_waker_fn, c.waker_wake_fn, c.waker_drop_fn];
    lemma_wakers(a);
    let v = Seq::new(c.shims.len(), |k: int| shim_text(c.shims[k]));
    let (x, y) = lemma_concat_holds(v, i);
    law_futures_are_linked(c.shims[i]);
    lemma_holds_inside(concat_all(v), x, v[i], y, shim_parts(c.shims[i]));
    lemma_holds_both(
        filled(WAKER_SHIMS@, a),
        waker_parts(c),
        concat_all(v),
        shim_parts(c.shims[i]),
    );
}

/// Both halves have the same support for coroutines: what C++ is told of, the Rust
/// half holds under the same names.
pub proof fn law_coroutines_are_linked(zng: SpecModel, s: Setting, z: bool, i: int)
    ensures
        cpp_half(zng, s, z).coro_support matches Some(c) ==> (0 <= i < c.shims.len() ==> holds(
            rust_half(zng, s),
            waker_parts(c) + shim_parts(c.shims[i]),
        )),
{
    if let Some(c) = cpp_half(zng, s, z).coro_support {
        if 0 <= i < c.shims.len() {
            law_wakers_are_linked(c, i);
            lemma_half_has_coro(zng, s);
            lemma_inside_holds(
                rust_half(zng, s),
                coro_text(c),
                waker_parts(c) + shim_parts(c.shims[i]),
            );
        }
    }
}

/// What C++ implements needs a source file: functions, implementation blocks and
/// traits; an interface without any of them and without closures needs none.
pub proof fn law_what_cpp_implements_needs_a_source(zng: SpecModel, s: Setting, z: bool)
    ensures
        zng.extern_cpp_funcs.len() > 0 ==> source_needed(cpp_half(zng, s, z)),
        zng.extern_cpp_impls.len() > 0 ==> source_needed(cpp_half(zng, s, z)),
        cpp_half(zng, s, z).trait_defs.len() > 0 ==> source_needed(cpp_half(zng, s, z)),
        zng.extern_cpp_funcs.len() == 0 && zng.extern_cpp_impls.len() == 0 && cpp_half(
            zng,
            s,
            z,
        ).trait_defs.len() == 0 ==> !source_needed(cpp_half(zng, s, z)),
{
}

/// Where panics stay panics a header is left as it is.
pub proof fn law_headers_stay_without_exceptions(text: Seq<char>)
    ensures
        header_text(text, false) == text,
{
}

/// The lines that name the headers of the first `n` modules.
pub open spec fn module_lines(v: Seq<Seq<char>>, n: nat) -> Seq<Seq<char>> {
    Seq::new(n, |i: int| "\n#include \""@ + v[i] + ".h\""@)
}

proof fn lemma_modules(t: Seq<char>, v: Seq<Seq<char>>, n: nat)
    requires
        n <= v.len(),
    ensures
        holds(with_modules(t, v, n), seq![t] + module_lines(v, n)),
    decreases n,
{
    if n == 0 {
        lemma_holds_itself(t);
        assert(seq![t] + module_lines(v, 0) =~= seq![t]);
    } else {
        lemma_modules(t, v, (n - 1) as nat);
        lemma_module(with_modules(t, v, (n - 1) as nat), t, v, n);
    }
}

proof fn lemma_module(before: Seq<char>, t: Seq<char>, v: Seq<Seq<char>>, n: nat)
    requires
        0 < n <= v.len(),
        holds(before, seq![t] + module_lines(v, (n - 1) as nat)),
    ensures
        holds(before + "\n#include \""@ + v[n - 1] + ".h\""@, seq![t] + module_lines(v, n)),
{
    let front = module_lines(v, (n - 1) as nat);
    let last = "\n#include \""@ + v[n - 1] + ".h\""@;
    lemma_holds_itself(last);
    lemma_holds_both(before, seq![t] + front, last, seq![last]);
    lemma_regroup(before, "\n#include \""@, v[n - 1]);
    lemma_regroup(before, "\n#include \""@ + v[n - 1], ".h\""@);
    assert(module_lines(v, n) =~= front + seq![last]);
    assert(seq![t] + front + seq![last] =~= seq![t] + module_lines(v, n));
}

/// The header has the additional text of the interface, and then the header of each
/// imported module, in their order; and it has the name that was chosen for it.
pub proof fn law_imported_modules_are_named(zng: SpecModel, s: Setting, z: bool)
    ensures
        cpp_half(zng, s, z).header_file_name == zng.cpp_include_header_name,
        holds(
            cpp_half(zng, s, z).additional_includes,
            seq![zng.additional_includes] + module_lines(
                zng.imported_modules,
                zng.imported_modules.len(),
            ),
        ),
{
    lemma_modules(zng.additional_includes, zng.imported_modules, zng.imported_modules.len());
}

} // verus!
