use zngur::coro::{future_output_type, CoroSupport};
use zngur::cpp::{CppPath, CppType};
use zngur::cpp_file::{
    CppExportedImplDefinition, CppFile, CppFnDefinition, CppFnSig, CppLayoutPolicy, CppMethod,
    CppTraitDefinition, CppTypeDefinition, PanicToExceptionSymbols, ZngurWellknownTraitData,
};
use zngur::def::{
    LayoutPolicy, ZngurField, ZngurMethod, ZngurMethodReceiver, ZngurTrait, ZngurVariant,
    ZngurWellknownTrait,
};
use zngur::header::{CppHeaderTemplate, ZngHeaderTemplate};
use zngur::rust_file::{make_returned_type, RustFile};
use zngur::rust_types::{
    Mutability, PrimitiveRustType, RustPathAndGenerics, RustTrait, RustType,
};

fn pg(segments: &[&str], named_generics: Vec<(String, RustType)>) -> RustPathAndGenerics {
    RustPathAndGenerics {
        path: segments.iter().map(|x| x.to_string()).collect(),
        generics: vec![],
        named_generics,
    }
}

fn adt(segments: &[&str]) -> RustType {
    RustType::Adt(pg(segments, vec![]))
}

fn signed(bits: u32) -> RustType {
    RustType::Primitive(PrimitiveRustType::Int(bits))
}

fn unit() -> RustType {
    RustType::Tuple(vec![])
}

fn method(name: &str, receiver: ZngurMethodReceiver, inputs: Vec<RustType>, output: RustType) -> ZngurMethod {
    ZngurMethod {
        name: name.to_string(),
        generics: vec![],
        receiver,
        inputs,
        output,
        is_safe: true,
    }
}

/// What is added to a file.
fn added(act: impl Fn(&mut RustFile)) -> String {
    let mut file = RustFile::new("");
    let before = file.text.clone();
    act(&mut file);
    assert!(file.text.starts_with(&before));
    file.text[before.len()..].to_string()
}

#[test]
fn a_file_starts_with_its_macros() {
    let file = RustFile::new("base");
    assert!(file.text.starts_with("\nmacro_rules! __zngur_str_as_array {"));
    assert!(file.text.contains("macro_rules! __zngur_assert_field_offset"));
    assert!(!file.panic_to_exception);
    assert_eq!(file.mangling_base, "base");
}

#[test]
fn assertions_are_macro_calls() {
    let a = adt(&["A"]);
    assert_eq!(added(|f| f.add_static_is_copy_assert(&a)), "__zngur_assert_is_copy!(::A);\n");
    assert_eq!(added(|f| f.add_static_size_assert(&a, 24)), "__zngur_assert_size!(::A, 24);\n");
    assert_eq!(added(|f| f.add_static_align_assert(&a, 8)), "__zngur_assert_align!(::A, 8);\n");
    assert_eq!(
        added(|f| f.add_static_size_upper_bound_assert(&a, 24)),
        "__zngur_assert_size_conservative!(::A, 24);\n"
    );
    assert_eq!(
        added(|f| f.add_static_align_upper_bound_assert(&a, 8)),
        "__zngur_assert_align_conservative!(::A, 8);\n"
    );
}

#[test]
fn a_call_moves_its_inputs() {
    assert_eq!(
        added(|f| f.call_cpp_function("g(", 2)),
        "let mut i0 = ::core::mem::MaybeUninit::new(i0);\nlet mut i1 = ::core::mem::MaybeUninit::new(i1);\nlet mut r = ::core::mem::MaybeUninit::uninit();\ng(i0.as_mut_ptr() as *mut u8, i1.as_mut_ptr() as *mut u8, r.as_mut_ptr() as *mut u8);\nr.assume_init()\n"
    );
}

#[test]
fn tuples_and_structs_have_constructors() {
    assert_eq!(
        added(|f| assert_eq!(f.add_tuple_constructor(&vec![signed(8), signed(16)]), "_zngur_i8_i16_r9")),
        "\n#[allow(non_snake_case)]\n#[unsafe(no_mangle)]\npub extern \"C\" fn _zngur_i8_i16_r9(f_0: *mut u8, f_1: *mut u8, o: *mut u8) { unsafe {\n    ::std::ptr::write(o as *mut _, (::std::ptr::read(f_0 as *mut i8), ::std::ptr::read(f_1 as *mut i16), )) } }\n"
    );
    assert_eq!(
        added(|f| assert_eq!(f.add_constructor("A", &vec![("x".to_string(), signed(8))]), "_zngur_A_")),
        "\n#[allow(non_snake_case)]\n#[unsafe(no_mangle)]\npub extern \"C\" fn _zngur_A_(f_x: *mut u8, o: *mut u8) { unsafe {\n    ::std::ptr::write(o as *mut _, A { x: ::std::ptr::read(f_x as *mut i8), }) } }\n"
    );
}

#[test]
fn variants_are_told_apart() {
    let v = |name: &str| ZngurVariant { name: name.to_string(), fields: vec![], exhaustive: false };
    assert_eq!(added(|f| assert_eq!(f.add_discriminant("E", &vec![]), None)), "");
    assert_eq!(
        added(|f| assert_eq!(
            f.add_discriminant("E", &vec![v("A"), v("B")]),
            Some("_zngur_E_match_s8".to_string())
        )),
        "\n#[allow(non_snake_case)]\n#[unsafe(no_mangle)]\npub extern \"C\" fn _zngur_E_match_s8(i: *mut u8) -> u32 { unsafe {\n    match &*(i as *mut E as *const _) {\n        E::A { .. } => 0,\n        \n        E::B { .. } => 1,\n        \n    }\n} }\n            "
    );
    assert_eq!(
        added(|f| assert_eq!(f.add_match_check("E"), "_zngur_E_check_")),
        "\n#[allow(non_snake_case)]\n#[unsafe(no_mangle)]\npub extern \"C\" fn _zngur_E_check_(i: *mut u8, o: *mut u8) { unsafe {\n    *o = matches!(&*(i as *mut &_), E { .. }) as u8;\n} }"
    );
}

#[test]
fn fields_have_offsets() {
    let field = |offset| ZngurField { name: "x".to_string(), ty: signed(8), offset };
    let owner = adt(&["A"]);
    assert_eq!(
        added(|f| assert_eq!(f.add_field_assertions(&field(Some(4)), &owner), None)),
        "__zngur_assert_has_field!(::A, i8, x);\n__zngur_assert_field_offset!(::A, 4, x);\n"
    );
    let link = "_zngur__A_field_x_offset_s7";
    assert_eq!(
        added(|f| assert_eq!(f.add_field_assertions(&field(None), &owner), Some(link.to_string()))),
        format!("__zngur_assert_has_field!(::A, i8, x);\n\n#[allow(non_snake_case)]\n#[unsafe(no_mangle)]\npub static {link}: usize = ::std::mem::offset_of!(::A, x);\n                \n")
    );
    let text = added(|f| {
        assert_eq!(
            f.add_variant_field_calculations(&field(None), &owner, "V"),
            "_zngur__A_V_field_x_offset_s7"
        )
    });
    assert!(text.contains("::A::V { x: f, .. } => {"));
}

#[test]
fn trait_objects_are_made_of_cpp_data() {
    let tr = ZngurTrait {
        tr: RustTrait::Normal(pg(&["T"], vec![("Item".to_string(), signed(8))])),
        methods: vec![method(
            "next",
            ZngurMethodReceiver::Ref(Mutability::Mut),
            vec![signed(32)],
            signed(16),
        )],
    };
    let mut file = RustFile::new("");
    let def = file.add_builder_for_dyn_trait(&tr, "rust", "c");
    let CppTraitDefinition::Normal { as_ty, methods, link_name, link_name_ref } = def else {
        panic!("no trait");
    };
    assert_eq!(as_ty.to_text(), "::rust::T< ::int8_t >");
    assert_eq!(link_name, "_zngur__T_Item_i8__s7m9e14y17");
    assert_eq!(link_name_ref, "_zngur__T_Item_i8__s7m9e14y17_borrowed");
    assert_eq!(methods[0].name, "next");
    assert_eq!(
        methods[0].rust_link_name,
        "_zngur__T_Item_i8__s7m9e14y17_next_e3b0c44298_69193edca2"
    );
    assert_eq!(methods[0].inputs[0].to_text(), "::int32_t");
    assert_eq!(methods[0].output.to_text(), "::int16_t");
    assert!(file.text.contains("    impl ::T for Wrapper {\n\n        type Item = i8;\n        fn next(&mut self, i0: i32) -> i16 { unsafe {\n            let data = self.data;\n"));
    assert!(file.text.contains("            let data = ::std::mem::transmute::<_, *mut u8>(self);\n"));
    assert!(file.text.contains("let r: Box<dyn ::T::<Item = i8>> = Box::new(this);"));
    assert!(file.text.contains("let r: &dyn ::T::<Item = i8> = &*this;"));
}

#[test]
fn closures_are_made_of_cpp_data() {
    let text = added(|f| {
        assert_eq!(
            f.add_builder_for_dyn_fn("Fn", &vec![signed(8)], &signed(16)),
            "_zngur_i8_i16_c9"
        )
    });
    assert!(text.contains("call: extern \"C\" fn(data: *mut u8, i0: *mut u8,  o: *mut u8),"));
    assert!(text.contains("let r: Box<dyn Fn(i8) -> i16> = Box::new(move |i0: i8| unsafe {"));
    assert!(text.ends_with("    });\n    unsafe { std::ptr::write(o as *mut _, r) }\n}\n"));
}

#[test]
fn cpp_functions_can_be_called() {
    assert_eq!(
        added(|f| assert_eq!(
            f.add_extern_cpp_function("g", &vec![signed(8)], &unit(), false),
            "_zngur_g_"
        )),
        "\nunsafe extern \"C\" { fn _zngur_g_(i0: *mut u8, o: *mut u8); }\n\n#[allow(non_snake_case)]\npub unsafe fn g(i0: i8, ) -> () { unsafe {\nlet mut i0 = ::core::mem::MaybeUninit::new(i0);\nlet mut r = ::core::mem::MaybeUninit::uninit();\n_zngur_g_(i0.as_mut_ptr() as *mut u8, r.as_mut_ptr() as *mut u8);\nr.assume_init()\n} }\n"
    );
}

#[test]
fn cpp_writes_implementation_blocks() {
    let methods = vec![
        method("a", ZngurMethodReceiver::Static, vec![], unit()),
        method("b", ZngurMethodReceiver::Ref(Mutability::Not), vec![signed(8)], unit()),
    ];
    let text = added(|f| {
        assert_eq!(
            f.add_extern_cpp_impl(&adt(&["A"]), &None, &methods),
            ["_zngur__A_extern_method_a_s7", "_zngur__A_extern_method_b_s7"]
        )
    });
    assert!(text.starts_with("unsafe extern \"C\" {\n    fn _zngur__A_extern_method_a_s7(o: *mut u8);\n\n    fn _zngur__A_extern_method_b_s7(i0: *mut u8, i1: *mut u8, o: *mut u8);\n}impl ::A {pub fn a() -> () { unsafe {\n"));
    assert!(text.contains("pub fn b(&self, i1: i8, ) -> () { unsafe {\nlet i0 = self;\n"));
    let tr = Some(RustTrait::Normal(pg(&["T"], vec![("Item".to_string(), signed(8))])));
    let text = added(|f| {
        f.add_extern_cpp_impl(&adt(&["A"]), &tr, &vec![]);
    });
    assert_eq!(text, "unsafe extern \"C\" {}impl ::T for ::A {type Item = i8;}");
}

#[test]
fn rust_functions_can_be_called() {
    let mut file = RustFile::new("");
    let before = file.text.len();
    let sig = file.add_function("f", "f", &vec![signed(8)], &signed(16), &None, None, "rust", "c");
    assert_eq!(sig.rust_link_name, format!("_zngur_f_f_e8_{}", zngur::mangle::hash_of_sig(&vec![signed(8)])));
    assert_eq!(sig.inputs[0].to_text(), "::int8_t");
    assert_eq!(sig.output.to_text(), "::int16_t");
    assert!(file.text[before..].ends_with("(i0: *mut u8, o: *mut u8) { unsafe {\n    ::std::ptr::write(o as *mut i16,  f((::std::ptr::read(i0 as *mut i8)), ));\n } }\n"));
}

#[test]
fn panics_are_caught_on_request() {
    let mut file = RustFile::new("");
    file.panic_to_exception = true;
    assert_eq!(
        file.wrap_in_catch_unwind("BODY\n"),
        "unsafe extern \"C\" {\n                fn __zngur_mark_panicked();   \n            }\n            let e = ::std::panic::catch_unwind(|| {\nBODY\n});\nif let Err(_) = e { __zngur_mark_panicked(); }\n"
    );
    file.panic_to_exception = false;
    assert_eq!(file.wrap_in_catch_unwind("BODY\n"), "BODY\n");
}

#[test]
fn imports_and_derefs_reach_the_call() {
    let mut file = RustFile::new("");
    let path = |v: &[&str]| Some(v.iter().map(|x| x.to_string()).collect::<Vec<_>>());
    let sig = file.add_function(
        "f",
        "f",
        &vec![],
        &unit(),
        &path(&["std", "A"]),
        Some(Mutability::Mut),
        "rust",
        "c",
    );
    assert!(sig.rust_link_name.ends_with("_deref"));
    assert!(file.text.contains("    use ::std::A;\n    ::std::ptr::write(o as *mut (),  f(::std::ops::DerefMut::deref_mut));\n"));
    file.add_function("f", "f", &vec![], &unit(), &path(&["crate", "A"]), Some(Mutability::Not), "rust", "c");
    assert!(file.text.contains("    use crate::A;\n    ::std::ptr::write(o as *mut (),  f(::std::ops::Deref::deref));\n"));
}

#[test]
fn impl_trait_is_boxed() {
    let out = RustType::Impl(RustTrait::Normal(pg(&["T"], vec![])), vec![]);
    assert_eq!(make_returned_type(&out).to_text(), "Box<dyn ::T>");
    let mut file = RustFile::new("");
    let sig = file.add_function("f", "f", &vec![], &out, &None, None, "rust", "c");
    assert_eq!(sig.output.to_text(), "::rust::Box< ::rust::Dyn< ::rust::T > >");
    assert!(file.text.contains("    ::std::ptr::write(o as *mut Box<dyn ::T>, Box::new(  f()));\n"));
}

#[test]
fn wellknown_traits_have_shims() {
    let a = adt(&["A"]);
    let text = added(|f| {
        let data = f.add_wellknown_trait(&a, ZngurWellknownTrait::Drop, false);
        assert!(matches!(data, ZngurWellknownTraitData::Drop { drop_in_place } if drop_in_place == "_zngur__A_drop_in_place_s7e9"));
    });
    assert!(text.ends_with("{ unsafe {\n    ::std::ptr::drop_in_place(v as *mut ::A);\n} }\n"));
    let text = added(|f| {
        let data = f.add_wellknown_trait(&a, ZngurWellknownTrait::Debug, true);
        assert!(matches!(data, ZngurWellknownTraitData::Debug { .. }));
    });
    assert!(text.contains("    eprintln!(\"{:#?}\", unsafe { &*(v as *mut &::A) });\n"));
    assert!(text.contains("    eprintln!(\"{:?}\", unsafe { &*(v as *mut &::A) });\n"));
    assert_eq!(added(|f| { f.add_wellknown_trait(&a, ZngurWellknownTrait::Copy, false); }), "");
    assert_eq!(added(|f| { f.add_wellknown_trait(&a, ZngurWellknownTrait::Unsized, true); }), "");
}

#[test]
fn layouts_reach_cpp() {
    let a = adt(&["A"]);
    let mut file = RustFile::new("");
    assert_eq!(
        file.add_layout_policy_shim(&a, LayoutPolicy::StackAllocated { size: 8, align: 4 }),
        CppLayoutPolicy::StackAllocated { size: 8, align: 4 }
    );
    assert_eq!(
        file.add_layout_policy_shim(&a, LayoutPolicy::Conservative { size: 8, align: 4 }),
        CppLayoutPolicy::StackAllocated { size: 8, align: 4 }
    );
    assert!(file.add_layout_policy_shim(&a, LayoutPolicy::OnlyByRef).is_only_by_ref());
    let text = added(|f| {
        assert_eq!(
            f.add_layout_policy_shim(&a, LayoutPolicy::HeapAllocated),
            CppLayoutPolicy::HeapAllocated {
                size_fn: "_zngur__A_size_fn_s7".to_string(),
                alloc_fn: "_zngur__A_alloc_fn_s7".to_string(),
                free_fn: "_zngur__A_free_fn_s7".to_string(),
            }
        )
    });
    assert!(text.contains("pub fn _zngur__A_size_fn_s7() -> usize {\n                    ::std::mem::size_of::<::A>()\n"));
}

fn future(output: RustType, bounds: &[&str]) -> RustType {
    RustType::Boxed(Box::new(RustType::Dyn(
        RustTrait::Normal(pg(&["std", "future", "Future"], vec![("Output".to_string(), output)])),
        bounds.iter().map(|x| x.to_string()).collect(),
    )))
}

#[test]
fn futures_are_recognised() {
    let f = future(signed(8), &["Send", "Sync"]);
    assert_eq!(future_output_type(&f), Some((&signed(8), true)));
    assert_eq!(future_output_type(&future(signed(8), &["Send"])), Some((&signed(8), false)));
    assert_eq!(future_output_type(&signed(8)), None);
    let other = RustType::Boxed(Box::new(RustType::Dyn(
        RustTrait::Normal(pg(&["my", "future", "Future"], vec![("Output".to_string(), signed(8))])),
        vec![],
    )));
    assert_eq!(future_output_type(&other), None);
}

#[test]
fn each_future_has_one_shim() {
    let types = vec![
        future(signed(32), &[]),
        signed(8),
        future(signed(32), &[]),
        future(signed(32), &["Send", "Sync"]),
    ];
    let coro = CoroSupport::from_types(&types, "m", "rust", "c").expect("no support");
    assert_eq!(coro.shims.len(), 2);
    assert_eq!(coro.clone_waker_fn, "_zngur_mcoro_clone_waker_");
    assert_eq!(coro.shims[0].guard, "ZNGUR_CORO_SHIMS_69193edca2");
    assert_eq!(coro.shims[0].poll_future_fn, "_zngur_mcoro_poll_future_69193edca2_");
    assert_eq!(coro.shims[1].guard, "ZNGUR_CORO_SHIMS_69193edca2_SEND_SYNC");
    assert_eq!(coro.shims[1].coro_destroy_fn, "_zngur_mcoro_destroy_coro_69193edca2_send_sync_");
    assert!(coro.shims[1].is_send_sync);
    assert_eq!(coro.shims[0].cpp_output.to_text(), "::int32_t");
    let text = added(|f| f.add_coro_support(&coro));
    assert_eq!(text.matches("struct CoroState {").count(), 2);
    assert_eq!(text.matches("    unsafe impl Send for CoroState {} unsafe impl Sync for CoroState {}\n").count(), 1);
    assert!(CoroSupport::from_types(&vec![signed(8)], "m", "rust", "c").is_none());
}

fn cpp(text: &str) -> CppType {
    CppType::from_text(text)
}

fn sig(link: &str, inputs: &[&str], output: &str) -> CppFnSig {
    CppFnSig {
        rust_link_name: link.to_string(),
        inputs: inputs.iter().map(|x| cpp(x)).collect(),
        output: cpp(output),
    }
}

fn empty_file() -> CppFile {
    CppFile {
        header_file_name: "generated.h".to_string(),
        type_defs: vec![],
        trait_defs: vec![],
        fn_defs: vec![],
        exported_fn_defs: vec![],
        exported_impls: vec![],
        additional_includes: String::new(),
        panic_to_exception: None,
        rust_cfg_defines: vec![],
        zng_header_in_place: false,
        coro_support: None,
    }
}

#[test]
fn functions_stand_in_their_namespaces() {
    let mut file = empty_file();
    file.fn_defs.push(CppFnDefinition {
        name: CppPath(vec!["rust".to_string(), "f".to_string()]),
        sig: sig("link", &["int8_t", "a::b"], "int16_t"),
    });
    let t = CppHeaderTemplate { file: &file, namespace: "rust" };
    assert_eq!(
        t.render_fn_deps(),
        "\nnamespace rust {\n    inline ::int16_t f(::int8_t i0, ::a::b i1) noexcept {\n      ::int16_t o{};\n      ::rust::__zngur_internal_assume_deinit(i0); ::rust::__zngur_internal_assume_deinit(i1); \n      link (\n        ::rust::__zngur_internal_data_ptr(i0), ::rust::__zngur_internal_data_ptr(i1), \n        ::rust::__zngur_internal_data_ptr(o)\n      );\n      \n      ::rust::__zngur_internal_assume_init(o);\n      return o;\n    }\n} // namespace rust\n"
    );
}

#[test]
fn panics_are_thrown_on_request() {
    let mut file = empty_file();
    assert_eq!(CppHeaderTemplate { file: &file, namespace: "ns" }.panic_handler(), "");
    file.panic_to_exception = Some(PanicToExceptionSymbols {
        detect_panic: "detect".to_string(),
        take_panic: "take".to_string(),
    });
    assert_eq!(
        CppHeaderTemplate { file: &file, namespace: "ns" }.panic_handler(),
        "\n            if (detect()) {\n                throw ::ns::Panic{};\n            }\n            "
    );
}

fn type_with(kind: ZngurMethodReceiver, inputs: &[&str]) -> CppTypeDefinition {
    let mut td = CppTypeDefinition::default();
    td.ty = cpp("rust::A");
    td.layout = CppLayoutPolicy::StackAllocated { size: 1, align: 1 };
    td.methods.push(CppMethod { name: "m".to_string(), kind, sig: sig("link", inputs, "int8_t") });
    td
}

#[test]
fn methods_have_a_form_for_each_receiver() {
    let file = empty_file();
    let t = CppHeaderTemplate { file: &file, namespace: "rust" };
    let text = t.render_type_methods(&type_with(ZngurMethodReceiver::Ref(Mutability::Not), &["rust::Ref<rust::A>", "int8_t"]));
    assert!(text.starts_with("\n    inline ::int8_t rust::A::m (::rust::Ref< ::rust::A > i0, ::int8_t i1) noexcept {"));
    assert_eq!(text.matches("template<typename Offset, typename... Offsets>").count(), 3);
    assert!(text.contains("inline ::int8_t rust::FieldRef< ::rust::A, Offset, Offsets... >::m(\n            ::int8_t i0\n        ) const noexcept {\n          return rust::A::m(\n            *this\n            , ::std::move(i0)\n          );"));
    assert!(text.contains("inline ::int8_t rust::Ref< ::rust::A >::m("));
    assert!(text.contains("inline ::int8_t rust::RefMut< ::rust::A >::m("));
    assert!(text.contains("      inline ::int8_t rust::A::m(\n            ::int8_t i0\n      ) const noexcept {\n        return rust::A::m(\n          *this\n          , ::std::move(i0)\n        );"));
    let text = t.render_type_methods(&type_with(ZngurMethodReceiver::Ref(Mutability::Mut), &["rust::RefMut<rust::A>"]));
    assert_eq!(text.matches("template<typename Offset, typename... Offsets>").count(), 2);
    assert!(!text.contains("rust::Ref< ::rust::A >::m("));
    let text = t.render_type_methods(&type_with(ZngurMethodReceiver::Move, &["rust::A"]));
    assert!(text.contains("::std::move(*this)"));
    let text = t.render_type_methods(&type_with(ZngurMethodReceiver::Static, &[]));
    assert!(!text.contains("*this"));
}

#[test]
fn unsized_types_have_no_methods_on_values() {
    let file = empty_file();
    let t = CppHeaderTemplate { file: &file, namespace: "rust" };
    let mut td = type_with(ZngurMethodReceiver::Move, &["rust::A"]);
    assert!(!td.has_unsized());
    td.wellknown_traits.push(ZngurWellknownTraitData::Unsized);
    assert!(td.has_unsized());
    assert!(!t.render_type_methods(&td).contains("::std::move(*this)"));
    let mut td = type_with(ZngurMethodReceiver::Move, &["rust::A"]);
    td.layout = CppLayoutPolicy::OnlyByRef;
    assert!(!t.render_type_methods(&td).contains("::std::move(*this)"));
}

#[test]
fn boxes_are_made_from_traits() {
    let mut file = empty_file();
    let closure = || RustTrait::Fn { name: "Fn".to_string(), inputs: vec![signed(8)], output: Box::new(signed(16)) };
    let normal = || RustTrait::Normal(pg(&["T"], vec![]));
    file.trait_defs.push((closure(), CppTraitDefinition::Fn { sig: sig("link", &["int8_t"], "int16_t") }));
    file.trait_defs.push((
        normal(),
        CppTraitDefinition::Normal {
            as_ty: cpp("rust::T"),
            methods: vec![],
            link_name: "own".to_string(),
            link_name_ref: "borrow".to_string(),
        },
    ));
    let t = CppHeaderTemplate { file: &file, namespace: "rust" };
    let mut td = CppTypeDefinition::default();
    td.ty = cpp("rust::B");
    assert_eq!(t.render_from_trait(&td), "");
    assert_eq!(t.render_from_trait_ref(&td), "");
    td.from_trait = Some(closure());
    let text = t.render_from_trait(&td);
    assert!(text.contains("inline rust::B rust::B::make_box(::std::function< ::int16_t(::int8_t)> f) {"));
    assert!(text.contains("[](uint8_t *d, uint8_t* i0,  uint8_t* o) {"));
    assert!(text.contains("::int16_t oo = (*dd)(::rust::__zngur_internal_move_from_rust< ::int8_t >(i0));"));
    td.from_trait = Some(normal());
    assert!(t.render_from_trait(&td).contains("auto data_as_impl = dynamic_cast< ::rust::T*>(__zngur_data);"));
    td.from_trait_ref = Some(closure());
    assert_eq!(t.render_from_trait_ref(&td), "");
    td.from_trait_ref = Some(normal());
    let text = t.render_from_trait_ref(&td);
    assert!(text.contains("rust::Ref< rust::B >::Ref(::rust::T& args) {"));
    assert!(text.contains("rust::RefMut< rust::B >::RefMut(::rust::T& args) {"));
}

#[test]
fn implementation_blocks_are_classes() {
    let mut file = empty_file();
    let block = |tr| CppExportedImplDefinition {
        tr,
        ty: cpp("rust::A"),
        methods: vec![("m".to_string(), sig("link", &["int8_t"], "int16_t"))],
    };
    file.exported_impls.push(block(None));
    file.exported_impls.push(block(Some(cpp("rust::T"))));
    let t = CppHeaderTemplate { file: &file, namespace: "rust" };
    let text = t.render_exported_impls();
    assert!(text.starts_with("\n  template<>\n  class Impl< ::rust::A, ::rust::Inherent > {\n    public:\n\n        static ::int16_t m(\n          ::int8_t i0\n        );\n  };\n"));
    assert!(text.contains("class Impl< ::rust::A, ::rust::T > {"));
}

#[test]
fn headers_may_throw_where_panics_are_exceptions() {
    let mut file = empty_file();
    let h = "void f() noexcept {".to_string();
    assert_eq!(file.render(h.clone(), "src".to_string()), (h.clone(), None));
    file.panic_to_exception = Some(PanicToExceptionSymbols {
        detect_panic: "d".to_string(),
        take_panic: "t".to_string(),
    });
    file.trait_defs.push((
        RustTrait::Normal(pg(&["T"], vec![])),
        CppTraitDefinition::Fn { sig: sig("link", &[], "int8_t") },
    ));
    assert_eq!(file.render(h, "src".to_string()), ("void f() {".to_string(), Some("src".to_string())));
}

#[test]
fn builtin_types_come_with_references() {
    let t = ZngHeaderTemplate { panic_to_exception: false, cpp_namespace: "ns".to_string() };
    let v = t.builtin_types();
    assert_eq!(v.len(), 32);
    assert_eq!(v[..3], ["int8_t", "::ns::Ref<int8_t>", "::ns::RefMut<int8_t>"]);
    assert_eq!(v[30..], ["::ns::ZngurCppOpaqueOwnedObject", "::size_t"]);
    assert!(t.is_printable("int8_t") && t.is_printable("uint8_t") && t.is_printable("::size_t"));
    assert!(t.is_printable("::double_t") && t.is_printable("::float_t"));
    assert!(!t.is_printable("::ns::Ref<int8_t>"));
    assert!(t.is_size_t("::size_t") && !t.is_size_t("size_t"));
    assert!(t.is_ref_kind_ref("Ref") && !t.is_ref_kind_ref("RefMut"));
}
