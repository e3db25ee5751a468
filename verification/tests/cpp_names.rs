use zngur::cpp::{
    cpp_handle_field_name, cpp_handle_keyword, cpp_types_copy, split_string, CppPath, CppType,
};
use zngur::into_cpp::types_into_cpp;
use zngur::mangle::{hash_of_sig, mangle_name};
use zngur::rust_types::{
    Mutability, PrimitiveRustType, RustPathAndGenerics, RustTrait, RustType,
};

fn path(segments: &[&str]) -> CppPath {
    CppPath(segments.iter().map(|x| x.to_string()).collect())
}

fn adt(segments: &[&str], generics: Vec<RustType>) -> RustType {
    RustType::Adt(pg(segments, generics, vec![]))
}

fn pg(
    segments: &[&str],
    generics: Vec<RustType>,
    named_generics: Vec<(String, RustType)>,
) -> RustPathAndGenerics {
    RustPathAndGenerics {
        path: segments.iter().map(|x| x.to_string()).collect(),
        generics,
        named_generics,
    }
}

fn signed(bits: u32) -> RustType {
    RustType::Primitive(PrimitiveRustType::Int(bits))
}

fn cpp(ty: &RustType) -> String {
    let t = ty.try_into_cpp("rust", "my_crate").expect("no C++ type");
    assert_eq!(t.to_text(), ty.into_cpp("rust", "my_crate").to_text());
    t.to_text()
}

#[test]
fn keywords_get_an_underscore() {
    assert_eq!(cpp_handle_keyword("new"), "new_");
    assert_eq!(cpp_handle_keyword("default"), "default_");
    assert_eq!(cpp_handle_keyword("push"), "push");
}

#[test]
fn numbered_fields_get_a_letter() {
    assert_eq!(cpp_handle_field_name("0"), "f0");
    assert_eq!(cpp_handle_field_name("4294967295"), "f4294967295");
    assert_eq!(cpp_handle_field_name("4294967296"), "4294967296");
    assert_eq!(cpp_handle_field_name("new"), "new_");
    assert_eq!(cpp_handle_field_name("x"), "x");
}

#[test]
fn a_path_has_namespaces_and_a_name() {
    let p = path(&["rust", "std", "Vec"]);
    assert_eq!(p.namespace(), ["rust", "std"]);
    assert_eq!(p.name(), "Vec");
    assert_eq!(p.to_text(), "::rust::std::Vec");
    assert_eq!(p.open_namespace(), "namespace rust {\n    namespace std {");
    assert_eq!(p.close_namespace(), "} // namespace rust\n    } // namespace std");
}

#[test]
fn only_some_names_need_a_declaration() {
    assert!(path(&["rust", "Vec"]).need_header());
    assert!(!path(&["rust", "Unit"]).need_header());
    assert!(!path(&["rust", "Ref"]).need_header());
    assert!(!path(&["rust", "RefMut"]).need_header());
    assert!(!path(&["uint8_t"]).need_header());
    assert!(!CppPath(vec![]).need_header());
}

#[test]
fn rust_paths_stand_in_the_namespace() {
    let p = CppPath::from_rust_path(
        &vec!["crate".to_string(), "a".to_string(), "new".to_string()],
        "rust",
        "my_crate",
    );
    assert_eq!(p.0, ["rust", "my_crate", "a", "new_"]);
}

#[test]
fn paths_are_cut_at_double_colons() {
    assert_eq!(CppPath::from_text(" a::b ").0, ["a", "b"]);
    assert_eq!(CppPath::from_text("::a").0, ["", "a"]);
    assert_eq!(CppPath::from_text("").0, [""]);
}

#[test]
fn template_arguments_are_cut_outside_brackets() {
    assert_eq!(split_string("a, b<c, d>,e"), ["a", " b<c, d>", "e"]);
    assert_eq!(split_string("a,"), ["a"]);
    assert!(split_string("").is_empty());
}

#[test]
fn types_are_read_and_written() {
    let ty = CppType::from_text(" rust::Pair< a::b , rust::Vec<int32_t> > ");
    assert_eq!(ty.to_text(), "::rust::Pair< ::a::b, ::rust::Vec< ::int32_t > >");
    assert_eq!(ty.specialization_decl(), "template<> struct Pair< ::a::b, ::rust::Vec< ::int32_t > >");
    assert_eq!(CppType::from_text("a::b").specialization_decl(), "struct b");
    assert_eq!(ty.copy().to_text(), ty.to_text());
    assert_eq!(cpp_types_copy(&vec![ty]).len(), 1);
    assert!(CppType::can_be_from("a<b, c<d>>"));
    assert!(!CppType::can_be_from("a<b"));
    assert!(CppType::try_from_text("a<b").is_none());
    assert_eq!(CppType::try_from_text("a<b>").expect("no type").to_text(), "::a< ::b >");
    assert!(!CppType::can_be_from("a<b<c, d>"));
}

#[test]
fn references_wrap_a_type() {
    let ty = CppType::from_text("rust::Vec<int32_t>").into_ref();
    assert_eq!(ty.to_text(), "::rust::Ref< ::rust::Vec< ::int32_t > >");
    assert_eq!(ty.with_tail("Some".to_string()).to_text(), "::rust::Ref< ::rust::Vec< ::int32_t > >::Some");
}

#[test]
fn declarations_come_from_the_inside_out() {
    let ty = CppType::from_text("rust::std::Vec<rust::Foo, int32_t>");
    assert_eq!(
        ty.header(),
        "namespace rust {\nstruct Foo;\n}\nnamespace rust {\nnamespace std {\ntemplate<typename ...T>\nstruct Vec;\n}\n}\n"
    );
    assert_eq!(CppType::from_text("int32_t").header(), "");
}

#[test]
fn numbers_have_types_of_their_own() {
    assert_eq!(cpp(&signed(32)), "::int32_t");
    assert_eq!(cpp(&RustType::Primitive(PrimitiveRustType::Uint(8))), "::uint8_t");
    assert_eq!(cpp(&RustType::Primitive(PrimitiveRustType::Float(32))), "::float_t");
    assert_eq!(cpp(&RustType::Primitive(PrimitiveRustType::Float(64))), "::double_t");
    assert_eq!(cpp(&RustType::Primitive(PrimitiveRustType::Usize)), "::size_t");
    assert_eq!(cpp(&RustType::Primitive(PrimitiveRustType::Bool)), "::rust::Bool");
    assert_eq!(cpp(&RustType::Primitive(PrimitiveRustType::Str)), "::rust::Str");
    assert_eq!(cpp(&RustType::Primitive(PrimitiveRustType::Char)), "::rust::Char");
}

#[test]
fn raw_pointers_to_numbers_are_pointers() {
    let to = |m: Mutability, t: RustType| RustType::Raw(m, Box::new(t));
    assert_eq!(cpp(&to(Mutability::Mut, signed(8))), "::int8_t*");
    assert_eq!(cpp(&to(Mutability::Not, signed(8))), "::int8_t const*");
    assert_eq!(cpp(&to(Mutability::Mut, to(Mutability::Not, signed(8)))), "::int8_t const**");
    assert_eq!(cpp(&to(Mutability::Mut, adt(&["A"], vec![]))), "::rust::RawMut< ::rust::A >");
    assert_eq!(cpp(&to(Mutability::Not, adt(&["A"], vec![]))), "::rust::Raw< ::rust::A >");
}

#[test]
fn other_types_become_templates() {
    let a = || adt(&["crate", "A"], vec![signed(32)]);
    assert_eq!(cpp(&a()), "::rust::my_crate::A< ::int32_t >");
    assert_eq!(cpp(&RustType::Boxed(Box::new(a()))), "::rust::Box< ::rust::my_crate::A< ::int32_t > >");
    assert_eq!(
        cpp(&RustType::Ref(Mutability::Mut, Box::new(signed(8)))),
        "::rust::RefMut< ::int8_t >"
    );
    assert_eq!(
        cpp(&RustType::Ref(Mutability::Not, Box::new(signed(8)))),
        "::rust::Ref< ::int8_t >"
    );
    assert_eq!(cpp(&RustType::Slice(Box::new(signed(8)))), "::rust::Slice< ::int8_t >");
    assert_eq!(cpp(&RustType::Tuple(vec![])), "::rust::Unit");
    assert_eq!(cpp(&RustType::Tuple(vec![signed(8), signed(16)])), "::rust::Tuple< ::int8_t, ::int16_t >");
}

#[test]
fn trait_objects_name_their_trait_and_markers() {
    let normal = RustTrait::Normal(pg(
        &["std", "iter", "Iterator"],
        vec![],
        vec![("Item".to_string(), signed(32))],
    ));
    assert_eq!(
        cpp(&RustType::Dyn(normal, vec!["Send".to_string()])),
        "::rust::Dyn< ::rust::std::iter::Iterator< ::int32_t >, ::rust::Send >"
    );
    let closure = RustTrait::Fn {
        name: "Fn".to_string(),
        inputs: vec![signed(8)],
        output: Box::new(signed(16)),
    };
    assert_eq!(
        cpp(&RustType::Dyn(closure, vec![])),
        "::rust::Dyn< ::rust::Fn< ::int8_t, ::int16_t > >"
    );
}

#[test]
fn named_arguments_come_in_the_order_of_their_names() {
    let ty = RustType::Adt(pg(
        &["A"],
        vec![signed(8)],
        vec![
            ("B".to_string(), signed(16)),
            ("A".to_string(), signed(32)),
            ("B".to_string(), signed(64)),
        ],
    ));
    assert_eq!(cpp(&ty), "::rust::A< ::int8_t, ::int32_t, ::int16_t, ::int64_t >");
}

#[test]
fn some_types_have_no_cpp_type() {
    let tr = || RustTrait::Normal(pg(&["T"], vec![], vec![]));
    assert!(!RustType::Impl(tr(), vec![]).can_convert("rust"));
    assert!(!RustType::TypeVar("T".to_string()).can_convert("rust"));
    assert!(!RustType::Cpp(vec!["a".to_string()]).can_convert("rust"));
    assert!(!RustType::Primitive(PrimitiveRustType::Float(16)).can_convert("rust"));
    assert!(!RustType::Tuple(vec![signed(8), RustType::TypeVar("T".to_string())]).can_convert("rust"));
    assert!(!RustType::Primitive(PrimitiveRustType::Bool).can_convert("a<b"));
    assert!(tr().can_convert("rust"));
    assert_eq!(types_into_cpp(&vec![signed(8)], "rust", "c")[0].to_text(), "::int8_t");
}

#[test]
fn link_names_hold_no_signs() {
    assert_eq!(mangle_name("a::b", ""), "_zngur_a_b_s8");
    assert_eq!(
        mangle_name("::std::vec::Vec::<i32>", ""),
        "_zngur__std_vec_Vec_i32__s7s11s15m19y23"
    );
    assert_eq!(
        mangle_name("new=<::std::vec::Vec::<i32>>::new::<>", "my"),
        "_zngur_mynew___std_vec_Vec_i32__new___e12x13s14s18s22m26y30n31m35y36"
    );
    for sign in ["::<", ">::", "->", "&", "=", "<", ">", "[", "]", "::", ",", "+", "(", ")", "@", "-"] {
        let link = mangle_name(&format!("a{sign}b"), "");
        assert!(!link.contains(sign));
    }
}

#[test]
fn link_names_count_bytes() {
    assert_eq!(mangle_name("é -> b", ""), "_zngur_é_b_a9");
}

#[test]
fn link_names_ignore_blanks() {
    assert_eq!(mangle_name("a b&c", ""), "_zngur_ab_c_r9");
    assert_eq!(mangle_name("a\u{2003}b", ""), mangle_name("ab", ""));
}

#[test]
fn different_names_link_apart() {
    assert_ne!(mangle_name("a::b", ""), mangle_name("a_b", ""));
    assert_ne!(mangle_name("a::b", ""), mangle_name("a_b_s8", ""));
    assert_ne!(mangle_name("a<b", ""), mangle_name("a>b", ""));
}

#[test]
fn signatures_have_short_names() {
    assert_eq!(hash_of_sig(&vec![]), "e3b0c44298");
    assert_eq!(hash_of_sig(&vec![signed(32)]), "69193edca2");
    assert_eq!(
        hash_of_sig(&vec![
            RustType::Ref(Mutability::Not, Box::new(adt(&["A"], vec![]))),
            signed(64)
        ]),
        "5bafea4990"
    );
}

#[test]
fn references_need_no_declaration_of_their_own() {
    for text in ["rust::Vec<rust::A>", "std::string", "rust::Unit", "rust::Ref<rust::A>"] {
        let ty = || CppType::from_text(text);
        assert_eq!(ty().into_ref().header(), ty().header());
    }
    assert_eq!(CppType::from_text("std::vector<rust::RefMut<rust::Unit>>").header(), "");
    assert_eq!(
        CppType::from_text("std::vector<\u{3000}rust::A\u{a0}>").header(),
        "namespace rust {\nstruct A;\n}\n"
    );
    let nameless = CppType { path: CppPath(vec![]), generic_args: vec![], tail: None };
    assert_eq!(nameless.header(), "");
}

#[test]
fn written_paths_are_read_back() {
    for text in ["rust::std::Vec", "a", "", "::a::", "a b::c"] {
        let path = CppPath::from_text(text);
        assert_eq!(CppPath::from_text(&path.to_text()[2..]).0, path.0);
    }
    let blank = CppPath(vec![" a".to_string()]);
    assert_eq!(CppPath::from_text(&blank.to_text()[2..]).0, ["a"]);
    let colon = CppPath(vec!["a:".to_string(), "b".to_string()]);
    assert_eq!(CppPath::from_text(&colon.to_text()[2..]).0, ["a", ":b"]);
}
