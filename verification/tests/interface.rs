use zngur::builder::{cargo_warnings, report_route, ReportRoute, Zngur, ZngurHdr};
use zngur::cfg::InMemoryRustCfgProvider;
use zngur::cpp_file::{CppFile, CppTraitDefinition, ZngurFieldDataOffset};
use zngur::def::{CppHeapAllocated, LayoutPolicy, ZngurSpec, ZngurType, ZngurWellknownTrait};
use zngur::merge::ConflictSource;
use zngur::parse::{ParseResult, ParseSession, ParsedZngFile};
use zngur::paths::to_plain_path;
use zngur::render::{make_cfg_define, ZngurGenerator};
use zngur::report::ReportKind;
use zngur::rust_types::{PrimitiveRustType, RustPathAndGenerics, RustType};
use zngur::template_types::{matches_template, try_match_template};
use zngur::token::tokenize;

fn parse(text: &str) -> ParseResult {
    let r = ParsedZngFile::parse_str(text, InMemoryRustCfgProvider::new());
    assert_eq!(r.errors, 0, "{:?}", r.reports);
    r
}

fn messages(text: &str) -> Vec<String> {
    let r = ParsedZngFile::parse_str(text, InMemoryRustCfgProvider::new());
    r.reports.iter().map(|x| x.message.clone()).collect()
}

fn rendered(text: &str) -> (String, CppFile) {
    let generator = ZngurGenerator::build_from_zng(parse(text).spec, "my-crate".to_string());
    assert!(generator.can_render());
    generator.try_render(false).expect("cannot be rendered")
}

fn adt(segments: &[&str]) -> RustType {
    RustType::Adt(RustPathAndGenerics {
        path: segments.iter().map(|x| x.to_string()).collect(),
        generics: vec![],
        named_generics: vec![],
    })
}

fn way(cpp_heap_allocated: Option<CppHeapAllocated>) -> ZngurType {
    ZngurType {
        ty: adt(&["crate", "Way"]),
        layout: Some(LayoutPolicy::HeapAllocated),
        wellknown_traits: vec![],
        methods: vec![],
        exhaustive: true,
        constructor: None,
        variants: vec![],
        fields: vec![],
        cpp_heap_allocated,
        cpp_ref: None,
        cpp_stack_owned: None,
    }
}

#[test]
fn wrapped_cpp_types_have_a_deprecated_alias() {
    let mut spec = ZngurSpec::empty();
    spec.types.push(way(Some(CppHeapAllocated("::osmium::Way".to_string()))));
    let (rust, file) = ZngurGenerator::build_from_zng(spec, "test_crate".to_string()).render(false);
    assert!(rust.contains("\n#[repr(C)]\npub struct Way {\n    pub(crate) data: *mut u8,\n    pub(crate) destructor: extern \"C\" fn(*mut u8),\n}\n"));
    assert!(rust.contains("\npub mod cpp {\n\n    #[deprecated]\n    pub type Way = super::Way;\n\n}\n"));
    assert!(rust.contains("pub extern \"C\" fn _zngur_crate_Way_cpp_value_s12(d: *mut u8) -> *mut crate::Way {\n    d as *mut crate::Way\n}"));
    let value = file.type_defs[0].cpp_value.as_ref().expect("no value");
    assert_eq!(value.0, "_zngur_crate_Way_cpp_value_s12");
    assert_eq!(value.1, "::osmium::Way");
    assert_eq!(file.type_defs[0].ty.to_text(), "::rust::test_crate::Way");
}

#[test]
fn interfaces_without_wrapped_types_have_no_alias_module() {
    let (rust, _) = rendered("type crate::A { #layout(size = 1, align = 1); }");
    assert!(!rust.contains("pub mod cpp"));
    assert!(rust.contains("__zngur_assert_size!(crate::A, 1);\n__zngur_assert_align!(crate::A, 1);\n"));
}

#[test]
fn stack_owned_types_have_a_destructor() {
    let (rust, file) = rendered("type crate::A { #cpp_stack_owned \"::A\" (size = 8, align = 4); }");
    assert!(rust.contains("#[repr(align(4))]\npub struct A {\n  pub(crate) buffer: core::mem::MaybeUninit<[u8; 8]>,"));
    assert!(rust.contains("pub fn _zngur_crate_A_destructor(i0: &mut crate::A, ) -> () { unsafe {"));
    assert_eq!(file.type_defs[0].cpp_stack_owned.as_ref().map(|x| x.size), Some(8));
}

#[test]
fn a_type_reaches_cpp_with_all_its_parts() {
    let (rust, file) = rendered(
        r#"
type crate::A {
    #layout(size = 8, align = 4);
    wellknown_traits(Debug, Copy);
    constructor { x: i32 };
    field x (offset = 0, type = i32);
    field y (offset = auto, type = i32);
    fn get(&self, i8) -> i16;
    fn new() -> crate::A;
}
        "#,
    );
    let td = &file.type_defs[0];
    assert_eq!(td.ty.to_text(), "::rust::my_crate::A");
    assert_eq!(td.methods.len(), 2);
    assert_eq!(td.methods[0].name, "get");
    assert_eq!(td.methods[0].sig.inputs[0].to_text(), "::rust::Ref< ::rust::my_crate::A >");
    assert_eq!(td.methods[0].sig.inputs[1].to_text(), "::int8_t");
    assert_eq!(td.methods[1].name, "new_");
    assert!(matches!(td.fields[0].offset, ZngurFieldDataOffset::Offset(0)));
    assert!(matches!(&td.fields[1].offset, ZngurFieldDataOffset::Auto(_)));
    assert_eq!(td.constructor.as_ref().map(|c| c.inputs.len()), Some(1));
    assert!(rust.contains("__zngur_assert_is_copy!(crate::A);\n"));
    assert!(rust.contains("<crate::A>::get::<>((::std::ptr::read(i0 as *mut &crate::A)), (::std::ptr::read(i1 as *mut i8)), ));\n"));
}

#[test]
fn variants_reach_cpp() {
    let (rust, file) = rendered(
        r#"
type crate::E {
    #layout(size = 8, align = 4);
    variant A { field 0 (offset = auto, type = i32); }
    variant B { }
}
        "#,
    );
    let td = &file.type_defs[0];
    assert_eq!(td.variants.len(), 2);
    assert_eq!(td.variants[0].name, "A");
    assert!(matches!(&td.variants[0].fields[0].offset, ZngurFieldDataOffset::AutoDynamic(_)));
    assert!(rust.contains("matches!(&*(i as *mut &_), crate::E::B { .. }) as u8;"));
}

#[test]
fn tuples_have_a_constructor() {
    let (_, file) = rendered("type (i8, u8) { #layout(size = 2, align = 1); }");
    let c = file.type_defs[0].constructor.as_ref().expect("no constructor");
    assert_eq!(c.rust_link_name, "_zngur_i8_u8_r9");
    assert_eq!(c.output.to_text(), "::rust::Tuple< ::int8_t, ::uint8_t >");
}

#[test]
fn closures_are_defined_once() {
    let (rust, file) = rendered(
        r#"
type Box<dyn Fn(i8) -> i16> { #layout(size = 16, align = 8); }
type Box<dyn Fn(i8) -> i16 + Send> { #layout(size = 16, align = 8); }
        "#,
    );
    assert_eq!(file.type_defs.len(), 2);
    assert_eq!(file.trait_defs.len(), 1);
    assert!(matches!(&file.trait_defs[0].1, CppTraitDefinition::Fn { .. }));
    assert_eq!(rust.matches("struct ClosureData {").count(), 1);
    assert!(file.type_defs[1].from_trait.is_some());
}

#[test]
fn functions_and_blocks_reach_cpp() {
    let (rust, file) = rendered(
        r#"
mod crate { fn f(i8) -> i16; }
trait crate::T { fn m(&self) -> i8; }
extern "C++" {
    safe fn g(i8) -> i16;
    impl crate::A { safe fn h(self); }
}
        "#,
    );
    assert_eq!(file.fn_defs[0].name.0, ["rust", "my_crate", "f"]);
    assert_eq!(file.exported_fn_defs[0].name, "g");
    assert_eq!(file.exported_impls[0].methods[0].0, "h");
    assert_eq!(file.exported_impls[0].methods[0].1.inputs[0].to_text(), "::rust::my_crate::A");
    assert_eq!(file.trait_defs.len(), 1);
    assert!(rust.contains("crate::f((::std::ptr::read(i0 as *mut i8)), ));\n"));
    let (_, source) = file.render(String::new(), "x".to_string());
    assert_eq!(source, Some("x".to_string()));
}

#[test]
fn some_interfaces_cannot_be_rendered() {
    let unrenderable = |text: &str| {
        !ZngurGenerator::build_from_zng(parse(text).spec, "c".to_string()).can_render()
    };
    assert!(unrenderable("mod crate { fn f(impl crate::T) -> i8; }"));
    assert!(unrenderable("trait crate::T { fn m() -> i8; }"));
    assert!(unrenderable("type c++::a::A { #cpp_ref \"::A\"; }"));
    let mut spec = ZngurSpec::empty();
    spec.types.push(way(None));
    spec.types[0].layout = None;
    assert!(!ZngurGenerator::build_from_zng(spec, "c".to_string()).can_render());
}

#[test]
fn imported_modules_are_included() {
    let (_, file) = rendered("import \"a.zng\";\n#cpp_additional_includes \"#include <b>\"\n");
    assert_eq!(file.additional_includes, "#include <b>\n#include \"a.zng.h\"");
}

#[test]
fn panics_are_known_to_both_halves() {
    let (rust, file) = rendered("#convert_panic_to_exception\nmod crate { fn f(); }");
    assert!(rust.contains("__zngur_mark_panicked()"));
    assert_eq!(
        file.panic_to_exception.map(|x| x.detect_panic),
        Some("__zngur_read_and_reset_rust_panic".to_string())
    );
    let (rust, file) = rendered("mod crate { fn f(); }");
    assert!(!rust.contains("catch_unwind"));
    assert!(file.panic_to_exception.is_none());
}

#[test]
fn configuration_reaches_cpp_as_macros() {
    assert_eq!(make_cfg_define("unix", &None), "ZNGUR_CFG_UNIX");
    assert_eq!(make_cfg_define("unix", &Some(" ".to_string())), "ZNGUR_CFG_UNIX");
    assert_eq!(
        make_cfg_define("target_os", &Some("my-os 2".to_string())),
        "ZNGUR_CFG_TARGET_OS_MY_OS_2"
    );
    assert_eq!(make_cfg_define("straße", &None), "ZNGUR_CFG_STRASSE");
}

#[test]
fn types_are_dropped_unless_copied_or_unsized() {
    let spec = parse(
        r#"
type crate::A { #layout(size = 1, align = 1); }
type crate::B { #layout(size = 1, align = 1); wellknown_traits(Copy); }
type str { wellknown_traits(?Sized); }
        "#,
    )
    .spec;
    assert_eq!(spec.types[0].wellknown_traits, [ZngurWellknownTrait::Drop]);
    assert_eq!(spec.types[1].wellknown_traits, [ZngurWellknownTrait::Copy]);
    assert_eq!(spec.types[2].wellknown_traits, [ZngurWellknownTrait::Unsized]);
}

#[test]
fn templates_add_to_the_types_that_they_match() {
    let spec = parse(
        r#"
#unstable(template_types)
type<T> crate::Vec<T> { #layout(size = 24, align = 8); fn push(&mut self, T); }
type crate::Vec<i32> { }
type crate::Vec<i8> { #layout(size = 3, align = 1); }
        "#,
    )
    .spec;
    assert_eq!(spec.types.len(), 2);
    assert_eq!(spec.types[0].layout, Some(LayoutPolicy::StackAllocated { size: 24, align: 8 }));
    assert_eq!(
        spec.types[0].methods[0].data.inputs,
        [RustType::Primitive(PrimitiveRustType::Int(32))]
    );
    assert_eq!(spec.types[1].layout, Some(LayoutPolicy::StackAllocated { size: 3, align: 1 }));
}

#[test]
fn a_matched_template_becomes_the_type() {
    let var = || RustType::TypeVar("T".to_string());
    let i8 = || RustType::Primitive(PrimitiveRustType::Int(8));
    let ty = RustType::Tuple(vec![i8(), i8()]);
    let template = RustType::Tuple(vec![var(), var()]);
    let mut mapping = vec![];
    assert!(matches_template(&ty, &template, &mut mapping));
    assert_eq!(mapping, [("T".to_string(), i8())]);
    let other = RustType::Tuple(vec![i8(), RustType::Tuple(vec![])]);
    assert!(!matches_template(&other, &template, &mut vec![]));
    assert!(matches_template(&ty, &ty, &mut vec![]));
    let mut declaration = way(None);
    declaration.ty = template;
    let m = try_match_template(&ty, &declaration, &vec![]).expect("no match");
    assert_eq!(m.0.ty, ty);
}

#[test]
fn unbound_variables_are_reported_where_a_template_is_applied() {
    let template = "#unstable(template_types)\ntype<T, U> crate::A<T> { #layout(size = 1, align = 1); fn f(U); }\n";
    let alone = parse(template);
    assert_eq!(alone.reports.len(), 0);
    let other = parse(&format!("{template}type crate::B {{ #layout(size = 1, align = 1); }}"));
    assert_eq!(other.spec.types.len(), 1);
    let text = format!("{template}type crate::A<i8> {{ #layout(size = 1, align = 1); }}");
    assert_eq!(
        messages(&text),
        ["Unbound type variable U in method f in template crate::A::<T> for type crate::A::<i8>"]
    );
    let members = [
        ("constructor(U)", "constructor"),
        ("field x (offset = 0, type = U)", "field x"),
    ];
    for (member, place) in members {
        let text = text.replace("fn f(U)", member);
        let want = format!("Unbound type variable U in {place} in template crate::A::<T> for type crate::A::<i8>");
        assert_eq!(messages(&text), [want]);
    }
    let text = text.replace("fn f(U)", "fn f(crate::Unknown, U)");
    assert_eq!(messages(&text).len(), 0);
}

#[test]
fn adding_a_declaration_again_changes_nothing() {
    let read = |text: &str| parse(text).spec.types.pop().expect("no type");
    let text = "type crate::A { #layout(size = 1, align = 1); wellknown_traits(Debug); fn f() -> i8; field x (offset = 0, type = i8); }";
    let mut once = read(text);
    let before = read(text);
    assert_eq!(once.merge_from(&read(text)), Ok(()));
    assert!(once.methods[0].same_as(&before.methods[0]));
    assert_eq!(once.methods.len(), before.methods.len());
    assert_eq!(once.fields, before.fields);
    assert_eq!(once.wellknown_traits, before.wellknown_traits);
}

#[test]
fn contradictions_name_their_part() {
    let read = |text: &str| parse(text).spec.types.pop().expect("no type");
    let a = "type crate::A { #layout(size = 1, align = 1); fn f() -> i8; }";
    let clash = |b: &str| read(a).merge_from(&read(b)).expect_err("no conflict");
    let e = clash("type crate::A { #layout(size = 2, align = 1); }");
    assert_eq!(e.message, "Conflicting layout policy found");
    assert_eq!(e.src, ConflictSource::Layout);
    let e = clash("type crate::A { #layout(size = 1, align = 1); fn f() -> i16; }");
    assert_eq!(e.message, "Method mismatch");
}

#[test]
fn errors_have_their_messages() {
    assert_eq!(messages("type crate::A { }")[0], "No layout policy found for type crate::A. Use one of `#layout(size = X, align = Y)`, `#heap_allocated` or `#only_by_ref`.");
    assert_eq!(messages("#unstable(nothing)")[0], "unknown unstable feature 'nothing'");
    assert!(messages("type<T> crate::A<T> { }")[0].starts_with("Template types are unstable."));
    assert!(messages("#if cfg!(a) { }")[0].starts_with("`#if` statements are unstable."));
    assert_eq!(messages("type").len(), 1);
}

#[test]
fn text_without_tokens_is_refused() {
    assert_eq!(ParsedZngFile::parse_str("", InMemoryRustCfgProvider::new()).errors, 0);
    assert_eq!(ParsedZngFile::parse_str("\u{7f}", InMemoryRustCfgProvider::new()).errors, 1);
    assert_eq!(
        ParsedZngFile::parse_str("type crate::\u{e9}t\u{e9} { #layout(size = 1, align = 1); }", InMemoryRustCfgProvider::new()).errors,
        0
    );
}

#[test]
fn files_are_read_in_turn() {
    let session = ParseSession::new(
        "a/main.zng",
        "merge \"./x.zng\";\nmerge \"./y.zng\";\ntype crate::A { #layout(size = 1, align = 1); }",
        InMemoryRustCfgProvider::new(),
        false,
    );
    assert_eq!(session.pending(), Some(("a/main.zng".to_string(), "./x.zng".to_string())));
    let session = session.supply("a/./x.zng", "type crate::B { #layout(size = 1, align = 1); }");
    assert_eq!(session.pending(), Some(("a/main.zng".to_string(), "./y.zng".to_string())));
    let session = session.refuse();
    assert_eq!(session.pending(), None);
    let r = session.finish();
    assert_eq!(r.errors, 1);
    assert_eq!(r.reports[0].message, "Import path not found: ./y.zng");
    assert_eq!(r.processed_files, ["a/main.zng", "a/./x.zng"]);
    assert_eq!(r.spec.types.len(), 2);
    assert_eq!(r.sources[1].0, "a/./x.zng");
}

#[test]
fn paths_are_compared_by_their_parts() {
    let layout = "#layout(size = 1, align = 1);";
    let session = ParseSession::new(
        "main.zng",
        "merge \"./a.zng\";\nmerge \"./b.zng\";",
        InMemoryRustCfgProvider::new(),
        false,
    );
    let session = session.supply("./a.zng", "merge \"./b.zng\";");
    assert_eq!(session.pending(), Some(("./a.zng".to_string(), "./b.zng".to_string())));
    let b = format!("type crate::B {{ {layout} }}");
    let session = session.supply("././b.zng", &b);
    let session = session.supply("./b.zng", &b);
    let paths: Vec<_> = session.sources().into_iter().map(|x| x.0).collect();
    assert_eq!(paths, ["main.zng", "./a.zng", "././b.zng"]);
    let r = session.finish();
    assert_eq!(r.errors, 0);
    assert_eq!(r.processed_files, ["main.zng", "./a.zng", "././b.zng", "./b.zng"]);
    for (path, plain) in [
        ("a//b/./c/", "a/b/c"),
        ("./a/.", "./a"),
        ("/./a", "/a"),
        ("../a/../b", "../a/../b"),
        ("a", "a"),
        ("/", "/"),
        (".", "."),
        ("", ""),
    ] {
        assert_eq!(to_plain_path(path), plain);
    }
}

#[test]
fn errors_stop_merging() {
    let session = ParseSession::new(
        "main.zng",
        "merge \"./x.zng\";\ntype () { }",
        InMemoryRustCfgProvider::new(),
        false,
    );
    assert_eq!(session.pending(), None);
    assert!(session.finish().errors > 0);
}

#[test]
fn errors_come_with_the_configuration() {
    let cfg = || {
        InMemoryRustCfgProvider::new()
            .with_value("unix", vec![])
            .with_value("feature", vec!["b".to_string(), "a".to_string()])
    };
    let r = ParseSession::new("main.zng", "type () { }", cfg(), true).finish();
    let last = r.reports.last().expect("no report");
    assert_eq!(last.kind, ReportKind::CfgValues);
    assert_eq!(last.message, "unix\nfeature=\"b\"\nfeature=\"a\"");
    assert!(!last.fatal);
    let r = ParseSession::new("main.zng", "mod crate { fn f(); }", cfg(), true).finish();
    assert_eq!(r.reports.len(), 0);
    let keys: Vec<_> = r.spec.rust_cfg.iter().map(|x| (x.0.as_str(), x.1.as_deref())).collect();
    assert_eq!(keys, [("feature", Some("a")), ("feature", Some("b")), ("unix", None)]);
}

#[test]
fn the_environment_makes_a_configuration() {
    let vars = |v: &[(&str, &str)]| {
        v.iter().map(|(a, b)| (a.to_string(), Some(b.to_string()))).collect::<Vec<_>>()
    };
    let cfg = InMemoryRustCfgProvider::new().load_from_cargo_env(&vars(&[
        ("CARGO_CFG_TARGET_OS", "linux"),
        ("CARGO_CFG_TARGET_FEATURE", "avx,avx2"),
        ("CARGO_FEATURE_FOO", "1"),
        ("PATH", "/bin"),
    ]));
    assert_eq!(cfg.get_cfg("target_os"), Some(vec!["linux".to_string()]));
    assert_eq!(cfg.get_cfg("target_feature"), Some(vec!["avx".to_string(), "avx2".to_string()]));
    assert_eq!(cfg.get_features(), ["foo"]);
    assert_eq!(cfg.get_cfg("path"), None);
    let named = ("CARGO_FEATURE_FOO_BAR", "1");
    let listed = ("CARGO_CFG_FEATURE", "foo-bar,baz,foo_bar");
    for order in [[named, listed], [listed, named]] {
        let mut features =
            InMemoryRustCfgProvider::new().load_from_cargo_env(&vars(&order)).get_features();
        features.sort();
        assert_eq!(features, ["baz", "foo-bar", "foo_bar"]);
    }
    let cfg = InMemoryRustCfgProvider::new().load_from_cargo_env(&vars(&[
        ("CARGO_CFG_TARGET_OS", "linux"),
        ("CARGO_CFG_FEATURE", "foo"),
        ("CARGO_FEATURE_BAR", "1"),
    ]));
    assert_eq!(cfg.get_cfg("Target_Os"), Some(vec!["linux".to_string()]));
    assert_eq!(cfg.get_cfg("feature"), Some(vec!["foo".to_string()]));
    let pair = |a: &str, b: &str| (a.to_string(), Some(b.to_string()));
    assert_eq!(
        cfg.get_cfg_pairs(),
        [pair("target_os", "linux"), pair("feature", "foo"), pair("feature", "bar")]
    );
    let text = "#unstable(cfg_if)\n#if cfg!(Target_OS = \"linux\") { mod crate { fn f(); } }";
    assert_eq!(ParsedZngFile::parse_str(text, cfg).spec.funcs.len(), 1);
    let kept = InMemoryRustCfgProvider::new().with_value("target_os", vec!["linux".to_string()]);
    assert_eq!(kept.get_cfg("Target_Os"), None);
    let kept = kept.load_from_cargo_env(&vars(&[("CARGO_CFG_TARGET_OS", "windows")]));
    assert_eq!(kept.get_cfg("target_os"), Some(vec!["linux".to_string()]));
    assert_eq!(kept.get_cfg_pairs(), [pair("target_os", "linux")]);
    let no_text = vec![
        ("CARGO_FEATURE_FOO".to_string(), None),
        ("CARGO_CFG_FEATURE".to_string(), None),
        ("CARGO_CFG_UNIX".to_string(), None),
    ];
    let cfg = InMemoryRustCfgProvider::new().load_from_cargo_env(&no_text);
    assert_eq!(cfg.get_features(), ["foo"]);
    assert_eq!(cfg.get_cfg("unix"), None);
}

#[test]
fn set_values_are_read_back() {
    let cfg = InMemoryRustCfgProvider::new()
        .with_value("a", vec!["1".to_string()])
        .with_value("b", vec![])
        .with_value("a", vec!["2".to_string()]);
    assert_eq!(cfg.get_cfg("a"), Some(vec!["2".to_string()]));
    assert_eq!(cfg.get_cfg("b"), Some(vec![]));
    assert_eq!(cfg.get_cfg("c"), None);
}

fn run() -> Zngur {
    Zngur::from_zng_file("main.zng".to_string())
}

#[test]
fn failures_are_counted() {
    assert_eq!(run().parse_failure(0, 3), Ok(()));
    assert_eq!(
        run().parse_failure(1, 0),
        Err("could not parse `main.zng` due to 1 reported errors; 0 warning emitted".to_string())
    );
    assert_eq!(
        run().parse_failure(2, 1),
        Err("could not parse `main.zng` due to 2 reported errors; 1 warnings emitted".to_string())
    );
}

#[test]
fn output_paths_are_required() {
    assert_eq!(run().required_paths(), Err("No rs file path provided".to_string()));
    let run = run().with_rs_file("a.rs".to_string());
    assert_eq!(run.required_paths(), Err("No h file path provided".to_string()));
    let run = run.with_h_file("a.h".to_string());
    assert_eq!(run.required_paths(), Ok(("a.rs".to_string(), "a.h".to_string())));
    assert_eq!(run.source_path(false), Ok(None));
    assert_eq!(run.source_path(true), Err("No cpp file path provided".to_string()));
    let run = run.with_cpp_file("a.cpp".to_string());
    assert_eq!(run.source_path(true), Ok(Some("a.cpp".to_string())));
    assert_eq!(run.source_path(false), Ok(None));
    assert_eq!(run.depfile("a.rs", "a.h", true, &vec!["x".to_string(), "y".to_string()]), "a.h a.rs a.cpp: x y\n");
    assert_eq!(run.depfile("a.rs", "a.h", false, &vec!["x".to_string()]), "a.h a.rs: x\n");
    let run = run.with_depfile("a.d".to_string());
    assert_eq!(run.depfile_path, Some("a.d".to_string()));
}

#[test]
fn namespaces_and_bases_are_chosen() {
    let spec = || {
        let mut s = ZngurSpec::empty();
        s.mangling_base = "old".to_string();
        s
    };
    let r = run().configure(spec(), "a.h".to_string());
    assert_eq!((r.mangling_base.as_str(), r.cpp_namespace), ("old", None));
    assert_eq!(r.cpp_include_header_name, "a.h");
    let r = run().with_cpp_namespace("ns").configure(spec(), "a.h".to_string());
    assert_eq!((r.mangling_base.as_str(), r.cpp_namespace.as_deref()), ("ns", Some("ns")));
    let r = run().with_cpp_namespace("ns").with_mangling_base("mb").configure(spec(), "a.h".to_string());
    assert_eq!((r.mangling_base.as_str(), r.cpp_namespace.as_deref()), ("mb", Some("ns")));
}

#[test]
fn crates_have_a_name() {
    assert_eq!(run().crate_name_or(&None), "crate");
    assert_eq!(run().crate_name_or(&Some("env".to_string())), "env");
    assert_eq!(run().with_crate_name("c").crate_name_or(&Some("env".to_string())), "c");
}

#[test]
fn configurations_can_be_given() {
    let run1 = run().with_rust_in_memory_cfg(&vec![("a".to_string(), vec!["1".to_string()])]);
    assert_eq!(run1.rust_cfg.expect("no cfg").get_cfg("a"), Some(vec!["1".to_string()]));
    let run2 = run().with_rust_cargo_cfg(&vec![("CARGO_CFG_A".to_string(), Some("1".to_string()))]);
    assert_eq!(run2.rust_cfg.expect("no cfg").get_cfg("a"), Some(vec!["1".to_string()]));
    assert!(run().with_zng_header_in_place().zng_header_in_place);
    assert!(!run().with_zng_header_in_place_as(false).zng_header_in_place);
}

#[test]
fn the_shared_header_is_a_run_of_its_own() {
    assert!(run().shared_header(true).is_none());
    let hdr = run().with_zng_header("z.h".to_string()).with_cpp_namespace("ns").shared_header(true).expect("no header");
    let (template, path) = hdr.prepare().expect("no path");
    assert!(template.panic_to_exception);
    assert_eq!(template.cpp_namespace, "ns");
    assert_eq!(path, "z.h");
    let hdr = ZngurHdr::new().with_panic_to_exception().without_panic_to_exception();
    assert_eq!(hdr.prepare().err(), Some("Missing zng header output file".to_string()));
    let (template, _) = ZngurHdr::new().with_zng_header("z.h".to_string()).prepare().expect("no path");
    assert_eq!(template.cpp_namespace, "rust");
    assert!(!template.panic_to_exception);
}

#[test]
fn warnings_are_repeated_line_by_line() {
    assert_eq!(cargo_warnings("a\r\nb\n"), ["cargo:warning=a", "cargo:warning=b"]);
    assert_eq!(cargo_warnings("a\n\nb\r"), ["cargo:warning=a", "cargo:warning=", "cargo:warning=b\r"]);
    assert!(cargo_warnings("").is_empty());
}

#[test]
fn reports_go_where_they_were_asked_for() {
    for fatal in [false, true] {
        for warnings in [false, true] {
            assert_eq!(report_route(fatal, true, warnings), ReportRoute::ReportSink);
        }
    }
    assert_eq!(report_route(true, false, true), ReportRoute::Stderr);
    assert_eq!(report_route(true, false, false), ReportRoute::Stderr);
    assert_eq!(report_route(false, false, true), ReportRoute::WarningSink);
    assert_eq!(report_route(false, false, false), ReportRoute::Cargo);
}

#[test]
fn reports_can_be_read_as_they_arise() {
    let cfg = InMemoryRustCfgProvider::new();
    let session = ParseSession::new(
        "main.zng",
        "merge \"./x.zng\";\ntype crate::A { #layout(size = 1, align = 1); #cpp_value \"0\" \"A\"; }",
        cfg,
        false,
    );
    assert_eq!(session.reports().len(), 1);
    assert_eq!(session.sources().len(), 1);
    let early = session.reports()[0].message.clone();
    let session = session.supply("x.zng", "@");
    assert_eq!(session.reports().len(), 2);
    assert_eq!(session.reports()[0].message, early);
    assert_eq!(session.sources()[1], ("x.zng".to_string(), "@".to_string()));
    let r = session.finish();
    assert_eq!((r.errors, r.warnings), (1, 1));
    assert_eq!(r.reports[0].message, early);
}

#[test]
fn types_seen_by_reference_have_no_size() {
    let spec = parse("type crate::A { #cpp_ref \"::A\"; }").spec;
    assert_eq!(spec.types[0].layout, Some(LayoutPolicy::zero_sized_type()));
    let both = parse("type crate::A { #cpp_ref \"::A\"; #cpp_stack_owned \"::A\" (size = 8, align = 4); }");
    assert_eq!(
        both.spec.types[0].layout,
        Some(LayoutPolicy::StackAllocated { size: 8, align: 4 })
    );
}

#[test]
fn one_entry_for_each_type_and_trait() {
    let spec = parse(
        r#"
type crate::A { #layout(size = 1, align = 1); fn f() -> i8; }
type crate::A { fn g() -> i8; }
trait crate::T { fn m(&self); }
trait crate::T { fn n(&self); }
        "#,
    )
    .spec;
    assert_eq!(spec.types.len(), 1);
    let names: Vec<_> = spec.types[0].methods.iter().map(|m| m.data.name.as_str()).collect();
    assert_eq!(names, ["f", "g"]);
    assert_eq!(spec.traits.len(), 1);
    assert_eq!(spec.traits[0].methods.len(), 2);
}

#[test]
fn modules_stand_before_names() {
    let inside = parse("mod ::a { mod b { type C { #layout(size = 1, align = 1); } } }").spec;
    let outside = parse("type ::a::b::C { #layout(size = 1, align = 1); }").spec;
    assert_eq!(inside.types[0].ty, outside.types[0].ty);
}

#[test]
fn many_places_are_cut_short() {
    let r = ParsedZngFile::parse_str(&"type crate::A { }\n".repeat(5), InMemoryRustCfgProvider::new());
    assert_eq!(r.errors, 1);
    assert_eq!(r.reports[0].labels.len(), 4);
    assert_eq!(r.reports[0].notes, ["2 additional type declaration locations omitted"]);
    let r = ParsedZngFile::parse_str(&"type crate::A { }\n".repeat(3), InMemoryRustCfgProvider::new());
    assert_eq!(r.reports[0].labels.len(), 3);
    assert!(r.reports[0].notes.is_empty());
}

#[test]
fn templates_that_contradict_a_type_are_reported() {
    let r = ParsedZngFile::parse_str(
        r#"
#unstable(template_types)
type<T> crate::A<T> { fn f() -> T; }
type crate::A<i8> { #layout(size = 1, align = 1); fn f() -> i16; }
        "#,
        InMemoryRustCfgProvider::new(),
    );
    assert_eq!(r.errors, 1);
    assert_eq!(
        r.reports[0].message,
        "Failed to apply template crate::A::<T> to type crate::A::<i8>: Method mismatch"
    );
    assert_eq!(r.reports[0].labels[0].message, "Template declared here");
    assert_eq!(r.reports[0].labels[1].message, "Type first declared here.");
}

#[test]
fn declarations_have_errors_of_their_own() {
    let first = |body: &str| {
        messages(&format!("type crate::A {{ #layout(size = 1, align = 1); {body} }}"))[0].clone()
    };
    assert_eq!(first("non_exhaustive; non_exhaustive;"), "Duplicate non_exhaustive annotation found");
    assert_eq!(first("constructor; constructor;"), "Duplicate constructor found");
    assert_eq!(first("fn f(self) deref crate::B;"), "Deref needs reference receiver");
    assert_eq!(
        first("variant V { field x (offset = 0, type = i8); }"),
        "static offsets on enum fields are not supported"
    );
    assert_eq!(first("wellknown_traits(?Sized);"), "Duplicate layout policy found for unsized type.");
}

#[test]
fn tokens_stand_one_behind_the_other() {
    let text = "type crate::A // é\n{ #layout(size = 10); }\u{2003}// é";
    let tokens = tokenize(text).expect("not tokens");
    assert_eq!(tokens.len(), 14);
    assert_eq!((tokens[0].start, tokens[0].end), (0, 4));
    for pair in tokens.windows(2) {
        assert!(pair[0].start < pair[0].end);
        assert!(pair[0].end <= pair[1].start);
    }
    let last = tokens.last().expect("no tokens");
    assert!(last.start < last.end && last.end <= text.len());
    assert_eq!(tokenize("mod \u{202E}crate {}").err(), Some(4));
}

#[test]
fn rules_stand_inside_each_other() {
    let depth = 12;
    let ty = format!("{}i8{}", "Box<".repeat(depth), ">".repeat(depth));
    let modules = format!("{}fn f({});{}", "mod m { ".repeat(depth), ty, " }".repeat(depth));
    let r = parse(&format!("mod crate {{ {} }}", modules));
    assert_eq!(r.spec.funcs.len(), 1);
    let mut input = &r.spec.funcs[0].inputs[0];
    let mut found = 0;
    while let RustType::Boxed(inner) = input {
        input = inner;
        found += 1;
    }
    assert_eq!(found, depth);
    assert_eq!(r.spec.funcs[0].path.path.len(), depth + 2);
}
