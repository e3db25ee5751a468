use std::collections::HashMap;
use std::path::{Path, PathBuf};

use ariadne::Source;
use zngur::cfg::InMemoryRustCfgProvider;
use zngur::def::{CppHeapAllocated, CppRef, CppStackOwned, LayoutPolicy};
use zngur::parse::{ParseResult, ParseSession, ParsedZngFile};
use zngur::report::{Color, Report, ReportKind, ReportSpan};
use zngur::rust_types::{PrimitiveRustType, RustPathAndGenerics, RustType};
use zngur::scope::{EntityPath, Scope};

fn no_cfg() -> InMemoryRustCfgProvider {
    InMemoryRustCfgProvider::new()
}

fn with_values(values: &[(&str, &[&str])]) -> InMemoryRustCfgProvider {
    let mut cfg = InMemoryRustCfgProvider::new();
    for (key, values) in values {
        cfg = cfg.with_value(key, segments(values));
    }
    cfg
}

fn segments(v: &[&str]) -> Vec<String> {
    v.iter().map(|x| x.to_string()).collect()
}

struct MockFilesystem {
    files: HashMap<PathBuf, String>,
}

impl MockFilesystem {
    fn new(files: &[(&str, &str)]) -> Self {
        MockFilesystem {
            files: files
                .iter()
                .map(|(k, v)| (PathBuf::from(k), v.to_string()))
                .collect(),
        }
    }
}

fn read_all(zng: &str, cfg: InMemoryRustCfgProvider, resolver: &MockFilesystem) -> ParseResult {
    let mut session = ParseSession::new("test.zng", zng, cfg, false);
    while let Some((file, import)) = session.pending() {
        let dirname = Path::new(&file).parent().unwrap_or(Path::new(""));
        let path = dirname.join(&import);
        session = match resolver.files.get(&path) {
            Some(text) => session.supply(path.to_str().unwrap(), text),
            None => session.refuse(),
        };
    }
    session.finish()
}

/// The result, or a panic with the errors.
fn unless_errors(r: ParseResult) -> ParseResult {
    if r.errors > 0 {
        panic!("{}", rendered_errors(&r));
    }
    r
}

fn parse_str(zng: &str, cfg: InMemoryRustCfgProvider) -> ParseResult {
    unless_errors(ParsedZngFile::parse_str(zng, cfg))
}

fn parse_str_with_resolver(
    zng: &str,
    cfg: InMemoryRustCfgProvider,
    resolver: &MockFilesystem,
) -> ParseResult {
    unless_errors(read_all(zng, cfg, resolver))
}

fn catch_parse_fail(zng: &str, cfg: InMemoryRustCfgProvider) -> ParseResult {
    parse_str(zng, cfg)
}

fn file_name(path: &str) -> &str {
    Path::new(path).file_name().unwrap().to_str().unwrap()
}

/// The files that reports speak of.
struct Files(Vec<(String, Source<String>)>);

impl ariadne::Cache<usize> for &Files {
    type Storage = String;

    fn fetch(&mut self, id: &usize) -> Result<&Source<String>, Box<dyn std::fmt::Debug + '_>> {
        match self.0.get(*id) {
            Some((_, source)) => Ok(source),
            None => Err(Box::new(format!("no file {id}"))),
        }
    }

    fn display<'a>(&self, id: &'a usize) -> Option<Box<dyn std::fmt::Display + 'a>> {
        match self.0.get(*id) {
            Some((path, _)) => Some(Box::new(file_name(path).to_string())),
            None => None,
        }
    }
}

fn place(at: &ReportSpan) -> (usize, std::ops::Range<usize>) {
    (at.source_id, at.span.start..at.span.end)
}

fn rendered(report: &Report, r: &ParseResult) -> String {
    let files = Files(
        r.sources
            .iter()
            .map(|(path, text)| (path.clone(), Source::from(text.clone())))
            .collect(),
    );
    let kind = match report.kind {
        ReportKind::Error => ariadne::ReportKind::Error,
        ReportKind::Warning => ariadne::ReportKind::Warning,
        ReportKind::CfgValues => {
            ariadne::ReportKind::Custom("cfg values used", ariadne::Color::Green)
        }
    };
    let mut builder = ariadne::Report::build(kind, place(&report.at)).with_message(&report.message);
    for label in &report.labels {
        let color = match label.color {
            Color::Red => ariadne::Color::Red,
            Color::Yellow => ariadne::Color::Yellow,
            Color::Blue => ariadne::Color::Blue,
        };
        builder = builder.with_label(
            ariadne::Label::new(place(&label.at))
                .with_message(&label.message)
                .with_color(color),
        );
    }
    for note in &report.notes {
        builder.add_note(note);
    }
    let mut buf = Vec::new();
    builder.finish().write(&files, &mut buf).unwrap();
    String::from_utf8(strip_ansi_escapes::strip(buf)).unwrap()
}

fn rendered_errors(r: &ParseResult) -> String {
    r.reports
        .iter()
        .filter(|x| x.fatal)
        .map(|x| rendered(x, r))
        .collect()
}

fn rendered_warnings(r: &ParseResult) -> Vec<String> {
    r.reports
        .iter()
        .filter(|x| !x.fatal)
        .map(|x| rendered(x, r))
        .collect()
}

/// A text without its first line break and without the indentation that all its
/// lines share.
fn dedent(text: &str) -> String {
    let text = text.strip_prefix('\n').unwrap_or(text);
    let indent = text
        .lines()
        .filter(|line| !line.trim().is_empty())
        .map(|line| line.len() - line.trim_start().len())
        .min()
        .unwrap_or(0);
    let mut out = String::new();
    for line in text.split_inclusive('\n') {
        if line.len() > indent {
            out.push_str(&line[indent..]);
        } else if line.ends_with('\n') {
            out.push('\n');
        }
    }
    if let Some(at) = out.rfind('\n') {
        if out[at + 1..].trim().is_empty() {
            out.truncate(at + 1);
        }
    }
    out
}

fn check_success(zng: &str) {
    let _ = parse_str(zng, no_cfg());
}

fn check_errors(r: &ParseResult, error: &str) {
    assert!(r.errors > 0, "Parsing succeeded but we expected fail");
    assert_eq!(rendered_errors(r), dedent(error));
}

fn check_fail(zng: &str, error: &str) {
    check_errors(&ParsedZngFile::parse_str(zng, no_cfg()), error);
}

fn check_fail_with_cfg(zng: &str, cfg: InMemoryRustCfgProvider, error: &str) {
    check_errors(&ParsedZngFile::parse_str(zng, cfg), error);
}

fn check_import_fail(zng: &str, error: &str, resolver: &MockFilesystem) {
    check_errors(&read_all(zng, no_cfg(), resolver), error);
}

fn assert_ty_path(expected: &[&str], ty: &RustType) {
    let RustType::Adt(RustPathAndGenerics { path, .. }) = ty else {
        panic!("type `{:?}` is not a path", ty);
    };
    assert_eq!(path.as_slice(), expected);
}

fn assert_cpp(expected: &[&str], ty: &RustType) {
    let RustType::Cpp(segs) = ty else {
        panic!("type `{:?}` is not a c++ type", ty);
    };
    assert_eq!(segs.as_slice(), expected);
}

fn assert_layout(wanted_size: usize, wanted_align: usize, layout: &Option<LayoutPolicy>) {
    assert_eq!(
        *layout,
        Some(LayoutPolicy::StackAllocated { size: wanted_size, align: wanted_align })
    );
}

type CfgPathPairs<'a> = &'a [(&'a [(&'a str, &'a [&'a str])], &'a [&'a str])];

fn test_paths_with_cfg(source: &str, pairs: CfgPathPairs) {
    for (cfg, path) in pairs {
        let parsed = catch_parse_fail(source, with_values(cfg));
        let ty = parsed.spec.types.first().expect("no type parsed");
        assert_ty_path(path, &ty.ty);
    }
}

fn scope_with_base(base: EntityPath) -> Scope {
    Scope { aliases: Vec::new(), base, type_vars: Vec::new() }
}

#[test]
fn parse_unit() {
    check_fail(
        r#"
type () {
    #layout(size = 0, align = 1);
    wellknown_traits(Copy);
}
    "#,
        r#"
            Error: Unit type is declared implicitly. Remove this entirely.
               ╭─[test.zng:2:6]
               │
             2 │ type () {
               │      ─┬  
               │       ╰── Unit type is declared implicitly. Remove this entirely.
            ───╯
        "#,
    );
}

#[test]
fn parse_tuple() {
    check_success(
        r#"
type (i8, u8) {
    #layout(size = 0, align = 1);
}
    "#,
    );
}

#[test]
fn typo_in_wellknown_trait() {
    check_fail(
        r#"
type () {
    #layout(size = 0, align = 1);
    welcome_traits(Copy);
}
    "#,
        r#"
            Error: found 'welcome_traits' expected '#', 'variant', 'wellknown_traits', 'non_exhaustive', 'constructor', 'field', 'async', 'fn', or '}'
               ╭─[test.zng:4:5]
               │
             4 │     welcome_traits(Copy);
               │     ───────┬──────  
               │            ╰──────── found 'welcome_traits' expected '#', 'variant', 'wellknown_traits', 'non_exhaustive', 'constructor', 'field', 'async', 'fn', or '}'
            ───╯
        "#,
    );
}

#[test]
fn multiple_layout_policies() {
    check_fail(
        r#"
type ::std::string::String {
    #layout(size = 24, align = 8);
    #heap_allocated;
}
    "#,
        r#"
            Error: Duplicate layout policy found
               ╭─[test.zng:4:5]
               │
             4 │     #heap_allocated;
               │     ───────┬───────  
               │            ╰───────── Duplicate layout policy found
            ───╯
        "#,
    );
}

#[test]
fn cpp_ref_should_not_need_layout_info() {
    check_fail(
        r#"
type crate::Way {
    #layout(size = 1, align = 2);

    #cpp_ref "::osmium::Way";
}
    "#,
        r#"
            Error: Duplicate layout policy found
               ╭─[test.zng:3:5]
               │
             3 │     #layout(size = 1, align = 2);
               │     ──────────────┬─────────────  
               │                   ╰─────────────── Duplicate layout policy found
            ───╯
        "#,
    );
    check_success(
        r#"
type crate::Way {
    #cpp_ref "::osmium::Way";
}
    "#,
    );
}

#[test]
fn cpp_heap_allocated_directive_parses() {
    let result = parse_str(
        r#"
type crate::Way {
    #layout(size = 16, align = 8);
    #cpp_heap_allocated "::osmium::Way";
}
    "#,
        no_cfg(),
    );
    let ty = result.spec.types.first().expect("no type parsed");
    assert_eq!(
        ty.cpp_heap_allocated,
        Some(CppHeapAllocated("::osmium::Way".to_owned())),
    );
}

#[test]
fn cpp_value_emits_deprecation_warning_and_forwards_to_cpp_heap_allocated() {
    let result = parse_str(
        r#"
type crate::Way {
    #layout(size = 16, align = 8);
    #cpp_value "0" "::osmium::Way";
}
    "#,
        no_cfg(),
    );
    let warnings = rendered_warnings(&result);
    assert_eq!(warnings.len(), 1);
    assert_eq!(warnings[0], dedent(r#"
        Warning: #cpp_value is deprecated; use #cpp_heap_allocated instead
           ╭─[test.zng:4:5]
           │
         4 │     #cpp_value "0" "::osmium::Way";
           │     ───────────────┬───────────────  
           │                    ╰───────────────── #cpp_value is deprecated; use #cpp_heap_allocated instead
        ───╯
    "#));
    let ty = result.spec.types.first().expect("no type parsed");
    assert_eq!(
        ty.cpp_heap_allocated,
        Some(CppHeapAllocated("::osmium::Way".to_owned())),
    );
}

#[test]
fn cpp_value_and_cpp_heap_allocated_merge_as_equivalent_across_files() {
    let resolver = MockFilesystem::new(&[(
        "./a.zng",
        r#"
type crate::Way {
    #layout(size = 16, align = 8);
    #cpp_value "0" "::osmium::Way";
}
    "#,
    )]);

    let parsed = parse_str_with_resolver(
        r#"
merge "./a.zng";
type crate::Way {
    #cpp_heap_allocated "::osmium::Way";
}
    "#,
        no_cfg(),
        &resolver,
    );
    // The #cpp_value directive that triggered this warning lives in the imported
    // a.zng, not the root file, so the rendered warning must show a.zng's own
    // source snippet -- this exercises the cross-file source lookup used when
    // rendering a warning that was merged in from an imported file's context.
    let warnings = rendered_warnings(&parsed);
    assert_eq!(warnings.len(), 1);
    assert!(warnings[0].contains("a.zng"));
    assert!(warnings[0].contains(r#"#cpp_value "0" "::osmium::Way";"#));
    let ty = parsed.spec.types.first().expect("no type parsed");
    assert_eq!(
        ty.cpp_heap_allocated,
        Some(CppHeapAllocated("::osmium::Way".to_owned())),
    );
}

#[test]
fn alias_expands_correctly() {
    let parsed = parse_str(
        r#"
use ::std::string::String as MyString;
type MyString {
    #layout(size = 24, align = 8);
}
    "#,
        no_cfg(),
    );
    let ty = parsed.spec.types.first().expect("no type parsed");
    let RustType::Adt(RustPathAndGenerics { path: p, .. }) = &ty.ty else {
        panic!("no match?");
    };
    assert_eq!(p.as_slice(), ["std", "string", "String"]);
}

#[test]
fn alias_expands_nearest_scope_first() {
    let parsed = parse_str(
        r#"
use ::std::string::String as MyString;
mod crate {
    use MyLocalString as MyString;
    type MyString {
        #layout(size = 24, align = 8);
    }
}
    "#,
        no_cfg(),
    );
    let ty = parsed.spec.types.first().expect("no type parsed");
    let RustType::Adt(RustPathAndGenerics { path: p, .. }) = &ty.ty else {
        panic!("no match?");
    };
    assert_eq!(p.as_slice(), ["crate", "MyLocalString"]);
}

#[test]
fn parse_variants() {
    println!("meow");

    let parsed = parse_str(
        r#"
type Option<i32> {
    #layout(size = 8, align = 4);
    variant None { }
    variant Some {
        field 0 (offset = auto, type = i32);
    }
}
        "#,
        no_cfg(),
    );

    let ty = parsed.spec.types.first().expect("no type parsed");
    assert_eq!(ty.variants.len(), 2, "should have two variants");

    assert_eq!(ty.variants[0].name, "None");
    assert_eq!(ty.variants[0].fields.len(), 0);

    assert_eq!(ty.variants[1].name, "Some");
    assert_eq!(ty.variants[1].fields.len(), 1);
    assert_eq!(ty.variants[1].fields[0].name, "0");
    assert_eq!(
        ty.variants[1].fields[0].ty,
        RustType::Primitive(PrimitiveRustType::Int(32))
    );
    assert_eq!(ty.variants[1].fields[0].offset, None);
}

#[test]
fn import_parser_test() {
    let resolver = MockFilesystem::new(&[(
        "./relative/path.zng",
        "type Imported { #layout(size = 1, align = 1); }",
    )]);

    let parsed = parse_str_with_resolver(
        r#"
merge "./relative/path.zng";
type Example {
    #layout(size = 1, align = 1);
}
    "#,
        no_cfg(),
        &resolver,
    );
    assert_eq!(parsed.spec.types.len(), 2);
}

#[test]
fn module_import_prohibited() {
    let resolver = MockFilesystem::new(&[]);

    check_import_fail(
        r#"
    merge "foo/bar.zng";
    "#,
        r#"
            Error: Module import is not supported. Use a relative path instead.
               ╭─[test.zng:2:5]
               │
             2 │     merge "foo/bar.zng";
               │     ──────────┬─────────  
               │               ╰─────────── Module import is not supported. Use a relative path instead.
            ───╯
        "#,
        &resolver,
    );
}

#[test]
fn import_has_conflict() {
    // Test that an import which introduces a conflict produces a reasonable error message.
    let resolver = MockFilesystem::new(&[(
        "./a.zng",
        r#"
      type A {
        #layout(size = 1, align = 1);
      }
    "#,
    )]);

    check_import_fail(
        r#"
    merge "./a.zng";
    type A {
      #layout(size = 2, align = 2);
    }
"#,
        r#"
            Error: Conflicting layout policy found
               ╭─[a.zng:2:12]
               │
             2 │       type A {
               │            ┬  
               │            ╰── Conflicting layout policy found
            ───╯
        "#,
        &resolver,
    );
}

#[test]
fn missing_layout_across_files() {
    // Test that a type defined in multiple places without a layout produces a reasonable error message.
    let resolver = MockFilesystem::new(&[(
        "./a.zng",
        r#"
      type A {
      }
    "#,
    )]);

    check_import_fail(
        r#"
    merge "./a.zng";
    type A {}
"#,
        r#"
            Error: No layout policy found for type ::A. Use one of `#layout(size = X, align = Y)`, `#heap_allocated` or `#only_by_ref`.
               ╭─[test.zng:3:10]
               │
             3 │     type A {}
               │          ┬  
               │          ╰── Type defined here
               │
               ├─[a.zng:2:12]
               │
             2 │       type A {
               │            ┬  
               │            ╰── Type defined here
            ───╯
        "#,
        &resolver,
    );
}

#[test]
fn missing_layout_across_files_with_template() {
    // Test that a type defined in multiple places without a layout produces a reasonable error message.
    let resolver = MockFilesystem::new(&[(
        "./a.zng",
        r#"
      type A<B> {
      }
    "#,
    )]);

    check_import_fail(
        r#"
    #unstable(template_types)
    merge "./a.zng";
    type<T> A<T> {}
    type A<B> {}
"#,
        r#"
            Error: No layout policy found for type ::A::<::B>. Use one of `#layout(size = X, align = Y)`, `#heap_allocated` or `#only_by_ref`.
               ╭─[test.zng:5:10]
               │
             4 │     type<T> A<T> {}
               │             ──┬─  
               │               ╰─── Matching template defined here
             5 │     type A<B> {}
               │          ──┬─  
               │            ╰─── Type defined here
               │
               ├─[a.zng:2:12]
               │
             2 │       type A<B> {
               │            ──┬─  
               │              ╰─── Type defined here
            ───╯
        "#,
        &resolver,
    );
}

#[test]
fn import_not_found() {
    let resolver = MockFilesystem::new(&[]);
    check_import_fail(
        r#"
    merge "./a.zng";
    "#,
        r#"
            Error: Import path not found: ./a.zng
        "#,
        &resolver,
    );
}

#[test]
fn import_has_mismatched_method_signature() {
    let resolver = MockFilesystem::new(&[(
        "./a.zng",
        "type A { #layout(size = 1, align = 1); fn foo(i32) -> i32; }",
    )]);

    check_import_fail(
        r#"
  merge "./a.zng";
  type A {
    #layout(size = 1, align = 1);
    fn foo(i64) -> i64;
  }
  "#,
        r#"
            Error: Method mismatch
               ╭─[a.zng:1:6]
               │
             1 │ type A { #layout(size = 1, align = 1); fn foo(i32) -> i32; }
               │      ┬  
               │      ╰── Method mismatch
            ───╯
        "#,
        &resolver,
    );
}

#[test]
fn import_has_mismatched_field() {
    let resolver = MockFilesystem::new(&[(
        "./a.zng",
        "type A {
        #layout(size = 1, align = 1);
        field x (offset = 0, type = i32);
    }",
    )]);

    check_import_fail(
        r#"
  merge "./a.zng";
  type A {
    #layout(size = 1, align = 1);
    field x (offset = 0, type = i64);
  }
  "#,
        r#"
            Error: Field mismatch
               ╭─[a.zng:1:6]
               │
             1 │ type A {
               │      ┬  
               │      ╰── Field mismatch
            ───╯
        "#,
        &resolver,
    );
}

#[test]
fn convert_panic_to_exception_in_imported_file_fails() {
    let resolver = MockFilesystem::new(&[(
        "./imported.zng",
        r#"
        #convert_panic_to_exception
        type A {
            #layout(size = 1, align = 1);
        }
        "#,
    )]);

    check_import_fail(
        r#"
merge "./imported.zng";
type B {
    #layout(size = 1, align = 1);
}
        "#,
        r#"
            Error: Using `#convert_panic_to_exception` in imported zngur files is not supported. This directive can only be used in the main zngur file.
               ╭─[imported.zng:2:10]
               │
             2 │         #convert_panic_to_exception
               │          ─────────────┬────────────  
               │                       ╰────────────── Using `#convert_panic_to_exception` in imported zngur files is not supported. This directive can only be used in the main zngur file.
            ───╯
        "#,
        &resolver,
    );
}

#[test]
fn convert_panic_to_exception_in_main_file_succeeds() {
    check_success(
        r#"
#convert_panic_to_exception
type A {
    #layout(size = 1, align = 1);
}
        "#,
    );
}

// Tests for processed_files tracking (depfile support)

#[test]
fn processed_files_single_file() {
    let parsed = parse_str(
        r#"
type A {
    #layout(size = 1, align = 1);
}
        "#,
        no_cfg(),
    );
    // Should have exactly one file (test.zng)
    assert_eq!(parsed.processed_files.len(), 1);
    assert_eq!(
        file_name(&parsed.processed_files[0]),
        "test.zng"
    );
}

#[test]
fn processed_files_with_import() {
    let resolver = MockFilesystem::new(&[(
        "./imported.zng",
        "type Imported { #layout(size = 1, align = 1); }",
    )]);

    let parsed = parse_str_with_resolver(
        r#"
merge "./imported.zng";
type Main {
    #layout(size = 1, align = 1);
}
        "#,
        no_cfg(),
        &resolver,
    );
    // Should have two files: main (test.zng) + imported
    assert_eq!(parsed.processed_files.len(), 2);
    let file_names: Vec<_> = parsed
        .processed_files
        .iter()
        .map(|p| file_name(p))
        .collect();
    assert!(file_names.contains(&"test.zng"));
    assert!(file_names.contains(&"imported.zng"));
}

#[test]
fn processed_files_with_nested_imports() {
    let resolver = MockFilesystem::new(&[
        (
            "./a.zng",
            r#"merge "./b.zng"; type A { #layout(size = 1, align = 1); }"#,
        ),
        (
            "./b.zng",
            r#"merge "./c.zng"; type B { #layout(size = 1, align = 1); }"#,
        ),
        ("./c.zng", "type C { #layout(size = 1, align = 1); }"),
    ]);

    let parsed = parse_str_with_resolver(
        r#"
merge "./a.zng";
type Main {
    #layout(size = 1, align = 1);
}
        "#,
        no_cfg(),
        &resolver,
    );
    // Should have four files: main + a + b + c
    assert_eq!(parsed.processed_files.len(), 4);
    let file_names: Vec<_> = parsed
        .processed_files
        .iter()
        .map(|p| file_name(p))
        .collect();
    assert!(file_names.contains(&"test.zng"));
    assert!(file_names.contains(&"a.zng"));
    assert!(file_names.contains(&"b.zng"));
    assert!(file_names.contains(&"c.zng"));
}

#[test]
fn test_if_conditional_type_item() {
    let source = r#"
#unstable(cfg_if)

type ::std::string::String {
    #if cfg!(target_pointer_width = "64") {
        #layout(size = 24, align = 8);
    } #else if cfg!(target_pointer_width = "32") {
        #layout(size = 12, align = 4);
    } #else {
        // silly size for testing
        #layout(size = 27, align = 9);
    }
}
    "#;
    let parsed = catch_parse_fail(
        source,
        with_values(&[("target_pointer_width", &["64"])]),
    );
    let ty = parsed.spec.types.first().expect("no type parsed");
    assert_layout(24, 8, &ty.layout);
    let parsed = catch_parse_fail(
        source,
        with_values(&[("target_pointer_width", &["32"])]),
    );
    let ty = parsed.spec.types.first().expect("no type parsed");
    assert_layout(12, 4, &ty.layout);
    let parsed = catch_parse_fail(source, no_cfg());
    let ty = parsed.spec.types.first().expect("no type parsed");

    assert_layout(27, 9, &ty.layout);
}

#[test]
fn test_match_conditional_type_item() {
    let source = r#"
#unstable(cfg_match)

type ::std::string::String {
    #match cfg!(target_pointer_width) {
        // single item arm
        "64" => #layout(size = 24, align = 8);
        // match usize numbers
        32 => {
            #layout(size = 12, align = 4);
        },
     
        _ => {
            // silly size for testing
            #layout(size = 27, align = 9);
        }
    }
}
    "#;
    let parsed = catch_parse_fail(
        source,
        with_values(&[("target_pointer_width", &["64"])]),
    );
    let ty = parsed.spec.types.first().expect("no type parsed");
    assert_layout(24, 8, &ty.layout);
    let parsed = catch_parse_fail(
        source,
        with_values(&[("target_pointer_width", &["32"])]),
    );
    let ty = parsed.spec.types.first().expect("no type parsed");
    assert_layout(12, 4, &ty.layout);
    let parsed = catch_parse_fail(source, no_cfg());
    let ty = parsed.spec.types.first().expect("no type parsed");

    assert_layout(27, 9, &ty.layout);
}

#[test]
fn conditional_if_spec_item() {
    let source = r#"
#unstable(cfg_if)

#if cfg!(feature = "foo") {
    type crate::Foo {
        #layout(size = 1, align = 1);
    }
} #else {
    type crate::Bar {
        #layout(size = 1, align = 1);
    }
}
    "#;

    let pairs: CfgPathPairs = &[
        (&[("feature", &["foo"])], &["crate", "Foo"]),
        (&[], &["crate", "Bar"]),
    ];
    test_paths_with_cfg(source, pairs);
}

#[test]
fn conditional_match_spec_item() {
    let source = r#"
#unstable(cfg_match)

#match cfg!(feature) {
    "foo" => type crate::Foo {
        #layout(size = 1, align = 1);
    }
    _ => {
        type crate::Bar {
            #layout(size = 1, align = 1);
        }
    }
}
    "#;
    let pairs: CfgPathPairs = &[
        (&[("feature", &["foo"])], &["crate", "Foo"]),
        (&[], &["crate", "Bar"]),
    ];
    test_paths_with_cfg(source, pairs);
}

#[test]
fn match_pattern_single_cfg() {
    let source = r#"
#unstable(cfg_match)

#match cfg!(feature) {
    "bar" | "zigza" => type crate::BarZigZa {
        #layout(size = 1, align = 1);
    }
    // match two values from a cfg value as a set 
    "foo" & "baz" => type crate::FooBaz {
        #layout(size = 1, align = 1);
    }
    // negative matching (no feature baz)
    "foo" & !"baz" => type crate::FooNoBaz {
        #layout(size = 1, align = 1);
    }
    _ => {
        type crate::Zoop {
            #layout(size = 1, align = 1);
        }
    }
}
    "#;
    let pairs: CfgPathPairs = &[
        (&[], &["crate", "Zoop"]),
        (&[("feature", &["foo"])], &["crate", "FooNoBaz"]),
        (&[("feature", &["bar"])], &["crate", "BarZigZa"]),
        (&[("feature", &["zigza"])], &["crate", "BarZigZa"]),
        (&[("feature", &["foo", "baz"])], &["crate", "FooBaz"]),
    ];
    test_paths_with_cfg(source, pairs);
}

#[test]
fn if_pattern_multi_cfg() {
    let source = r#"
#unstable(cfg_if)
// match two cfg keys as a set
#if cfg!(feature.foo) && cfg!(target_pointer_width = 32) {
    type crate::Foo32 {
        #layout(size = 1, align = 1);
    }
} #else if cfg!(feature.foo = None) && cfg!(target_pointer_width = 64) {
    type crate::NoFoo64 {
        #layout(size = 1, align = 1);
    }
} #else if (cfg!(feature.foo = Some) && cfg!(target_pointer_width = 64)) || cfg!(feature.baz) {
    type crate::Foo64_OrBaz {
        #layout(size = 1, align = 1);
    }
} #else {
    type crate::SpecialFoo {
        #layout(size = 1, align = 1);
    }
}
    "#;
    let pairs: CfgPathPairs = &[
        (
            &[("target_pointer_width", &["32"]), ("feature", &["foo"])],
            &["crate", "Foo32"],
        ),
        (
            &[("target_pointer_width", &["64"]), ("feature", &["bar"])],
            &["crate", "NoFoo64"],
        ),
        (
            &[("target_pointer_width", &["64"]), ("feature", &["foo"])],
            &["crate", "Foo64_OrBaz"],
        ),
        (
            &[("target_pointer_width", &["32"]), ("feature", &["baz"])],
            &["crate", "Foo64_OrBaz"],
        ),
        (&[("feature", &["foo"])], &["crate", "SpecialFoo"]),
        (&[], &["crate", "SpecialFoo"]),
    ];
    test_paths_with_cfg(source, pairs);
}

#[test]
fn match_pattern_multi_cfg() {
    let source = r#"
#unstable(cfg_match)

#match (cfg!(feature.foo), cfg!(target_pointer_width)) {
    // match two cfg keys as a set
    (Some, "32") => type crate::Foo32 {
        #layout(size = 1, align = 1);
    }
    (None, 64) => type crate::NoFoo64 {
        #layout(size = 1, align = 1);
    }
    _ => {
        type crate::SpecialFoo {
            #layout(size = 1, align = 1);
        }
    }
}
    "#;
    let pairs: CfgPathPairs = &[
        (
            &[("target_pointer_width", &["32"]), ("feature", &["foo"])],
            &["crate", "Foo32"],
        ),
        (
            &[("target_pointer_width", &["64"]), ("feature", &["bar"])],
            &["crate", "NoFoo64"],
        ),
        (&[("feature", &["foo"])], &["crate", "SpecialFoo"]),
        (&[], &["crate", "SpecialFoo"]),
    ];
    test_paths_with_cfg(source, pairs);
}

#[test]
fn match_pattern_multi_cfg_bad_pattern() {
    let source = r#"
#unstable(cfg_match)

#match (cfg!(feature.foo), cfg!(target_pointer_width)) {
    (Some, "32") => type crate::Foo32 { 
        // would succeed if cfg match attempted
        #layout(size = 1, align = 1);
    }
    "64" => type crate::NoFoo64 { 
        // will fail: cardinality of pattern and tuple don't match
        #layout(size = 1, align = 1);
    }
    _ => {
        type crate::SpecialFoo {
            #layout(size = 1, align = 1);
        }
    }
}
    "#;
    check_fail_with_cfg(
        source,
        with_values(&[("target_pointer_width", &["64"])]),
        r#"
            Error: Can not match single pattern against multiple cfg values.
               ╭─[test.zng:9:5]
               │
             9 │     "64" => type crate::NoFoo64 {
               │     ──┬─  
               │       ╰─── Can not match single pattern against multiple cfg values.
            ───╯
        "#,
    );
}

#[test]
fn match_pattern_multi_cfg_bad_pattern2() {
    let source = r#"
#unstable(cfg_match)

#match (cfg!(feature.foo), cfg!(target_pointer_width), cfg!(target_feature) ) {
    (Some, "32", "avx" & "avx2") => type crate::Foo32 { 
        // would succeed if cfg match attempted
        #layout(size = 1, align = 1);
    }
    (None, "64") => type crate::NoFoo64 { 
        // will fail: cardinality of pattern and tuple don't match
        #layout(size = 1, align = 1);
    }
    _ => {
        type crate::SpecialFoo {
            #layout(size = 1, align = 1);
        }
    }
}
    "#;
    let cfg: [(&str, &[&str]); 2] = [
        ("target_pointer_width", &["64"]),
        ("target_feature", &["avx", "avx2"]),
    ];
    check_fail_with_cfg(
        source,
        with_values(&cfg),
        r#"
            Error: Number of patterns and number of scrutinees do not match.
               ╭─[test.zng:9:5]
               │
             9 │     (None, "64") => type crate::NoFoo64 {
               │     ──────┬─────  
               │           ╰─────── Number of patterns and number of scrutinees do not match.
            ───╯
        "#,
    );
}

#[test]
fn cfg_match_unstable() {
    let source = r#"
#match cfg!(feature) {
    "foo" => type crate::Foo {
        #layout(size = 1, align = 1);
    }
    _ => {
        type crate::Bar {
            #layout(size = 1, align = 1);
        }
    }
}
    "#;
    check_fail_with_cfg(
        source,
        with_values(&[("feature", &["foo"])]),
        r#"
            Error: `#match` statements are unstable. Enable them by using `#unstable(cfg_match)` at the top of the file.
                ╭─[test.zng:2:1]
                │
              2 │ ╭─▶ #match cfg!(feature) {
                ┆ ┆   
             11 │ ├─▶ }
                │ │       
                │ ╰─────── `#match` statements are unstable. Enable them by using `#unstable(cfg_match)` at the top of the file.
            ────╯
        "#,
    );
}

#[test]
fn module_import_parser_test() {
    let parsed = parse_str(
        r#"
import "module.zng";
"#,
        no_cfg(),
    );
    assert_eq!(parsed.spec.imported_modules.len(), 1);
    assert_eq!(
        parsed.spec.imported_modules[0].path,
        "module.zng"
    );
}

#[test]
fn extern_cpp_requires_safety() {
    let source = r#"
extern "C++" {
    fn foo();
}
    "#;
    check_fail(
        source,
        r#"
            Error: found 'fn' expected 'safe', 'unsafe', 'impl', or '}'
               ╭─[test.zng:3:5]
               │
             3 │     fn foo();
               │     ─┬  
               │      ╰── found 'fn' expected 'safe', 'unsafe', 'impl', or '}'
            ───╯
        "#,
    );
    let source = r#"
extern "C++" {
    impl crate::Foo {
        fn foo();
    }
}
    "#;
    check_fail(
        source,
        r#"
            Error: found 'fn' expected 'safe', 'unsafe', or '}'
               ╭─[test.zng:4:9]
               │
             4 │         fn foo();
               │         ─┬  
               │          ╰── found 'fn' expected 'safe', 'unsafe', or '}'
            ───╯
        "#,
    );
}

#[test]
fn cpp_additional_includes() {
    let parsed = parse_str(
        r#"
#cpp_additional_includes "
    // comment
    stuff
"
    "#,
        no_cfg(),
    );
    assert_eq!(
        parsed.spec.additional_includes.0,
        "\n    // comment\n    stuff\n"
    );

    let parsed = parse_str(
        r##"
#cpp_additional_includes r#"
    // comment
    "stuff"
"#
    "##,
        no_cfg(),
    );
    assert_eq!(
        parsed.spec.additional_includes.0,
        "\n    // comment\n    \"stuff\"\n"
    );
}

// Tests for `c++::a::b::Name` paths.

#[test]
fn cpp_path_with_cpp_heap_allocated_parses() {
    let parsed = parse_str(
        r#"
type c++::a::b::Name {
    #layout(size = 16, align = 8);
    #cpp_heap_allocated "::foo::Bar";
}
    "#,
        no_cfg(),
    );
    let ty = parsed.spec.types.first().expect("no type parsed");
    assert_cpp(&["a", "b", "Name"], &ty.ty);
    // The c++:: segments are a Rust-side placement hint only; the C++-side path
    // in #cpp_heap_allocated's string argument is independent of them.
    assert_eq!(
        ty.cpp_heap_allocated,
        Some(CppHeapAllocated("::foo::Bar".to_owned())),
    );
}

#[test]
fn cpp_path_with_cpp_ref_parses_and_forces_zero_sized_layout() {
    let parsed = parse_str(
        r#"
type c++::a::b::Name {
    #cpp_ref "::foo::Bar";
}
    "#,
        no_cfg(),
    );
    let ty = parsed.spec.types.first().expect("no type parsed");
    assert_cpp(&["a", "b", "Name"], &ty.ty);
    assert_eq!(ty.cpp_ref, Some(CppRef("::foo::Bar".to_owned())));
    assert_eq!(ty.layout, Some(LayoutPolicy::zero_sized_type()));
}

#[test]
fn cpp_path_with_cpp_stack_owned_parses() {
    let parsed = parse_str(
        r#"
type c++::a::b::Name {
    #cpp_stack_owned "::foo::Bar" (size = 8, align = 4);
}
    "#,
        no_cfg(),
    );
    let ty = parsed.spec.types.first().expect("no type parsed");
    assert_cpp(&["a", "b", "Name"], &ty.ty);
    assert_eq!(
        ty.cpp_stack_owned,
        Some(CppStackOwned {
            cpp_type: "::foo::Bar".to_owned(),
            size: 8,
            align: 4,
        }),
    );
}

#[test]
fn mod_cpp_shorthand_matches_explicit_cpp_path() {
    let direct = parse_str(
        r#"
type c++::a::b::Name {
    #layout(size = 16, align = 8);
    #cpp_heap_allocated "::x";
}
    "#,
        no_cfg(),
    );
    let via_mod = parse_str(
        r#"
mod c++::a::b {
    type Name {
        #layout(size = 16, align = 8);
        #cpp_heap_allocated "::x";
    }
}
    "#,
        no_cfg(),
    );
    let direct_ty = &direct.spec.types.first().expect("no type parsed").ty;
    let via_mod_ty = &via_mod.spec.types.first().expect("no type parsed").ty;
    assert_cpp(&["a", "b", "Name"], direct_ty);
    assert_eq!(direct_ty, via_mod_ty);
}

#[test]
fn alias_can_target_a_cpp_path() {
    // Unlike a method's `use` path or a trait bound, a `use ... as` alias
    // target can legitimately be a `c++::` path -- referencing the alias
    // elsewhere should resolve to exactly that `c++::` path.
    let parsed = parse_str(
        r#"
use c++::a::Foo as MyFoo;

type MyFoo {
    #layout(size = 16, align = 8);
    #cpp_heap_allocated "::x";
}
    "#,
        no_cfg(),
    );
    let ty = parsed.spec.types.first().expect("no type parsed");
    assert_cpp(&["a", "Foo"], &ty.ty);
}

#[test]
fn cpp_path_rejected_in_method_use_path() {
    check_fail(
        r#"
type crate::Foo {
    #layout(size = 1, align = 1);
    fn bar(self) -> usize use c++::a::Bar;
}
    "#,
        r#"
            Error: `c++::` paths cannot be used in a method's `use` path
               ╭─[test.zng:4:42]
               │
             4 │     fn bar(self) -> usize use c++::a::Bar;
               │                                          ┬  
               │                                          ╰── `c++::` paths cannot be used in a method's `use` path
            ───╯
        "#,
    );
}

#[test]
fn cpp_path_rejected_as_trait() {
    check_fail(
        r#"
extern "C++" {
    impl c++::Foo for crate::X {
    }
}
    "#,
        r#"
            Error: `c++::` paths cannot be used as a trait
               ╭─[test.zng:3:19]
               │
             3 │     impl c++::Foo for crate::X {
               │                   ─┬─  
               │                    ╰─── `c++::` paths cannot be used as a trait
            ───╯
        "#,
    );
}

#[test]
#[should_panic(expected = "a c++::-only path was used somewhere that can't support it")]
fn cpp_path_via_alias_indirection_as_trait_is_a_known_ice() {
    // The check of the text alone only catches an *explicit* `c++::` prefix in
    // trait position. An alias that itself targets a `c++::` path is found out
    // where it is resolved.
    let _ = parse_str(
        r#"
use c++::Foo as MyTrait;

extern "C++" {
    impl MyTrait for crate::X {
    }
}
    "#,
        no_cfg(),
    );
}

#[test]
fn cpp_path_allowed_as_impl_target() {
    check_success(
        r#"
extern "C++" {
    impl c++::Foo {
    }
}
    "#,
    );
}

#[test]
fn cpp_path_allowed_as_impl_for_trait_target() {
    check_success(
        r#"
extern "C++" {
    impl crate::SomeTrait for c++::Foo {
    }
}
    "#,
    );
}

#[test]
fn cpp_path_lexer_tolerates_whitespace_between_tokens() {
    // `c++` is lexed as a single, indivisible token (like `->` or `::`), so
    // whitespace *inside* it (`c ++`) does not lex as `Token::CppPathStart` --
    // it falls back to `Ident("c")` + `Plus` + `Plus`, same as any other
    // unrecognized punctuation sequence would. But, like every other token in
    // this grammar (e.g. `crate ::`), ordinary whitespace *between* the
    // `c++` token and the following `::`/segments is fine.
    let normal = parse_str(
        r#"
type c++::Name {
    #layout(size = 16, align = 8);
    #cpp_heap_allocated "::x";
}
    "#,
        no_cfg(),
    );
    let spaced = parse_str(
        r#"
type c++ :: Name {
    #layout(size = 16, align = 8);
    #cpp_heap_allocated "::x";
}
    "#,
        no_cfg(),
    );
    let normal_ty = &normal.spec.types.first().expect("no type parsed").ty;
    let spaced_ty = &spaced.spec.types.first().expect("no type parsed").ty;
    assert_cpp(&["Name"], normal_ty);
    assert_eq!(normal_ty, spaced_ty);
}

#[test]
fn cpp_path_with_space_inside_token_is_a_clean_syntax_error_not_a_panic() {
    // `c ++ :: Name` (space between `c` and `++`) does NOT lex as the `c++`
    // path-start token -- it lexes as `Ident("c")` followed by `Plus`, `Plus`,
    // which is a plain syntax error (not a panic).
    check_fail(
        r#"
type c ++ :: Name {
    #layout(size = 16, align = 8);
}
    "#,
        r#"
            Error: found '+' expected '::', '<', or '{'
               ╭─[test.zng:2:8]
               │
             2 │ type c ++ :: Name {
               │        ┬  
               │        ╰── found '+' expected '::', '<', or '{'
            ───╯
        "#,
    );
}

#[test]
fn ordinary_path_starting_with_c_is_unaffected() {
    let parsed = parse_str(
        r#"
type crate::config::Foo {
    #layout(size = 1, align = 1);
}
    "#,
        no_cfg(),
    );
    let ty = parsed.spec.types.first().expect("no type parsed");
    assert_ty_path(&["crate", "config", "Foo"], &ty.ty);
}

#[test]
fn cpp_mod_rejected_when_nested_inside_another_module() {
    check_fail(
        r#"
mod crate::foo {
    mod c++::a::b {
        type Name {
            #layout(size = 16, align = 8);
        }
    }
}
    "#,
        r#"
            Error: `c++::` modules can only appear at the top level of a file, not nested inside another module
               ╭─[test.zng:3:9]
               │
             3 │     mod c++::a::b {
               │         ────┬────  
               │             ╰────── `c++::` modules can only appear at the top level of a file, not nested inside another module
            ───╯
        "#,
    );
}

#[test]
fn free_fn_rejected_inside_cpp_scope() {
    // There's no real Rust function living in the generated c++::-only
    // module tree, so a top-level `fn` declaration inside `mod c++::a {
    // ... }` must be rejected rather than silently misinterpreting the
    // c++::-only path as if it were a real, absolute Rust path.
    check_fail(
        r#"
mod c++::a {
    fn foo(i32) -> bool;
}
    "#,
        r#"
            Error: a free function cannot be declared inside a c++:: scope
               ╭─[test.zng:3:5]
               │
             3 │     fn foo(i32) -> bool;
               │     ─────────┬─────────  
               │              ╰─────────── a free function cannot be declared inside a c++:: scope
            ───╯
        "#,
    );
}

#[test]
fn crate_mod_rejected_when_nested_inside_another_module() {
    check_fail(
        r#"
mod crate::foo {
    mod crate::bar {
        type Name {
            #layout(size = 16, align = 8);
        }
    }
}
    "#,
        r#"
            Error: `crate::` modules can only appear at the top level of a file, not nested inside another module
               ╭─[test.zng:3:9]
               │
             3 │     mod crate::bar {
               │         ─────┬────  
               │              ╰────── `crate::` modules can only appear at the top level of a file, not nested inside another module
            ───╯
        "#,
    );
}

#[test]
fn absolute_mod_rejected_when_nested_inside_another_module() {
    check_fail(
        r#"
mod crate::foo {
    mod ::std::bar {
        type Name {
            #layout(size = 16, align = 8);
        }
    }
}
    "#,
        r#"
            Error: `::` modules can only appear at the top level of a file, not nested inside another module
               ╭─[test.zng:3:9]
               │
             3 │     mod ::std::bar {
               │         ─────┬────  
               │              ╰────── `::` modules can only appear at the top level of a file, not nested inside another module
            ───╯
        "#,
    );
}

#[test]
fn relative_mod_nested_in_cpp_mod_extends_the_cpp_prefix() {
    // `mod c++::a { mod b { type Name { ... } } }` is `c++::a::b::Name` --
    // a plain relative `mod` nested inside a `c++::` scope composes onto the
    // same `c++::` prefix rather than starting a fresh Rust module path.
    let parsed = parse_str(
        r#"
mod c++::a {
    mod b {
        type Name {
            #layout(size = 16, align = 8);
            #cpp_heap_allocated "::x";
        }
    }
}
    "#,
        no_cfg(),
    );
    let ty = parsed.spec.types.first().expect("no type parsed");
    assert_cpp(&["a", "b", "Name"], &ty.ty);
}

#[test]
fn aliased_type_referenced_inside_cpp_mod_still_resolves_via_the_alias() {
    // A bare relative name that matches an alias must still expand via that
    // alias, even when referenced from inside a `c++::` scope -- it must
    // NOT get the `c++::` prefix composed onto it instead.
    let parsed = parse_str(
        r#"
use ::std::string::String as MyString;

mod c++::a {
    type Name {
        #layout(size = 16, align = 8);
        #cpp_heap_allocated "::x";
        field s (offset = auto, type = MyString);
    }
}
    "#,
        no_cfg(),
    );
    let ty = parsed.spec.types.first().expect("no type parsed");
    // The type's own declaration still composes onto the c++:: prefix:
    assert_cpp(&["a", "Name"], &ty.ty);
    // But the aliased field type resolves as the real Rust path, not
    // `Cpp(["a", "s"])`:
    let field = ty.fields.first().expect("no field parsed");
    assert_ty_path(&["std", "string", "String"], &field.ty);
}

#[test]
fn scope_reference_to_cpp_target_from_top_level_cpp_base_is_bare() {
    // At the root of the c++::-only tree (an empty `Cpp` base), there's
    // nothing to climb out of, so the reference is just the target's own
    // segments.
    let scope = scope_with_base(EntityPath::Cpp(Vec::new()));
    assert_eq!(
        scope.reference_to(&EntityPath::cpp(segments(&["foo", "Bar"]))),
        Some("foo::Bar".to_owned()),
    );
}

#[test]
fn scope_reference_to_rust_target_is_always_reachable_regardless_of_base() {
    // A `Rust` target is crate- or globally-qualified, so it's reachable the
    // same way no matter what the referencing scope's own base is -- even
    // from a `Cpp` base.
    let scope = scope_with_base(EntityPath::cpp(segments(&["a", "b"])));
    assert_eq!(
        scope.reference_to(&EntityPath::crate_relative(segments(&["foo", "Bar"]))),
        Some("crate::foo::Bar".to_owned()),
    );
    assert_eq!(
        scope.reference_to(&EntityPath::rust(segments(&["foo", "Bar"]))),
        Some("::foo::Bar".to_owned()),
    );
}

#[test]
fn scope_reference_to_cpp_target_from_rust_base_is_impossible() {
    // We don't know which module the c++::-only tree will itself be
    // generated into relative to an arbitrary Rust path, so there's no way
    // to reference it from a `Rust` base.
    let scope = scope_with_base(EntityPath::Rust(Vec::new()));
    assert_eq!(scope.reference_to(&EntityPath::cpp(segments(&["a", "Foo"]))), None);
}

#[test]
fn scope_reference_to_cpp_target_from_cpp_base_uses_super_as_needed() {
    let scope = scope_with_base(EntityPath::cpp(segments(&["a", "b"])));
    // Different branch entirely: climb out twice, then descend.
    assert_eq!(
        scope.reference_to(&EntityPath::cpp(segments(&["x", "y"]))),
        Some("super::super::x::y".to_owned()),
    );
    // Sibling module under the shared parent `a`: climb out once.
    assert_eq!(
        scope.reference_to(&EntityPath::cpp(segments(&["a", "c"]))),
        Some("super::c".to_owned()),
    );
    // Child of the current base: no climbing needed at all.
    assert_eq!(
        scope.reference_to(&EntityPath::cpp(segments(&["a", "b", "Name"]))),
        Some("Name".to_owned()),
    );
}
