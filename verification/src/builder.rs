//! The choices behind a run of the generator, and what follows from them.

use crate::cfg::{
    cfg_set, empty_cfg, env_cfg, settings_view, CfgModel, InMemoryRustCfgProvider, Settings,
};
use crate::def::{cfg_view, opt_text, opt_text_copy, SpecModel, ZngurSpec};
use crate::header::ZngHeaderTemplate;
use crate::text::{
    chars_of, dec_text, decimal, join, join_text, split, split_text, strings_copy, text_of, texts,
};
use crate::holding::{
    holds, lemma_holds_both, lemma_holds_inside, lemma_holds_itself, lemma_join_in_order,
};
use vstd::prelude::*;

verus! {

broadcast use vstd::std_specs::vec::group_vec_axioms;

/// A run of the generator: the file to read, the files to write, and how.
pub struct Zngur {
    pub zng_file: String,
    pub h_file_path: Option<String>,
    pub cpp_file_path: Option<String>,
    pub rs_file_path: Option<String>,
    pub depfile_path: Option<String>,
    pub mangling_base: Option<String>,
    pub cpp_namespace: Option<String>,
    pub rust_cfg: Option<InMemoryRustCfgProvider>,
    pub zng_header_in_place: bool,
    pub zng_h_file_path: Option<String>,
    pub crate_name: Option<String>,
}

/// The configuration that the first `n` settings make.
pub open spec fn cfg_of_settings(v: Settings, n: nat) -> CfgModel
    decreases n,
{
    if n == 0 || n > v.len() {
        empty_cfg()
    } else {
        cfg_set(cfg_of_settings(v, (n - 1) as nat), v[n - 1].0, v[n - 1].1)
    }
}

/// `s` where there is more than nothing to count.
pub open spec fn plural(n: nat) -> Seq<char> {
    if n > 0 {
        "s"@
    } else {
        ""@
    }
}

/// What is said of a file that could not be read.
pub open spec fn parse_failure_text(file: Seq<char>, errors: nat, warnings: nat) -> Seq<char> {
    "could not parse `"@ + file + "` due to "@ + dec_text(errors) + " reported error"@ + plural(
        errors,
    ) + "; "@ + dec_text(warnings) + " warning"@ + plural(warnings) + " emitted"@
}

/// An interface with the name of its header, and the namespace and the mangling
/// base that were chosen for it. The namespace is also the mangling base, unless
/// one was chosen.
pub open spec fn configured(
    spec: SpecModel,
    header_name: Seq<char>,
    namespace: Option<Seq<char>>,
    base: Option<Seq<char>>,
) -> SpecModel {
    let chosen = match namespace {
        Some(n) => Some(n),
        None => spec.cpp_namespace,
    };
    SpecModel {
        cpp_include_header_name: header_name,
        cpp_namespace: chosen,
        mangling_base: match base {
            Some(b) => b,
            None => match chosen {
                Some(n) => n,
                None => spec.mangling_base,
            },
        },
        ..spec
    }
}

/// What a build system reads: the files that were written, and the files that
/// they were made of.
pub open spec fn depfile_text(targets: Seq<Seq<char>>, deps: Seq<Seq<char>>) -> Seq<char> {
    join_text(targets, " "@) + ": "@ + join_text(deps, " "@) + "\n"@
}

/// The files that are written, but for the dependency file.
pub open spec fn written_files(
    h: Seq<char>,
    rs: Seq<char>,
    cpp: Option<Seq<char>>,
    has_source: bool,
) -> Seq<Seq<char>> {
    match cpp {
        Some(c) => if has_source {
            seq![h, rs, c]
        } else {
            seq![h, rs]
        },
        None => seq![h, rs],
    }
}

/// A line without a carriage return at its end.
pub open spec fn without_return(line: Seq<char>) -> Seq<char> {
    if line.len() > 0 && line.last() == '\r' {
        line.drop_last()
    } else {
        line
    }
}

/// The lines of a text; there is none behind the last line break.
pub open spec fn lines_of(text: Seq<char>) -> Seq<Seq<char>> {
    let v = split_text(text, "\n"@);
    let w = if v.last().len() == 0 {
        v.drop_last()
    } else {
        v
    };
    Seq::new(
        w.len(),
        |i: int|
            if i + 1 < v.len() {
                without_return(w[i])
            } else {
                w[i]
            },
    )
}

/// A warning as Cargo reads it from a build script, line by line.
pub open spec fn cargo_lines(text: Seq<char>) -> Seq<Seq<char>> {
    Seq::new(lines_of(text).len(), |i: int| "cargo:warning="@ + lines_of(text)[i])
}

/// A chosen mangling base is the mangling base, whatever the namespace.
pub proof fn law_chosen_base_counts(
    spec: SpecModel,
    header_name: Seq<char>,
    namespace: Option<Seq<char>>,
    base: Seq<char>,
)
    ensures
        configured(spec, header_name, namespace, Some(base)).mangling_base == base,
{
}

/// A chosen namespace is the namespace and, unless one was chosen, the mangling
/// base.
pub proof fn law_chosen_namespace_counts(
    spec: SpecModel,
    header_name: Seq<char>,
    namespace: Seq<char>,
)
    ensures
        configured(spec, header_name, Some(namespace), None).cpp_namespace == Some(namespace),
        configured(spec, header_name, Some(namespace), None).mangling_base == namespace,
{
}

/// What is declared does not depend on the choices.
pub proof fn law_choices_keep_declarations(
    spec: SpecModel,
    header_name: Seq<char>,
    namespace: Option<Seq<char>>,
    base: Option<Seq<char>>,
)
    ensures
        ({
            let c = configured(spec, header_name, namespace, base);
            c.types == spec.types && c.traits == spec.traits && c.funcs == spec.funcs
                && c.extern_cpp_funcs == spec.extern_cpp_funcs && c.extern_cpp_impls
                == spec.extern_cpp_impls && c.imported_modules == spec.imported_modules
                && c.rust_cfg == spec.rust_cfg
        }),
{
}

/// The C++ source is written exactly where it has a place and there is something
/// in it; the header and the Rust file always are, and each file once.
pub proof fn law_source_is_written_where_needed(
    h: Seq<char>,
    rs: Seq<char>,
    cpp: Option<Seq<char>>,
    has_source: bool,
)
    ensures
        ({
            let v = written_files(h, rs, cpp, has_source);
            &&& v[0] == h && v[1] == rs
            &&& (v.len() == 3 <==> cpp is Some && has_source)
            &&& (v.len() == 2 <==> !(cpp is Some && has_source))
            &&& (v.len() == 3 ==> cpp == Some(v[2]))
        }),
{
}

/// The dependency file names each written file, in their order, and then each file
/// that they were made of.
pub proof fn law_dependencies_are_named(targets: Seq<Seq<char>>, deps: Seq<Seq<char>>)
    ensures
        holds(depfile_text(targets, deps), targets + seq![": "@] + deps),
{
    lemma_join_in_order(targets, " "@);
    lemma_join_in_order(deps, " "@);
    lemma_holds_itself(": "@);
    let a = join_text(targets, " "@);
    let b = join_text(deps, " "@);
    lemma_holds_both(a, targets, ": "@, seq![": "@]);
    lemma_holds_both(a + ": "@, targets + seq![": "@], b, deps);
    let text = a + ": "@ + b;
    assert(depfile_text(targets, deps) =~= Seq::<char>::empty() + text + "\n"@);
    lemma_holds_inside(
        depfile_text(targets, deps),
        Seq::empty(),
        text,
        "\n"@,
        targets + seq![": "@] + deps,
    );
}

/// Each line that Cargo reads is a warning, and there are as many as the text has
/// lines.
pub proof fn law_every_line_is_a_warning(text: Seq<char>, i: int)
    requires
        0 <= i < cargo_lines(text).len(),
    ensures
        cargo_lines(text).len() == lines_of(text).len(),
        cargo_lines(text)[i] == "cargo:warning="@ + lines_of(text)[i],
{
}

impl Zngur {
    /// A run on a file, with nothing chosen.
    pub fn from_zng_file(zng_file_path: String) -> (r: Zngur)
        ensures
            r == (Zngur {
                zng_file: zng_file_path,
                h_file_path: None,
                cpp_file_path: None,
                rs_file_path: None,
                depfile_path: None,
                mangling_base: None,
                cpp_namespace: None,
                rust_cfg: None,
                zng_header_in_place: false,
                zng_h_file_path: None,
                crate_name: None,
            }),
    {
        Zngur {
            zng_file: zng_file_path,
            h_file_path: None,
            cpp_file_path: None,
            rs_file_path: None,
            depfile_path: None,
            mangling_base: None,
            cpp_namespace: None,
            rust_cfg: None,
            zng_header_in_place: false,
            zng_h_file_path: None,
            crate_name: None,
        }
    }

    /// The header that all interfaces share goes to a file.
    pub fn with_zng_header(self, zng_header: String) -> (r: Zngur)
        ensures
            r == (Zngur { zng_h_file_path: Some(zng_header), ..self }),
    {
        Zngur { zng_h_file_path: Some(zng_header), ..self }
    }

    /// The header goes to a file.
    pub fn with_h_file(self, path: String) -> (r: Zngur)
        ensures
            r == (Zngur { h_file_path: Some(path), ..self }),
    {
        Zngur { h_file_path: Some(path), ..self }
    }

    /// The C++ source goes to a file.
    pub fn with_cpp_file(self, path: String) -> (r: Zngur)
        ensures
            r == (Zngur { cpp_file_path: Some(path), ..self }),
    {
        Zngur { cpp_file_path: Some(path), ..self }
    }

    /// The Rust half goes to a file.
    pub fn with_rs_file(self, path: String) -> (r: Zngur)
        ensures
            r == (Zngur { rs_file_path: Some(path), ..self }),
    {
        Zngur { rs_file_path: Some(path), ..self }
    }

    /// The names of the files that were read go to a file.
    pub fn with_depfile(self, path: String) -> (r: Zngur)
        ensures
            r == (Zngur { depfile_path: Some(path), ..self }),
    {
        Zngur { depfile_path: Some(path), ..self }
    }

    /// Link names are told from those of others by a text.
    pub fn with_mangling_base(self, mangling_base: &str) -> (r: Zngur)
        ensures
            r == (Zngur { mangling_base: r.mangling_base, ..self }),
            opt_text(r.mangling_base) == Some(mangling_base@),
    {
        Zngur { mangling_base: Some(String::from_str(mangling_base)), ..self }
    }

    /// The C++ half stands in a namespace.
    pub fn with_cpp_namespace(self, cpp_namespace: &str) -> (r: Zngur)
        ensures
            r == (Zngur { cpp_namespace: r.cpp_namespace, ..self }),
            opt_text(r.cpp_namespace) == Some(cpp_namespace@),
    {
        Zngur { cpp_namespace: Some(String::from_str(cpp_namespace)), ..self }
    }

    /// `crate` is known to C++ by a name.
    pub fn with_crate_name(self, crate_name: &str) -> (r: Zngur)
        ensures
            r == (Zngur { crate_name: r.crate_name, ..self }),
            opt_text(r.crate_name) == Some(crate_name@),
    {
        Zngur { crate_name: Some(String::from_str(crate_name)), ..self }
    }

    /// The configuration is that of the environment of a build script.
    pub fn with_rust_cargo_cfg(self, env: &Vec<(String, Option<String>)>) -> (r: Zngur)
        ensures
            r == (Zngur { rust_cfg: r.rust_cfg, ..self }),
            r.rust_cfg matches Some(c) && c@ == env_cfg(empty_cfg(), cfg_view(env@), env@.len()),
    {
        Zngur { rust_cfg: Some(InMemoryRustCfgProvider::new().load_from_cargo_env(env)), ..self }
    }

    /// The configuration is a list of keys and values.
    pub fn with_rust_in_memory_cfg(self, cfg_values: &Vec<(String, Vec<String>)>) -> (r: Zngur)
        ensures
            r == (Zngur { rust_cfg: r.rust_cfg, ..self }),
            r.rust_cfg matches Some(c) && c@ == cfg_of_settings(
                settings_view(cfg_values@),
                cfg_values@.len(),
            ),
    {
        let mut cfg = InMemoryRustCfgProvider::new();
        let ghost all = settings_view(cfg_values@);
        let mut i: usize = 0;
        while i < cfg_values.len()
            invariant
                i <= cfg_values.len(),
                all == settings_view(cfg_values@),
                cfg@ == cfg_of_settings(all, i as nat),
            decreases cfg_values.len() - i,
        {
            proof {
                assert(all[i as int] == (cfg_values@[i as int].0@, texts(cfg_values@[i as int].1@)));
            }
            cfg = cfg.with_value(cfg_values[i].0.as_str(), strings_copy(&cfg_values[i].1));
            i += 1;
        }
        Zngur { rust_cfg: Some(cfg), ..self }
    }

    /// Whether the header holds the one that all interfaces share.
    pub fn with_zng_header_in_place_as(self, value: bool) -> (r: Zngur)
        ensures
            r == (Zngur { zng_header_in_place: value, ..self }),
    {
        Zngur { zng_header_in_place: value, ..self }
    }

    /// The header holds the one that all interfaces share.
    pub fn with_zng_header_in_place(self) -> (r: Zngur)
        ensures
            r == (Zngur { zng_header_in_place: true, ..self }),
    {
        self.with_zng_header_in_place_as(true)
    }

    /// What is said where there were errors.
    pub fn parse_failure(&self, errors: usize, warnings: usize) -> (r: Result<(), String>)
        ensures
            match r {
                Ok(_) => errors == 0,
                Err(m) => errors > 0 && m@ == parse_failure_text(
                    self.zng_file@,
                    errors as nat,
                    warnings as nat,
                ),
            },
    {
        if errors == 0 {
            return Ok(());
        }
        let mut m = String::from_str("could not parse `");
        m.append(self.zng_file.as_str());
        m.append("` due to ");
        m.append(decimal(errors).as_str());
        m.append(" reported error");
        m.append(
            if errors > 0 {
                "s"
            } else {
                ""
            },
        );
        m.append("; ");
        m.append(decimal(warnings).as_str());
        m.append(" warning");
        m.append(
            if warnings > 0 {
                "s"
            } else {
                ""
            },
        );
        m.append(" emitted");
        Err(m)
    }

    /// The name of the crate: the chosen one, that of the environment, or `crate`.
    pub fn crate_name_or(&self, env: &Option<String>) -> (r: String)
        ensures
            r@ == (match (opt_text(self.crate_name), opt_text(*env)) {
                (Some(c), _) => c,
                (None, Some(e)) => e,
                (None, None) => "crate"@,
            }),
    {
        match &self.crate_name {
            Some(c) => c.clone(),
            None => match env {
                Some(e) => e.clone(),
                None => String::from_str("crate"),
            },
        }
    }

    /// The paths of the Rust half and of the header.
    pub fn required_paths(&self) -> (r: Result<(String, String), String>)
        ensures
            match (opt_text(self.rs_file_path), opt_text(self.h_file_path)) {
                (Some(rs), Some(h)) => r matches Ok(p) && p.0@ == rs && p.1@ == h,
                (None, _) => r matches Err(m) && m@ == "No rs file path provided"@,
                (Some(_), None) => r matches Err(m) && m@ == "No h file path provided"@,
            },
    {
        match (&self.rs_file_path, &self.h_file_path) {
            (Some(rs), Some(h)) => Ok((rs.clone(), h.clone())),
            (None, _) => Err(String::from_str("No rs file path provided")),
            (Some(_), None) => Err(String::from_str("No h file path provided")),
        }
    }

    /// The path of the C++ source, where there is one to write.
    pub fn source_path(&self, has_source: bool) -> (r: Result<Option<String>, String>)
        ensures
            match opt_text(self.cpp_file_path) {
                Some(c) => r matches Ok(p) && opt_text(p) == (if has_source {
                    Some(c)
                } else {
                    None
                }),
                None => if has_source {
                    r matches Err(m) && m@ == "No cpp file path provided"@
                } else {
                    r matches Ok(p) && p is None
                },
            },
    {
        if !has_source {
            return Ok(None);
        }
        match &self.cpp_file_path {
            Some(c) => Ok(Some(c.clone())),
            None => Err(String::from_str("No cpp file path provided")),
        }
    }

    /// An interface with what was chosen for it.
    pub fn configure(&self, spec: ZngurSpec, header_name: String) -> (r: ZngurSpec)
        ensures
            r@ == configured(
                spec@,
                header_name@,
                opt_text(self.cpp_namespace),
                opt_text(self.mangling_base),
            ),
    {
        let cpp_namespace = match &self.cpp_namespace {
            Some(n) => Some(n.clone()),
            None => opt_text_copy(&spec.cpp_namespace),
        };
        let mangling_base = match &self.mangling_base {
            Some(b) => b.clone(),
            None => match &cpp_namespace {
                Some(n) => n.clone(),
                None => spec.mangling_base.clone(),
            },
        };
        ZngurSpec { cpp_include_header_name: header_name, cpp_namespace, mangling_base, ..spec }
    }

    /// The text of the dependency file.
    pub fn depfile(&self, rs: &str, h: &str, has_source: bool, deps: &Vec<String>) -> (r: String)
        ensures
            r@ == depfile_text(
                written_files(h@, rs@, opt_text(self.cpp_file_path), has_source),
                texts(deps@),
            ),
    {
        let mut targets: Vec<String> = Vec::new();
        targets.push(String::from_str(h));
        targets.push(String::from_str(rs));
        match &self.cpp_file_path {
            Some(c) => {
                if has_source {
                    targets.push(c.clone());
                }
            },
            None => {},
        }
        proof {
            assert(texts(targets@) =~= written_files(
                h@,
                rs@,
                opt_text(self.cpp_file_path),
                has_source,
            ));
        }
        let mut r = join(&targets, " ");
        r.append(": ");
        r.append(join(deps, " ").as_str());
        r.append("\n");
        r
    }

    /// The header that all interfaces share, where it goes to a file.
    pub fn shared_header(&self, panic_to_exception: bool) -> (r: Option<ZngurHdr>)
        ensures
            match opt_text(self.zng_h_file_path) {
                Some(p) => r matches Some(h) && h.panic_to_exception == panic_to_exception
                    && opt_text(h.zng_header_file) == Some(p) && opt_text(h.cpp_namespace)
                    == opt_text(self.cpp_namespace),
                None => r is None,
            },
    {
        match &self.zng_h_file_path {
            Some(p) => {
                let hdr = ZngurHdr::new().with_panic_to_exception_as(
                    panic_to_exception,
                ).with_zng_header(p.clone());
                match &self.cpp_namespace {
                    Some(n) => Some(hdr.with_cpp_namespace(n.as_str())),
                    None => Some(hdr),
                }
            },
            None => None,
        }
    }
}

/// To whom a report goes.
#[derive(Clone, Copy, Debug, PartialEq, Eq, Structural)]
pub enum ReportRoute {
    /// To the function that was chosen for all reports.
    ReportSink,
    /// To the standard error stream.
    Stderr,
    /// As text, to the function that was chosen for warnings.
    WarningSink,
    /// To Cargo, as a build script tells it.
    Cargo,
}

/// To whom a report goes, given whether a function was chosen for all reports,
/// and whether one was for warnings.
pub fn report_route(fatal: bool, report_sink: bool, warning_sink: bool) -> (r: ReportRoute)
    ensures
        r == (if report_sink {
            ReportRoute::ReportSink
        } else if fatal {
            ReportRoute::Stderr
        } else if warning_sink {
            ReportRoute::WarningSink
        } else {
            ReportRoute::Cargo
        }),
{
    if report_sink {
        ReportRoute::ReportSink
    } else if fatal {
        ReportRoute::Stderr
    } else if warning_sink {
        ReportRoute::WarningSink
    } else {
        ReportRoute::Cargo
    }
}

/// A warning as Cargo reads it from a build script, line by line.
pub fn cargo_warnings(text: &str) -> (r: Vec<String>)
    ensures
        texts(r@) == cargo_lines(text@),
{
    proof {
        reveal_strlit("\n");
    }
    let parts = split(text, "\n");
    let ghost v = texts(parts@);
    let mut r: Vec<String> = Vec::new();
    let last_empty = parts[parts.len() - 1].as_str().is_empty();
    let count: usize = if last_empty {
        parts.len() - 1
    } else {
        parts.len()
    };
    let mut i: usize = 0;
    proof {
        assert(v.last() == parts@.last()@);
    }
    while i < count
        invariant
            i <= count,
            v == texts(parts@),
            v == split_text(text@, "\n"@),
            v.len() == parts@.len(),
            count == (if v.last().len() == 0 {
                v.len() - 1
            } else {
                v.len() as int
            }),
            lines_of(text@).len() == count,
            r.len() == i,
            forall|k: int| 0 <= k < i ==> (#[trigger] r@[k])@ == cargo_lines(text@)[k],
        decreases count - i,
    {
        proof {
            assert(v[i as int] == parts@[i as int]@);
        }
        let chars = chars_of(parts[i].as_str());
        let end: usize = if i + 1 < parts.len() && chars.len() > 0 && chars[chars.len() - 1]
            == '\r' {
            chars.len() - 1
        } else {
            chars.len()
        };
        let line = text_of(&chars, 0, end);
        proof {
            assert(line@ =~= lines_of(text@)[i as int]);
        }
        let mut s = String::from_str("cargo:warning=");
        s.append(line.as_str());
        r.push(s);
        i += 1;
    }
    proof {
        assert(texts(r@) =~= cargo_lines(text@));
    }
    r
}

/// A run that writes the header that all interfaces share.
#[derive(Debug)]
pub struct ZngurHdr {
    pub panic_to_exception: bool,
    pub zng_header_file: Option<String>,
    pub cpp_namespace: Option<String>,
}

impl ZngurHdr {
    /// A run with nothing chosen.
    pub fn new() -> (r: ZngurHdr)
        ensures
            r == (ZngurHdr {
                panic_to_exception: false,
                zng_header_file: None,
                cpp_namespace: None,
            }),
    {
        ZngurHdr { panic_to_exception: false, zng_header_file: None, cpp_namespace: None }
    }

    /// Panics become exceptions.
    pub fn with_panic_to_exception(self) -> (r: ZngurHdr)
        ensures
            r == (ZngurHdr { panic_to_exception: true, ..self }),
    {
        self.with_panic_to_exception_as(true)
    }

    /// Panics stay panics.
    pub fn without_panic_to_exception(self) -> (r: ZngurHdr)
        ensures
            r == (ZngurHdr { panic_to_exception: false, ..self }),
    {
        self.with_panic_to_exception_as(false)
    }

    /// Whether panics become exceptions.
    pub fn with_panic_to_exception_as(self, panic_to_exception: bool) -> (r: ZngurHdr)
        ensures
            r == (ZngurHdr { panic_to_exception, ..self }),
    {
        ZngurHdr { panic_to_exception, ..self }
    }

    /// The header goes to a file.
    pub fn with_zng_header(self, zng_header: String) -> (r: ZngurHdr)
        ensures
            r == (ZngurHdr { zng_header_file: Some(zng_header), ..self }),
    {
        ZngurHdr { zng_header_file: Some(zng_header), ..self }
    }

    /// The header stands in a namespace.
    pub fn with_cpp_namespace(self, cpp_namespace: &str) -> (r: ZngurHdr)
        ensures
            r == (ZngurHdr { cpp_namespace: r.cpp_namespace, ..self }),
            opt_text(r.cpp_namespace) == Some(cpp_namespace@),
    {
        ZngurHdr { cpp_namespace: Some(String::from_str(cpp_namespace)), ..self }
    }

    /// What the header is laid out from, and the file that it goes to.
    pub fn prepare(&self) -> (r: Result<(ZngHeaderTemplate, String), String>)
        ensures
            match opt_text(self.zng_header_file) {
                Some(p) => r matches Ok(x) && x.0.panic_to_exception == self.panic_to_exception
                    && x.0.cpp_namespace@ == (match opt_text(self.cpp_namespace) {
                    Some(n) => n,
                    None => "rust"@,
                }) && x.1@ == p,
                None => r matches Err(m) && m@ == "Missing zng header output file"@,
            },
    {
        let cpp_namespace = match &self.cpp_namespace {
            Some(n) => n.clone(),
            None => String::from_str("rust"),
        };
        match &self.zng_header_file {
            Some(p) => Ok(
                (
                    ZngHeaderTemplate {
                        panic_to_exception: self.panic_to_exception,
                        cpp_namespace,
                    },
                    p.clone(),
                ),
            ),
            None => Err(String::from_str("Missing zng header output file")),
        }
    }
}

} // verus!
