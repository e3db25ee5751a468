//! C++ names and types, and what the C++ side of an interface holds.

use crate::def::{opt_text, opt_text_copy};
use crate::outside::unicode_whitespace;
use crate::text::{
    chars_of, join, join_text, lemma_split_joined, lemma_texts_push, parse_number, parse_uint,
    skip_blank, skip_blank_back, split, split_text, str_eq, strings_copy, text_of, texts, trim,
    trim_text,
};
use vstd::prelude::*;

verus! {

broadcast use vstd::std_specs::vec::group_vec_axioms;

/// A C++ name, segment by segment.
#[derive(Debug)]
pub struct CppPath(pub Vec<String>);

impl CppPath {
    pub open spec fn view(&self) -> Seq<Seq<char>> {
        texts(self.0@)
    }
}

/// A C++ type: a name, its template arguments, and a name inside it.
#[derive(Debug)]
pub struct CppType {
    pub path: CppPath,
    pub generic_args: Vec<CppType>,
    pub tail: Option<String>,
}

/// What a [`CppType`] holds.
#[verifier::ext_equal]
pub struct CppTypeModel {
    pub path: Seq<Seq<char>>,
    pub generic_args: Seq<CppTypeModel>,
    pub tail: Option<Seq<char>>,
}

/// What a list of C++ types holds.
pub open spec fn cpp_types_view(v: Seq<CppType>) -> Seq<CppTypeModel>
    decreases v,
{
    Seq::new(v.len(), |i: int| if 0 <= i < v.len() { v[i].view() } else { arbitrary() })
}

impl CppType {
    pub open spec fn view(&self) -> CppTypeModel
        decreases self,
    {
        CppTypeModel {
            path: self.path.view(),
            generic_args: cpp_types_view(self.generic_args@),
            tail: opt_text(self.tail),
        }
    }
}

/// A name that is no C++ keyword.
pub open spec fn handle_keyword(name: Seq<char>) -> Seq<char> {
    if name == "new"@ {
        "new_"@
    } else if name == "default"@ {
        "default_"@
    } else {
        name
    }
}

/// A field name that C++ accepts: numbers get a letter.
pub open spec fn handle_field_name(name: Seq<char>) -> Seq<char> {
    if parse_uint(name, u32::MAX as nat) is Some {
        "f"@ + name
    } else {
        handle_keyword(name)
    }
}

/// The segments of a name that is written with `::`.
pub open spec fn path_from(text: Seq<char>) -> Seq<Seq<char>> {
    split_text(trim_text(text), "::"@)
}

/// The C++ name of something of Rust: in the namespace, with `crate` by its name.
pub open spec fn rust_path(path: Seq<Seq<char>>, namespace: Seq<char>, crate_name: Seq<char>) -> Seq<
    Seq<char>,
> {
    seq![handle_keyword(namespace)] + Seq::new(
        path.len(),
        |i: int|
            handle_keyword(
                if path[i] == "crate"@ {
                    crate_name
                } else {
                    path[i]
                },
            ),
    )
}

/// `n` spaces.
pub open spec fn spaces(n: nat) -> Seq<char>
    decreases n,
{
    if n == 0 {
        Seq::empty()
    } else {
        spaces((n - 1) as nat) + " "@
    }
}

/// The lines that open the namespaces, each further in.
pub open spec fn opening_lines(ns: Seq<Seq<char>>) -> Seq<Seq<char>> {
    Seq::new(ns.len(), |i: int| spaces((i * 4) as nat) + "namespace "@ + ns[i] + " {"@)
}

/// The lines that close the namespaces.
pub open spec fn closing_lines(ns: Seq<Seq<char>>) -> Seq<Seq<char>> {
    Seq::new(ns.len(), |i: int| spaces((i * 4) as nat) + "} // namespace "@ + ns[i])
}

/// How a C++ name is written.
pub open spec fn path_text(path: Seq<Seq<char>>) -> Seq<char> {
    "::"@ + join_text(path, "::"@)
}

/// Whether something has to be declared before it is used: all that is in the
/// namespace `rust` but the unit type and the references.
pub open spec fn path_needs_header(path: Seq<Seq<char>>) -> bool {
    path.len() > 0 && path[0] == "rust"@ && path != seq!["rust"@, "Unit"@] && path != seq![
        "rust"@,
        "Ref"@,
    ] && path != seq!["rust"@, "RefMut"@]
}

/// How C++ types are written.
pub open spec fn cpp_texts(v: Seq<CppTypeModel>) -> Seq<Seq<char>>
    decreases v,
{
    Seq::new(v.len(), |i: int| if 0 <= i < v.len() { v[i].text() } else { arbitrary() })
}

/// Each name as an opened namespace, on a line of its own.
pub open spec fn open_lines(ns: Seq<Seq<char>>, n: nat) -> Seq<char>
    decreases n,
{
    if n == 0 || n > ns.len() {
        Seq::empty()
    } else {
        open_lines(ns, (n - 1) as nat) + "namespace "@ + ns[n - 1] + " {\n"@
    }
}

/// `n` closing braces, on a line each.
pub open spec fn close_lines(n: nat) -> Seq<char>
    decreases n,
{
    if n == 0 {
        Seq::empty()
    } else {
        close_lines((n - 1) as nat) + "}\n"@
    }
}

/// The declarations that the first `n` types need.
pub open spec fn headers(v: Seq<CppTypeModel>, n: nat) -> Seq<char>
    decreases v, n,
{
    if n == 0 || n > v.len() {
        Seq::empty()
    } else {
        headers(v, (n - 1) as nat) + v[n - 1].header()
    }
}

impl CppTypeModel {
    /// How the type is written.
    pub open spec fn text(&self) -> Seq<char>
        decreases self,
    {
        let t = path_text(self.path);
        let t = if self.generic_args.len() == 0 {
            t
        } else {
            t + "< "@ + join_text(cpp_texts(self.generic_args), ", "@) + " >"@
        };
        match self.tail {
            Some(x) => t + "::"@ + x,
            None => t,
        }
    }

    /// The head of the class that the type is.
    pub open spec fn specialization(&self) -> Seq<char> {
        if self.generic_args.len() == 0 {
            "struct "@ + self.path.last()
        } else {
            "template<> struct "@ + self.path.last() + "< "@ + join_text(
                cpp_texts(self.generic_args),
                ", "@,
            ) + " >"@
        }
    }

    /// The declarations that the type needs: those of its arguments, then its own.
    pub open spec fn header(&self) -> Seq<char>
        decreases self, 0nat,
    {
        let front = headers(self.generic_args, self.generic_args.len());
        if !path_needs_header(self.path) {
            front
        } else {
            let ns = self.path.drop_last();
            let opened = front + open_lines(ns, ns.len());
            let opened = if self.generic_args.len() == 0 {
                opened
            } else {
                opened + "template<typename ...T>\n"@
            };
            opened + "struct "@ + self.path.last() + ";\n"@ + close_lines(ns.len())
        }
    }
}

/// A shared reference to a type.
pub open spec fn ref_to(t: CppTypeModel) -> CppTypeModel {
    CppTypeModel { path: seq!["rust"@, "Ref"@], generic_args: seq![t], tail: None }
}

/// A type with a name and nothing else.
pub open spec fn plain_type(path: Seq<Seq<char>>) -> CppTypeModel {
    CppTypeModel { path, generic_args: Seq::empty(), tail: None }
}

/// The pieces of template arguments from the `i`-th character on, where `current`
/// was read since the last comma and `depth` brackets are open.
pub open spec fn split_args_from(
    s: Seq<char>,
    i: int,
    depth: int,
    current: Seq<char>,
    parts: Seq<Seq<char>>,
) -> Seq<Seq<char>>
    decreases s.len() - i,
{
    if i < 0 || i >= s.len() {
        if current.len() > 0 {
            parts.push(current)
        } else {
            parts
        }
    } else if s[i] == ',' && depth == 0 {
        split_args_from(s, i + 1, depth, Seq::empty(), parts.push(current))
    } else {
        split_args_from(
            s,
            i + 1,
            if s[i] == '<' {
                depth + 1
            } else if s[i] == '>' {
                depth - 1
            } else {
                depth
            },
            current.push(s[i]),
            parts,
        )
    }
}

/// Template arguments, cut at the commas that stand in no brackets.
pub open spec fn split_args(s: Seq<char>) -> Seq<Seq<char>> {
    split_args_from(s, 0, 0, Seq::empty(), Seq::empty())
}

/// The position of the first `<`.
pub open spec fn angle_at(s: Seq<char>, i: int) -> Option<int>
    decreases s.len() - i,
{
    if i < 0 || i >= s.len() {
        None
    } else if s[i] == '<' {
        Some(i)
    } else {
        angle_at(s, i + 1)
    }
}

/// Whether a text is that of a C++ type: a `<` is closed at the end, and so in
/// each argument.
pub open spec fn is_type_text(text: Seq<char>) -> bool
    decreases text.len(),
{
    let t = trim_text(text);
    match angle_at(t, 0) {
        None => true,
        Some(a) => t.last() == '>' && ({
            let args = split_args(t.subrange(a + 1, t.len() - 1));
            forall|i: int|
                0 <= i < args.len() ==> (#[trigger] args[i]).len() < text.len() && is_type_text(
                    args[i],
                )
        }),
    }
}

/// The C++ type that a text is.
pub open spec fn type_from(text: Seq<char>) -> CppTypeModel
    decreases text.len(),
{
    let t = trim_text(text);
    match angle_at(t, 0) {
        None => plain_type(path_from(t)),
        Some(a) => {
            let args = split_args(t.subrange(a + 1, t.len() - 1));
            CppTypeModel {
                path: path_from(t.subrange(0, a)),
                generic_args: Seq::new(
                    args.len(),
                    |i: int|
                        if 0 <= i < args.len() && args[i].len() < text.len() {
                            type_from(args[i])
                        } else {
                            arbitrary()
                        },
                ),
                tail: None,
            }
        },
    }
}

/// A name that is no C++ keyword.
pub fn cpp_handle_keyword(name: &str) -> (r: &str)
    ensures
        r@ == handle_keyword(name@),
{
    if str_eq(name, "new") {
        "new_"
    } else if str_eq(name, "default") {
        "default_"
    } else {
        name
    }
}

/// A field name that C++ accepts.
pub fn cpp_handle_field_name(name: &str) -> (r: String)
    ensures
        r@ == handle_field_name(name@),
{
    if parse_number(name, u32::MAX as usize).is_some() {
        let mut r = String::from_str("f");
        r.append(name);
        return r;
    }
    String::from_str(cpp_handle_keyword(name))
}

fn make_spaces(n: usize) -> (r: String)
    ensures
        r@ == spaces(n as nat),
{
    let mut r = String::new();
    let mut i: usize = 0;
    while i < n
        invariant
            i <= n,
            r@ == spaces(i as nat),
        decreases n - i,
    {
        r.append(" ");
        i += 1;
    }
    r
}

proof fn lemma_spaces_add(a: nat, b: nat)
    ensures
        spaces(a) + spaces(b) == spaces(a + b),
    decreases b,
{
    if b == 0 {
        assert(spaces(a) + spaces(0) =~= spaces(a));
    } else {
        lemma_spaces_add(a, (b - 1) as nat);
        assert(spaces(a) + spaces(b) =~= spaces(a) + spaces((b - 1) as nat) + " "@);
    }
}

impl CppPath {
    /// The namespaces that the name stands in.
    pub fn namespace(&self) -> (r: Vec<String>)
        requires
            self@.len() > 0,
        ensures
            texts(r@) == self@.drop_last(),
            r@.len() == self@.len() - 1,
    {
        let mut r = strings_copy(&self.0);
        let ghost all = r@;
        let _ = r.pop();
        proof {
            assert(texts(r@) =~= texts(all).drop_last());
        }
        r
    }

    /// The name itself.
    pub fn name(&self) -> (r: &str)
        requires
            self@.len() > 0,
        ensures
            r@ == self@.last(),
    {
        self.0[self.0.len() - 1].as_str()
    }

    /// The lines that open the namespaces.
    pub fn open_namespace(&self) -> (r: String)
        requires
            self@.len() > 0,
        ensures
            r@ == join_text(opening_lines(self@.drop_last()), "\n"@),
    {
        let ns = self.namespace();
        let mut lines: Vec<String> = Vec::new();
        let mut indent = String::new();
        let mut i: usize = 0;
        while i < ns.len()
            invariant
                i <= ns.len(),
                lines.len() == i,
                indent@ == spaces((i * 4) as nat),
                forall|k: int|
                    0 <= k < i ==> (#[trigger] lines@[k])@ == opening_lines(texts(ns@))[k],
            decreases ns.len() - i,
        {
            let mut s = indent.clone();
            s.append("namespace ");
            s.append(ns[i].as_str());
            s.append(" {");
            lines.push(s);
            proof {
                lemma_spaces_add((i * 4) as nat, 4);
            }
            indent.append(make_spaces(4).as_str());
            i += 1;
        }
        proof {
            assert(texts(lines@) =~= opening_lines(texts(ns@)));
        }
        join(&lines, "\n")
    }

    /// The lines that close the namespaces.
    pub fn close_namespace(&self) -> (r: String)
        requires
            self@.len() > 0,
        ensures
            r@ == join_text(closing_lines(self@.drop_last()), "\n"@),
    {
        let ns = self.namespace();
        let mut lines: Vec<String> = Vec::new();
        let mut indent = String::new();
        let mut i: usize = 0;
        while i < ns.len()
            invariant
                i <= ns.len(),
                lines.len() == i,
                indent@ == spaces((i * 4) as nat),
                forall|k: int|
                    0 <= k < i ==> (#[trigger] lines@[k])@ == closing_lines(texts(ns@))[k],
            decreases ns.len() - i,
        {
            let mut s = indent.clone();
            s.append("} // namespace ");
            s.append(ns[i].as_str());
            lines.push(s);
            proof {
                lemma_spaces_add((i * 4) as nat, 4);
            }
            indent.append(make_spaces(4).as_str());
            i += 1;
        }
        proof {
            assert(texts(lines@) =~= closing_lines(texts(ns@)));
        }
        join(&lines, "\n")
    }

    fn is_pair(&self, a: &str, b: &str) -> (r: bool)
        ensures
            r == (self@ == seq![a@, b@]),
    {
        if self.0.len() == 2 && str_eq(self.0[0].as_str(), a) && str_eq(self.0[1].as_str(), b) {
            proof {
                assert(self@ =~= seq![a@, b@]);
            }
            true
        } else {
            proof {
                if self@ == seq![a@, b@] {
                    assert(self@.len() == self.0@.len());
                    assert(self@[0] == a@ && self@[1] == b@);
                }
            }
            false
        }
    }

    /// Whether what the name stands for has to be declared before it is used.
    pub fn need_header(&self) -> (r: bool)
        ensures
            r == path_needs_header(self@),
    {
        self.0.len() > 0 && str_eq(self.0[0].as_str(), "rust") && !self.is_pair("rust", "Unit")
            && !self.is_pair("rust", "Ref") && !self.is_pair("rust", "RefMut")
    }

    /// The C++ name of something of Rust.
    pub fn from_rust_path(path: &Vec<String>, namespace: &str, crate_name: &str) -> (r: CppPath)
        ensures
            r@ == rust_path(texts(path@), namespace@, crate_name@),
    {
        let mut r: Vec<String> = Vec::new();
        r.push(String::from_str(cpp_handle_keyword(namespace)));
        let mut i: usize = 0;
        while i < path.len()
            invariant
                i <= path.len(),
                r.len() == i + 1,
                forall|k: int|
                    0 <= k < i + 1 ==> (#[trigger] r@[k])@ == rust_path(
                        texts(path@),
                        namespace@,
                        crate_name@,
                    )[k],
            decreases path.len() - i,
        {
            let s = if str_eq(path[i].as_str(), "crate") {
                cpp_handle_keyword(crate_name)
            } else {
                cpp_handle_keyword(path[i].as_str())
            };
            r.push(String::from_str(s));
            i += 1;
        }
        proof {
            assert(texts(r@) =~= rust_path(texts(path@), namespace@, crate_name@));
        }
        CppPath(r)
    }

    /// The name that is written with `::`.
    pub fn from_text(value: &str) -> (r: CppPath)
        ensures
            r@ == path_from(value@),
            r@.len() > 0,
    {
        proof {
            reveal_strlit("::");
        }
        let t = trim(value);
        CppPath(split(t.as_str(), "::"))
    }

    /// How the name is written.
    pub fn to_text(&self) -> (r: String)
        ensures
            r@ == path_text(self@),
    {
        let mut r = String::from_str("::");
        r.append(join(&self.0, "::").as_str());
        r
    }

    /// A copy.
    pub fn copy(&self) -> (r: CppPath)
        ensures
            r@ == self@,
    {
        CppPath(strings_copy(&self.0))
    }
}

/// How C++ types are written.
pub fn cpp_type_texts(v: &Vec<CppType>) -> (r: Vec<String>)
    ensures
        texts(r@) == cpp_texts(cpp_types_view(v@)),
        r@.len() == v@.len(),
    decreases v,
{
    let mut r: Vec<String> = Vec::new();
    let mut i: usize = 0;
    while i < v.len()
        invariant
            i <= v.len(),
            r.len() == i,
            forall|k: int| 0 <= k < i ==> (#[trigger] r@[k])@ == v@[k].view().text(),
        decreases v.len() - i,
    {
        r.push(v[i].to_text());
        i += 1;
    }
    proof {
        assert(texts(r@) =~= cpp_texts(cpp_types_view(v@)));
    }
    r
}

fn list_headers(v: &Vec<CppType>) -> (r: String)
    ensures
        r@ == headers(cpp_types_view(v@), v@.len()),
    decreases v,
{
    let mut r = String::new();
    let mut i: usize = 0;
    while i < v.len()
        invariant
            i <= v.len(),
            r@ == headers(cpp_types_view(v@), i as nat),
        decreases v.len() - i,
    {
        proof {
            assert(cpp_types_view(v@)[i as int] == v@[i as int].view());
        }
        r.append(v[i].header().as_str());
        i += 1;
    }
    r
}

impl CppType {
    /// A shared reference to the type.
    pub fn into_ref(self) -> (r: CppType)
        ensures
            r@ == ref_to(self@),
    {
        let mut generic_args: Vec<CppType> = Vec::new();
        generic_args.push(self);
        proof {
            assert(cpp_types_view(generic_args@) =~= seq![self@]);
        }
        let mut path: Vec<String> = Vec::new();
        path.push(String::from_str("rust"));
        path.push(String::from_str("Ref"));
        proof {
            assert(texts(path@) =~= seq!["rust"@, "Ref"@]);
        }
        CppType { path: CppPath(path), generic_args, tail: None }
    }

    /// The type with a name inside it.
    pub fn with_tail(self, tail: String) -> (r: CppType)
        ensures
            r@ == (CppTypeModel { tail: Some(tail@), ..self@ }),
    {
        CppType { path: self.path, generic_args: self.generic_args, tail: Some(tail) }
    }

    /// How the type is written.
    pub fn to_text(&self) -> (r: String)
        ensures
            r@ == self@.text(),
        decreases self,
    {
        let mut r = self.path.to_text();
        if self.generic_args.len() > 0 {
            r.append("< ");
            let args = cpp_type_texts(&self.generic_args);
            r.append(join(&args, ", ").as_str());
            r.append(" >");
        }
        match &self.tail {
            Some(x) => {
                r.append("::");
                r.append(x.as_str());
            },
            None => {},
        }
        r
    }

    /// The head of the class that the type is.
    pub fn specialization_decl(&self) -> (r: String)
        requires
            self@.path.len() > 0,
        ensures
            r@ == self@.specialization(),
    {
        if self.generic_args.len() == 0 {
            let mut r = String::from_str("struct ");
            r.append(self.path.name());
            r
        } else {
            let mut r = String::from_str("template<> struct ");
            r.append(self.path.name());
            r.append("< ");
            let args = cpp_type_texts(&self.generic_args);
            r.append(join(&args, ", ").as_str());
            r.append(" >");
            r
        }
    }

    /// The declarations that the type needs.
    pub fn header(&self) -> (r: String)
        ensures
            r@ == self@.header(),
        decreases self,
    {
        let mut state = list_headers(&self.generic_args);
        if !self.path.need_header() {
            return state;
        }
        let ns = self.path.namespace();
        let ghost names = texts(ns@);
        let ghost front = state@;
        let mut opened = String::new();
        let mut i: usize = 0;
        while i < ns.len()
            invariant
                i <= ns.len(),
                names == texts(ns@),
                opened@ == open_lines(names, i as nat),
            decreases ns.len() - i,
        {
            opened.append("namespace ");
            opened.append(ns[i].as_str());
            opened.append(" {\n");
            i += 1;
        }
        state.append(opened.as_str());
        if self.generic_args.len() > 0 {
            state.append("template<typename ...T>\n");
        }
        state.append("struct ");
        state.append(self.path.name());
        state.append(";\n");
        let mut closed = String::new();
        let mut i: usize = 0;
        while i < ns.len()
            invariant
                i <= ns.len(),
                closed@ == close_lines(i as nat),
            decreases ns.len() - i,
        {
            closed.append("}\n");
            i += 1;
        }
        state.append(closed.as_str());
        state
    }

    /// A copy.
    pub fn copy(&self) -> (r: CppType)
        ensures
            r@ == self@,
        decreases self,
    {
        CppType {
            path: self.path.copy(),
            generic_args: cpp_types_copy(&self.generic_args),
            tail: opt_text_copy(&self.tail),
        }
    }

    /// The C++ type that a text is, if it is one.
    pub fn try_from_text(value: &str) -> (r: Option<CppType>)
        ensures
            match r {
                Some(t) => is_type_text(value@) && t@ == type_from(value@),
                None => !is_type_text(value@),
            },
    {
        if CppType::can_be_from(value) {
            Some(CppType::from_text(value))
        } else {
            None
        }
    }

    /// Whether a text is that of a C++ type.
    pub fn can_be_from(value: &str) -> (r: bool)
        ensures
            r == is_type_text(value@),
        decreases value@.len(),
    {
        let t = trim(value);
        let v = chars_of(t.as_str());
        match find_angle(&v) {
            None => true,
            Some(a) => {
                proof {
                    lemma_angle_before_close(t@);
                }
                if v[v.len() - 1] != '>' {
                    return false;
                }
                let generics = text_of(&v, a + 1, v.len() - 1);
                let args = split_string(generics.as_str());
                let ghost parts = split_args(generics@);
                proof {
                    lemma_split_args_len(generics@, 0, 0, Seq::empty(), Seq::empty());
                }
                let mut i: usize = 0;
                while i < args.len()
                    invariant
                        i <= args.len(),
                        texts(args@) == parts,
                        forall|k: int|
                            0 <= k < parts.len() ==> (#[trigger] parts[k]).len() < value@.len(),
                        forall|k: int| 0 <= k < i ==> is_type_text(#[trigger] parts[k]),
                        is_type_text(value@) == (forall|k: int|
                            0 <= k < parts.len() ==> is_type_text(#[trigger] parts[k])),
                    decreases args.len() - i,
                {
                    proof {
                        assert(parts[i as int] == args@[i as int]@);
                    }
                    if !CppType::can_be_from(args[i].as_str()) {
                        proof {
                            assert(i < texts(args@).len());
                            assert(!is_type_text(parts[i as int]));
                        }
                        return false;
                    }
                    i += 1;
                }
                proof {
                    assert(parts.len() == args@.len());
                }
                true
            },
        }
    }

    /// The C++ type that a text is.
    pub fn from_text(value: &str) -> (r: CppType)
        requires
            is_type_text(value@),
        ensures
            r@ == type_from(value@),
        decreases value@.len(),
    {
        let t = trim(value);
        let v = chars_of(t.as_str());
        match find_angle(&v) {
            None => {
                let generic_args: Vec<CppType> = Vec::new();
                proof {
                    assert(cpp_types_view(generic_args@) =~= Seq::empty());
                }
                CppType { path: CppPath::from_text(t.as_str()), generic_args, tail: None }
            },
            Some(a) => {
                proof {
                    lemma_angle_before_close(t@);
                }
                let path = text_of(&v, 0, a);
                let generics = text_of(&v, a + 1, v.len() - 1);
                let args = split_string(generics.as_str());
                let ghost parts = split_args(generics@);
                let mut generic_args: Vec<CppType> = Vec::new();
                let mut i: usize = 0;
                while i < args.len()
                    invariant
                        i <= args.len(),
                        texts(args@) == parts,
                        generic_args.len() == i,
                        forall|k: int|
                            0 <= k < parts.len() ==> (#[trigger] parts[k]).len() < value@.len()
                                && is_type_text(parts[k]),
                        forall|k: int|
                            0 <= k < i ==> (#[trigger] generic_args@[k]).view() == type_from(
                                parts[k],
                            ),
                    decreases args.len() - i,
                {
                    proof {
                        assert(parts[i as int] == args@[i as int]@);
                    }
                    generic_args.push(CppType::from_text(args[i].as_str()));
                    i += 1;
                }
                let r = CppType {
                    path: CppPath::from_text(path.as_str()),
                    generic_args,
                    tail: None,
                };
                proof {
                    assert(parts.len() == args@.len());
                    assert(r@.generic_args =~= type_from(value@).generic_args);
                }
                r
            },
        }
    }
}

/// Whether no piece is longer than `n`.
spec fn pieces_within(v: Seq<Seq<char>>, n: nat) -> bool {
    forall|k: int| 0 <= k < v.len() ==> (#[trigger] v[k]).len() <= n
}

/// The pieces of template arguments are no longer than what was cut.
proof fn lemma_split_args_len(
    s: Seq<char>,
    i: int,
    depth: int,
    current: Seq<char>,
    parts: Seq<Seq<char>>,
)
    requires
        0 <= i <= s.len(),
        current.len() <= i,
        pieces_within(parts, s.len()),
    ensures
        pieces_within(split_args_from(s, i, depth, current, parts), s.len()),
    decreases s.len() - i,
{
    if i < s.len() {
        if s[i] == ',' && depth == 0 {
            lemma_split_args_len(s, i + 1, depth, Seq::empty(), parts.push(current));
        } else if s[i] == '<' {
            lemma_split_args_len(s, i + 1, depth + 1, current.push(s[i]), parts);
        } else if s[i] == '>' {
            lemma_split_args_len(s, i + 1, depth - 1, current.push(s[i]), parts);
        } else {
            lemma_split_args_len(s, i + 1, depth, current.push(s[i]), parts);
        }
    }
}

/// A `<` that is closed at the end of a text does not stand at the end.
proof fn lemma_angle_before_close(t: Seq<char>)
    ensures
        angle_at(t, 0) matches Some(a) ==> 0 <= a < t.len() && t[a] == '<' && (t.last() == '>' ==> a
            < t.len() - 1),
{
    lemma_angle_at(t, 0);
}

proof fn lemma_angle_at(t: Seq<char>, i: int)
    requires
        0 <= i,
    ensures
        angle_at(t, i) matches Some(a) ==> i <= a < t.len() && t[a] == '<',
    decreases t.len() - i,
{
    if i < t.len() && t[i] != '<' {
        lemma_angle_at(t, i + 1);
    }
}

fn find_angle(v: &Vec<char>) -> (r: Option<usize>)
    ensures
        match angle_at(v@, 0) {
            Some(a) => (r matches Some(k) && k == a) && a < v@.len(),
            None => r is None,
        },
{
    let mut i: usize = 0;
    while i < v.len()
        invariant
            i <= v.len(),
            angle_at(v@, i as int) == angle_at(v@, 0),
        decreases v.len() - i,
    {
        if v[i] == '<' {
            return Some(i);
        }
        i += 1;
    }
    None
}

/// Template arguments, cut at the commas that stand in no brackets.
pub fn split_string(input: &str) -> (r: Vec<String>)
    ensures
        texts(r@) == split_args(input@),
{
    let v = chars_of(input);
    let mut parts: Vec<String> = Vec::new();
    let mut current = String::new();
    let mut depth: i128 = 0;
    let mut i: usize = 0;
    proof {
        assert(texts(parts@) =~= Seq::empty());
    }
    while i < v.len()
        invariant
            i <= v.len(),
            v@ == input@,
            -(i as int) <= depth <= i,
            split_args_from(input@, i as int, depth as int, current@, texts(parts@)) == split_args(
                input@,
            ),
        decreases v.len() - i,
    {
        let c = v[i];
        if c == ',' && depth == 0 {
            proof {
                lemma_texts_push(parts@, current);
            }
            parts.push(current);
            current = String::new();
        } else {
            if c == '<' {
                depth += 1;
            } else if c == '>' {
                depth -= 1;
            }
            current.push(c);
        }
        i += 1;
    }
    if !current.as_str().is_empty() {
        proof {
            lemma_texts_push(parts@, current);
        }
        parts.push(current);
    }
    parts
}

/// A copy of a list of C++ types.
pub fn cpp_types_copy(v: &Vec<CppType>) -> (r: Vec<CppType>)
    ensures
        cpp_types_view(r@) == cpp_types_view(v@),
    decreases v,
{
    let mut r: Vec<CppType> = Vec::new();
    let mut i: usize = 0;
    while i < v.len()
        invariant
            i <= v.len(),
            r.len() == i,
            forall|k: int| 0 <= k < i ==> (#[trigger] r@[k]).view() == v@[k].view(),
        decreases v.len() - i,
    {
        r.push(v[i].copy());
        i += 1;
    }
    proof {
        assert(cpp_types_view(r@) =~= cpp_types_view(v@));
    }
    r
}

proof fn lemma_no_angle(t: Seq<char>, i: int)
    requires
        0 <= i,
        forall|k: int| 0 <= k < t.len() ==> t[k] != '<',
    ensures
        angle_at(t, i) is None,
    decreases t.len() - i,
{
    if i < t.len() {
        lemma_no_angle(t, i + 1);
    }
}

proof fn lemma_skip_blank(s: Seq<char>, i: int)
    requires
        0 <= i <= s.len(),
    ensures
        i <= skip_blank(s, i) <= s.len(),
    decreases s.len() - i,
{
    if i < s.len() && unicode_whitespace(s[i]) {
        lemma_skip_blank(s, i + 1);
    }
}

proof fn lemma_skip_blank_back(s: Seq<char>, lo: int, j: int)
    requires
        0 <= lo <= j <= s.len(),
    ensures
        lo <= skip_blank_back(s, lo, j) <= j,
    decreases j - lo,
{
    if lo < j && unicode_whitespace(s[j - 1]) {
        lemma_skip_blank_back(s, lo, j - 1);
    }
}

/// A text without brackets is that of a type, with a name and nothing else.
pub proof fn law_plain_text_is_a_type(text: Seq<char>)
    requires
        forall|k: int| 0 <= k < text.len() ==> text[k] != '<',
    ensures
        is_type_text(text),
        type_from(text) == plain_type(path_from(trim_text(text))),
{
    lemma_skip_blank(text, 0);
    lemma_skip_blank_back(text, skip_blank(text, 0), text.len() as int);
    lemma_no_angle(trim_text(text), 0);
}

/// A shared reference to a type needs the declarations of the type and no other.
pub proof fn law_reference_adds_no_declaration(t: CppTypeModel)
    ensures
        ref_to(t).header() == t.header(),
{
    let args = ref_to(t).generic_args;
    reveal_with_fuel(headers, 2);
    assert(headers(args, 1) =~= args[0].header());
}

/// Whether a type, or one among its arguments at any depth, has to be declared
/// before it is used.
pub open spec fn needs_declaration(t: CppTypeModel) -> bool
    decreases t,
{
    path_needs_header(t.path) || exists|i: int|
        0 <= i < t.generic_args.len() && needs_declaration(#[trigger] t.generic_args[i])
}

/// The declarations of a type are empty just where neither the type nor one
/// among its arguments at any depth has to be declared.
pub proof fn law_declarations_where_needed(t: CppTypeModel)
    ensures
        t.header().len() == 0 <==> !needs_declaration(t),
    decreases t, 0nat,
{
    lemma_headers_where_needed(t.generic_args, t.generic_args.len());
    if path_needs_header(t.path) {
        reveal_strlit("struct ");
    }
}

proof fn lemma_headers_where_needed(v: Seq<CppTypeModel>, n: nat)
    requires
        n <= v.len(),
    ensures
        headers(v, n).len() == 0 <==> forall|i: int|
            0 <= i < n ==> !needs_declaration(#[trigger] v[i]),
    decreases v, n,
{
    if n > 0 {
        lemma_headers_where_needed(v, (n - 1) as nat);
        law_declarations_where_needed(v[n - 1]);
    }
}

/// A name that is read back as it is written, without the leading `::`, is the
/// name: where no segment holds a colon, and no whitespace stands at the ends.
pub proof fn law_written_path_is_read_back(path: Seq<Seq<char>>)
    requires
        path.len() > 0,
        forall|i: int| 0 <= i < path.len() ==> !(#[trigger] path[i]).contains(':'),
        ({
            let text = join_text(path, "::"@);
            text.len() > 0 ==> !unicode_whitespace(text[0]) && !unicode_whitespace(text.last())
        }),
    ensures
        path_from(path_text(path).skip(2)) == path,
{
    reveal_strlit("::");
    let text = join_text(path, "::"@);
    assert(path_text(path).skip(2) =~= text);
    assert(trim_text(text) =~= text);
    assert(text.skip(0) =~= text);
    lemma_split_joined(text, "::"@, 0, path);
}

} // verus!
