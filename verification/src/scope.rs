//! Paths, and what they mean in the module and under the aliases in which they
//! are written.

use crate::text::{join, join_text, lemma_texts_push, str_eq, strings_copy, texts};
use vstd::prelude::*;

verus! {

broadcast use vstd::std_specs::vec::group_vec_axioms;

/// A place in the source, in bytes.
#[derive(Clone, Copy, Debug, PartialEq, Eq, Structural)]
pub struct Span {
    pub start: usize,
    pub end: usize,
}

/// What a path names: something of Rust, by its path from the root or from
/// `crate`, or something in the tree of C++ types.
#[derive(Debug, PartialEq, Eq)]
pub enum EntityPath {
    Rust(Vec<String>),
    Cpp(Vec<String>),
}

/// What an [`EntityPath`] holds.
#[verifier::ext_equal]
pub enum EntityModel {
    Rust(Seq<Seq<char>>),
    Cpp(Seq<Seq<char>>),
}

impl EntityPath {
    pub open spec fn view(&self) -> EntityModel {
        match self {
            EntityPath::Rust(p) => EntityModel::Rust(texts(p@)),
            EntityPath::Cpp(p) => EntityModel::Cpp(texts(p@)),
        }
    }

    /// A path in the tree of C++ types.
    pub fn cpp(path: Vec<String>) -> (r: EntityPath)
        ensures
            r@ == EntityModel::Cpp(texts(path@)),
    {
        EntityPath::Cpp(path)
    }

    /// A path of Rust, from the root.
    pub fn rust(path: Vec<String>) -> (r: EntityPath)
        ensures
            r@ == EntityModel::Rust(texts(path@)),
    {
        EntityPath::Rust(path)
    }

    /// A path of Rust, from `crate`.
    pub fn crate_relative(path: Vec<String>) -> (r: EntityPath)
        ensures
            r@ == EntityModel::Rust(seq!["crate"@] + texts(path@)),
    {
        let front = vec_of("crate");
        EntityPath::Rust(chained(&front, &path, 0))
    }

    /// A copy.
    pub fn copy(&self) -> (r: EntityPath)
        ensures
            r@ == self@,
    {
        match self {
            EntityPath::Rust(p) => EntityPath::Rust(strings_copy(p)),
            EntityPath::Cpp(p) => EntityPath::Cpp(strings_copy(p)),
        }
    }
}

/// How a path starts.
#[derive(Clone, Copy, Debug, PartialEq, Eq, Structural)]
pub enum ParsedPathStart {
    Absolute,
    Relative,
    Crate,
    Cpp,
}

/// A path as it is written.
#[derive(Debug, PartialEq, Eq)]
pub struct ParsedPath {
    pub start: ParsedPathStart,
    pub segments: Vec<String>,
    pub span: Span,
}

/// What a [`ParsedPath`] holds.
#[verifier::ext_equal]
pub struct WrittenPath {
    pub start: ParsedPathStart,
    pub segments: Seq<Seq<char>>,
    pub span: Span,
}

impl ParsedPath {
    pub open spec fn view(&self) -> WrittenPath {
        WrittenPath { start: self.start, segments: texts(self.segments@), span: self.span }
    }
}

/// A name for a path.
#[derive(Debug, PartialEq, Eq)]
pub struct ParsedAlias {
    pub name: String,
    pub path: ParsedPath,
    pub span: Span,
}

/// What a [`ParsedAlias`] holds.
#[verifier::ext_equal]
pub struct AliasModel {
    pub name: Seq<char>,
    pub path: WrittenPath,
    pub span: Span,
}

impl ParsedAlias {
    pub open spec fn view(&self) -> AliasModel {
        AliasModel { name: self.name@, path: self.path.view(), span: self.span }
    }
}

/// What a list of aliases holds.
pub open spec fn aliases_view(v: Seq<ParsedAlias>) -> Seq<AliasModel> {
    Seq::new(v.len(), |i: int| v[i].view())
}

/// Where a path is written: under which aliases, in which module, and among
/// which type variables.
#[derive(Debug, PartialEq, Eq)]
pub struct Scope {
    pub aliases: Vec<ParsedAlias>,
    pub base: EntityPath,
    pub type_vars: Vec<String>,
}

/// What a [`Scope`] holds.
#[verifier::ext_equal]
pub struct ScopeModel {
    pub aliases: Seq<AliasModel>,
    pub base: EntityModel,
    pub type_vars: Seq<Seq<char>>,
}

impl Scope {
    pub open spec fn view(&self) -> ScopeModel {
        ScopeModel {
            aliases: aliases_view(self.aliases@),
            base: self.base.view(),
            type_vars: texts(self.type_vars@),
        }
    }
}

/// `base` with segments added.
pub open spec fn extended(base: EntityModel, segments: Seq<Seq<char>>) -> EntityModel {
    match base {
        EntityModel::Rust(p) => EntityModel::Rust(p + segments),
        EntityModel::Cpp(p) => EntityModel::Cpp(p + segments),
    }
}

/// What the segments name when a path that starts so holds them.
pub open spec fn placed(start: ParsedPathStart, segments: Seq<Seq<char>>, base: EntityModel) -> EntityModel {
    match start {
        ParsedPathStart::Absolute => EntityModel::Rust(segments),
        ParsedPathStart::Relative => extended(base, segments),
        ParsedPathStart::Crate => EntityModel::Rust(seq!["crate"@] + segments),
        ParsedPathStart::Cpp => EntityModel::Cpp(segments),
    }
}

/// Whether a path starts with the name of an alias.
pub open spec fn matches_alias(path: WrittenPath, alias: AliasModel) -> bool {
    path.start == ParsedPathStart::Relative && path.segments.len() > 0 && path.segments[0]
        == alias.name
}

/// What a path names when the alias stands for its first segment.
pub open spec fn expanded(alias: AliasModel, path: WrittenPath, base: EntityModel) -> EntityModel {
    placed(alias.path.start, alias.path.segments + path.segments.skip(1), base)
}

/// What a path names under the aliases from the `i`-th on.
pub open spec fn resolve_from(
    aliases: Seq<AliasModel>,
    i: int,
    base: EntityModel,
    path: WrittenPath,
) -> EntityModel
    decreases aliases.len() - i,
{
    if i < 0 || i >= aliases.len() {
        placed(path.start, path.segments, base)
    } else if matches_alias(path, aliases[i]) {
        expanded(aliases[i], path, base)
    } else {
        resolve_from(aliases, i + 1, base, path)
    }
}

/// What a path names in a scope: the first alias that it starts with decides.
pub open spec fn resolve(scope: ScopeModel, path: WrittenPath) -> EntityModel {
    resolve_from(scope.aliases, 0, scope.base, path)
}

/// The scope inside a module.
pub open spec fn inner_scope(scope: ScopeModel, aliases: Seq<AliasModel>, path: WrittenPath) -> ScopeModel {
    ScopeModel {
        aliases: aliases + scope.aliases,
        base: placed(path.start, path.segments, scope.base),
        type_vars: scope.type_vars,
    }
}

/// The number of segments that two paths have in common at the front.
pub open spec fn common_prefix(a: Seq<Seq<char>>, b: Seq<Seq<char>>, i: nat) -> nat
    decreases a.len() - i,
{
    if i < a.len() && i < b.len() && a[i as int] == b[i as int] {
        common_prefix(a, b, i + 1)
    } else {
        i
    }
}

/// How something is referred to from a module, or `None` where it cannot be.
pub open spec fn reference(base: EntityModel, target: EntityModel) -> Option<Seq<char>> {
    match target {
        EntityModel::Rust(p) => if p.len() > 0 && p[0] == "crate"@ {
            Some(join_text(p, "::"@))
        } else {
            Some("::"@ + join_text(p, "::"@))
        },
        EntityModel::Cpp(p) => match base {
            EntityModel::Rust(_) => None,
            EntityModel::Cpp(b) => {
                let n = common_prefix(b, p, 0);
                let up = Seq::new((b.len() - n) as nat, |i: int| "super"@);
                Some(join_text(up + p.skip(n as int), "::"@))
            },
        },
    }
}

/// A path that starts with the name of an alias of the module itself means what
/// that alias says, whatever the aliases further out are.
pub proof fn law_nearest_alias_first(
    scope: ScopeModel,
    aliases: Seq<AliasModel>,
    module: WrittenPath,
    path: WrittenPath,
    k: int,
)
    requires
        0 <= k < aliases.len(),
        matches_alias(path, aliases[k]),
        forall|i: int| 0 <= i < k ==> !matches_alias(path, #[trigger] aliases[i]),
    ensures
        resolve(inner_scope(scope, aliases, module), path) == expanded(
            aliases[k],
            path,
            inner_scope(scope, aliases, module).base,
        ),
{
    let all = aliases + scope.aliases;
    assert forall|i: int| 0 <= i < k implies !matches_alias(path, #[trigger] all[i]) by {
        assert(all[i] == aliases[i]);
    }
    assert(all[k] == aliases[k]);
    lemma_resolve_skips(all, 0, k, placed(module.start, module.segments, scope.base), path);
}

proof fn lemma_resolve_skips(
    aliases: Seq<AliasModel>,
    i: int,
    k: int,
    base: EntityModel,
    path: WrittenPath,
)
    requires
        0 <= i <= k < aliases.len(),
        matches_alias(path, aliases[k]),
        forall|j: int| i <= j < k ==> !matches_alias(path, #[trigger] aliases[j]),
    ensures
        resolve_from(aliases, i, base, path) == expanded(aliases[k], path, base),
    decreases k - i,
{
    if i < k {
        lemma_resolve_skips(aliases, i + 1, k, base, path);
    }
}

/// A path that is written from the root, from `crate` or in the tree of C++
/// types means the same in every scope.
pub proof fn law_anchored_path_ignores_scope(a: ScopeModel, b: ScopeModel, path: WrittenPath)
    requires
        path.start != ParsedPathStart::Relative,
    ensures
        resolve(a, path) == resolve(b, path),
{
    lemma_resolve_unaliased(a.aliases, 0, a.base, path);
    lemma_resolve_unaliased(b.aliases, 0, b.base, path);
}

proof fn lemma_resolve_unaliased(
    aliases: Seq<AliasModel>,
    i: int,
    base: EntityModel,
    path: WrittenPath,
)
    requires
        0 <= i <= aliases.len(),
        forall|j: int| i <= j < aliases.len() ==> !matches_alias(path, #[trigger] aliases[j]),
    ensures
        resolve_from(aliases, i, base, path) == placed(path.start, path.segments, base),
    decreases aliases.len() - i,
{
    if i < aliases.len() {
        lemma_resolve_unaliased(aliases, i + 1, base, path);
    }
}

/// Inside a module a relative path that no alias matches means what it means
/// outside when it is written behind the path of the module.
pub proof fn law_module_stands_before_names(
    scope: ScopeModel,
    aliases: Seq<AliasModel>,
    module: WrittenPath,
    path: WrittenPath,
)
    requires
        path.start == ParsedPathStart::Relative,
        forall|i: int|
            0 <= i < (aliases + scope.aliases).len() ==> !matches_alias(
                path,
                #[trigger] (aliases + scope.aliases)[i],
            ),
    ensures
        resolve(inner_scope(scope, aliases, module), path) == placed(
            module.start,
            module.segments + path.segments,
            scope.base,
        ),
{
    let inner = inner_scope(scope, aliases, module);
    lemma_resolve_unaliased(inner.aliases, 0, inner.base, path);
    let a = extended(inner.base, path.segments);
    let b = placed(module.start, module.segments + path.segments, scope.base);
    match module.start {
        ParsedPathStart::Absolute => {},
        ParsedPathStart::Crate => {
            assert((seq!["crate"@] + module.segments) + path.segments =~= seq!["crate"@] + (
            module.segments + path.segments));
        },
        ParsedPathStart::Cpp => {},
        ParsedPathStart::Relative => match scope.base {
            EntityModel::Rust(p) => {
                assert((p + module.segments) + path.segments =~= p + (module.segments
                    + path.segments));
            },
            EntityModel::Cpp(p) => {
                assert((p + module.segments) + path.segments =~= p + (module.segments
                    + path.segments));
            },
        },
    }
    assert(a == b);
}

/// Something of Rust is referred to in the same way from every module.
pub proof fn law_rust_reference_ignores_base(a: EntityModel, b: EntityModel, path: Seq<Seq<char>>)
    ensures
        reference(a, EntityModel::Rust(path)) == reference(b, EntityModel::Rust(path)),
        reference(a, EntityModel::Rust(path)) is Some,
{
}

/// Something in the tree of C++ types can be referred to exactly from there,
/// and following the reference from the base leads to it: the segments that are
/// left once each `super` has taken one away, and those behind, are its path.
pub proof fn law_cpp_reference_leads_to_target(base: EntityModel, target: Seq<Seq<char>>)
    ensures
        reference(base, EntityModel::Cpp(target)) is Some <==> base is Cpp,
        base matches EntityModel::Cpp(b) ==> ({
            let n = common_prefix(b, target, 0);
            let climbs = b.len() - n;
            &&& n <= b.len() && n <= target.len()
            &&& b.take(b.len() - climbs) + target.skip(n as int) == target
            &&& reference(base, EntityModel::Cpp(target)) == Some(
                join_text(
                    Seq::new(climbs as nat, |i: int| "super"@) + target.skip(n as int),
                    "::"@,
                ),
            )
        }),
{
    if let EntityModel::Cpp(b) = base {
        lemma_common_prefix(b, target, 0);
        let n = common_prefix(b, target, 0);
        assert(b.take(n as int) + target.skip(n as int) =~= target);
    }
}

proof fn lemma_common_prefix(a: Seq<Seq<char>>, b: Seq<Seq<char>>, i: nat)
    requires
        i <= a.len(),
        i <= b.len(),
        forall|k: int| 0 <= k < i ==> a[k] == b[k],
    ensures
        i <= common_prefix(a, b, i) <= a.len(),
        common_prefix(a, b, i) <= b.len(),
        forall|k: int| 0 <= k < common_prefix(a, b, i) ==> a[k] == b[k],
    decreases a.len() - i,
{
    if i < a.len() && i < b.len() && a[i as int] == b[i as int] {
        lemma_common_prefix(a, b, i + 1);
    }
}

/// A list of one string.
pub fn vec_of(s: &str) -> (r: Vec<String>)
    ensures
        texts(r@) == seq![s@],
{
    let mut r: Vec<String> = Vec::new();
    r.push(String::from_str(s));
    proof {
        assert(texts(r@) =~= seq![s@]);
    }
    r
}

/// `a` followed by `b` from its `from`-th segment on.
pub fn chained(a: &Vec<String>, b: &Vec<String>, from: usize) -> (r: Vec<String>)
    ensures
        texts(r@) == texts(a@) + if from <= b@.len() {
            texts(b@).skip(from as int)
        } else {
            Seq::empty()
        },
{
    let mut r = strings_copy(a);
    let mut i: usize = from;
    proof {
        if from <= b@.len() {
            assert(texts(a@) + texts(b@).subrange(from as int, from as int) =~= texts(a@));
        }
    }
    while i < b.len()
        invariant
            from <= i,
            from <= b@.len() ==> i <= b.len() && texts(r@) == texts(a@) + texts(b@).subrange(
                from as int,
                i as int,
            ),
            from > b@.len() ==> texts(r@) == texts(a@),
        decreases b.len() - i,
    {
        let s = b[i].clone();
        proof {
            lemma_texts_push(r@, s);
            assert(texts(a@) + texts(b@).subrange(from as int, i + 1) =~= (texts(a@) + texts(
                b@,
            ).subrange(from as int, i as int)).push(s@));
        }
        r.push(s);
        i += 1;
    }
    proof {
        if from <= b@.len() {
            assert(texts(b@).subrange(from as int, i as int) =~= texts(b@).skip(from as int));
        } else {
            assert(texts(a@) + Seq::<Seq<char>>::empty() =~= texts(a@));
        }
    }
    r
}

/// What the segments name when a path that starts so holds them.
fn place(start: ParsedPathStart, segments: Vec<String>, base: &EntityPath) -> (r: EntityPath)
    ensures
        r@ == placed(start, texts(segments@), base@),
{
    proof {
        assert(texts(segments@).skip(0) =~= texts(segments@));
    }
    match start {
        ParsedPathStart::Absolute => EntityPath::Rust(segments),
        ParsedPathStart::Cpp => EntityPath::Cpp(segments),
        ParsedPathStart::Crate => {
            let front = vec_of("crate");
            EntityPath::Rust(chained(&front, &segments, 0))
        },
        ParsedPathStart::Relative => match base {
            EntityPath::Rust(p) => EntityPath::Rust(chained(p, &segments, 0)),
            EntityPath::Cpp(p) => EntityPath::Cpp(chained(p, &segments, 0)),
        },
    }
}

impl ParsedPath {
    /// What the path names in a module, without aliases.
    pub fn to_zngur(&self, base: &EntityPath) -> (r: EntityPath)
        ensures
            r@ == placed(self@.start, self@.segments, base@),
    {
        place(self.start, strings_copy(&self.segments), base)
    }

    /// Whether the path starts with the name of an alias.
    pub fn matches_alias(&self, alias: &ParsedAlias) -> (r: bool)
        ensures
            r == matches_alias(self@, alias@),
    {
        self.start == ParsedPathStart::Relative && self.segments.len() > 0 && self.segments[0]
            == alias.name
    }

    /// A copy.
    pub fn copy(&self) -> (r: ParsedPath)
        ensures
            r@ == self@,
    {
        ParsedPath { start: self.start, segments: strings_copy(&self.segments), span: self.span }
    }
}

impl ParsedAlias {
    /// What a path names in a module when it starts with this alias.
    pub fn expand(&self, path: &ParsedPath, base: &EntityPath) -> (r: Option<EntityPath>)
        ensures
            r is Some <==> matches_alias(path@, self@),
            r matches Some(e) ==> e@ == expanded(self@, path@, base@),
    {
        if path.matches_alias(self) {
            Some(place(self.path.start, chained(&self.path.segments, &path.segments, 1), base))
        } else {
            None
        }
    }

    /// A copy.
    pub fn copy(&self) -> (r: ParsedAlias)
        ensures
            r@ == self@,
    {
        ParsedAlias { name: self.name.clone(), path: self.path.copy(), span: self.span }
    }
}

/// A copy of a list of aliases.
pub fn aliases_copy(v: &Vec<ParsedAlias>) -> (r: Vec<ParsedAlias>)
    ensures
        aliases_view(r@) == aliases_view(v@),
{
    let mut r: Vec<ParsedAlias> = Vec::new();
    let mut i: usize = 0;
    while i < v.len()
        invariant
            i <= v.len(),
            r.len() == i,
            forall|k: int| 0 <= k < i ==> (#[trigger] r@[k]).view() == v@[k].view(),
        decreases v.len() - i,
    {
        r.push(v[i].copy());
        i += 1;
    }
    proof {
        assert(aliases_view(r@) =~= aliases_view(v@));
    }
    r
}

impl Scope {
    /// The scope of a file.
    pub fn new_root(aliases: Vec<ParsedAlias>) -> (r: Scope)
        ensures
            r@ == (ScopeModel {
                aliases: aliases_view(aliases@),
                base: EntityModel::Rust(Seq::empty()),
                type_vars: Seq::empty(),
            }),
    {
        let r = Scope { aliases, base: EntityPath::Rust(Vec::new()), type_vars: Vec::new() };
        proof {
            assert(texts(Seq::<String>::empty()) =~= Seq::empty());
            assert(r@.base =~= EntityModel::Rust(Seq::empty()));
        }
        r
    }

    /// What a path names in this scope.
    pub fn resolve_path(&self, path: &ParsedPath) -> (r: EntityPath)
        ensures
            r@ == resolve(self@, path@),
    {
        let mut i: usize = 0;
        while i < self.aliases.len()
            invariant
                i <= self.aliases.len(),
                resolve_from(self@.aliases, i as int, self@.base, path@) == resolve(self@, path@),
            decreases self.aliases.len() - i,
        {
            proof {
                assert(self@.aliases[i as int] == self.aliases@[i as int].view());
            }
            match self.aliases[i].expand(path, &self.base) {
                Some(e) => {
                    return e;
                },
                None => {},
            }
            i += 1;
        }
        path.to_zngur(&self.base)
    }

    /// The path of something that is declared in this scope.
    pub fn simple_relative_path(&self, name: &str) -> (r: EntityPath)
        ensures
            r@ == extended(self@.base, seq![name@]),
    {
        place(ParsedPathStart::Relative, vec_of(name), &self.base)
    }

    /// The scope inside a module.
    pub fn sub_scope(&self, new_aliases: &Vec<ParsedAlias>, nested_path: &ParsedPath) -> (r: Scope)
        ensures
            r@ == inner_scope(self@, aliases_view(new_aliases@), nested_path@),
    {
        let mut aliases = aliases_copy(new_aliases);
        let mut outer = aliases_copy(&self.aliases);
        let ghost a = aliases@;
        let ghost o = outer@;
        aliases.append(&mut outer);
        proof {
            assert(aliases@ =~= a + o);
            assert(aliases_view(aliases@) =~= aliases_view(a) + aliases_view(o));
        }
        Scope {
            aliases,
            base: nested_path.to_zngur(&self.base),
            type_vars: strings_copy(&self.type_vars),
        }
    }

    /// The scope of a template.
    pub fn with_type_vars(&self, type_vars: Vec<String>) -> (r: Scope)
        ensures
            r@ == (ScopeModel { type_vars: texts(type_vars@), ..self@ }),
    {
        Scope { aliases: aliases_copy(&self.aliases), base: self.base.copy(), type_vars }
    }

    /// How something is referred to from this scope.
    pub fn reference_to(&self, target: &EntityPath) -> (r: Option<String>)
        ensures
            match reference(self@.base, target@) {
                Some(t) => r is Some && r->0@ == t,
                None => r is None,
            },
    {
        match target {
            EntityPath::Rust(p) => {
                if p.len() > 0 && str_eq(p[0].as_str(), "crate") {
                    Some(join(p, "::"))
                } else {
                    let mut r = String::from_str("::");
                    r.append(join(p, "::").as_str());
                    Some(r)
                }
            },
            EntityPath::Cpp(p) => match &self.base {
                EntityPath::Rust(_) => None,
                EntityPath::Cpp(b) => {
                    let mut n: usize = 0;
                    while n < b.len() && n < p.len() && b[n] == p[n]
                        invariant
                            n <= b.len(),
                            n <= p.len(),
                            common_prefix(texts(b@), texts(p@), n as nat) == common_prefix(
                                texts(b@),
                                texts(p@),
                                0,
                            ),
                        decreases b.len() - n,
                    {
                        n += 1;
                    }
                    let mut up: Vec<String> = Vec::new();
                    let mut i: usize = n;
                    while i < b.len()
                        invariant
                            n <= i <= b.len(),
                            up.len() == i - n,
                            forall|k: int| 0 <= k < up.len() ==> (#[trigger] up@[k])@ == "super"@,
                        decreases b.len() - i,
                    {
                        up.push(String::from_str("super"));
                        i += 1;
                    }
                    proof {
                        assert(texts(up@) =~= Seq::new((b@.len() - n) as nat, |i: int| "super"@));
                    }
                    let all = chained(&up, p, n);
                    Some(join(&all, "::"))
                },
            },
        }
    }
}

} // verus!
