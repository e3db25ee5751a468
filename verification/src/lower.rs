//! What the trees of a file say: paths, types, traits and methods.

use crate::def::{MethodModel, ZngurMethod, ZngurMethodReceiver};
use crate::peg::{Rule, Tree, Trees};
use crate::rust_types::{
    named_view, types_view, unit_model, Mutability, PathModel, RustPathAndGenerics, RustTrait,
    RustType, TraitModel, TypeModel,
};
use crate::scope::{
    resolve, EntityModel, EntityPath, ParsedPath, ParsedPathStart, Scope, ScopeModel, Span,
    WrittenPath,
};
use crate::text::{lemma_texts_push, str_eq, strings_contain, texts};
use crate::token::{tokens_view, Tok, Token, TokenModel, Word};
use vstd::prelude::*;

verus! {

broadcast use vstd::std_specs::vec::group_vec_axioms;

/// The tokens of a file, and the length of its text in bytes.
pub struct Source {
    pub toks: Vec<Token>,
    pub end: usize,
}

/// What a [`Source`] holds.
#[verifier::ext_equal]
pub struct SourceModel {
    pub toks: Seq<TokenModel>,
    pub end: usize,
}

impl Source {
    pub open spec fn view(&self) -> SourceModel {
        SourceModel { toks: tokens_view(self.toks@), end: self.end }
    }
}

/// The text of the `i`-th token.
pub open spec fn leaf_text(src: SourceModel, i: usize) -> Seq<char> {
    if i < src.toks.len() {
        src.toks[i as int].text
    } else {
        Seq::empty()
    }
}

/// The number that the `i`-th token stands for.
pub open spec fn leaf_number(src: SourceModel, i: usize) -> usize {
    if i < src.toks.len() {
        src.toks[i as int].number
    } else {
        0
    }
}

/// What the `i`-th token is.
pub open spec fn leaf_tok(src: SourceModel, i: usize) -> Option<Tok> {
    if i < src.toks.len() {
        Some(src.toks[i as int].tok)
    } else {
        None
    }
}

/// The place of the tokens from `from` to the one before `to`.
pub open spec fn span_of(src: SourceModel, from: usize, to: usize) -> Span {
    let start = if from < src.toks.len() {
        src.toks[from as int].start
    } else {
        src.end
    };
    let end = if from < to && to - 1 < src.toks.len() {
        src.toks[to - 1].end
    } else {
        start
    };
    Span { start, end }
}

/// The place of a tree.
pub open spec fn tree_span(src: SourceModel, t: Tree) -> Span {
    match t {
        Tree::Leaf(i) => span_of(src, i, if i < usize::MAX {
            (i + 1) as usize
        } else {
            i
        }),
        Tree::Node(_, from, to, _) => span_of(src, from, to),
    }
}

/// Whether a tree is a node of a rule.
pub open spec fn is_rule(t: Tree, r: Rule) -> bool {
    t matches Tree::Node(x, _, _, _) && x == r
}

/// The trees below a node.
pub open spec fn below(t: Tree) -> Trees {
    match t {
        Tree::Leaf(_) => Trees::Nil,
        Tree::Node(_, _, _, k) => *k,
    }
}

/// Whether one of the trees is a node of a rule.
pub open spec fn has_rule(ts: Trees, r: Rule) -> bool
    decreases ts,
{
    match ts {
        Trees::Nil => false,
        Trees::Snoc(rest, x) => is_rule(*x, r) || has_rule(*rest, r),
    }
}

/// The last of the trees that is a node of a rule, or else a leaf behind all
/// tokens.
pub open spec fn child(ts: Trees, r: Rule) -> Tree
    decreases ts,
{
    match ts {
        Trees::Nil => Tree::Leaf(usize::MAX),
        Trees::Snoc(rest, x) => if is_rule(*x, r) {
            *x
        } else {
            child(*rest, r)
        },
    }
}

/// The texts of the tokens among the trees.
pub open spec fn leaf_texts(ts: Trees, src: SourceModel) -> Seq<Seq<char>>
    decreases ts,
{
    match ts {
        Trees::Nil => Seq::empty(),
        Trees::Snoc(rest, x) => match *x {
            Tree::Leaf(i) => leaf_texts(*rest, src).push(leaf_text(src, i)),
            _ => leaf_texts(*rest, src),
        },
    }
}

/// The first token among the trees.
pub open spec fn first_leaf(ts: Trees) -> usize
    decreases ts,
{
    match ts {
        Trees::Nil => usize::MAX,
        Trees::Snoc(rest, x) => {
            let f = first_leaf(*rest);
            match *x {
                Tree::Leaf(i) => if f == usize::MAX {
                    i
                } else {
                    f
                },
                _ => f,
            }
        },
    }
}

/// The last token among the trees.
pub open spec fn last_leaf(ts: Trees) -> usize
    decreases ts,
{
    match ts {
        Trees::Nil => usize::MAX,
        Trees::Snoc(rest, x) => match *x {
            Tree::Leaf(i) => i,
            _ => last_leaf(*rest),
        },
    }
}

/// The path that a tree is.
pub open spec fn path_of(t: Tree, src: SourceModel) -> WrittenPath {
    let k = below(t);
    WrittenPath {
        start: if has_rule(k, Rule::Absolute) {
            ParsedPathStart::Absolute
        } else if has_rule(k, Rule::CrateStart) || has_rule(k, Rule::BareCrate) {
            ParsedPathStart::Crate
        } else if has_rule(k, Rule::CppStart) {
            ParsedPathStart::Cpp
        } else {
            ParsedPathStart::Relative
        },
        segments: leaf_texts(k, src),
        span: tree_span(src, t),
    }
}

/// The path of a path with generic arguments.
pub open spec fn generics_path(ts: Trees, src: SourceModel) -> WrittenPath {
    path_of(child(below(child(ts, Rule::PathGenerics)), Rule::Path), src)
}

/// The types among the trees.
pub open spec fn types_in(ts: Trees, src: SourceModel, sc: ScopeModel) -> Seq<TypeModel>
    decreases ts,
{
    match ts {
        Trees::Nil => Seq::empty(),
        Trees::Snoc(rest, x) => if is_rule(*x, Rule::Type) {
            types_in(*rest, src, sc).push(type_of(*x, src, sc))
        } else {
            types_in(*rest, src, sc)
        },
    }
}

/// The last type among the trees, or the unit type.
pub open spec fn type_in(ts: Trees, src: SourceModel, sc: ScopeModel) -> TypeModel
    decreases ts,
{
    match ts {
        Trees::Nil => unit_model(),
        Trees::Snoc(rest, x) => if is_rule(*x, Rule::Type) {
            type_of(*x, src, sc)
        } else {
            type_in(*rest, src, sc)
        },
    }
}

/// The types below the last node of a rule among the trees.
pub open spec fn types_below(ts: Trees, r: Rule, src: SourceModel, sc: ScopeModel) -> Seq<TypeModel>
    decreases ts,
{
    match ts {
        Trees::Nil => Seq::empty(),
        Trees::Snoc(rest, x) => match *x {
            Tree::Node(q, _, _, k) => if q == r {
                types_in(*k, src, sc)
            } else {
                types_below(*rest, r, src, sc)
            },
            _ => types_below(*rest, r, src, sc),
        },
    }
}

/// The type below the last node of a rule among the trees, or the unit type.
pub open spec fn type_below(ts: Trees, r: Rule, src: SourceModel, sc: ScopeModel) -> TypeModel
    decreases ts,
{
    match ts {
        Trees::Nil => unit_model(),
        Trees::Snoc(rest, x) => match *x {
            Tree::Node(q, _, _, k) => if q == r {
                type_in(*k, src, sc)
            } else {
                type_below(*rest, r, src, sc)
            },
            _ => type_below(*rest, r, src, sc),
        },
    }
}

/// The arguments of the form `Name = Type` among the trees.
pub open spec fn named_in(ts: Trees, src: SourceModel, sc: ScopeModel) -> Seq<(Seq<char>, TypeModel)>
    decreases ts,
{
    match ts {
        Trees::Nil => Seq::empty(),
        Trees::Snoc(rest, x) => match *x {
            Tree::Node(q, _, _, k) => if q == Rule::NamedGeneric || q == Rule::NamedType {
                named_in(*rest, src, sc).push(
                    (leaf_text(src, first_leaf(*k)), type_in(*k, src, sc)),
                )
            } else {
                named_in(*rest, src, sc)
            },
            _ => named_in(*rest, src, sc),
        },
    }
}

/// The named arguments below the last node of a rule among the trees.
pub open spec fn named_below(ts: Trees, r: Rule, src: SourceModel, sc: ScopeModel) -> Seq<
    (Seq<char>, TypeModel),
>
    decreases ts,
{
    match ts {
        Trees::Nil => Seq::empty(),
        Trees::Snoc(rest, x) => match *x {
            Tree::Node(q, _, _, k) => if q == r {
                named_in(*k, src, sc)
            } else {
                named_below(*rest, r, src, sc)
            },
            _ => named_below(*rest, r, src, sc),
        },
    }
}

/// The inputs of the function arguments among the trees.
pub open spec fn inputs_in(ts: Trees, src: SourceModel, sc: ScopeModel) -> Seq<TypeModel>
    decreases ts,
{
    match ts {
        Trees::Nil => Seq::empty(),
        Trees::Snoc(rest, x) => match *x {
            Tree::Node(q, _, _, k) => if q == Rule::FnArgs {
                types_below(*k, Rule::FnInputs, src, sc)
            } else {
                inputs_in(*rest, src, sc)
            },
            _ => inputs_in(*rest, src, sc),
        },
    }
}

/// The output of the function arguments among the trees.
pub open spec fn output_in(ts: Trees, src: SourceModel, sc: ScopeModel) -> TypeModel
    decreases ts,
{
    match ts {
        Trees::Nil => unit_model(),
        Trees::Snoc(rest, x) => match *x {
            Tree::Node(q, _, _, k) => if q == Rule::FnArgs {
                type_below(*k, Rule::Output, src, sc)
            } else {
                output_in(*rest, src, sc)
            },
            _ => output_in(*rest, src, sc),
        },
    }
}

/// The segments of what a path names.
pub open spec fn segments_of(e: EntityModel) -> Seq<Seq<char>> {
    match e {
        EntityModel::Rust(p) => p,
        EntityModel::Cpp(p) => p,
    }
}

/// The path without segments.
pub open spec fn no_path() -> PathModel {
    PathModel { path: Seq::empty(), generics: Seq::empty(), named_generics: Seq::empty() }
}

/// The path with generic arguments among the trees.
pub open spec fn generic_path_in(ts: Trees, src: SourceModel, sc: ScopeModel) -> PathModel
    decreases ts,
{
    match ts {
        Trees::Nil => no_path(),
        Trees::Snoc(rest, x) => match *x {
            Tree::Node(q, _, _, k) => if q == Rule::PathGenerics {
                PathModel {
                    path: segments_of(resolve(sc, path_of(child(*k, Rule::Path), src))),
                    generics: types_below(*k, Rule::Generics, src, sc),
                    named_generics: named_below(*k, Rule::Generics, src, sc),
                }
            } else {
                generic_path_in(*rest, src, sc)
            },
            _ => generic_path_in(*rest, src, sc),
        },
    }
}

/// The bounds among the trees.
pub open spec fn bounds_in(ts: Trees, src: SourceModel) -> Seq<Seq<char>>
    decreases ts,
{
    match ts {
        Trees::Nil => Seq::empty(),
        Trees::Snoc(rest, x) => if is_rule(*x, Rule::Bound) {
            bounds_in(*rest, src).push(leaf_text(src, first_leaf(below(*x))))
        } else {
            bounds_in(*rest, src)
        },
    }
}

/// The trait that a tree is.
pub open spec fn trait_of(t: Tree, src: SourceModel, sc: ScopeModel) -> TraitModel
    decreases t,
{
    match t {
        Tree::Node(_, _, _, k) => match *k {
            Trees::Snoc(_, x) => match *x {
                Tree::Node(q, _, _, k2) => if q == Rule::FnTrait {
                    TraitModel::Fn {
                        name: leaf_text(src, first_leaf(*k2)),
                        inputs: inputs_in(*k2, src, sc),
                        output: Box::new(output_in(*k2, src, sc)),
                    }
                } else {
                    TraitModel::Normal(generic_path_in(*k2, src, sc))
                },
                _ => TraitModel::Normal(no_path()),
            },
            _ => TraitModel::Normal(no_path()),
        },
        _ => TraitModel::Normal(no_path()),
    }
}

/// The trait among the trees.
pub open spec fn trait_in(ts: Trees, src: SourceModel, sc: ScopeModel) -> TraitModel
    decreases ts,
{
    match ts {
        Trees::Nil => TraitModel::Normal(no_path()),
        Trees::Snoc(rest, x) => if is_rule(*x, Rule::Trait) {
            trait_of(*x, src, sc)
        } else {
            trait_in(*rest, src, sc)
        },
    }
}

/// The type that a path with generic arguments names: a type variable, a type
/// of Rust or one of C++.
pub open spec fn adt_of(path: WrittenPath, p: PathModel, sc: ScopeModel) -> TypeModel {
    if path.start == ParsedPathStart::Relative && path.segments.len() == 1 && p.generics.len() == 0
        && p.named_generics.len() == 0 && sc.type_vars.contains(path.segments[0]) {
        TypeModel::TypeVar(path.segments[0])
    } else {
        match resolve(sc, path) {
            EntityModel::Rust(_) => TypeModel::Adt(p),
            EntityModel::Cpp(segments) => TypeModel::Cpp(segments),
        }
    }
}

/// The primitive type that a token is.
pub open spec fn scalar_of(t: Option<Tok>) -> TypeModel {
    match t {
        Some(Tok::Ident(Word::Scalar(p))) => TypeModel::Primitive(p),
        _ => unit_model(),
    }
}

/// The type that a tree of one of the kinds of types is.
pub open spec fn type_kind(t: Tree, src: SourceModel, sc: ScopeModel) -> TypeModel
    decreases t,
{
    match t {
        Tree::Node(q, _, _, k) => match q {
            Rule::Scalar => scalar_of(leaf_tok(src, first_leaf(*k))),
            Rule::Boxed => TypeModel::Boxed(Box::new(type_in(*k, src, sc))),
            Rule::Tuple => TypeModel::Tuple(types_in(*k, src, sc)),
            Rule::Slice => TypeModel::Slice(Box::new(type_in(*k, src, sc))),
            Rule::Adt => adt_of(generics_path(*k, src), generic_path_in(*k, src, sc), sc),
            Rule::Reference => TypeModel::Ref(
                if has_rule(*k, Rule::MutKw) {
                    Mutability::Mut
                } else {
                    Mutability::Not
                },
                Box::new(type_in(*k, src, sc)),
            ),
            Rule::RawPointer => TypeModel::Raw(
                if has_rule(*k, Rule::MutKw) {
                    Mutability::Mut
                } else {
                    Mutability::Not
                },
                Box::new(type_in(*k, src, sc)),
            ),
            Rule::DynType => if has_rule(*k, Rule::DynKw) {
                TypeModel::Dyn(trait_in(*k, src, sc), bounds_in(*k, src))
            } else {
                TypeModel::Impl(trait_in(*k, src, sc), bounds_in(*k, src))
            },
            _ => unit_model(),
        },
        _ => unit_model(),
    }
}

/// The type that a tree is.
pub open spec fn type_of(t: Tree, src: SourceModel, sc: ScopeModel) -> TypeModel
    decreases t,
{
    match t {
        Tree::Node(_, _, _, k) => match *k {
            Trees::Snoc(_, x) => type_kind(*x, src, sc),
            _ => unit_model(),
        },
        _ => unit_model(),
    }
}

/// The first type among the trees.
pub open spec fn first_type(ts: Trees) -> Option<Tree>
    decreases ts,
{
    match ts {
        Trees::Nil => None,
        Trees::Snoc(rest, x) => match first_type(*rest) {
            Some(t) => Some(t),
            None => if is_rule(*x, Rule::Type) {
                Some(*x)
            } else {
                None
            },
        },
    }
}

/// The last of the trees.
pub open spec fn last_tree(ts: Trees) -> Tree {
    match ts {
        Trees::Nil => Tree::Leaf(usize::MAX),
        Trees::Snoc(_, x) => *x,
    }
}

/// Whether a type is written `self`.
pub open spec fn is_self(t: Tree, src: SourceModel, sc: ScopeModel) -> bool {
    let kind = last_tree(below(t));
    is_rule(kind, Rule::Adt) && ({
        let path = generics_path(below(kind), src);
        path.start == ParsedPathStart::Relative && path.segments == seq!["self"@]
            && generic_path_in(below(kind), src, sc).generics.len() == 0
    })
}

/// How the first input of a function says that it is a method.
pub open spec fn receiver_of(first: Option<Tree>, src: SourceModel, sc: ScopeModel) -> ZngurMethodReceiver {
    match first {
        None => ZngurMethodReceiver::Static,
        Some(t) => {
            let kind = last_tree(below(t));
            if is_self(t, src, sc) {
                ZngurMethodReceiver::Move
            } else if is_rule(kind, Rule::Reference) && is_self(
                child(below(kind), Rule::Type),
                src,
                sc,
            ) {
                ZngurMethodReceiver::Ref(
                    if has_rule(below(kind), Rule::MutKw) {
                        Mutability::Mut
                    } else {
                        Mutability::Not
                    },
                )
            } else {
                ZngurMethodReceiver::Static
            }
        },
    }
}

/// What an `async` function returns.
pub open spec fn future_of(output: TypeModel) -> TypeModel {
    TypeModel::Impl(
        TraitModel::Normal(
            PathModel {
                path: seq!["std"@, "future"@, "Future"@],
                generics: Seq::empty(),
                named_generics: seq![("Output"@, output)],
            },
        ),
        Seq::empty(),
    )
}

/// The method that a tree is.
pub open spec fn method_of(t: Tree, src: SourceModel, sc: ScopeModel) -> MethodModel {
    let k = below(t);
    let first = first_type(below(child(below(child(k, Rule::FnArgs)), Rule::FnInputs)));
    let receiver = receiver_of(first, src, sc);
    let inputs = inputs_in(k, src, sc);
    let output = output_in(k, src, sc);
    MethodModel {
        name: leaf_text(src, first_leaf(k)),
        generics: types_below(k, Rule::MethodGenerics, src, sc),
        receiver,
        inputs: if receiver == ZngurMethodReceiver::Static {
            inputs
        } else {
            inputs.skip(1)
        },
        output: if has_rule(k, Rule::Async) {
            future_of(output)
        } else {
            output
        },
        is_safe: true,
    }
}

/// Whether a trait inside a tree is named by a path that leads into the tree of
/// C++ types.
pub open spec fn cpp_trait_in_tree(t: Tree, src: SourceModel, sc: ScopeModel) -> bool
    decreases t,
{
    match t {
        Tree::Leaf(_) => false,
        Tree::Node(q, _, _, k) => (q == Rule::TraitPath && resolve(
            sc,
            generics_path(*k, src),
        ) is Cpp) || cpp_trait_in(*k, src, sc),
    }
}

/// As [`cpp_trait_in_tree`], for one of the trees.
pub open spec fn cpp_trait_in(ts: Trees, src: SourceModel, sc: ScopeModel) -> bool
    decreases ts,
{
    match ts {
        Trees::Nil => false,
        Trees::Snoc(rest, x) => cpp_trait_in(*rest, src, sc) || cpp_trait_in_tree(*x, src, sc),
    }
}

impl Source {
    /// The text of the `i`-th token.
    pub fn text_at(&self, i: usize) -> (r: String)
        ensures
            r@ == leaf_text(self@, i),
    {
        if i < self.toks.len() {
            self.toks[i].text.clone()
        } else {
            String::new()
        }
    }

    /// The number that the `i`-th token stands for.
    pub fn number_at(&self, i: usize) -> (r: usize)
        ensures
            r == leaf_number(self@, i),
    {
        if i < self.toks.len() {
            self.toks[i].number
        } else {
            0
        }
    }

    /// What the `i`-th token is.
    pub fn tok_at(&self, i: usize) -> (r: Option<Tok>)
        ensures
            r == leaf_tok(self@, i),
    {
        if i < self.toks.len() {
            Some(self.toks[i].tok)
        } else {
            None
        }
    }

    /// The place of the tokens from `from` to the one before `to`.
    pub fn span(&self, from: usize, to: usize) -> (r: Span)
        ensures
            r == span_of(self@, from, to),
    {
        let start: usize = if from < self.toks.len() {
            self.toks[from].start
        } else {
            self.end
        };
        let end: usize = if from < to && to - 1 < self.toks.len() {
            self.toks[to - 1].end
        } else {
            start
        };
        Span { start, end }
    }

    /// The place of a tree.
    pub fn span_of_tree(&self, t: &Tree) -> (r: Span)
        ensures
            r == tree_span(self@, *t),
    {
        match t {
            Tree::Leaf(i) => self.span(
                *i,
                if *i < usize::MAX {
                    *i + 1
                } else {
                    *i
                },
            ),
            Tree::Node(_, from, to, _) => self.span(*from, *to),
        }
    }
}

/// A leaf behind all tokens.
fn no_tree() -> (r: Tree)
    ensures
        r == Tree::Leaf(usize::MAX),
{
    Tree::Leaf(usize::MAX)
}

/// Whether a tree is a node of a rule.
pub fn tree_is(t: &Tree, r: Rule) -> (b: bool)
    ensures
        b == is_rule(*t, r),
{
    match t {
        Tree::Leaf(_) => false,
        Tree::Node(x, _, _, _) => *x == r,
    }
}

/// The trees below a node, if it is one.
pub fn kids(t: &Tree) -> (r: Option<&Trees>)
    ensures
        match r {
            Some(k) => *k == below(*t) && t is Node,
            None => below(*t) == Trees::Nil && t is Leaf,
        },
{
    match t {
        Tree::Leaf(_) => None,
        Tree::Node(_, _, _, k) => Some(k),
    }
}

/// Whether one of the trees is a node of a rule.
pub fn any_rule(ts: &Trees, r: Rule) -> (b: bool)
    ensures
        b == has_rule(*ts, r),
    decreases ts,
{
    match ts {
        Trees::Nil => false,
        Trees::Snoc(rest, x) => tree_is(x, r) || any_rule(rest, r),
    }
}

/// The last of the trees that is a node of a rule.
pub fn find_child(ts: &Trees, r: Rule) -> (t: Option<&Tree>)
    ensures
        match t {
            Some(x) => *x == child(*ts, r) && has_rule(*ts, r),
            None => child(*ts, r) == Tree::Leaf(usize::MAX) && !has_rule(*ts, r),
        },
    decreases ts,
{
    match ts {
        Trees::Nil => None,
        Trees::Snoc(rest, x) => if tree_is(x, r) {
            Some(x)
        } else {
            find_child(rest, r)
        },
    }
}

/// The trees below the last of the trees that is a node of a rule.
pub fn find_below(ts: &Trees, r: Rule) -> (k: Option<&Trees>)
    ensures
        match k {
            Some(x) => *x == below(child(*ts, r)),
            None => below(child(*ts, r)) == Trees::Nil,
        },
{
    match find_child(ts, r) {
        Some(t) => kids(t),
        None => None,
    }
}

/// The texts of the tokens among the trees.
pub fn lower_leaf_texts(ts: &Trees, src: &Source) -> (r: Vec<String>)
    ensures
        texts(r@) == leaf_texts(*ts, src@),
    decreases ts,
{
    match ts {
        Trees::Nil => {
            let r: Vec<String> = Vec::new();
            proof {
                assert(texts(r@) =~= Seq::empty());
            }
            r
        },
        Trees::Snoc(rest, x) => {
            let mut r = lower_leaf_texts(rest, src);
            match &**x {
                Tree::Leaf(i) => {
                    let s = src.text_at(*i);
                    proof {
                        lemma_texts_push(r@, s);
                    }
                    r.push(s);
                },
                _ => {},
            }
            r
        },
    }
}

/// The first token among the trees.
pub fn find_first_leaf(ts: &Trees) -> (r: usize)
    ensures
        r == first_leaf(*ts),
    decreases ts,
{
    match ts {
        Trees::Nil => usize::MAX,
        Trees::Snoc(rest, x) => {
            let f = find_first_leaf(rest);
            match &**x {
                Tree::Leaf(i) => if f == usize::MAX {
                    *i
                } else {
                    f
                },
                _ => f,
            }
        },
    }
}

/// The last token among the trees.
pub fn find_last_leaf(ts: &Trees) -> (r: usize)
    ensures
        r == last_leaf(*ts),
    decreases ts,
{
    match ts {
        Trees::Nil => usize::MAX,
        Trees::Snoc(rest, x) => match &**x {
            Tree::Leaf(i) => *i,
            _ => find_last_leaf(rest),
        },
    }
}

/// The path that a tree is.
pub fn lower_path(t: &Tree, src: &Source) -> (r: ParsedPath)
    ensures
        r@ == path_of(*t, src@),
{
    let span = src.span_of_tree(t);
    let none = Trees::Nil;
    let k = match kids(t) {
        Some(k) => k,
        None => &none,
    };
    let start = if any_rule(k, Rule::Absolute) {
        ParsedPathStart::Absolute
    } else if any_rule(k, Rule::CrateStart) || any_rule(k, Rule::BareCrate) {
        ParsedPathStart::Crate
    } else if any_rule(k, Rule::CppStart) {
        ParsedPathStart::Cpp
    } else {
        ParsedPathStart::Relative
    };
    ParsedPath { start, segments: lower_leaf_texts(k, src), span }
}

/// The path below a node.
pub fn lower_child_path(ts: &Trees, src: &Source) -> (r: ParsedPath)
    ensures
        r@ == path_of(child(*ts, Rule::Path), src@),
{
    match find_child(ts, Rule::Path) {
        Some(t) => lower_path(t, src),
        None => {
            let t = no_tree();
            lower_path(&t, src)
        },
    }
}

/// The path of a path with generic arguments.
pub fn lower_generics_path(ts: &Trees, src: &Source) -> (r: ParsedPath)
    ensures
        r@ == generics_path(*ts, src@),
{
    match find_below(ts, Rule::PathGenerics) {
        Some(k) => lower_child_path(k, src),
        None => {
            let none = Trees::Nil;
            lower_child_path(&none, src)
        },
    }
}

proof fn lemma_types_push(v: Seq<RustType>, x: RustType)
    ensures
        types_view(v.push(x)) == types_view(v).push(x.view()),
{
    assert(types_view(v.push(x)) =~= types_view(v).push(x.view()));
}

fn no_types() -> (r: Vec<RustType>)
    ensures
        types_view(r@) == Seq::<TypeModel>::empty(),
{
    let r: Vec<RustType> = Vec::new();
    proof {
        assert(types_view(r@) =~= Seq::empty());
    }
    r
}

fn no_named() -> (r: Vec<(String, RustType)>)
    ensures
        named_view(r@) == Seq::<(Seq<char>, TypeModel)>::empty(),
{
    let r: Vec<(String, RustType)> = Vec::new();
    proof {
        assert(named_view(r@) =~= Seq::empty());
    }
    r
}

fn no_strings() -> (r: Vec<String>)
    ensures
        texts(r@) == Seq::<Seq<char>>::empty(),
{
    let r: Vec<String> = Vec::new();
    proof {
        assert(texts(r@) =~= Seq::empty());
    }
    r
}

/// The types among the trees.
pub fn lower_types(ts: &Trees, src: &Source, sc: &Scope) -> (r: Vec<RustType>)
    ensures
        types_view(r@) == types_in(*ts, src@, sc@),
    decreases ts,
{
    match ts {
        Trees::Nil => no_types(),
        Trees::Snoc(rest, x) => {
            let mut r = lower_types(rest, src, sc);
            if tree_is(x, Rule::Type) {
                let t = lower_type(x, src, sc);
                proof {
                    lemma_types_push(r@, t);
                }
                r.push(t);
            }
            r
        },
    }
}

/// The last type among the trees, or the unit type.
pub fn lower_type_in(ts: &Trees, src: &Source, sc: &Scope) -> (r: RustType)
    ensures
        r@ == type_in(*ts, src@, sc@),
    decreases ts,
{
    match ts {
        Trees::Nil => RustType::unit(),
        Trees::Snoc(rest, x) => if tree_is(x, Rule::Type) {
            lower_type(x, src, sc)
        } else {
            lower_type_in(rest, src, sc)
        },
    }
}

fn lower_types_below(ts: &Trees, r: Rule, src: &Source, sc: &Scope) -> (v: Vec<RustType>)
    ensures
        types_view(v@) == types_below(*ts, r, src@, sc@),
    decreases ts,
{
    match ts {
        Trees::Nil => no_types(),
        Trees::Snoc(rest, x) => match &**x {
            Tree::Node(q, _, _, k) => if *q == r {
                lower_types(k, src, sc)
            } else {
                lower_types_below(rest, r, src, sc)
            },
            _ => lower_types_below(rest, r, src, sc),
        },
    }
}

fn lower_type_below(ts: &Trees, r: Rule, src: &Source, sc: &Scope) -> (t: RustType)
    ensures
        t@ == type_below(*ts, r, src@, sc@),
    decreases ts,
{
    match ts {
        Trees::Nil => RustType::unit(),
        Trees::Snoc(rest, x) => match &**x {
            Tree::Node(q, _, _, k) => if *q == r {
                lower_type_in(k, src, sc)
            } else {
                lower_type_below(rest, r, src, sc)
            },
            _ => lower_type_below(rest, r, src, sc),
        },
    }
}

/// The named arguments among the trees.
pub fn lower_named(ts: &Trees, src: &Source, sc: &Scope) -> (r: Vec<(String, RustType)>)
    ensures
        named_view(r@) == named_in(*ts, src@, sc@),
    decreases ts,
{
    match ts {
        Trees::Nil => no_named(),
        Trees::Snoc(rest, x) => {
            let mut r = lower_named(rest, src, sc);
            match &**x {
                Tree::Node(q, _, _, k) => {
                    if *q == Rule::NamedGeneric || *q == Rule::NamedType {
                        let entry = (
                            src.text_at(find_first_leaf(k)),
                            lower_type_in(k, src, sc),
                        );
                        proof {
                            assert(named_view(r@.push(entry)) =~= named_view(r@).push(
                                (entry.0@, entry.1.view()),
                            ));
                        }
                        r.push(entry);
                    }
                },
                _ => {},
            }
            r
        },
    }
}

fn lower_named_below(ts: &Trees, r: Rule, src: &Source, sc: &Scope) -> (v: Vec<(String, RustType)>)
    ensures
        named_view(v@) == named_below(*ts, r, src@, sc@),
    decreases ts,
{
    match ts {
        Trees::Nil => no_named(),
        Trees::Snoc(rest, x) => match &**x {
            Tree::Node(q, _, _, k) => if *q == r {
                lower_named(k, src, sc)
            } else {
                lower_named_below(rest, r, src, sc)
            },
            _ => lower_named_below(rest, r, src, sc),
        },
    }
}

fn lower_inputs(ts: &Trees, src: &Source, sc: &Scope) -> (v: Vec<RustType>)
    ensures
        types_view(v@) == inputs_in(*ts, src@, sc@),
    decreases ts,
{
    match ts {
        Trees::Nil => no_types(),
        Trees::Snoc(rest, x) => match &**x {
            Tree::Node(q, _, _, k) => if *q == Rule::FnArgs {
                lower_types_below(k, Rule::FnInputs, src, sc)
            } else {
                lower_inputs(rest, src, sc)
            },
            _ => lower_inputs(rest, src, sc),
        },
    }
}

fn lower_output(ts: &Trees, src: &Source, sc: &Scope) -> (t: RustType)
    ensures
        t@ == output_in(*ts, src@, sc@),
    decreases ts,
{
    match ts {
        Trees::Nil => RustType::unit(),
        Trees::Snoc(rest, x) => match &**x {
            Tree::Node(q, _, _, k) => if *q == Rule::FnArgs {
                lower_type_below(k, Rule::Output, src, sc)
            } else {
                lower_output(rest, src, sc)
            },
            _ => lower_output(rest, src, sc),
        },
    }
}

/// The segments of what a path names.
pub fn into_segments(e: EntityPath) -> (r: Vec<String>)
    ensures
        texts(r@) == segments_of(e@),
{
    match e {
        EntityPath::Rust(p) => p,
        EntityPath::Cpp(p) => p,
    }
}

fn lower_generic_path(ts: &Trees, src: &Source, sc: &Scope) -> (r: RustPathAndGenerics)
    ensures
        r@ == generic_path_in(*ts, src@, sc@),
    decreases ts,
{
    match ts {
        Trees::Nil => RustPathAndGenerics {
            path: no_strings(),
            generics: no_types(),
            named_generics: no_named(),
        },
        Trees::Snoc(rest, x) => match &**x {
            Tree::Node(q, _, _, k) => if *q == Rule::PathGenerics {
                let path = lower_child_path(k, src);
                RustPathAndGenerics {
                    path: into_segments(sc.resolve_path(&path)),
                    generics: lower_types_below(k, Rule::Generics, src, sc),
                    named_generics: lower_named_below(k, Rule::Generics, src, sc),
                }
            } else {
                lower_generic_path(rest, src, sc)
            },
            _ => lower_generic_path(rest, src, sc),
        },
    }
}

fn lower_bounds(ts: &Trees, src: &Source) -> (r: Vec<String>)
    ensures
        texts(r@) == bounds_in(*ts, src@),
    decreases ts,
{
    match ts {
        Trees::Nil => no_strings(),
        Trees::Snoc(rest, x) => {
            let mut r = lower_bounds(rest, src);
            match &**x {
                Tree::Node(q, _, _, k) => {
                    if *q == Rule::Bound {
                        let s = src.text_at(find_first_leaf(k));
                        proof {
                            lemma_texts_push(r@, s);
                        }
                        r.push(s);
                    }
                },
                _ => {},
            }
            r
        },
    }
}

fn no_trait() -> (r: RustTrait)
    ensures
        r@ == TraitModel::Normal(no_path()),
{
    RustTrait::Normal(
        RustPathAndGenerics {
            path: no_strings(),
            generics: no_types(),
            named_generics: no_named(),
        },
    )
}

/// The trait that a tree is.
pub fn lower_trait(t: &Tree, src: &Source, sc: &Scope) -> (r: RustTrait)
    ensures
        r@ == trait_of(*t, src@, sc@),
    decreases t,
{
    match t {
        Tree::Node(_, _, _, k) => match &**k {
            Trees::Snoc(_, x) => match &**x {
                Tree::Node(q, _, _, k2) => if *q == Rule::FnTrait {
                    RustTrait::Fn {
                        name: src.text_at(find_first_leaf(k2)),
                        inputs: lower_inputs(k2, src, sc),
                        output: Box::new(lower_output(k2, src, sc)),
                    }
                } else {
                    RustTrait::Normal(lower_generic_path(k2, src, sc))
                },
                _ => no_trait(),
            },
            _ => no_trait(),
        },
        _ => no_trait(),
    }
}

/// The trait among the trees.
pub fn lower_trait_in(ts: &Trees, src: &Source, sc: &Scope) -> (r: RustTrait)
    ensures
        r@ == trait_in(*ts, src@, sc@),
    decreases ts,
{
    match ts {
        Trees::Nil => no_trait(),
        Trees::Snoc(rest, x) => if tree_is(x, Rule::Trait) {
            lower_trait(x, src, sc)
        } else {
            lower_trait_in(rest, src, sc)
        },
    }
}

/// The type that a path with generic arguments names.
fn lower_adt(path: ParsedPath, p: RustPathAndGenerics, sc: &Scope) -> (r: RustType)
    ensures
        r@ == adt_of(path@, p@, sc@),
{
    proof {
        assert(p@.generics.len() == p.generics@.len());
        assert(p@.named_generics.len() == p.named_generics@.len());
        assert(path@.segments.len() == path.segments@.len());
    }
    if path.start == ParsedPathStart::Relative && path.segments.len() == 1 && p.generics.len() == 0
        && p.named_generics.len() == 0 && strings_contain(&sc.type_vars, path.segments[0].as_str())
    {
        return RustType::TypeVar(path.segments[0].clone());
    }
    match sc.resolve_path(&path) {
        EntityPath::Rust(_) => RustType::Adt(p),
        EntityPath::Cpp(segments) => RustType::Cpp(segments),
    }
}

fn lower_scalar(t: Option<Tok>) -> (r: RustType)
    ensures
        r@ == scalar_of(t),
{
    match t {
        Some(Tok::Ident(Word::Scalar(p))) => RustType::Primitive(p),
        _ => RustType::unit(),
    }
}

fn mutability(k: &Trees) -> (r: Mutability)
    ensures
        r == if has_rule(*k, Rule::MutKw) {
            Mutability::Mut
        } else {
            Mutability::Not
        },
{
    if any_rule(k, Rule::MutKw) {
        Mutability::Mut
    } else {
        Mutability::Not
    }
}

fn lower_type_kind(t: &Tree, src: &Source, sc: &Scope) -> (r: RustType)
    ensures
        r@ == type_kind(*t, src@, sc@),
    decreases t,
{
    match t {
        Tree::Node(q, _, _, k) => match q {
            Rule::Scalar => lower_scalar(src.tok_at(find_first_leaf(k))),
            Rule::Boxed => RustType::Boxed(Box::new(lower_type_in(k, src, sc))),
            Rule::Tuple => RustType::Tuple(lower_types(k, src, sc)),
            Rule::Slice => RustType::Slice(Box::new(lower_type_in(k, src, sc))),
            Rule::Adt => lower_adt(
                lower_generics_path(k, src),
                lower_generic_path(k, src, sc),
                sc,
            ),
            Rule::Reference => RustType::Ref(mutability(k), Box::new(lower_type_in(k, src, sc))),
            Rule::RawPointer => RustType::Raw(mutability(k), Box::new(lower_type_in(k, src, sc))),
            Rule::DynType => if any_rule(k, Rule::DynKw) {
                RustType::Dyn(lower_trait_in(k, src, sc), lower_bounds(k, src))
            } else {
                RustType::Impl(lower_trait_in(k, src, sc), lower_bounds(k, src))
            },
            _ => RustType::unit(),
        },
        _ => RustType::unit(),
    }
}

/// The type that a tree is.
pub fn lower_type(t: &Tree, src: &Source, sc: &Scope) -> (r: RustType)
    ensures
        r@ == type_of(*t, src@, sc@),
    decreases t,
{
    match t {
        Tree::Node(_, _, _, k) => match &**k {
            Trees::Snoc(_, x) => lower_type_kind(x, src, sc),
            _ => RustType::unit(),
        },
        _ => RustType::unit(),
    }
}

fn find_first_type(ts: &Trees) -> (r: Option<&Tree>)
    ensures
        match r {
            Some(t) => first_type(*ts) == Some(*t),
            None => first_type(*ts) is None,
        },
    decreases ts,
{
    match ts {
        Trees::Nil => None,
        Trees::Snoc(rest, x) => match find_first_type(rest) {
            Some(t) => Some(t),
            None => if tree_is(x, Rule::Type) {
                Some(x)
            } else {
                None
            },
        },
    }
}

fn names_self(t: &Tree, src: &Source, sc: &Scope) -> (r: bool)
    ensures
        r == is_self(*t, src@, sc@),
{
    match t {
        Tree::Node(_, _, _, k) => match &**k {
            Trees::Snoc(_, x) => match &**x {
                Tree::Node(q, _, _, k2) => {
                    if *q != Rule::Adt {
                        return false;
                    }
                    let path = lower_generics_path(k2, src);
                    let p = lower_generic_path(k2, src, sc);
                    proof {
                        assert(p@.generics.len() == p.generics@.len());
                        assert(path@.segments.len() == path.segments@.len());
                    }
                    if path.start == ParsedPathStart::Relative && path.segments.len() == 1
                        && str_eq(path.segments[0].as_str(), "self") && p.generics.len() == 0 {
                        proof {
                            assert(path@.segments =~= seq!["self"@]);
                        }
                        true
                    } else {
                        proof {
                            if path@.segments == seq!["self"@] {
                                assert(path@.segments[0] == "self"@);
                            }
                        }
                        false
                    }
                },
                _ => false,
            },
            _ => false,
        },
        _ => false,
    }
}

fn find_receiver(first: Option<&Tree>, src: &Source, sc: &Scope) -> (r: ZngurMethodReceiver)
    ensures
        r == receiver_of(
            match first {
                Some(t) => Some(*t),
                None => None,
            },
            src@,
            sc@,
        ),
{
    match first {
        None => ZngurMethodReceiver::Static,
        Some(t) => {
            if names_self(t, src, sc) {
                return ZngurMethodReceiver::Move;
            }
            match t {
                Tree::Node(_, _, _, k) => match &**k {
                    Trees::Snoc(_, x) => match &**x {
                        Tree::Node(q, _, _, k2) => {
                            if *q == Rule::Reference {
                                match find_child(k2, Rule::Type) {
                                    Some(inner) => {
                                        if names_self(inner, src, sc) {
                                            return ZngurMethodReceiver::Ref(mutability(k2));
                                        }
                                    },
                                    None => {},
                                }
                            }
                            ZngurMethodReceiver::Static
                        },
                        _ => ZngurMethodReceiver::Static,
                    },
                    _ => ZngurMethodReceiver::Static,
                },
                _ => ZngurMethodReceiver::Static,
            }
        },
    }
}

fn lower_future(output: RustType) -> (r: RustType)
    ensures
        r@ == future_of(output@),
{
    let mut path: Vec<String> = Vec::new();
    path.push(String::from_str("std"));
    path.push(String::from_str("future"));
    path.push(String::from_str("Future"));
    let mut named_generics: Vec<(String, RustType)> = Vec::new();
    named_generics.push((String::from_str("Output"), output));
    proof {
        assert(texts(path@) =~= seq!["std"@, "future"@, "Future"@]);
        assert(named_view(named_generics@) =~= seq![("Output"@, output@)]);
    }
    let p = RustPathAndGenerics { path, generics: no_types(), named_generics };
    let ghost m = p@;
    let tr = RustTrait::Normal(p);
    proof {
        assert(tr@ == TraitModel::Normal(m));
    }
    RustType::Impl(tr, no_strings())
}

/// The method that a tree is.
pub fn lower_method(t: &Tree, src: &Source, sc: &Scope) -> (r: ZngurMethod)
    ensures
        r@ == method_of(*t, src@, sc@),
{
    let none = Trees::Nil;
    let k = match kids(t) {
        Some(k) => k,
        None => &none,
    };
    let args = match find_below(k, Rule::FnArgs) {
        Some(a) => a,
        None => &none,
    };
    let ins = match find_below(args, Rule::FnInputs) {
        Some(a) => a,
        None => &none,
    };
    let receiver = find_receiver(find_first_type(ins), src, sc);
    let mut inputs = lower_inputs(k, src, sc);
    proof {
        assert(types_view(inputs@).len() == inputs@.len());
    }
    if receiver != ZngurMethodReceiver::Static {
        let ghost all = inputs@;
        if inputs.len() > 0 {
            let _ = inputs.remove(0);
            proof {
                assert(types_view(inputs@) =~= types_view(all).skip(1));
            }
        } else {
            proof {
                lemma_receiver_needs_input(k, args, ins, src@, sc@);
            }
        }
    }
    let output = lower_output(k, src, sc);
    let output = if any_rule(k, Rule::Async) {
        lower_future(output)
    } else {
        output
    };
    ZngurMethod {
        name: src.text_at(find_first_leaf(k)),
        generics: lower_types_below(k, Rule::MethodGenerics, src, sc),
        receiver,
        inputs,
        output,
        is_safe: true,
    }
}

/// A function whose first input is `self` has an input.
proof fn lemma_receiver_needs_input(
    k: &Trees,
    args: &Trees,
    ins: &Trees,
    src: SourceModel,
    sc: ScopeModel,
)
    requires
        *args == below(child(*k, Rule::FnArgs)),
        *ins == below(child(*args, Rule::FnInputs)),
        receiver_of(first_type(*ins), src, sc) != ZngurMethodReceiver::Static,
    ensures
        inputs_in(*k, src, sc).len() > 0,
{
    lemma_inputs_are_types(*k, src, sc);
    lemma_types_below(*args, Rule::FnInputs, src, sc);
    lemma_first_type_counts(*ins, src, sc);
}

proof fn lemma_inputs_are_types(ts: Trees, src: SourceModel, sc: ScopeModel)
    ensures
        inputs_in(ts, src, sc) == types_below(below(child(ts, Rule::FnArgs)), Rule::FnInputs, src, sc),
    decreases ts,
{
    match ts {
        Trees::Nil => {},
        Trees::Snoc(rest, x) => lemma_inputs_are_types(*rest, src, sc),
    }
}

proof fn lemma_types_below(ts: Trees, r: Rule, src: SourceModel, sc: ScopeModel)
    ensures
        types_below(ts, r, src, sc) == types_in(below(child(ts, r)), src, sc),
    decreases ts,
{
    match ts {
        Trees::Nil => {},
        Trees::Snoc(rest, x) => lemma_types_below(*rest, r, src, sc),
    }
}

proof fn lemma_first_type_counts(ts: Trees, src: SourceModel, sc: ScopeModel)
    ensures
        first_type(ts) is Some ==> types_in(ts, src, sc).len() > 0,
    decreases ts,
{
    match ts {
        Trees::Nil => {},
        Trees::Snoc(rest, x) => lemma_first_type_counts(*rest, src, sc),
    }
}

/// Whether a trait inside a tree is named by a path that leads into the tree of
/// C++ types.
pub fn has_cpp_trait(t: &Tree, src: &Source, sc: &Scope) -> (r: bool)
    ensures
        r == cpp_trait_in_tree(*t, src@, sc@),
    decreases t,
{
    match t {
        Tree::Leaf(_) => false,
        Tree::Node(q, _, _, k) => {
            if *q == Rule::TraitPath {
                let path = lower_generics_path(k, src);
                if let EntityPath::Cpp(_) = sc.resolve_path(&path) {
                    return true;
                }
            }
            any_cpp_trait(k, src, sc)
        },
    }
}

fn any_cpp_trait(ts: &Trees, src: &Source, sc: &Scope) -> (r: bool)
    ensures
        r == cpp_trait_in(*ts, src@, sc@),
    decreases ts,
{
    match ts {
        Trees::Nil => false,
        Trees::Snoc(rest, x) => any_cpp_trait(rest, src, sc) || has_cpp_trait(x, src, sc),
    }
}

} // verus!
