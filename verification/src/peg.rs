//! Ordered-choice grammars over tokens: what an expression takes from the
//! tokens, the tree it builds, and what is said where it cannot go on.

use crate::token::{Tok, Word};
use vstd::prelude::*;

verus! {

/// The rules of the grammar. A tree has one node for each rule that was used.
#[derive(Clone, Copy, Debug, PartialEq, Eq, Structural)]
pub enum Rule {
    File,
    Item,
    Unstable,
    Mod,
    Items,
    TypeItem,
    TypeVars,
    TypeBody,
    TypeEntry,
    LayoutStack,
    LayoutConservative,
    LayoutOnlyByRef,
    LayoutHeap,
    Props,
    Prop,
    Traits,
    WellknownTrait,
    NonExhaustive,
    Constructor,
    TupleArgs,
    NamedArgs,
    NamedType,
    Field,
    CppValue,
    CppHeapAllocated,
    CppRef,
    CppStackOwned,
    MethodItem,
    UsePath,
    DerefTo,
    CppName,
    Method,
    Async,
    MethodGenerics,
    FnArgs,
    FnInputs,
    Output,
    Variant,
    VariantEntry,
    TraitItem,
    FnItem,
    Includes,
    Panic,
    ExternCpp,
    ExternFn,
    ExternImpl,
    Safe,
    NotSafe,
    TraitFor,
    ImplMethod,
    Merge,
    Import,
    Alias,
    Path,
    Absolute,
    CrateStart,
    CppStart,
    BareCrate,
    PathGenerics,
    Generics,
    NamedGeneric,
    Trait,
    FnTrait,
    TraitPath,
    Type,
    Scalar,
    Boxed,
    Unit,
    Tuple,
    Slice,
    Adt,
    Reference,
    RawPointer,
    MutKw,
    ConstKw,
    DynType,
    DynKw,
    ImplKw,
    Bound,
    OrCond,
    AndCond,
    CondGroup,
    CondAtom,
    CfgKey,
    Directive,
    Scrutinees,
    ScrutineeTuple,
    TuplePattern,
    OrPattern,
    AndPattern,
    NotPattern,
    PatternLiteral,
    PatternAny,
    PatternSome,
    PatternNone,
    PatternGroup,
    IfItem,
    ElseIfItem,
    ElseItem,
    MatchItem,
    ArmItem,
    IfEntry,
    ElseIfEntry,
    ElseEntry,
    MatchEntry,
    ArmEntry,
}

/// A choice among tokens that keeps the token.
#[derive(Clone, Copy, Debug, PartialEq, Eq, Structural)]
pub enum Pick {
    AnyIdent,
    AnyStr,
    StrOrRaw,
    AnyNumber,
    IdentOrNumber,
    NumberOrAuto,
    StrOrNumber,
    ScalarType,
    DebugOrCopy,
}

/// A language feature that a file has to ask for.
#[derive(Clone, Copy, Debug, PartialEq, Eq, Structural)]
pub enum Feature {
    CfgMatch,
    CfgIf,
    TemplateTypes,
}

/// The features that the file has asked for so far.
#[derive(Clone, Copy, Debug, PartialEq, Eq, Structural)]
pub struct UnstableFeatures {
    pub cfg_match: bool,
    pub cfg_if: bool,
    pub template_types: bool,
}

/// A reason of its own for which an expression fails.
#[derive(Clone, Copy, Debug, PartialEq, Eq, Structural)]
pub enum Complaint {
    /// The file has not asked for a feature that it uses.
    Unstable(Feature),
    /// The file asks for a feature that there is not; the token names it.
    UnknownFeature(usize),
    /// A `c++::` path stands where a trait is wanted.
    CppTrait,
    /// A `c++::` path stands behind the `use` of a method.
    CppUsePath,
}

/// What could have stood where the tokens could not be used.
#[derive(Clone, Copy, Debug, PartialEq, Eq, Structural)]
pub enum Want {
    Tok(Tok),
    SomethingElse,
    EndOfInput,
}

/// What could have stood somewhere, in the order in which it was tried.
pub enum Wants {
    Nil,
    Snoc(Box<Wants>, Want),
}

/// How far the tokens could be used: the furthest position at which an
/// expression failed, what could have stood there, and a reason of its own
/// with the tokens that it is about.
pub struct Failure {
    pub pos: usize,
    pub wants: Wants,
    pub complaint: Option<(Complaint, usize, usize)>,
}

/// What is carried along while tokens are taken.
pub struct ParserState {
    pub features: UnstableFeatures,
    pub failure: Failure,
}

/// A grammar expression.
pub enum Expr {
    /// One given token.
    One(Tok),
    /// One of several tokens, which is kept.
    Keep(Pick),
    /// The one, then the other.
    Both(Box<Expr>, Box<Expr>),
    /// The one or, where it fails, the other.
    Either(Box<Expr>, Box<Expr>),
    /// As often as it goes.
    Many(Box<Expr>),
    /// Once or not at all.
    Maybe(Box<Expr>),
    /// What a rule says.
    Use(Rule),
    /// What needs a feature.
    Gated(Feature, Box<Expr>),
    /// A name in round brackets, which asks for a feature.
    Ask,
    /// What must not start with `c++`.
    NotCpp(Complaint, Box<Expr>),
    /// The end of the tokens.
    End,
}

/// A tree over tokens: a token that was kept, or what a rule took, from the
/// first of its tokens to the one behind the last.
pub enum Tree {
    Leaf(usize),
    Node(Rule, usize, usize, Box<Trees>),
}

/// The trees below a node, in order.
pub enum Trees {
    Nil,
    Snoc(Box<Trees>, Box<Tree>),
}

/// What came of an expression: the state, and the position behind what it took
/// with the trees, unless it failed.
pub struct Outcome {
    pub state: ParserState,
    pub taken: Option<(usize, Trees)>,
}

/// Whether a token is among those of a choice.
#[verifier::allow_in_spec]
pub fn picks(p: Pick, t: Tok) -> bool
    returns
        (match p {
            Pick::AnyIdent => t is Ident,
            Pick::AnyStr => t is Str,
            Pick::StrOrRaw => t is Str || t is RawStr,
            Pick::AnyNumber => t is Number,
            Pick::IdentOrNumber => t is Ident || t is Number,
            Pick::NumberOrAuto => t is Number || t == Tok::Ident(Word::Auto),
            Pick::StrOrNumber => t is Str || t is Number,
            Pick::ScalarType => t is Ident && t->Ident_0 is Scalar,
            Pick::DebugOrCopy => t == Tok::Ident(Word::Debug) || t == Tok::Ident(Word::Copy),
        }),
{
    match p {
        Pick::AnyIdent => matches!(t, Tok::Ident(_)),
        Pick::AnyStr => matches!(t, Tok::Str(_)),
        Pick::StrOrRaw => matches!(t, Tok::Str(_)) || matches!(t, Tok::RawStr),
        Pick::AnyNumber => matches!(t, Tok::Number),
        Pick::IdentOrNumber => matches!(t, Tok::Ident(_)) || matches!(t, Tok::Number),
        Pick::NumberOrAuto => matches!(t, Tok::Number) || t == Tok::Ident(Word::Auto),
        Pick::StrOrNumber => matches!(t, Tok::Str(_)) || matches!(t, Tok::Number),
        Pick::ScalarType => matches!(t, Tok::Ident(Word::Scalar(_))),
        Pick::DebugOrCopy => t == Tok::Ident(Word::Debug) || t == Tok::Ident(Word::Copy),
    }
}

/// Whether a want is among those.
pub open spec fn wanted(w: Wants, x: Want) -> bool
    decreases w,
{
    match w {
        Wants::Nil => false,
        Wants::Snoc(rest, y) => y == x || wanted(*rest, x),
    }
}

/// The failure once `x` was wanted at `pos` and not found: only the furthest
/// position counts.
pub open spec fn missed(f: Failure, pos: usize, x: Want) -> Failure {
    if pos > f.pos {
        Failure { pos, wants: Wants::Snoc(Box::new(Wants::Nil), x), complaint: None }
    } else if pos < f.pos || wanted(f.wants, x) {
        f
    } else {
        Failure { wants: Wants::Snoc(Box::new(f.wants), x), ..f }
    }
}

/// The failure once an expression failed at `pos` for a reason of its own.
pub open spec fn objected(f: Failure, pos: usize, c: (Complaint, usize, usize)) -> Failure {
    if pos > f.pos {
        Failure { pos, wants: Wants::Nil, complaint: Some(c) }
    } else if pos < f.pos || f.complaint is Some {
        f
    } else {
        Failure { complaint: Some(c), ..f }
    }
}

pub open spec fn with_missed(st: ParserState, pos: usize, x: Want) -> ParserState {
    ParserState { failure: missed(st.failure, pos, x), ..st }
}

pub open spec fn with_objection(st: ParserState, pos: usize, c: (Complaint, usize, usize)) -> ParserState {
    ParserState { failure: objected(st.failure, pos, c), ..st }
}

/// Whether a feature has been asked for.
pub open spec fn enabled(f: UnstableFeatures, x: Feature) -> bool {
    match x {
        Feature::CfgMatch => f.cfg_match,
        Feature::CfgIf => f.cfg_if,
        Feature::TemplateTypes => f.template_types,
    }
}

/// The feature that a token names.
pub open spec fn feature_of(t: Tok) -> Option<Feature> {
    if t == Tok::Ident(Word::CfgMatch) {
        Some(Feature::CfgMatch)
    } else if t == Tok::Ident(Word::CfgIf) {
        Some(Feature::CfgIf)
    } else if t == Tok::Ident(Word::TemplateTypes) {
        Some(Feature::TemplateTypes)
    } else {
        None
    }
}

/// The features once another one was asked for.
pub open spec fn with_feature(f: UnstableFeatures, x: Feature) -> UnstableFeatures {
    match x {
        Feature::CfgMatch => UnstableFeatures { cfg_match: true, ..f },
        Feature::CfgIf => UnstableFeatures { cfg_if: true, ..f },
        Feature::TemplateTypes => UnstableFeatures { template_types: true, ..f },
    }
}

/// The trees of the one followed by those of the other.
pub open spec fn append(a: Trees, b: Trees) -> Trees
    decreases b,
{
    match b {
        Trees::Nil => a,
        Trees::Snoc(rest, t) => Trees::Snoc(Box::new(append(a, *rest)), t),
    }
}

pub open spec fn no_trees() -> Trees {
    Trees::Nil
}

pub open spec fn one_tree(t: Tree) -> Trees {
    Trees::Snoc(Box::new(Trees::Nil), Box::new(t))
}

/// One given token at `pos`.
pub open spec fn take_one(t: Tok, toks: Seq<Tok>, pos: usize, st: ParserState) -> Outcome {
    if pos < toks.len() && toks[pos as int] == t {
        Outcome { state: st, taken: Some(((pos + 1) as usize, no_trees())) }
    } else {
        Outcome { state: with_missed(st, pos, Want::Tok(t)), taken: None }
    }
}

/// A name in round brackets at `pos`, which asks for a feature.
pub open spec fn take_ask(toks: Seq<Tok>, pos: usize, st: ParserState) -> Outcome {
    if !(pos < toks.len() && toks[pos as int] == Tok::ParenOpen) {
        Outcome { state: with_missed(st, pos, Want::Tok(Tok::ParenOpen)), taken: None }
    } else if !(pos + 1 < toks.len() && toks[pos + 1] is Ident) {
        Outcome { state: with_missed(st, (pos + 1) as usize, Want::SomethingElse), taken: None }
    } else if !(pos + 2 < toks.len() && toks[pos + 2] == Tok::ParenClose) {
        Outcome {
            state: with_missed(st, (pos + 2) as usize, Want::Tok(Tok::ParenClose)),
            taken: None,
        }
    } else {
        match feature_of(toks[pos + 1]) {
            Some(x) => Outcome {
                state: ParserState { features: with_feature(st.features, x), ..st },
                taken: Some(((pos + 3) as usize, one_tree(Tree::Leaf((pos + 1) as usize)))),
            },
            None => Outcome {
                state: with_objection(
                    st,
                    pos,
                    (Complaint::UnknownFeature((pos + 1) as usize), pos, (pos + 3) as usize),
                ),
                taken: None,
            },
        }
    }
}

/// What came of a rule whose expression came to `o`.
pub open spec fn close_rule(r: Rule, pos: usize, o: Outcome) -> Outcome {
    match o.taken {
        Some((end, kids)) => Outcome {
            state: o.state,
            taken: Some((end, one_tree(Tree::Node(r, pos, end, Box::new(kids))))),
        },
        None => o,
    }
}

/// What came of an expression that needs a feature: without the feature it
/// fails behind what it took, and what it missed inside is forgotten.
pub open spec fn close_gate(x: Feature, pos: usize, before: ParserState, o: Outcome) -> Outcome {
    match o.taken {
        Some((end, kids)) => if enabled(o.state.features, x) {
            o
        } else {
            Outcome {
                state: ParserState {
                    features: o.state.features,
                    failure: objected(
                        before.failure,
                        end,
                        (Complaint::Unstable(x), pos, end),
                    ),
                },
                taken: None,
            }
        },
        None => o,
    }
}

/// What came of an expression that must not start with `c++`: it fails behind
/// what it took.
pub open spec fn close_not_cpp(c: Complaint, starts_cpp: bool, o: Outcome) -> Outcome {
    match o.taken {
        Some((end, kids)) => if starts_cpp {
            Outcome {
                state: with_objection(
                    o.state,
                    end,
                    (c, end, if end < usize::MAX { (end + 1) as usize } else { end }),
                ),
                taken: None,
            }
        } else {
            o
        },
        None => o,
    }
}

/// What comes of an expression at `pos`, with rules used inside each other at
/// most `depth` times.
pub open spec fn run(e: Expr, toks: Seq<Tok>, pos: usize, st: ParserState, depth: nat) -> Outcome
    decreases depth, e, toks.len() + 2,
{
    match e {
        Expr::One(t) => take_one(t, toks, pos, st),
        Expr::Keep(p) => if pos < toks.len() && picks(p, toks[pos as int]) {
            Outcome { state: st, taken: Some(((pos + 1) as usize, one_tree(Tree::Leaf(pos)))) }
        } else {
            Outcome { state: with_missed(st, pos, Want::SomethingElse), taken: None }
        },
        Expr::Both(a, b) => {
            let o = run(*a, toks, pos, st, depth);
            match o.taken {
                None => o,
                Some((p1, t1)) => {
                    let o2 = run(*b, toks, p1, o.state, depth);
                    match o2.taken {
                        None => o2,
                        Some((p2, t2)) => Outcome {
                            state: o2.state,
                            taken: Some((p2, append(t1, t2))),
                        },
                    }
                },
            }
        },
        Expr::Either(a, b) => {
            let o = run(*a, toks, pos, st, depth);
            if o.taken is Some {
                o
            } else {
                run(*b, toks, pos, o.state, depth)
            }
        },
        Expr::Maybe(a) => {
            let o = run(*a, toks, pos, st, depth);
            if o.taken is Some {
                o
            } else {
                Outcome { state: o.state, taken: Some((pos, no_trees())) }
            }
        },
        Expr::Many(a) => run_many(e, toks, pos, st, depth, no_trees()),
        Expr::Use(r) => if depth == 0 {
            Outcome { state: with_missed(st, pos, Want::SomethingElse), taken: None }
        } else {
            close_rule(r, pos, run(*crate::grammar::production(r), toks, pos, st, (depth - 1) as nat))
        },
        Expr::Gated(x, a) => close_gate(x, pos, st, run(*a, toks, pos, st, depth)),
        Expr::Ask => take_ask(toks, pos, st),
        Expr::NotCpp(c, a) => close_not_cpp(
            c,
            pos < toks.len() && toks[pos as int] == Tok::CppPathStart,
            run(*a, toks, pos, st, depth),
        ),
        Expr::End => if pos >= toks.len() {
            Outcome { state: st, taken: Some((pos, no_trees())) }
        } else {
            Outcome { state: with_missed(st, pos, Want::EndOfInput), taken: None }
        },
    }
}

/// What comes of a repetition from `pos` on, with `before` taken already.
pub open spec fn run_many(
    e: Expr,
    toks: Seq<Tok>,
    pos: usize,
    st: ParserState,
    depth: nat,
    before: Trees,
) -> Outcome
    decreases
            depth,
            e,
            if pos <= toks.len() {
                toks.len() - pos
            } else {
                0
            },
{
    match e {
        Expr::Many(a) => {
            let o = run(*a, toks, pos, st, depth);
            match o.taken {
                None => Outcome { state: o.state, taken: Some((pos, before)) },
                Some((p1, t1)) => if pos < p1 <= toks.len() {
                    run_many(e, toks, p1, o.state, depth, append(before, t1))
                } else {
                    Outcome { state: o.state, taken: Some((pos, before)) }
                },
            }
        },
        _ => Outcome { state: st, taken: None },
    }
}

/// The state before the first token.
pub open spec fn start_state() -> ParserState {
    ParserState {
        features: UnstableFeatures { cfg_match: false, cfg_if: false, template_types: false },
        failure: Failure { pos: 0, wants: Wants::Nil, complaint: None },
    }
}

/// How deep rules can be used inside each other over `n` tokens: no rule is
/// used inside itself without a token in between, so the bound never decides
/// (see `depth`).
pub open spec fn depth_for(n: nat) -> nat {
    if 128 * (n + 1) <= usize::MAX {
        128 * (n + 1)
    } else {
        usize::MAX as nat
    }
}

/// What the grammar makes of the tokens of a file.
pub open spec fn parse_file(toks: Seq<Tok>) -> Outcome {
    run(Expr::Use(Rule::File), toks, 0, start_state(), depth_for(toks.len()))
}

fn is_wanted(w: &Wants, x: Want) -> (r: bool)
    ensures
        r == wanted(*w, x),
    decreases w,
{
    match w {
        Wants::Nil => false,
        Wants::Snoc(rest, y) => *y == x || is_wanted(rest, x),
    }
}

fn copy_wants(w: &Wants) -> (r: Wants)
    ensures
        r == *w,
    decreases w,
{
    match w {
        Wants::Nil => Wants::Nil,
        Wants::Snoc(rest, y) => Wants::Snoc(Box::new(copy_wants(rest)), *y),
    }
}

fn copy_failure(f: &Failure) -> (r: Failure)
    ensures
        r == *f,
{
    Failure { pos: f.pos, wants: copy_wants(&f.wants), complaint: f.complaint }
}

fn note_missed(st: ParserState, pos: usize, x: Want) -> (r: ParserState)
    ensures
        r == with_missed(st, pos, x),
{
    let ParserState { features, failure } = st;
    let failure = if pos > failure.pos {
        Failure { pos, wants: Wants::Snoc(Box::new(Wants::Nil), x), complaint: None }
    } else if pos < failure.pos || is_wanted(&failure.wants, x) {
        failure
    } else {
        Failure {
            pos: failure.pos,
            wants: Wants::Snoc(Box::new(failure.wants), x),
            complaint: failure.complaint,
        }
    };
    ParserState { features, failure }
}

fn object(f: Failure, pos: usize, c: (Complaint, usize, usize)) -> (r: Failure)
    ensures
        r == objected(f, pos, c),
{
    if pos > f.pos {
        Failure { pos, wants: Wants::Nil, complaint: Some(c) }
    } else if pos < f.pos || f.complaint.is_some() {
        f
    } else {
        Failure { pos: f.pos, wants: f.wants, complaint: Some(c) }
    }
}

fn note_objection(st: ParserState, pos: usize, c: (Complaint, usize, usize)) -> (r: ParserState)
    ensures
        r == with_objection(st, pos, c),
{
    let ParserState { features, failure } = st;
    ParserState { features, failure: object(failure, pos, c) }
}

fn is_enabled(f: UnstableFeatures, x: Feature) -> (r: bool)
    ensures
        r == enabled(f, x),
{
    match x {
        Feature::CfgMatch => f.cfg_match,
        Feature::CfgIf => f.cfg_if,
        Feature::TemplateTypes => f.template_types,
    }
}

fn find_feature(t: Tok) -> (r: Option<Feature>)
    ensures
        r == feature_of(t),
{
    if t == Tok::Ident(Word::CfgMatch) {
        Some(Feature::CfgMatch)
    } else if t == Tok::Ident(Word::CfgIf) {
        Some(Feature::CfgIf)
    } else if t == Tok::Ident(Word::TemplateTypes) {
        Some(Feature::TemplateTypes)
    } else {
        None
    }
}

fn add_feature(f: UnstableFeatures, x: Feature) -> (r: UnstableFeatures)
    ensures
        r == with_feature(f, x),
{
    match x {
        Feature::CfgMatch => UnstableFeatures {
            cfg_match: true,
            cfg_if: f.cfg_if,
            template_types: f.template_types,
        },
        Feature::CfgIf => UnstableFeatures {
            cfg_match: f.cfg_match,
            cfg_if: true,
            template_types: f.template_types,
        },
        Feature::TemplateTypes => UnstableFeatures {
            cfg_match: f.cfg_match,
            cfg_if: f.cfg_if,
            template_types: true,
        },
    }
}

fn join_trees(a: Trees, b: Trees) -> (r: Trees)
    ensures
        r == append(a, b),
    decreases b,
{
    match b {
        Trees::Nil => a,
        Trees::Snoc(rest, t) => Trees::Snoc(Box::new(join_trees(a, *rest)), t),
    }
}

fn leaf(pos: usize) -> (r: Trees)
    ensures
        r == one_tree(Tree::Leaf(pos)),
{
    Trees::Snoc(Box::new(Trees::Nil), Box::new(Tree::Leaf(pos)))
}

fn eval_one(t: Tok, toks: &Vec<Tok>, pos: usize, st: ParserState) -> (r: Outcome)
    ensures
        r == take_one(t, toks@, pos, st),
{
    if pos < toks.len() && toks[pos] == t {
        Outcome { state: st, taken: Some((pos + 1, Trees::Nil)) }
    } else {
        Outcome { state: note_missed(st, pos, Want::Tok(t)), taken: None }
    }
}

fn eval_ask(toks: &Vec<Tok>, pos: usize, st: ParserState) -> (r: Outcome)
    ensures
        r == take_ask(toks@, pos, st),
{
    if !(pos < toks.len() && toks[pos] == Tok::ParenOpen) {
        return Outcome { state: note_missed(st, pos, Want::Tok(Tok::ParenOpen)), taken: None };
    }
    if !(pos + 1 < toks.len() && picks(Pick::AnyIdent, toks[pos + 1])) {
        return Outcome { state: note_missed(st, pos + 1, Want::SomethingElse), taken: None };
    }
    if !(pos + 2 < toks.len() && toks[pos + 2] == Tok::ParenClose) {
        return Outcome {
            state: note_missed(st, pos + 2, Want::Tok(Tok::ParenClose)),
            taken: None,
        };
    }
    match find_feature(toks[pos + 1]) {
        Some(x) => {
            let ParserState { features, failure } = st;
            Outcome {
                state: ParserState { features: add_feature(features, x), failure },
                taken: Some((pos + 3, leaf(pos + 1))),
            }
        },
        None => Outcome {
            state: note_objection(st, pos, (Complaint::UnknownFeature(pos + 1), pos, pos + 3)),
            taken: None,
        },
    }
}

/// What comes of an expression at `pos`.
fn eval(e: &Expr, toks: &Vec<Tok>, pos: usize, st: ParserState, depth: usize) -> (r: Outcome)
    ensures
        r == run(*e, toks@, pos, st, depth as nat),
    decreases depth, e, toks@.len() + 2,
{
    match e {
        Expr::One(t) => eval_one(*t, toks, pos, st),
        Expr::Keep(p) => if pos < toks.len() && picks(*p, toks[pos]) {
            Outcome { state: st, taken: Some((pos + 1, leaf(pos))) }
        } else {
            Outcome { state: note_missed(st, pos, Want::SomethingElse), taken: None }
        },
        Expr::Both(a, b) => {
            let o = eval(a, toks, pos, st, depth);
            match o.taken {
                None => o,
                Some((p1, t1)) => {
                    let o2 = eval(b, toks, p1, o.state, depth);
                    match o2.taken {
                        None => o2,
                        Some((p2, t2)) => Outcome {
                            state: o2.state,
                            taken: Some((p2, join_trees(t1, t2))),
                        },
                    }
                },
            }
        },
        Expr::Either(a, b) => {
            let o = eval(a, toks, pos, st, depth);
            if o.taken.is_some() {
                o
            } else {
                eval(b, toks, pos, o.state, depth)
            }
        },
        Expr::Maybe(a) => {
            let o = eval(a, toks, pos, st, depth);
            if o.taken.is_some() {
                o
            } else {
                Outcome { state: o.state, taken: Some((pos, Trees::Nil)) }
            }
        },
        Expr::Many(a) => {
            let mut p: usize = pos;
            let mut state = st;
            let mut before = Trees::Nil;
            loop
                invariant
                    *e == Expr::Many(*a),
                    run_many(*e, toks@, p, state, depth as nat, before) == run(
                        *e,
                        toks@,
                        pos,
                        st,
                        depth as nat,
                    ),
                decreases
                        if p <= toks@.len() {
                            toks@.len() - p
                        } else {
                            0
                        },
            {
                let o = eval(a, toks, p, state, depth);
                match o.taken {
                    None => {
                        return Outcome { state: o.state, taken: Some((p, before)) };
                    },
                    Some((p1, t1)) => {
                        if p < p1 && p1 <= toks.len() {
                            p = p1;
                            state = o.state;
                            before = join_trees(before, t1);
                        } else {
                            return Outcome { state: o.state, taken: Some((p, before)) };
                        }
                    },
                }
            }
        },
        Expr::Use(r) => if depth == 0 {
            Outcome { state: note_missed(st, pos, Want::SomethingElse), taken: None }
        } else {
            let body = crate::grammar::production_of(*r);
            let o = eval(&body, toks, pos, st, depth - 1);
            match o.taken {
                Some((end, kids)) => {
                    let node = Tree::Node(*r, pos, end, Box::new(kids));
                    Outcome {
                        state: o.state,
                        taken: Some((end, Trees::Snoc(Box::new(Trees::Nil), Box::new(node)))),
                    }
                },
                None => o,
            }
        },
        Expr::Gated(x, a) => {
            let before = copy_failure(&st.failure);
            let o = eval(a, toks, pos, st, depth);
            match o.taken {
                Some((end, kids)) => if is_enabled(o.state.features, *x) {
                    Outcome { state: o.state, taken: Some((end, kids)) }
                } else {
                    Outcome {
                        state: ParserState {
                            features: o.state.features,
                            failure: object(before, end, (Complaint::Unstable(*x), pos, end)),
                        },
                        taken: None,
                    }
                },
                None => o,
            }
        },
        Expr::Ask => eval_ask(toks, pos, st),
        Expr::NotCpp(c, a) => {
            let starts_cpp = pos < toks.len() && toks[pos] == Tok::CppPathStart;
            let o = eval(a, toks, pos, st, depth);
            match o.taken {
                Some((end, kids)) => if starts_cpp {
                    let to: usize = if end < usize::MAX {
                        end + 1
                    } else {
                        end
                    };
                    Outcome {
                        state: note_objection(o.state, end, (*c, end, to)),
                        taken: None,
                    }
                } else {
                    Outcome { state: o.state, taken: Some((end, kids)) }
                },
                None => o,
            }
        },
        Expr::End => if pos >= toks.len() {
            Outcome { state: st, taken: Some((pos, Trees::Nil)) }
        } else {
            Outcome { state: note_missed(st, pos, Want::EndOfInput), taken: None }
        },
    }
}

/// What the grammar makes of the tokens of a file.
pub fn parse_tokens(toks: &Vec<Tok>) -> (r: Outcome)
    ensures
        r == parse_file(toks@),
{
    let n: usize = toks.len();
    let depth: usize = if n < usize::MAX / 128 {
        128 * (n + 1)
    } else {
        usize::MAX
    };
    let start = ParserState {
        features: UnstableFeatures { cfg_match: false, cfg_if: false, template_types: false },
        failure: Failure { pos: 0, wants: Wants::Nil, complaint: None },
    };
    eval(&Expr::Use(Rule::File), toks, 0, start, depth)
}

} // verus!
