//! What tokens are read as: the token that a type starts with tells what the type
//! is.

use crate::def::ZngurMethodReceiver;
use crate::depth::{lemma_run_goes_on, may_be_empty};
use crate::grammar::production;
use crate::items::safe_method;
use crate::lower::{
    below, first_leaf, has_rule, is_rule, leaf_text, leaf_texts, method_of, path_of, receiver_of,
    type_in, type_kind, type_of, SourceModel,
};
use crate::peg::{
    append, enabled, no_trees, one_tree, picks, run, run_many, start_state, with_feature, Expr,
    Feature, ParserState, Pick, Rule, Tree, Trees, UnstableFeatures,
};
use crate::rust_types::{Mutability, TypeModel};
use crate::scope::{ParsedPathStart, ScopeModel};
use crate::token::{kinds, Tok, Word};
use vstd::prelude::*;

verus! {

/// Whether a choice is between rules alone.
spec fn only_uses(e: Expr) -> bool
    decreases e,
{
    match e {
        Expr::Use(_) => true,
        Expr::Either(a, b) => only_uses(*a) && only_uses(*b),
        _ => false,
    }
}

/// Whether a choice offers a rule.
spec fn offers(e: Expr, r: Rule) -> bool
    decreases e,
{
    match e {
        Expr::Use(q) => q == r,
        Expr::Either(a, b) => offers(*a, r) || offers(*b, r),
        _ => false,
    }
}

/// What a choice between rules takes is what one of them takes.
proof fn lemma_choice(e: Expr, toks: Seq<Tok>, pos: usize, st: ParserState, d: nat) -> (r: (
    Rule,
    ParserState,
))
    requires
        only_uses(e),
        run(e, toks, pos, st, d).taken is Some,
    ensures
        offers(e, r.0),
        run(Expr::Use(r.0), toks, pos, r.1, d).taken == run(e, toks, pos, st, d).taken,
    decreases e,
{
    match e {
        Expr::Use(q) => (q, st),
        Expr::Either(a, b) => {
            let o = run(*a, toks, pos, st, d);
            if o.taken is Some {
                lemma_choice(*a, toks, pos, st, d)
            } else {
                lemma_choice(*b, toks, pos, o.state, d)
            }
        },
        _ => (Rule::File, st),
    }
}

/// What a rule takes is a node over what its expression takes.
proof fn lemma_node(r: Rule, toks: Seq<Tok>, pos: usize, st: ParserState, d: nat)
    requires
        run(Expr::Use(r), toks, pos, st, d).taken is Some,
    ensures
        d > 0,
        ({
            let (end, kids) = run(Expr::Use(r), toks, pos, st, d).taken->0;
            let o = run(*production(r), toks, pos, st, (d - 1) as nat);
            &&& o.taken is Some
            &&& (o.taken->0).0 == end
            &&& kids == one_tree(Tree::Node(r, pos, end, Box::new((o.taken->0).1)))
        }),
{
}

/// Whether tokens from `pos` to the one before `end` are read as the type that a
/// tree is.
pub open spec fn read_as_type(toks: Seq<Tok>, pos: usize, end: usize, t: Tree) -> bool {
    exists|st: ParserState, d: nat|
        (#[trigger] run(Expr::Use(Rule::Type), toks, pos, st, d)).taken == Some((end, one_tree(t)))
}

/// The rules for the kinds of types.
spec fn kind_rule(q: Rule) -> bool {
    q == Rule::Scalar || q == Rule::Boxed || q == Rule::Unit || q == Rule::Tuple || q == Rule::Slice
        || q == Rule::Adt || q == Rule::Reference || q == Rule::RawPointer || q == Rule::DynType
}

proof fn lemma_kinds(q: Rule)
    ensures
        only_uses(*production(Rule::Type)),
        offers(*production(Rule::Type), q) ==> kind_rule(q),
{
    reveal_with_fuel(only_uses, 10);
    reveal_with_fuel(offers, 10);
}

/// The kind of a type that was read, and how its tokens were taken.
proof fn lemma_type(toks: Seq<Tok>, pos: usize, end: usize, t: Tree) -> (r: (
    Rule,
    Trees,
    ParserState,
    nat,
))
    requires
        read_as_type(toks, pos, end, t),
    ensures
        kind_rule(r.0),
        t == Tree::Node(
            Rule::Type,
            pos,
            end,
            Box::new(one_tree(Tree::Node(r.0, pos, end, Box::new(r.1)))),
        ),
        run(*production(r.0), toks, pos, r.2, r.3).taken == Some((end, r.1)),
{
    let (st, d) = choose|st: ParserState, d: nat|
        (#[trigger] run(Expr::Use(Rule::Type), toks, pos, st, d)).taken == Some((end, one_tree(t)));
    lemma_node(Rule::Type, toks, pos, st, d);
    let e = *production(Rule::Type);
    let d1 = (d - 1) as nat;
    lemma_kinds(Rule::File);
    let (q, st1) = lemma_choice(e, toks, pos, st, d1);
    lemma_kinds(q);
    lemma_node(q, toks, pos, st1, d1);
    let k = (run(*production(q), toks, pos, st1, (d1 - 1) as nat).taken->0).1;
    (q, k, st1, (d1 - 1) as nat)
}

proof fn lemma_one(t: Tok, toks: Seq<Tok>, pos: usize, st: ParserState, d: nat)
    ensures
        run(Expr::One(t), toks, pos, st, d).taken == (if pos < toks.len() && toks[pos as int] == t {
            Some(((pos + 1) as usize, no_trees()))
        } else {
            None
        }),
{
}

/// Whether an expression may start with a token; rules are looked into `h` deep.
spec fn may_start(e: Expr, t: Tok, h: nat) -> bool
    decreases h, e,
{
    match e {
        Expr::One(x) => x == t,
        Expr::Keep(p) => picks(p, t),
        Expr::Both(a, b) => may_start(*a, t, h) || (may_be_empty(*a) && may_start(*b, t, h)),
        Expr::Either(a, b) => may_start(*a, t, h) || may_start(*b, t, h),
        Expr::Many(a) => may_start(*a, t, h),
        Expr::Maybe(a) => may_start(*a, t, h),
        Expr::Use(r) => h == 0 || may_start(*production(r), t, (h - 1) as nat),
        Expr::Gated(_, a) => may_start(*a, t, h),
        Expr::NotCpp(_, a) => may_start(*a, t, h),
        Expr::Ask => t == Tok::ParenOpen,
        Expr::End => false,
    }
}

/// What is taken starts with a token that may start it.
proof fn lemma_start(e: Expr, toks: Seq<Tok>, pos: usize, st: ParserState, d: nat, h: nat)
    requires
        pos <= toks.len() <= usize::MAX,
        run(e, toks, pos, st, d).taken is Some,
        (run(e, toks, pos, st, d).taken->0).0 > pos,
    ensures
        pos < toks.len(),
        may_start(e, toks[pos as int], h),
    decreases d, e,
{
    lemma_run_goes_on(e, toks, pos, st, d);
    match e {
        Expr::Both(a, b) => {
            lemma_run_goes_on(*a, toks, pos, st, d);
            let o = run(*a, toks, pos, st, d);
            let p1 = (o.taken->0).0;
            if p1 > pos {
                lemma_start(*a, toks, pos, st, d, h);
            } else {
                lemma_start(*b, toks, pos, o.state, d, h);
            }
        },
        Expr::Either(a, b) => {
            let o = run(*a, toks, pos, st, d);
            if o.taken is Some {
                lemma_start(*a, toks, pos, st, d, h);
            } else {
                lemma_start(*b, toks, pos, o.state, d, h);
            }
        },
        Expr::Maybe(a) => {
            lemma_start(*a, toks, pos, st, d, h);
        },
        Expr::Many(a) => {
            let o = run(*a, toks, pos, st, d);
            assert(run(e, toks, pos, st, d) == run_many(e, toks, pos, st, d, no_trees()));
            lemma_start(*a, toks, pos, st, d, h);
        },
        Expr::Use(r) => {
            if h > 0 {
                lemma_start(*production(r), toks, pos, st, (d - 1) as nat, (h - 1) as nat);
            }
        },
        Expr::Gated(_, a) => lemma_start(*a, toks, pos, st, d, h),
        Expr::NotCpp(_, a) => lemma_start(*a, toks, pos, st, d, h),
        _ => {},
    }
}

/// The tokens that a type of each kind may start with.
spec fn starts_kind(q: Rule, t: Tok) -> bool {
    match q {
        Rule::Scalar => t is Ident && t->Ident_0 is Scalar,
        Rule::Boxed => t == Tok::Ident(Word::Box),
        Rule::Unit | Rule::Tuple => t == Tok::ParenOpen,
        Rule::Slice => t == Tok::BracketOpen,
        Rule::Adt => t is Ident || t == Tok::ColonColon || t == Tok::KwCrate || t
            == Tok::CppPathStart,
        Rule::Reference => t == Tok::And,
        Rule::RawPointer => t == Tok::Star,
        Rule::DynType => t == Tok::KwDyn || t == Tok::KwImpl,
        _ => false,
    }
}

proof fn lemma_kind_starts(q: Rule, t: Tok)
    requires
        kind_rule(q),
        may_start(*production(q), t, 4),
    ensures
        starts_kind(q, t),
        !may_be_empty(*production(q)),
{
    lemma_not_empty(q);
    if q == Rule::Adt {
        lemma_path_starts(t);
    } else {
        reveal_with_fuel(may_start, 7);
        reveal_with_fuel(may_be_empty, 7);
    }
}

proof fn lemma_path_starts(t: Tok)
    requires
        may_start(*production(Rule::Adt), t, 4),
    ensures
        starts_kind(Rule::Adt, t),
{
    let e = *production(Rule::PathGenerics);
    assert(may_start(e, t, 3));
    assert(may_be_empty(Expr::Use(Rule::Path)) == false);
    assert(may_start(Expr::Use(Rule::Path), t, 3));
    let p = *production(Rule::Path);
    assert(may_start(p, t, 2));
    reveal_with_fuel(may_start, 9);
    reveal_with_fuel(may_be_empty, 9);
}

/// A type that was read starts with a token of its kind.
proof fn lemma_first_token(toks: Seq<Tok>, pos: usize, end: usize, q: Rule, k: Trees, st: ParserState, d: nat)
    requires
        pos <= toks.len() <= usize::MAX,
        kind_rule(q),
        run(*production(q), toks, pos, st, d).taken == Some((end, k)),
    ensures
        pos < toks.len(),
        starts_kind(q, toks[pos as int]),
{
    let e = *production(q);
    lemma_run_goes_on(e, toks, pos, st, d);
    lemma_not_empty(q);
    lemma_start(e, toks, pos, st, d, 4);
    lemma_kind_starts(q, toks[pos as int]);
}

proof fn lemma_not_empty(q: Rule)
    requires
        kind_rule(q),
    ensures
        !may_be_empty(*production(q)),
{
    reveal_with_fuel(may_be_empty, 9);
}

/// The one, then the other.
proof fn lemma_both(a: Expr, b: Expr, toks: Seq<Tok>, pos: usize, st: ParserState, d: nat) -> (r: (
    usize,
    Trees,
    ParserState,
    Trees,
))
    requires
        run(Expr::Both(Box::new(a), Box::new(b)), toks, pos, st, d).taken is Some,
    ensures
        run(a, toks, pos, st, d).taken == Some((r.0, r.1)),
        run(b, toks, r.0, r.2, d).taken == Some(
            ((run(Expr::Both(Box::new(a), Box::new(b)), toks, pos, st, d).taken->0).0, r.3),
        ),
        (run(Expr::Both(Box::new(a), Box::new(b)), toks, pos, st, d).taken->0).1 == append(r.1, r.3),
        run(a, toks, pos, st, d).state == r.2,
{
    let o = run(a, toks, pos, st, d);
    let (p1, t1) = o.taken->0;
    let o2 = run(b, toks, p1, o.state, d);
    (p1, t1, o.state, (o2.taken->0).1)
}

proof fn lemma_append_nil(a: Trees)
    ensures
        append(no_trees(), a) == a,
        append(a, no_trees()) == a,
    decreases a,
{
    if let Trees::Snoc(rest, _) = a {
        lemma_append_nil(*rest);
    }
}

/// `&`, maybe `mut`, and a type.
proof fn lemma_reference(toks: Seq<Tok>, pos: usize, end: usize, k: Trees, st: ParserState, d: nat) -> (t: Tree)
    requires
        pos <= toks.len() <= usize::MAX,
        run(*production(Rule::Reference), toks, pos, st, d).taken == Some((end, k)),
    ensures
        pos + 1 < toks.len(),
        is_rule(t, Rule::Type),
        read_as_type(
            toks,
            (if toks[pos + 1] == Tok::KwMut {
                pos + 2
            } else {
                pos + 1
            }) as usize,
            end,
            t,
        ),
        has_rule(k, Rule::MutKw) <==> toks[pos + 1] == Tok::KwMut,
        k is Snoc,
        *(k->Snoc_1) == t,
{
    let maybe_mut = Expr::Maybe(Box::new(Expr::Use(Rule::MutKw)));
    let ty = Expr::Use(Rule::Type);
    let rest = Expr::Both(Box::new(maybe_mut), Box::new(ty));
    assert(*production(Rule::Reference) == Expr::Both(Box::new(Expr::One(Tok::And)), Box::new(rest)));
    let (p1, k1, st1, k2) = lemma_both(Expr::One(Tok::And), rest, toks, pos, st, d);
    lemma_one(Tok::And, toks, pos, st, d);
    lemma_append_nil(k2);
    let (p2, m, st2, k3) = lemma_both(maybe_mut, ty, toks, p1, st1, d);
    lemma_node(Rule::Type, toks, p2, st2, d);
    assert(*production(Rule::MutKw) == Expr::One(Tok::KwMut));
    let d1 = (d - 1) as nat;
    lemma_one(Tok::KwMut, toks, p1, st1, d1);
    let o = run(Expr::Use(Rule::MutKw), toks, p1, st1, d);
    assert(o == crate::peg::close_rule(
        Rule::MutKw,
        p1,
        run(Expr::One(Tok::KwMut), toks, p1, st1, d1),
    ));
    lemma_run_goes_on(ty, toks, p2, st2, d);
    let t = *(k3->Snoc_1);
    assert(k3 == one_tree(t));
    reveal_with_fuel(append, 3);
    reveal_with_fuel(has_rule, 3);
    assert(run(Expr::Use(Rule::Type), toks, p2, st2, d).taken == Some((end, one_tree(t))));
    t
}

/// `*`, `mut` or `const`, and a type.
proof fn lemma_raw_pointer(toks: Seq<Tok>, pos: usize, end: usize, k: Trees, st: ParserState, d: nat) -> (t: Tree)
    requires
        pos <= toks.len() <= usize::MAX,
        run(*production(Rule::RawPointer), toks, pos, st, d).taken == Some((end, k)),
    ensures
        pos + 1 < toks.len(),
        toks[pos + 1] == Tok::KwMut || toks[pos + 1] == Tok::KwConst,
        is_rule(t, Rule::Type),
        read_as_type(toks, (pos + 2) as usize, end, t),
        has_rule(k, Rule::MutKw) <==> toks[pos + 1] == Tok::KwMut,
        k is Snoc,
        *(k->Snoc_1) == t,
{
    let m = Expr::Use(Rule::MutKw);
    let c = Expr::Use(Rule::ConstKw);
    let word = Expr::Either(Box::new(m), Box::new(c));
    let ty = Expr::Use(Rule::Type);
    let rest = Expr::Both(Box::new(word), Box::new(ty));
    assert(*production(Rule::RawPointer) == Expr::Both(
        Box::new(Expr::One(Tok::Star)),
        Box::new(rest),
    ));
    let (p1, k1, st1, k2) = lemma_both(Expr::One(Tok::Star), rest, toks, pos, st, d);
    lemma_one(Tok::Star, toks, pos, st, d);
    lemma_append_nil(k2);
    let (p2, w, st2, k3) = lemma_both(word, ty, toks, p1, st1, d);
    lemma_node(Rule::Type, toks, p2, st2, d);
    let d1 = (d - 1) as nat;
    let o = run(m, toks, p1, st1, d);
    assert(*production(Rule::MutKw) == Expr::One(Tok::KwMut));
    assert(*production(Rule::ConstKw) == Expr::One(Tok::KwConst));
    lemma_one(Tok::KwMut, toks, p1, st1, d1);
    lemma_one(Tok::KwConst, toks, p1, o.state, d1);
    assert(o == crate::peg::close_rule(
        Rule::MutKw,
        p1,
        run(Expr::One(Tok::KwMut), toks, p1, st1, d1),
    ));
    assert(run(c, toks, p1, o.state, d) == crate::peg::close_rule(
        Rule::ConstKw,
        p1,
        run(Expr::One(Tok::KwConst), toks, p1, o.state, d1),
    ));
    let t = *(k3->Snoc_1);
    reveal_with_fuel(append, 3);
    reveal_with_fuel(has_rule, 3);
    assert(run(Expr::Use(Rule::Type), toks, p2, st2, d).taken == Some((end, one_tree(t))));
    t
}

/// `[`, a type and `]`.
proof fn lemma_slice(toks: Seq<Tok>, pos: usize, end: usize, k: Trees, st: ParserState, d: nat) -> (t: Tree)
    requires
        pos <= toks.len() <= usize::MAX,
        run(*production(Rule::Slice), toks, pos, st, d).taken == Some((end, k)),
    ensures
        pos < end - 1 < toks.len(),
        toks[end - 1] == Tok::BracketClose,
        is_rule(t, Rule::Type),
        read_as_type(toks, (pos + 1) as usize, (end - 1) as usize, t),
        k is Snoc,
        *(k->Snoc_1) == t,
{
    let ty = Expr::Use(Rule::Type);
    let close = Expr::One(Tok::BracketClose);
    let rest = Expr::Both(Box::new(ty), Box::new(close));
    assert(*production(Rule::Slice) == Expr::Both(
        Box::new(Expr::One(Tok::BracketOpen)),
        Box::new(rest),
    ));
    let (p1, k1, st1, k2) = lemma_both(Expr::One(Tok::BracketOpen), rest, toks, pos, st, d);
    lemma_one(Tok::BracketOpen, toks, pos, st, d);
    lemma_append_nil(k2);
    let (p2, k3, st2, k4) = lemma_both(ty, close, toks, p1, st1, d);
    lemma_one(Tok::BracketClose, toks, p2, st2, d);
    lemma_append_nil(k3);
    lemma_node(Rule::Type, toks, p1, st1, d);
    lemma_run_goes_on(ty, toks, p1, st1, d);
    let t = *(k3->Snoc_1);
    assert(run(Expr::Use(Rule::Type), toks, p1, st1, d).taken == Some((p2, one_tree(t))));
    t
}

/// `dyn` or `impl`, and what behind it.
proof fn lemma_dyn(toks: Seq<Tok>, pos: usize, end: usize, k: Trees, st: ParserState, d: nat)
    requires
        pos <= toks.len() <= usize::MAX,
        run(*production(Rule::DynType), toks, pos, st, d).taken == Some((end, k)),
    ensures
        toks[pos as int] == Tok::KwDyn ==> has_rule(k, Rule::DynKw),
        toks[pos as int] == Tok::KwImpl ==> !has_rule(k, Rule::DynKw),
{
    let a = Expr::Use(Rule::DynKw);
    let b = Expr::Use(Rule::ImplKw);
    let word = Expr::Either(Box::new(a), Box::new(b));
    let tr = Expr::Use(Rule::Trait);
    let bounds = Expr::Many(Box::new(Expr::Use(Rule::Bound)));
    let rest = Expr::Both(Box::new(tr), Box::new(bounds));
    assert(*production(Rule::DynType) == Expr::Both(Box::new(word), Box::new(rest)));
    let (p1, w, st1, k2) = lemma_both(word, rest, toks, pos, st, d);
    let (p2, k3, st2, k4) = lemma_both(tr, bounds, toks, p1, st1, d);
    lemma_node(Rule::Trait, toks, p1, st1, d);
    let d1 = (d - 1) as nat;
    let o = run(a, toks, pos, st, d);
    assert(*production(Rule::DynKw) == Expr::One(Tok::KwDyn));
    assert(*production(Rule::ImplKw) == Expr::One(Tok::KwImpl));
    lemma_one(Tok::KwDyn, toks, pos, st, d1);
    lemma_one(Tok::KwImpl, toks, pos, o.state, d1);
    assert(o == crate::peg::close_rule(
        Rule::DynKw,
        pos,
        run(Expr::One(Tok::KwDyn), toks, pos, st, d1),
    ));
    assert(run(b, toks, pos, o.state, d) == crate::peg::close_rule(
        Rule::ImplKw,
        pos,
        run(Expr::One(Tok::KwImpl), toks, pos, o.state, d1),
    ));
    lemma_many_of(Rule::Bound, toks, p2, st2, d, no_trees());
    lemma_has_append(k3, k4, Rule::DynKw);
    lemma_has_append(w, k2, Rule::DynKw);
    reveal_with_fuel(has_rule, 3);
}

proof fn lemma_has_append(a: Trees, b: Trees, r: Rule)
    ensures
        has_rule(append(a, b), r) == (has_rule(a, r) || has_rule(b, r)),
    decreases b,
{
    if let Trees::Snoc(rest, _) = b {
        lemma_has_append(a, *rest, r);
    }
}

/// A repetition of one rule gives trees of that rule alone.
proof fn lemma_many_of(q: Rule, toks: Seq<Tok>, pos: usize, st: ParserState, d: nat, before: Trees)
    ensures
        run_many(Expr::Many(Box::new(Expr::Use(q))), toks, pos, st, d, before).taken matches Some(
            (_, k),
        ) ==> forall|r: Rule| r != q ==> #[trigger] has_rule(k, r) == has_rule(before, r),
    decreases
            if pos <= toks.len() {
                toks.len() - pos
            } else {
                0
            },
{
    let e = Expr::Many(Box::new(Expr::Use(q)));
    let o = run(Expr::Use(q), toks, pos, st, d);
    if let Some((p1, t1)) = o.taken {
        lemma_node(q, toks, pos, st, d);
        if pos < p1 <= toks.len() {
            lemma_many_of(q, toks, p1, o.state, d, append(before, t1));
            assert forall|r: Rule| r != q implies #[trigger] has_rule(append(before, t1), r)
                == has_rule(before, r) by {
                lemma_has_append(before, t1, r);
                reveal_with_fuel(has_rule, 2);
            }
        }
    }
}

proof fn lemma_kind_of(t: Tree, q: Rule, pos: usize, end: usize, k: Trees, src: SourceModel, sc: ScopeModel)
    requires
        t == Tree::Node(
            Rule::Type,
            pos,
            end,
            Box::new(one_tree(Tree::Node(q, pos, end, Box::new(k)))),
        ),
    ensures
        type_of(t, src, sc) == type_kind(Tree::Node(q, pos, end, Box::new(k)), src, sc),
{
}

/// Whether the tokens from `pos` up to `end` are read as the type `ty`.
pub open spec fn reads_to(src: SourceModel, sc: ScopeModel, pos: usize, end: usize, ty: TypeModel) -> bool {
    exists|u: Tree| #[trigger]
        read_as_type(kinds(src.toks), pos, end, u) && ty == type_of(u, src, sc)
}

/// Where `&` starts a type, what is read is a reference to the type that the
/// tokens behind it are read as, mutable exactly where `mut` stands behind the
/// `&`.
pub proof fn law_references_are_read(src: SourceModel, sc: ScopeModel, pos: usize, end: usize, t: Tree)
    requires
        pos < src.toks.len() <= usize::MAX,
        read_as_type(kinds(src.toks), pos, end, t),
        src.toks[pos as int].tok == Tok::And,
    ensures
        pos + 1 < src.toks.len(),
        type_of(t, src, sc) matches TypeModel::Ref(m, target) && (m == Mutability::Mut
            <==> src.toks[pos + 1].tok == Tok::KwMut) && reads_to(
            src,
            sc,
            if m == Mutability::Mut {
                (pos + 2) as usize
            } else {
                (pos + 1) as usize
            },
            end,
            *target,
        ),
{
    let toks = kinds(src.toks);
    let (q, k, st, d) = lemma_type(toks, pos, end, t);
    lemma_first_token(toks, pos, end, q, k, st, d);
    assert(toks[pos as int] == Tok::And);
    let u = lemma_reference(toks, pos, end, k, st, d);
    lemma_kind_of(t, q, pos, end, k, src, sc);
    assert(type_in(k, src, sc) == type_of(u, src, sc));
}

/// Where `*` starts a type, what is read is a raw pointer to the type that the
/// tokens behind `mut` or `const` are read as, mutable exactly for `mut`.
pub proof fn law_raw_pointers_are_read(src: SourceModel, sc: ScopeModel, pos: usize, end: usize, t: Tree)
    requires
        pos < src.toks.len() <= usize::MAX,
        read_as_type(kinds(src.toks), pos, end, t),
        src.toks[pos as int].tok == Tok::Star,
    ensures
        pos + 1 < src.toks.len(),
        src.toks[pos + 1].tok == Tok::KwMut || src.toks[pos + 1].tok == Tok::KwConst,
        type_of(t, src, sc) matches TypeModel::Raw(m, target) && (m == Mutability::Mut
            <==> src.toks[pos + 1].tok == Tok::KwMut) && reads_to(
            src,
            sc,
            (pos + 2) as usize,
            end,
            *target,
        ),
{
    let toks = kinds(src.toks);
    let (q, k, st, d) = lemma_type(toks, pos, end, t);
    lemma_first_token(toks, pos, end, q, k, st, d);
    assert(toks[pos as int] == Tok::Star);
    let u = lemma_raw_pointer(toks, pos, end, k, st, d);
    lemma_kind_of(t, q, pos, end, k, src, sc);
    assert(type_in(k, src, sc) == type_of(u, src, sc));
}

/// Where `[` starts a type, what is read is a slice of the type that the tokens
/// up to the `]` are read as.
pub proof fn law_slices_are_read(src: SourceModel, sc: ScopeModel, pos: usize, end: usize, t: Tree)
    requires
        pos < src.toks.len() <= usize::MAX,
        read_as_type(kinds(src.toks), pos, end, t),
        src.toks[pos as int].tok == Tok::BracketOpen,
    ensures
        pos < end - 1 < src.toks.len(),
        src.toks[end - 1].tok == Tok::BracketClose,
        type_of(t, src, sc) matches TypeModel::Slice(item) && reads_to(
            src,
            sc,
            (pos + 1) as usize,
            (end - 1) as usize,
            *item,
        ),
{
    let toks = kinds(src.toks);
    let (q, k, st, d) = lemma_type(toks, pos, end, t);
    lemma_first_token(toks, pos, end, q, k, st, d);
    assert(toks[pos as int] == Tok::BracketOpen);
    let u = lemma_slice(toks, pos, end, k, st, d);
    lemma_kind_of(t, q, pos, end, k, src, sc);
    assert(type_in(k, src, sc) == type_of(u, src, sc));
}

/// `Box`, maybe `::`, and a type in angle brackets.
proof fn lemma_boxed(toks: Seq<Tok>, pos: usize, end: usize, k: Trees, st: ParserState, d: nat) -> (r: (
    usize,
    usize,
    Tree,
))
    requires
        pos <= toks.len() <= usize::MAX,
        run(*production(Rule::Boxed), toks, pos, st, d).taken == Some((end, k)),
    ensures
        pos + 2 <= r.0 <= pos + 3,
        r.0 <= r.1,
        r.1 + 1 <= end <= r.1 + 2,
        end <= toks.len(),
        toks[r.0 - 1] == Tok::AngleOpen,
        toks[end - 1] == Tok::AngleClose,
        is_rule(r.2, Rule::Type),
        read_as_type(toks, r.0, r.1, r.2),
        k is Snoc,
        *(k->Snoc_1) == r.2,
{
    let b = Expr::One(Tok::Ident(Word::Box));
    let c = Expr::Maybe(Box::new(Expr::One(Tok::ColonColon)));
    let o = Expr::One(Tok::AngleOpen);
    let ty = Expr::Use(Rule::Type);
    let m = Expr::Maybe(Box::new(Expr::One(Tok::Comma)));
    let z = Expr::One(Tok::AngleClose);
    let e4 = Expr::Both(Box::new(m), Box::new(z));
    let e3 = Expr::Both(Box::new(ty), Box::new(e4));
    let e2 = Expr::Both(Box::new(o), Box::new(e3));
    let e1 = Expr::Both(Box::new(c), Box::new(e2));
    assert(*production(Rule::Boxed) == Expr::Both(Box::new(b), Box::new(e1)));
    let (p1, k1, st1, r1) = lemma_both(b, e1, toks, pos, st, d);
    lemma_one(Tok::Ident(Word::Box), toks, pos, st, d);
    lemma_append_nil(r1);
    let (p2, k2, st2, r2) = lemma_both(c, e2, toks, p1, st1, d);
    lemma_one(Tok::ColonColon, toks, p1, st1, d);
    lemma_append_nil(r2);
    let (p3, k3, st3, r3) = lemma_both(o, e3, toks, p2, st2, d);
    lemma_one(Tok::AngleOpen, toks, p2, st2, d);
    lemma_append_nil(r3);
    let (p4, k4, st4, r4) = lemma_both(ty, e4, toks, p3, st3, d);
    lemma_node(Rule::Type, toks, p3, st3, d);
    lemma_run_goes_on(ty, toks, p3, st3, d);
    let (p5, k5, st5, r5) = lemma_both(m, z, toks, p4, st4, d);
    lemma_one(Tok::Comma, toks, p4, st4, d);
    lemma_one(Tok::AngleClose, toks, p5, st5, d);
    lemma_append_nil(k4);
    let t = *(k4->Snoc_1);
    assert(run(Expr::Use(Rule::Type), toks, p3, st3, d).taken == Some((p4, one_tree(t))));
    (p3, p4, t)
}

/// A box is read as a box of the type that the tokens between its angle brackets
/// are read as.
pub proof fn law_boxes_are_read(src: SourceModel, sc: ScopeModel, pos: usize, end: usize, t: Tree)
    requires
        pos < src.toks.len() <= usize::MAX,
        read_as_type(kinds(src.toks), pos, end, t),
        type_of(t, src, sc) is Boxed,
    ensures
        src.toks[pos as int].tok == Tok::Ident(Word::Box),
        exists|from: usize, to: usize|
            pos + 2 <= from <= pos + 3 && to < end && src.toks[from - 1].tok == Tok::AngleOpen
                && src.toks[end - 1].tok == Tok::AngleClose && #[trigger] reads_to(
                src,
                sc,
                from,
                to,
                *(type_of(t, src, sc)->Boxed_0),
            ),
{
    let toks = kinds(src.toks);
    let (q, k, st, d) = lemma_type(toks, pos, end, t);
    law_first_token_tells_the_type(src, sc, pos, end, t);
    lemma_kind_of(t, q, pos, end, k, src, sc);
    if q == Rule::Boxed {
        let (from, to, u) = lemma_boxed(toks, pos, end, k, st, d);
        assert(type_in(k, src, sc) == type_of(u, src, sc));
        assert(reads_to(src, sc, from, to, *(type_of(t, src, sc)->Boxed_0)));
        assert(toks[from - 1] == src.toks[from - 1].tok);
        assert(toks[end - 1] == src.toks[end - 1].tok);
    } else {
        lemma_not_boxed(q, pos, end, k, src, sc);
    }
}

proof fn lemma_not_boxed(q: Rule, pos: usize, end: usize, k: Trees, src: SourceModel, sc: ScopeModel)
    requires
        q != Rule::Boxed,
    ensures
        !(type_kind(Tree::Node(q, pos, end, Box::new(k)), src, sc) is Boxed),
{
}

/// What a type is read as is told by its first token: `dyn` gives a trait object,
/// `impl` an `impl Trait`, `(` a tuple, the name of a primitive type that type,
/// and a reference, a raw pointer or a slice come of nothing but `&`, `*` and `[`.
pub proof fn law_first_token_tells_the_type(src: SourceModel, sc: ScopeModel, pos: usize, end: usize, t: Tree)
    requires
        pos < src.toks.len() <= usize::MAX,
        read_as_type(kinds(src.toks), pos, end, t),
    ensures
        ({
            let first = src.toks[pos as int].tok;
            let ty = type_of(t, src, sc);
            &&& (ty is Dyn <==> first == Tok::KwDyn)
            &&& (ty is Impl <==> first == Tok::KwImpl)
            &&& (ty is Tuple <==> first == Tok::ParenOpen)
            &&& (ty is Ref <==> first == Tok::And)
            &&& (ty is Raw <==> first == Tok::Star)
            &&& (ty is Slice <==> first == Tok::BracketOpen)
            &&& (ty is Boxed ==> first == Tok::Ident(Word::Box))
            &&& (ty matches TypeModel::Primitive(p) ==> first == Tok::Ident(Word::Scalar(p)))
            &&& (ty is Adt || ty is TypeVar || ty is Cpp ==> first is Ident || first
                == Tok::ColonColon || first == Tok::KwCrate || first == Tok::CppPathStart)
        }),
{
    let toks = kinds(src.toks);
    let (q, k, st, d) = lemma_type(toks, pos, end, t);
    lemma_first_token(toks, pos, end, q, k, st, d);
    assert(toks[pos as int] == src.toks[pos as int].tok);
    lemma_kind_of(t, q, pos, end, k, src, sc);
    if q == Rule::DynType {
        lemma_dyn(toks, pos, end, k, st, d);
    }
    if q == Rule::Scalar {
        assert(*production(q) == Expr::Keep(Pick::ScalarType));
        assert(k == one_tree(Tree::Leaf(pos)));
        assert(pos < usize::MAX);
        reveal_with_fuel(first_leaf, 3);
        assert(first_leaf(k) == pos);
    }
}

/// The receiver that the first input of a method declares has the mutability of
/// the reference that the input is, and one that is no reference is taken as a
/// value or is none.
pub proof fn law_receiver_is_its_input(t: Tree, src: SourceModel, sc: ScopeModel)
    ensures
        receiver_of(Some(t), src, sc) matches ZngurMethodReceiver::Ref(m) ==> type_of(t, src, sc) matches TypeModel::Ref(
            n,
            _,
        ) && m == n,
        type_of(t, src, sc) is Ref ==> receiver_of(Some(t), src, sc) != ZngurMethodReceiver::Move,
        receiver_of(None, src, sc) == ZngurMethodReceiver::Static,
{
}

/// Whether tokens from `pos` to the one before `end` are read as the path that a
/// tree is.
pub open spec fn read_as_path(toks: Seq<Tok>, pos: usize, end: usize, t: Tree) -> bool {
    exists|st: ParserState, d: nat|
        (#[trigger] run(Expr::Use(Rule::Path), toks, pos, st, d)).taken == Some((end, one_tree(t)))
}

/// Whether the names from `from` to the one before `end`, with `::` between them,
/// are the segments.
pub open spec fn names_of(src: SourceModel, from: int, end: int, segments: Seq<Seq<char>>) -> bool {
    &&& 0 <= from
    &&& segments.len() > 0
    &&& end == from + 2 * segments.len() - 1
    &&& end <= src.toks.len()
    &&& forall|j: int|
        0 <= j < segments.len() ==> #[trigger] segments[j] == src.toks[from + 2 * j].text
}

/// The names behind the first one.
proof fn lemma_names(src: SourceModel, pos: usize, st: ParserState, d: nat, before: Trees, from: int)
    requires
        src.toks.len() <= usize::MAX,
        pos <= src.toks.len(),
        names_of(src, from, pos as int, leaf_texts(before, src)),
    ensures
        ({
            let e = Expr::Many(
                Box::new(
                    Expr::Both(
                        Box::new(Expr::One(Tok::ColonColon)),
                        Box::new(Expr::Keep(Pick::AnyIdent)),
                    ),
                ),
            );
            run_many(e, kinds(src.toks), pos, st, d, before).taken matches Some((end, k)) && (forall|
                r: Rule,
            | #[trigger]
                has_rule(k, r) == has_rule(before, r)) && names_of(
                src,
                from,
                end as int,
                leaf_texts(k, src),
            )
        }),
    decreases src.toks.len() - pos,
{
    let toks = kinds(src.toks);
    let a = Expr::One(Tok::ColonColon);
    let b = Expr::Keep(Pick::AnyIdent);
    let one = Expr::Both(Box::new(a), Box::new(b));
    let e = Expr::Many(Box::new(one));
    let o = run(one, toks, pos, st, d);
    if let Some((p1, t1)) = o.taken {
        let (q, x, st1, y) = lemma_both(a, b, toks, pos, st, d);
        lemma_one(Tok::ColonColon, toks, pos, st, d);
        lemma_append_nil(y);
        assert(t1 == one_tree(Tree::Leaf(q)));
        let more = append(before, t1);
        assert(more == Trees::Snoc(Box::new(before), Box::new(Tree::Leaf(q)))) by {
            reveal_with_fuel(append, 3);
        }
        let v = leaf_texts(before, src);
        assert(leaf_texts(more, src) == v.push(src.toks[q as int].text));
        assert forall|j: int| 0 <= j < v.len() + 1 implies #[trigger] leaf_texts(more, src)[j]
            == src.toks[from + 2 * j].text by {
            if j < v.len() {
                assert(leaf_texts(more, src)[j] == v[j]);
            }
        }
        lemma_names(src, p1, o.state, d, more, from);
        assert(run_many(e, toks, pos, st, d, before) == run_many(e, toks, p1, o.state, d, more));
    }
}

/// A path is read from the place that its first token tells: `::` the root,
/// `crate` the crate, `c++` the C++ types, and a name the module around it; its
/// segments are the names in it.
pub proof fn law_paths_are_read(src: SourceModel, pos: usize, end: usize, t: Tree)
    requires
        pos < src.toks.len() <= usize::MAX,
        read_as_path(kinds(src.toks), pos, end, t),
    ensures
        ({
            let first = src.toks[pos as int].tok;
            let p = path_of(t, src);
            &&& (p.start == ParsedPathStart::Absolute <==> first == Tok::ColonColon)
            &&& (p.start == ParsedPathStart::Crate <==> first == Tok::KwCrate)
            &&& (p.start == ParsedPathStart::Cpp <==> first == Tok::CppPathStart)
            &&& (p.start == ParsedPathStart::Relative <==> first is Ident)
            &&& (p.segments.len() == 0 <==> first == Tok::KwCrate && end == pos + 1)
            &&& (p.segments.len() > 0 ==> names_of(
                src,
                if first is Ident {
                    pos as int
                } else if first == Tok::ColonColon {
                    pos + 1
                } else {
                    pos + 2
                },
                end as int,
                p.segments,
            ))
        }),
{
    let toks = kinds(src.toks);
    let (st, d0) = choose|st: ParserState, d: nat|
        (#[trigger] run(Expr::Use(Rule::Path), toks, pos, st, d)).taken == Some((end, one_tree(t)));
    lemma_node(Rule::Path, toks, pos, st, d0);
    let d = (d0 - 1) as nat;
    let a = Expr::Use(Rule::Absolute);
    let c = Expr::Use(Rule::CrateStart);
    let x = Expr::Use(Rule::CppStart);
    let start = Expr::Either(Box::new(a), Box::new(Expr::Either(Box::new(c), Box::new(x))));
    let name = Expr::Keep(Pick::AnyIdent);
    let next = Expr::Both(Box::new(Expr::One(Tok::ColonColon)), Box::new(name));
    let rest = Expr::Both(Box::new(name), Box::new(Expr::Many(Box::new(next))));
    let long = Expr::Both(Box::new(Expr::Maybe(Box::new(start))), Box::new(rest));
    assert(*production(Rule::Path) == Expr::Either(
        Box::new(long),
        Box::new(Expr::Use(Rule::BareCrate)),
    ));
    let o = run(long, toks, pos, st, d);
    let k = below(t);
    if o.taken is Some {
        let (p1, s1, st1, k2) = lemma_both(Expr::Maybe(Box::new(start)), rest, toks, pos, st, d);
        lemma_path_start(toks, pos, st, d);
        let (p2, s2, st2, k3) = lemma_both(name, Expr::Many(Box::new(next)), toks, p1, st1, d);
        assert(s2 == one_tree(Tree::Leaf(p1)));
        reveal_with_fuel(leaf_texts, 3);
        assert(leaf_texts(s2, src) =~= seq![src.toks[p1 as int].text]);
        lemma_names_behind(src, p1, p2, st2, d);
        lemma_start_and_names(src, s1, s2, k3, k2);
        assert(k == append(s1, k2));
    } else {
        lemma_node(Rule::BareCrate, toks, pos, o.state, d);
        let d1 = (d - 1) as nat;
        assert(*production(Rule::BareCrate) == Expr::One(Tok::KwCrate));
        lemma_one(Tok::KwCrate, toks, pos, o.state, d1);
        assert(k == one_tree(Tree::Node(Rule::BareCrate, pos, end, Box::new(no_trees()))));
        reveal_with_fuel(has_rule, 3);
        reveal_with_fuel(leaf_texts, 3);
    }
}

/// What a path starts with: the rule tells the token, and nothing is kept of it.
proof fn lemma_path_start(toks: Seq<Tok>, pos: usize, st: ParserState, d: nat)
    requires
        pos < toks.len() <= usize::MAX,
    ensures
        ({
            let a = Expr::Use(Rule::Absolute);
            let c = Expr::Use(Rule::CrateStart);
            let x = Expr::Use(Rule::CppStart);
            let start = Expr::Either(
                Box::new(a),
                Box::new(Expr::Either(Box::new(c), Box::new(x))),
            );
            run(Expr::Maybe(Box::new(start)), toks, pos, st, d).taken matches Some((p, k)) && {
                ||| p == pos && k == no_trees()
                ||| p == pos + 1 && toks[pos as int] == Tok::ColonColon && is_start(
                    k,
                    Rule::Absolute,
                )
                ||| p == pos + 2 && toks[pos as int] == Tok::KwCrate && is_start(
                    k,
                    Rule::CrateStart,
                )
                ||| p == pos + 2 && toks[pos as int] == Tok::CppPathStart && is_start(
                    k,
                    Rule::CppStart,
                )
            }
        }),
{
    let a = Expr::Use(Rule::Absolute);
    let c = Expr::Use(Rule::CrateStart);
    let x = Expr::Use(Rule::CppStart);
    let cx = Expr::Either(Box::new(c), Box::new(x));
    let start = Expr::Either(Box::new(a), Box::new(cx));
    let oa = run(a, toks, pos, st, d);
    let oc = run(c, toks, pos, oa.state, d);
    let ox = run(x, toks, pos, oc.state, d);
    let ocx = run(cx, toks, pos, oa.state, d);
    assert(ocx.taken == (if oc.taken is Some {
        oc.taken
    } else {
        ox.taken
    }));
    assert(run(start, toks, pos, st, d).taken == (if oa.taken is Some {
        oa.taken
    } else if oc.taken is Some {
        oc.taken
    } else {
        ox.taken
    }));
    if oa.taken is Some {
        lemma_node(Rule::Absolute, toks, pos, st, d);
        let d1 = (d - 1) as nat;
        assert(*production(Rule::Absolute) == Expr::One(Tok::ColonColon));
        lemma_one(Tok::ColonColon, toks, pos, st, d1);
    } else if oc.taken is Some {
        lemma_node(Rule::CrateStart, toks, pos, oa.state, d);
        lemma_two(Rule::CrateStart, Tok::KwCrate, toks, pos, oa.state, (d - 1) as nat);
    } else if ox.taken is Some {
        lemma_node(Rule::CppStart, toks, pos, oc.state, d);
        lemma_two(Rule::CppStart, Tok::CppPathStart, toks, pos, oc.state, (d - 1) as nat);
    }
}

spec fn is_start(k: Trees, q: Rule) -> bool {
    k matches Trees::Snoc(rest, x) && *rest is Nil && is_rule(*x, q)
}

proof fn lemma_two(r: Rule, t: Tok, toks: Seq<Tok>, pos: usize, st: ParserState, d: nat)
    requires
        pos < toks.len() <= usize::MAX,
        *production(r) == Expr::Both(
            Box::new(Expr::One(t)),
            Box::new(Expr::One(Tok::ColonColon)),
        ),
        run(*production(r), toks, pos, st, d).taken is Some,
    ensures
        (run(*production(r), toks, pos, st, d).taken->0).0 == pos + 2,
        toks[pos as int] == t,
{
    let (p1, k1, st1, k2) = lemma_both(
        Expr::One(t),
        Expr::One(Tok::ColonColon),
        toks,
        pos,
        st,
        d,
    );
    lemma_one(t, toks, pos, st, d);
    lemma_one(Tok::ColonColon, toks, p1, st1, d);
}

/// A name and those behind it.
proof fn lemma_names_behind(src: SourceModel, from: usize, pos: usize, st: ParserState, d: nat)
    requires
        src.toks.len() <= usize::MAX,
        pos == from + 1,
        pos <= src.toks.len(),
    ensures
        ({
            let next = Expr::Both(
                Box::new(Expr::One(Tok::ColonColon)),
                Box::new(Expr::Keep(Pick::AnyIdent)),
            );
            run(Expr::Many(Box::new(next)), kinds(src.toks), pos, st, d).taken matches Some((end, k))
                && (forall|r: Rule| #[trigger] has_rule(k, r) == false) && names_of(
                src,
                from as int,
                end as int,
                seq![src.toks[from as int].text] + leaf_texts(k, src),
            )
        }),
{
    let toks = kinds(src.toks);
    let a = Expr::One(Tok::ColonColon);
    let b = Expr::Keep(Pick::AnyIdent);
    let next = Expr::Both(Box::new(a), Box::new(b));
    let e = Expr::Many(Box::new(next));
    let o = run(next, toks, pos, st, d);
    assert(run(e, toks, pos, st, d) == run_many(e, toks, pos, st, d, no_trees()));
    let head = seq![src.toks[from as int].text];
    if let Some((p1, t1)) = o.taken {
        let (q, x, st1, y) = lemma_both(a, b, toks, pos, st, d);
        lemma_one(Tok::ColonColon, toks, pos, st, d);
        lemma_append_nil(y);
        lemma_append_nil(t1);
        assert(t1 == one_tree(Tree::Leaf(q)));
        reveal_with_fuel(leaf_texts, 3);
        reveal_with_fuel(has_rule, 3);
        assert(leaf_texts(t1, src) =~= seq![src.toks[q as int].text]);
        assert(names_of(src, q as int, p1 as int, leaf_texts(t1, src)));
        lemma_names(src, p1, o.state, d, t1, q as int);
        let (end, k) = run_many(e, toks, p1, o.state, d, t1).taken->0;
        let v = leaf_texts(k, src);
        assert forall|j: int| 0 <= j < v.len() + 1 implies #[trigger] (head + v)[j]
            == src.toks[from + 2 * j].text by {
            if j > 0 {
                assert((head + v)[j] == v[j - 1]);
            }
        }
        assert forall|r: Rule| #[trigger] has_rule(k, r) == false by {
            assert(has_rule(k, r) == has_rule(t1, r));
        }
    } else {
        assert(leaf_texts(no_trees(), src) =~= Seq::empty());
        assert(head + leaf_texts(no_trees(), src) =~= head);
    }
}

proof fn lemma_leaf_texts_append(a: Trees, b: Trees, src: SourceModel)
    ensures
        leaf_texts(append(a, b), src) == leaf_texts(a, src) + leaf_texts(b, src),
    decreases b,
{
    match b {
        Trees::Nil => {
            assert(leaf_texts(a, src) + Seq::<Seq<char>>::empty() =~= leaf_texts(a, src));
        },
        Trees::Snoc(rest, x) => {
            lemma_leaf_texts_append(a, *rest, src);
            if let Tree::Leaf(i) = *x {
                assert((leaf_texts(a, src) + leaf_texts(*rest, src)).push(leaf_text(src, i))
                    =~= leaf_texts(a, src) + leaf_texts(*rest, src).push(leaf_text(src, i)));
            }
        },
    }
}

/// The rules and the names of a start, a name and the names behind it.
proof fn lemma_start_and_names(src: SourceModel, s1: Trees, s2: Trees, k3: Trees, k2: Trees)
    requires
        k2 == append(s2, k3),
        s1 == no_trees() || is_start(s1, Rule::Absolute) || is_start(s1, Rule::CrateStart)
            || is_start(s1, Rule::CppStart),
        s2 is Snoc && *(s2->Snoc_0) is Nil && *(s2->Snoc_1) is Leaf,
        forall|r: Rule| #[trigger] has_rule(k3, r) == false,
    ensures
        leaf_texts(append(s1, k2), src) == leaf_texts(s2, src) + leaf_texts(k3, src),
        forall|r: Rule| #[trigger]
            has_rule(append(s1, k2), r) == (s1 is Snoc && is_rule(*(s1->Snoc_1), r)),
{
    lemma_leaf_texts_append(s1, k2, src);
    lemma_leaf_texts_append(s2, k3, src);
    reveal_with_fuel(leaf_texts, 3);
    reveal_with_fuel(has_rule, 3);
    assert(leaf_texts(s1, src) =~= Seq::empty());
    assert(Seq::<Seq<char>>::empty() + leaf_texts(k2, src) =~= leaf_texts(k2, src));
    assert forall|r: Rule| #[trigger] has_rule(append(s1, k2), r) == (s1 is Snoc && is_rule(
        *(s1->Snoc_1),
        r,
    )) by {
        lemma_has_append(s1, k2, r);
        lemma_has_append(s2, k3, r);
    }
}

/// The token that a rule of one token stands for.
pub open spec fn marker(r: Rule) -> Option<Tok> {
    match r {
        Rule::Safe => Some(Tok::KwSafe),
        Rule::NotSafe => Some(Tok::KwUnsafe),
        Rule::MutKw => Some(Tok::KwMut),
        Rule::ConstKw => Some(Tok::KwConst),
        Rule::DynKw => Some(Tok::KwDyn),
        Rule::ImplKw => Some(Tok::KwImpl),
        Rule::Async => Some(Tok::KwAsync),
        Rule::PatternAny => Some(Tok::Underscore),
        Rule::PatternSome => Some(Tok::Ident(Word::Present)),
        Rule::PatternNone => Some(Tok::Ident(Word::Absent)),
        Rule::NonExhaustive => Some(Tok::Ident(Word::NonExhaustive)),
        Rule::Panic => Some(Tok::Ident(Word::ConvertPanicToException)),
        _ => None,
    }
}

/// A rule of one token takes that token alone.
pub proof fn law_markers_are_their_tokens(r: Rule, toks: Seq<Tok>, pos: usize, st: ParserState, d: nat)
    requires
        marker(r) is Some,
        d > 0,
        toks.len() <= usize::MAX,
    ensures
        run(Expr::Use(r), toks, pos, st, d).taken == (if pos < toks.len() && Some(toks[pos as int])
            == marker(r) {
            Some(
                (
                    (pos + 1) as usize,
                    one_tree(Tree::Node(r, pos, (pos + 1) as usize, Box::new(no_trees()))),
                ),
            )
        } else {
            None
        }),
{
    let t = marker(r)->0;
    assert(*production(r) == Expr::One(t));
    lemma_one(t, toks, pos, st, (d - 1) as nat);
    assert(run(Expr::Use(r), toks, pos, st, d) == crate::peg::close_rule(
        r,
        pos,
        run(Expr::One(t), toks, pos, st, (d - 1) as nat),
    ));
}

/// A function that C++ implements is safe exactly where `safe` stands before it,
/// and `unsafe` stands there otherwise.
pub proof fn law_safety_is_read(src: SourceModel, sc: ScopeModel, r: Rule, pos: usize, end: usize, t: Tree, st: ParserState, d: nat)
    requires
        pos < src.toks.len() <= usize::MAX,
        r == Rule::ExternFn || r == Rule::ImplMethod,
        run(Expr::Use(r), kinds(src.toks), pos, st, d).taken == Some((end, one_tree(t))),
    ensures
        src.toks[pos as int].tok == Tok::KwSafe || src.toks[pos as int].tok == Tok::KwUnsafe,
        safe_method(below(t), src, sc).is_safe <==> src.toks[pos as int].tok == Tok::KwSafe,
{
    let toks = kinds(src.toks);
    lemma_node(r, toks, pos, st, d);
    let d1 = (d - 1) as nat;
    let a = Expr::Use(Rule::Safe);
    let b = Expr::Use(Rule::NotSafe);
    let word = Expr::Either(Box::new(a), Box::new(b));
    let m = Expr::Use(Rule::Method);
    let semi = Expr::One(Tok::Semicolon);
    let rest = Expr::Both(Box::new(m), Box::new(semi));
    assert(*production(r) == Expr::Both(Box::new(word), Box::new(rest)));
    let (p1, w, st1, k2) = lemma_both(word, rest, toks, pos, st, d1);
    let o = run(a, toks, pos, st, d1);
    assert(run(word, toks, pos, st, d1) == (if o.taken is Some {
        o
    } else {
        run(b, toks, pos, o.state, d1)
    }));
    if d1 == 0 {
        assert(o.taken is None);
        assert(run(b, toks, pos, o.state, d1).taken is None);
    }
    law_markers_are_their_tokens(Rule::Safe, toks, pos, st, d1);
    law_markers_are_their_tokens(Rule::NotSafe, toks, pos, o.state, d1);
    let (p2, k3, st2, k4) = lemma_both(m, semi, toks, p1, st1, d1);
    lemma_node(Rule::Method, toks, p1, st1, d1);
    lemma_one(Tok::Semicolon, toks, p2, st2, d1);
    lemma_has_append(w, k2, Rule::Safe);
    lemma_has_append(k3, k4, Rule::Safe);
    reveal_with_fuel(has_rule, 3);
}

/// A method has the name that stands behind `fn`, and is `async` exactly where
/// `async` stands before it.
pub proof fn law_method_heads_are_read(src: SourceModel, sc: ScopeModel, pos: usize, end: usize, t: Tree, st: ParserState, d: nat)
    requires
        pos < src.toks.len() <= usize::MAX,
        run(Expr::Use(Rule::Method), kinds(src.toks), pos, st, d).taken == Some((end, one_tree(t))),
    ensures
        ({
            let at = if src.toks[pos as int].tok == Tok::KwAsync {
                pos + 1
            } else {
                pos as int
            };
            &&& at + 1 < src.toks.len()
            &&& src.toks[at].tok == Tok::KwFn
            &&& method_of(t, src, sc).name == src.toks[at + 1].text
            &&& (has_rule(below(t), Rule::Async) <==> src.toks[pos as int].tok == Tok::KwAsync)
        }),
{
    let toks = kinds(src.toks);
    lemma_node(Rule::Method, toks, pos, st, d);
    let d1 = (d - 1) as nat;
    let a = Expr::Maybe(Box::new(Expr::Use(Rule::Async)));
    let f = Expr::One(Tok::KwFn);
    let name = Expr::Keep(Pick::AnyIdent);
    let g = Expr::Maybe(Box::new(Expr::Use(Rule::MethodGenerics)));
    let args = Expr::Use(Rule::FnArgs);
    let e4 = Expr::Both(Box::new(g), Box::new(args));
    let e3 = Expr::Both(Box::new(name), Box::new(e4));
    let e2 = Expr::Both(Box::new(f), Box::new(e3));
    assert(*production(Rule::Method) == Expr::Both(Box::new(a), Box::new(e2)));
    let (p1, w, st1, k2) = lemma_both(a, e2, toks, pos, st, d1);
    let oa = run(Expr::Use(Rule::Async), toks, pos, st, d1);
    if d1 > 0 {
        law_markers_are_their_tokens(Rule::Async, toks, pos, st, d1);
    } else {
        assert(oa.taken is None);
    }
    let (p2, n2, st2, k3) = lemma_both(f, e3, toks, p1, st1, d1);
    lemma_one(Tok::KwFn, toks, p1, st1, d1);
    lemma_append_nil(k3);
    let (p3, x, st3, k4) = lemma_both(name, e4, toks, p2, st2, d1);
    let (p4, gs, st4, k5) = lemma_both(g, args, toks, p3, st3, d1);
    lemma_node(Rule::FnArgs, toks, p4, st4, d1);
    let og = run(Expr::Use(Rule::MethodGenerics), toks, p3, st3, d1);
    if og.taken is Some {
        lemma_node(Rule::MethodGenerics, toks, p3, st3, d1);
    }
    assert(x == one_tree(Tree::Leaf(p2)));
    reveal_with_fuel(has_rule, 3);
    reveal_with_fuel(first_leaf, 3);
    lemma_first_leaf_append(gs, k5);
    lemma_first_leaf_append(x, k4);
    lemma_first_leaf_append(w, k3);
    lemma_has_append(gs, k5, Rule::Async);
    lemma_has_append(x, k4, Rule::Async);
    lemma_has_append(w, k3, Rule::Async);
    assert(p2 < usize::MAX);
    assert(first_leaf(below(t)) == p2);
}

proof fn lemma_first_leaf_append(a: Trees, b: Trees)
    ensures
        first_leaf(append(a, b)) == (if first_leaf(a) == usize::MAX {
            first_leaf(b)
        } else {
            first_leaf(a)
        }),
    decreases b,
{
    if let Trees::Snoc(rest, _) = b {
        lemma_first_leaf_append(a, *rest);
    }
}

/// What needs an unstable feature is read only where the feature is enabled.
pub proof fn law_unstable_syntax_needs_its_feature(x: Feature, a: Box<Expr>, toks: Seq<Tok>, pos: usize, st: ParserState, d: nat)
    ensures
        ({
            let o = run(Expr::Gated(x, a), toks, pos, st, d);
            o.taken is Some ==> enabled(o.state.features, x)
        }),
{
}

/// To enable a feature enables it and no other, and disables none.
pub proof fn law_features_are_enabled_one_by_one(f: UnstableFeatures, x: Feature, y: Feature)
    ensures
        enabled(with_feature(f, x), y) <==> enabled(f, y) || x == y,
        !enabled(start_state().features, y),
{
}

/// `#if`, `#match` and template types each need a feature of their own.
pub proof fn law_unstable_rules_have_features(r: Rule)
    ensures
        r == Rule::IfItem || r == Rule::IfEntry ==> (*production(r) matches Expr::Gated(x, _) && x
            == Feature::CfgIf),
        r == Rule::MatchItem || r == Rule::MatchEntry ==> (*production(r) matches Expr::Gated(x, _)
            && x == Feature::CfgMatch),
        r == Rule::TypeVars ==> (*production(r) matches Expr::Gated(x, _) && x
            == Feature::TemplateTypes),
{
}

} // verus!
