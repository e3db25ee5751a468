//! How deep the rules of the grammar can stand inside each other: each rule
//! takes a token before it can come to itself again.

use crate::grammar::production;
use crate::peg::{
    append, depth_for, no_trees, parse_file, run, run_many, start_state, Expr, ParserState, Rule,
    Trees,
};
use crate::token::Tok;
use vstd::prelude::*;

verus! {

/// How many rules can stand inside each other at the start of a rule, before a
/// token is taken.
pub open spec fn height(r: Rule) -> nat {
    match r {
        Rule::TraitFor => 5,
        Rule::File | Rule::Trait | Rule::Type => 4,
        Rule::Item
        | Rule::TypeEntry
        | Rule::TraitPath
        | Rule::Adt
        | Rule::ArmItem
        | Rule::ArmEntry => 3,
        Rule::MethodItem
        | Rule::FnItem
        | Rule::PathGenerics
        | Rule::OrCond
        | Rule::OrPattern => 2,
        Rule::Method
        | Rule::FnArgs
        | Rule::VariantEntry
        | Rule::ExternFn
        | Rule::ImplMethod
        | Rule::Path
        | Rule::DynType
        | Rule::AndCond
        | Rule::Scrutinees
        | Rule::AndPattern => 1,
        _ => 0,
    }
}

/// Whether an expression may succeed without a token.
pub open spec fn may_be_empty(e: Expr) -> bool
    decreases e,
{
    match e {
        Expr::One(_) | Expr::Keep(_) | Expr::Ask => false,
        Expr::Both(a, b) => may_be_empty(*a) && may_be_empty(*b),
        Expr::Either(a, b) => may_be_empty(*a) || may_be_empty(*b),
        Expr::Maybe(_) | Expr::Many(_) | Expr::End => true,
        Expr::Use(r) => r == Rule::File,
        Expr::Gated(_, a) => may_be_empty(*a),
        Expr::NotCpp(_, a) => may_be_empty(*a),
    }
}

/// Whether every rule that an expression can use before it took a token is
/// lower than `k`.
pub open spec fn starts_below(e: Expr, k: nat) -> bool
    decreases e,
{
    match e {
        Expr::One(_) | Expr::Keep(_) | Expr::Ask | Expr::End => true,
        Expr::Both(a, b) => starts_below(*a, k) && (may_be_empty(*a) ==> starts_below(*b, k)),
        Expr::Either(a, b) => starts_below(*a, k) && starts_below(*b, k),
        Expr::Maybe(a) => starts_below(*a, k),
        Expr::Many(a) => starts_below(*a, k),
        Expr::Use(r) => height(r) < k,
        Expr::Gated(_, a) => starts_below(*a, k),
        Expr::NotCpp(_, a) => starts_below(*a, k),
    }
}

/// What `lemma_rules_descend` says of a rule.
spec fn descends(r: Rule) -> bool {
    &&& starts_below(*production(r), height(r))
    &&& may_be_empty(*production(r)) ==> r == Rule::File
}

proof fn lemma_entry_descends()
    ensures
        descends(Rule::TypeEntry),
{
    reveal_with_fuel(starts_below, 24);
    reveal_with_fuel(may_be_empty, 24);
}

proof fn lemma_item_descends()
    ensures
        descends(Rule::Item),
{
    reveal_with_fuel(starts_below, 16);
    reveal_with_fuel(may_be_empty, 16);
}

proof fn lemma_lowest_descend(r: Rule)
    requires
        height(r) == 0,
    ensures
        descends(r),
{
    reveal_with_fuel(starts_below, 5);
    reveal_with_fuel(may_be_empty, 5);
}

proof fn lemma_higher_descend(r: Rule)
    requires
        height(r) > 0,
        r != Rule::TypeEntry,
        r != Rule::Item,
    ensures
        descends(r),
{
    reveal_with_fuel(starts_below, 12);
    reveal_with_fuel(may_be_empty, 12);
}

/// A rule starts with lower rules only, and only a whole file may be empty.
proof fn lemma_rules_descend(r: Rule)
    ensures
        descends(r),
{
    if r == Rule::TypeEntry {
        lemma_entry_descends();
    } else if r == Rule::Item {
        lemma_item_descends();
    } else if height(r) == 0 {
        lemma_lowest_descend(r);
    } else {
        lemma_higher_descend(r);
    }
}

/// Every rule is lower than what one token is given.
proof fn lemma_all_start_below(e: Expr)
    ensures
        starts_below(e, 128),
    decreases e,
{
    match e {
        Expr::Both(a, b) => {
            lemma_all_start_below(*a);
            lemma_all_start_below(*b);
        },
        Expr::Either(a, b) => {
            lemma_all_start_below(*a);
            lemma_all_start_below(*b);
        },
        Expr::Maybe(a) => lemma_all_start_below(*a),
        Expr::Many(a) => lemma_all_start_below(*a),
        Expr::Gated(_, a) => lemma_all_start_below(*a),
        Expr::NotCpp(_, a) => lemma_all_start_below(*a),
        _ => {},
    }
}

/// What an expression takes lies among the tokens, and is at least one where
/// the expression cannot be empty.
pub proof fn lemma_run_goes_on(e: Expr, toks: Seq<Tok>, pos: usize, st: ParserState, depth: nat)
    requires
        pos <= toks.len() <= usize::MAX,
    ensures
        run(e, toks, pos, st, depth).taken matches Some((end, _)) ==> {
            &&& pos <= end <= toks.len()
            &&& !may_be_empty(e) ==> pos < end
        },
    decreases depth, e, toks.len() + 2,
{
    match e {
        Expr::Both(a, b) => {
            lemma_run_goes_on(*a, toks, pos, st, depth);
            let o = run(*a, toks, pos, st, depth);
            if let Some((p1, _)) = o.taken {
                lemma_run_goes_on(*b, toks, p1, o.state, depth);
            }
        },
        Expr::Either(a, b) => {
            lemma_run_goes_on(*a, toks, pos, st, depth);
            lemma_run_goes_on(*b, toks, pos, run(*a, toks, pos, st, depth).state, depth);
        },
        Expr::Maybe(a) => lemma_run_goes_on(*a, toks, pos, st, depth),
        Expr::Many(_) => lemma_many_goes_on(e, toks, pos, st, depth, no_trees()),
        Expr::Use(r) => if depth > 0 {
            lemma_rules_descend(r);
            lemma_run_goes_on(*production(r), toks, pos, st, (depth - 1) as nat);
        },
        Expr::Gated(_, a) => lemma_run_goes_on(*a, toks, pos, st, depth),
        Expr::NotCpp(_, a) => lemma_run_goes_on(*a, toks, pos, st, depth),
        _ => {},
    }
}

proof fn lemma_many_goes_on(
    e: Expr,
    toks: Seq<Tok>,
    pos: usize,
    st: ParserState,
    depth: nat,
    before: Trees,
)
    requires
        pos <= toks.len() <= usize::MAX,
    ensures
        run_many(e, toks, pos, st, depth, before).taken matches Some((end, _)) ==> pos <= end
            <= toks.len(),
    decreases depth, e, toks.len() - pos,
{
    if let Expr::Many(a) = e {
        let o = run(*a, toks, pos, st, depth);
        if let Some((p1, t1)) = o.taken {
            if pos < p1 <= toks.len() {
                lemma_many_goes_on(e, toks, p1, o.state, depth, append(before, t1));
            }
        }
    }
}

/// The depth that an expression at `pos` cannot use up where it starts below
/// `k`.
spec fn ample(n: nat, pos: usize, k: nat) -> int {
    128 * (n - pos) + k
}

/// With an ample depth it does not matter how deep.
proof fn lemma_run_is_stable(
    e: Expr,
    toks: Seq<Tok>,
    pos: usize,
    st: ParserState,
    k: nat,
    d1: nat,
    d2: nat,
)
    requires
        pos <= toks.len() <= usize::MAX,
        starts_below(e, k),
        k <= 128,
        d1 >= ample(toks.len(), pos, k),
        d2 >= ample(toks.len(), pos, k),
    ensures
        run(e, toks, pos, st, d1) == run(e, toks, pos, st, d2),
    decreases d1, e, toks.len() + 2,
{
    match e {
        Expr::Both(a, b) => {
            lemma_run_is_stable(*a, toks, pos, st, k, d1, d2);
            lemma_run_goes_on(*a, toks, pos, st, d1);
            let o = run(*a, toks, pos, st, d1);
            if let Some((p1, _)) = o.taken {
                if p1 > pos {
                    lemma_all_start_below(*b);
                    lemma_run_is_stable(*b, toks, p1, o.state, 128, d1, d2);
                } else {
                    lemma_run_is_stable(*b, toks, p1, o.state, k, d1, d2);
                }
            }
        },
        Expr::Either(a, b) => {
            lemma_run_is_stable(*a, toks, pos, st, k, d1, d2);
            let o = run(*a, toks, pos, st, d1);
            lemma_run_is_stable(*b, toks, pos, o.state, k, d1, d2);
        },
        Expr::Maybe(a) => lemma_run_is_stable(*a, toks, pos, st, k, d1, d2),
        Expr::Many(_) => lemma_many_is_stable(e, toks, pos, st, k, d1, d2, no_trees()),
        Expr::Use(r) => {
            lemma_rules_descend(r);
            lemma_run_is_stable(
                *production(r),
                toks,
                pos,
                st,
                height(r),
                (d1 - 1) as nat,
                (d2 - 1) as nat,
            );
        },
        Expr::Gated(_, a) => lemma_run_is_stable(*a, toks, pos, st, k, d1, d2),
        Expr::NotCpp(_, a) => lemma_run_is_stable(*a, toks, pos, st, k, d1, d2),
        _ => {},
    }
}

proof fn lemma_many_is_stable(
    e: Expr,
    toks: Seq<Tok>,
    pos: usize,
    st: ParserState,
    k: nat,
    d1: nat,
    d2: nat,
    before: Trees,
)
    requires
        pos <= toks.len() <= usize::MAX,
        starts_below(e, k),
        k <= 128,
        d1 >= ample(toks.len(), pos, k),
        d2 >= ample(toks.len(), pos, k),
    ensures
        run_many(e, toks, pos, st, d1, before) == run_many(e, toks, pos, st, d2, before),
    decreases d1, e, toks.len() - pos,
{
    if let Expr::Many(a) = e {
        lemma_run_is_stable(*a, toks, pos, st, k, d1, d2);
        let o = run(*a, toks, pos, st, d1);
        if let Some((p1, t1)) = o.taken {
            if pos < p1 <= toks.len() {
                lemma_all_start_below(e);
                lemma_many_is_stable(e, toks, p1, o.state, 128, d1, d2, append(before, t1));
            }
        }
    }
}

/// The bound on the depth never decides: any deeper use of the rules makes the
/// same of the tokens of a file.
pub proof fn law_depth_never_decides(toks: Seq<Tok>, depth: nat)
    requires
        128 * (toks.len() + 1) <= usize::MAX,
        depth >= depth_for(toks.len()),
    ensures
        run(Expr::Use(Rule::File), toks, 0, start_state(), depth) == parse_file(toks),
{
    lemma_run_is_stable(
        Expr::Use(Rule::File),
        toks,
        0,
        start_state(),
        5,
        depth,
        depth_for(toks.len()),
    );
}

} // verus!
