//! What conditions mean: when a configuration meets them.

use crate::cfg::{
    all_match, any_matches, cfg_features, cfg_values, count, each_matches, has_number,
    key_scrutinee, pattern_matches, value_matches, CfgModel, CfgValueModel, RemarkModel,
    ScrutineesModel,
};
use crate::conditional::{
    all_hold, any_holds, arm_steps, as_remarks, atom_holds, body_steps, branch_steps, complaints,
    cond_holds, item_steps, list_steps, pattern_in, StepModel,
};
use crate::lower::{
    child, first_leaf, has_rule, last_leaf, leaf_number, leaf_text, leaf_tok, SourceModel,
};
use crate::peg::{one_tree, Rule, Tree, Trees};
use crate::token::Tok;
use vstd::prelude::*;

verus! {

/// Whether a tree is one of the trees.
pub open spec fn among(ts: Trees, x: Tree) -> bool
    decreases ts,
{
    match ts {
        Trees::Nil => false,
        Trees::Snoc(rest, y) => *y == x || among(*rest, x),
    }
}

/// Whether the trees of `cfg!(..)` name the key whose name is at one token, and
/// nothing of it.
pub open spec fn names_key(k: Trees, src: SourceModel, key: Seq<char>) -> bool {
    child(k, Rule::CfgKey) matches Tree::Node(_, _, _, below) && first_leaf(*below) == last_leaf(
        *below,
    ) && leaf_text(src, first_leaf(*below)) == key
}

/// Whether the trees of `cfg!(..)` name one value of a key.
pub open spec fn names_value(k: Trees, src: SourceModel, key: Seq<char>, value: Seq<char>) -> bool {
    child(k, Rule::CfgKey) matches Tree::Node(_, _, _, below) && first_leaf(*below) != last_leaf(
        *below,
    ) && leaf_text(src, first_leaf(*below)) == key && leaf_text(src, last_leaf(*below)) == value
}

/// Whether the trees of `cfg!(..)` hold no pattern.
pub open spec fn no_pattern(k: Trees) -> bool {
    !has_rule(k, Rule::TuplePattern) && !has_rule(k, Rule::OrPattern)
}

/// A pattern of one kind, as the rules for patterns put it.
pub open spec fn lone_pattern(q: Rule, from: usize, to: usize, below: Trees) -> Tree {
    Tree::Node(
        Rule::OrPattern,
        from,
        to,
        Box::new(
            one_tree(
                Tree::Node(
                    Rule::AndPattern,
                    from,
                    to,
                    Box::new(one_tree(Tree::Node(q, from, to, Box::new(below)))),
                ),
            ),
        ),
    )
}

/// Whether `cfg!(..)` has a pattern of one kind.
pub open spec fn has_pattern(k: Trees, q: Rule, from: usize, to: usize, below: Trees) -> bool {
    !has_rule(k, Rule::TuplePattern) && has_rule(k, Rule::OrPattern) && child(k, Rule::OrPattern)
        == lone_pattern(q, from, to, below)
}

/// `cfg!(key)` holds exactly where the key is set, to no values as well.
pub proof fn law_key_holds_where_it_is_set(k: Trees, src: SourceModel, cfg: CfgModel, key: Seq<char>)
    requires
        names_key(k, src, key),
        no_pattern(k),
        key != "feature"@,
    ensures
        atom_holds(k, src, cfg).0 <==> cfg_values(cfg, key) is Some,
        atom_holds(k, src, cfg).1.len() == 0,
{
}

/// `cfg!(key.value)` holds exactly where the value is one of those that the key
/// is set to, or one of the features.
pub proof fn law_value_holds_where_it_is_set(
    k: Trees,
    src: SourceModel,
    cfg: CfgModel,
    key: Seq<char>,
    value: Seq<char>,
)
    requires
        names_value(k, src, key, value),
        no_pattern(k),
    ensures
        key == "feature"@ ==> (atom_holds(k, src, cfg).0 <==> cfg_features(cfg).contains(value)),
        key != "feature"@ ==> (atom_holds(k, src, cfg).0 <==> (cfg_values(cfg, key) matches Some(v)
            && v.contains(value))),
        atom_holds(k, src, cfg).1.len() == 0,
{
}

proof fn lemma_lone(
    k: Trees,
    src: SourceModel,
    cfg: CfgModel,
    q: Rule,
    from: usize,
    to: usize,
    below: Trees,
)
    requires
        has_pattern(k, q, from, to, below),
    ensures
        atom_holds(k, src, cfg).0 == value_matches(
            Tree::Node(q, from, to, Box::new(below)),
            src,
            key_scrutinee(child(k, Rule::CfgKey), src, cfg),
        ),
        atom_holds(k, src, cfg).1.len() == 0,
{
    reveal_with_fuel(value_matches, 4);
    reveal_with_fuel(any_matches, 4);
    reveal_with_fuel(all_match, 4);
}

/// `cfg!(key = None)` holds exactly where the key is not set, and
/// `cfg!(key = Some)` exactly where it is, to no values as well.
pub proof fn law_none_and_some(
    k: Trees,
    src: SourceModel,
    cfg: CfgModel,
    key: Seq<char>,
    from: usize,
    to: usize,
    below: Trees,
)
    requires
        names_key(k, src, key),
        key != "feature"@,
    ensures
        has_pattern(k, Rule::PatternNone, from, to, below) ==> (atom_holds(k, src, cfg).0
            <==> cfg_values(cfg, key) is None),
        has_pattern(k, Rule::PatternSome, from, to, below) ==> (atom_holds(k, src, cfg).0
            <==> cfg_values(cfg, key) is Some),
        has_pattern(k, Rule::PatternAny, from, to, below) ==> atom_holds(k, src, cfg).0,
{
    if has_pattern(k, Rule::PatternNone, from, to, below) {
        lemma_lone(k, src, cfg, Rule::PatternNone, from, to, below);
    }
    if has_pattern(k, Rule::PatternSome, from, to, below) {
        lemma_lone(k, src, cfg, Rule::PatternSome, from, to, below);
    }
    if has_pattern(k, Rule::PatternAny, from, to, below) {
        lemma_lone(k, src, cfg, Rule::PatternAny, from, to, below);
    }
}

/// `cfg!(key = "value")` holds exactly where the value is one of those that the
/// key is set to, and `cfg!(key = 8)` where one of them reads as that number; of
/// `feature` the values are the features.
pub proof fn law_literal_is_a_value(
    k: Trees,
    src: SourceModel,
    cfg: CfgModel,
    key: Seq<char>,
    from: usize,
    to: usize,
    below: Trees,
)
    requires
        names_key(k, src, key),
        has_pattern(k, Rule::PatternLiteral, from, to, below),
    ensures
        ({
            let i = first_leaf(below);
            let values = if key == "feature"@ {
                cfg_features(cfg)
            } else if cfg_values(cfg, key) is Some {
                cfg_values(cfg, key)->0
            } else {
                Seq::empty()
            };
            if leaf_tok(src, i) == Some(Tok::Number) {
                atom_holds(k, src, cfg).0 <==> has_number(values, leaf_number(src, i))
            } else {
                atom_holds(k, src, cfg).0 <==> values.contains(leaf_text(src, i))
            }
        }),
{
    lemma_lone(k, src, cfg, Rule::PatternLiteral, from, to, below);
}

/// A pattern matches exactly where `!` in front of it does not.
pub proof fn law_not_turns_round(t: Tree, from: usize, to: usize, src: SourceModel, v: CfgValueModel)
    ensures
        value_matches(Tree::Node(Rule::NotPattern, from, to, Box::new(one_tree(t))), src, v)
            == !value_matches(t, src, v),
        value_matches(Tree::Node(Rule::PatternGroup, from, to, Box::new(one_tree(t))), src, v)
            == value_matches(t, src, v),
{
    reveal_with_fuel(value_matches, 3);
    reveal_with_fuel(all_match, 3);
}

proof fn lemma_all_match(ts: Trees, src: SourceModel, v: CfgValueModel)
    ensures
        all_match(ts, src, v) <==> forall|x: Tree| #[trigger]
            among(ts, x) ==> value_matches(x, src, v),
        any_matches(ts, src, v) <==> exists|x: Tree| #[trigger]
            among(ts, x) && value_matches(x, src, v),
    decreases ts,
{
    if let Trees::Snoc(rest, y) = ts {
        lemma_all_match(*rest, src, v);
        assert(among(ts, *y));
        assert forall|x: Tree| #[trigger] among(*rest, x) implies among(ts, x) by {}
        assert forall|x: Tree| #[trigger] among(ts, x) implies x == *y || among(*rest, x) by {}
    }
}

/// A pattern with `|` matches exactly where one of its parts does, one with `&`
/// exactly where all do.
pub proof fn law_patterns_join(ts: Trees, from: usize, to: usize, src: SourceModel, v: CfgValueModel)
    ensures
        value_matches(Tree::Node(Rule::OrPattern, from, to, Box::new(ts)), src, v) <==> exists|
            x: Tree,
        | #[trigger]
            among(ts, x) && value_matches(x, src, v),
        value_matches(Tree::Node(Rule::AndPattern, from, to, Box::new(ts)), src, v) <==> forall|
            x: Tree,
        | #[trigger]
            among(ts, x) ==> value_matches(x, src, v),
{
    lemma_all_match(ts, src, v);
}

proof fn lemma_conditions(ts: Trees, src: SourceModel, cfg: CfgModel)
    ensures
        all_hold(ts, src, cfg).0 <==> forall|x: Tree| #[trigger]
            among(ts, x) ==> cond_holds(x, src, cfg).0,
        any_holds(ts, src, cfg).0 <==> exists|x: Tree| #[trigger]
            among(ts, x) && cond_holds(x, src, cfg).0,
    decreases ts,
{
    if let Trees::Snoc(rest, y) = ts {
        lemma_conditions(*rest, src, cfg);
        assert(among(ts, *y));
        assert forall|x: Tree| #[trigger] among(*rest, x) implies among(ts, x) by {}
        assert forall|x: Tree| #[trigger] among(ts, x) implies x == *y || among(*rest, x) by {}
    }
}

/// A condition with `||` holds exactly where one of its parts does, one with `&&`
/// exactly where all do, and `cfg!(..)` where its own trees say so.
pub proof fn law_conditions_join(ts: Trees, from: usize, to: usize, src: SourceModel, cfg: CfgModel)
    ensures
        cond_holds(Tree::Node(Rule::OrCond, from, to, Box::new(ts)), src, cfg).0 <==> exists|
            x: Tree,
        | #[trigger]
            among(ts, x) && cond_holds(x, src, cfg).0,
        cond_holds(Tree::Node(Rule::AndCond, from, to, Box::new(ts)), src, cfg).0 <==> forall|
            x: Tree,
        | #[trigger]
            among(ts, x) ==> cond_holds(x, src, cfg).0,
        cond_holds(Tree::Node(Rule::CondAtom, from, to, Box::new(ts)), src, cfg).0 == atom_holds(
            ts,
            src,
            cfg,
        ).0,
{
    lemma_conditions(ts, src, cfg);
}

/// A condition in brackets holds exactly where it does without them.
pub proof fn law_brackets_change_nothing(t: Tree, from: usize, to: usize, src: SourceModel, cfg: CfgModel)
    ensures
        cond_holds(Tree::Node(Rule::CondGroup, from, to, Box::new(one_tree(t))), src, cfg).0
            == cond_holds(t, src, cfg).0,
{
    lemma_conditions(one_tree(t), src, cfg);
    reveal_with_fuel(among, 3);
    assert(among(one_tree(t), t));
    assert forall|x: Tree| #[trigger] among(one_tree(t), x) implies x == t by {}
}

/// A pattern of several parts matches several values exactly where there are as
/// many of them and each part matches the value in its place.
pub proof fn law_tuple_pattern(
    a: Tree,
    b: Tree,
    from: usize,
    to: usize,
    src: SourceModel,
    values: Seq<CfgValueModel>,
)
    ensures
        pattern_matches(
            Tree::Node(
                Rule::TuplePattern,
                from,
                to,
                Box::new(Trees::Snoc(Box::new(one_tree(a)), Box::new(b))),
            ),
            src,
            ScrutineesModel::Tuple(values),
        ).0 <==> values.len() == 2 && value_matches(a, src, values[0]) && value_matches(
            b,
            src,
            values[1],
        ),
{
    reveal_with_fuel(each_matches, 4);
    reveal_with_fuel(count, 4);
}

/// Whether steps take no item.
pub open spec fn takes_nothing(steps: Seq<StepModel>) -> bool {
    forall|i: int| 0 <= i < steps.len() ==> (#[trigger] steps[i]) is Complain
}

proof fn lemma_takes_nothing(a: Seq<StepModel>, v: Seq<RemarkModel>)
    requires
        takes_nothing(a),
    ensures
        takes_nothing(a + complaints(v)),
{
    let c = complaints(v);
    assert forall|i: int| 0 <= i < (a + c).len() implies (#[trigger] (a + c)[i]) is Complain by {
        if i < a.len() {
            assert((a + c)[i] == a[i]);
        } else {
            assert((a + c)[i] == c[i - a.len()]);
        }
    }
}

/// Where no branch of an `#if` counts, none of its items does.
pub proof fn law_no_branch_no_items(ts: Trees, src: SourceModel, cfg: CfgModel)
    requires
        !branch_steps(ts, src, cfg).0,
    ensures
        takes_nothing(branch_steps(ts, src, cfg).1),
    decreases ts,
{
    if let Trees::Snoc(rest, x) = ts {
        law_no_branch_no_items(*rest, src, cfg);
        let steps = branch_steps(*rest, src, cfg).1;
        if let Tree::Node(q, _, _, k) = *x {
            lemma_takes_nothing(steps, cond_holds(child(*rest, Rule::OrCond), src, cfg).1);
            lemma_takes_nothing(steps, cond_holds(child(*k, Rule::OrCond), src, cfg).1);
        }
    }
}

/// The items of an `#if` count exactly where its condition holds; else its next
/// branch is looked at.
pub proof fn law_if_asks_its_condition(
    before: Trees,
    from: usize,
    to: usize,
    items: Trees,
    src: SourceModel,
    cfg: CfgModel,
)
    requires
        !branch_steps(before, src, cfg).0,
    ensures
        ({
            let ts = Trees::Snoc(
                Box::new(before),
                Box::new(Tree::Node(Rule::Items, from, to, Box::new(items))),
            );
            let held = cond_holds(child(before, Rule::OrCond), src, cfg).0;
            &&& branch_steps(ts, src, cfg).0 == held
            &&& held ==> exists|front: Seq<StepModel>|
                takes_nothing(front) && branch_steps(ts, src, cfg).1 == #[trigger] (front
                    + list_steps(items, false, src, cfg))
        }),
{
    law_no_branch_no_items(before, src, cfg);
    let steps = branch_steps(before, src, cfg).1;
    let e = cond_holds(child(before, Rule::OrCond), src, cfg).1;
    lemma_takes_nothing(steps, e);
    let front = steps + complaints(e);
    assert(takes_nothing(front));
    let all = front + list_steps(items, false, src, cfg);
}

/// Where no arm of a `#match` counts, none of its items does.
pub proof fn law_no_arm_no_items(ts: Trees, s: ScrutineesModel, src: SourceModel, cfg: CfgModel)
    requires
        !arm_steps(ts, s, src, cfg).0,
    ensures
        takes_nothing(arm_steps(ts, s, src, cfg).1),
    decreases ts,
{
    if let Trees::Snoc(rest, x) = ts {
        law_no_arm_no_items(*rest, s, src, cfg);
        let steps = arm_steps(*rest, s, src, cfg).1;
        if let Tree::Node(q, _, _, k) = *x {
            lemma_takes_nothing(steps, as_remarks(pattern_matches(pattern_in(*k), src, s).1));
        }
    }
}

/// An arm of a `#match` counts exactly where none before it does and its pattern
/// matches.
pub proof fn law_match_asks_its_patterns(
    arms: Trees,
    from: usize,
    to: usize,
    arm: Trees,
    s: ScrutineesModel,
    src: SourceModel,
    cfg: CfgModel,
)
    requires
        !arm_steps(arms, s, src, cfg).0,
    ensures
        ({
            let ts = Trees::Snoc(
                Box::new(arms),
                Box::new(Tree::Node(Rule::ArmItem, from, to, Box::new(arm))),
            );
            let held = pattern_matches(pattern_in(arm), src, s).0;
            &&& arm_steps(ts, s, src, cfg).0 == held
            &&& held ==> exists|front: Seq<StepModel>|
                takes_nothing(front) && arm_steps(ts, s, src, cfg).1 == #[trigger] (front
                    + body_steps(arm, src, cfg))
        }),
{
    law_no_arm_no_items(arms, s, src, cfg);
    let steps = arm_steps(arms, s, src, cfg).1;
    let e = as_remarks(pattern_matches(pattern_in(arm), src, s).1);
    lemma_takes_nothing(steps, e);
    let front = steps + complaints(e);
    assert(takes_nothing(front));
    let all = front + body_steps(arm, src, cfg);
}

/// An item that is no condition counts as it is, under every configuration.
pub proof fn law_plain_items_always_count(t: Tree, q: Rule, from: usize, to: usize, k: Trees, src: SourceModel, cfg: CfgModel)
    requires
        t matches Tree::Node(_, _, _, below) && *below == one_tree(
            Tree::Node(q, from, to, Box::new(k)),
        ),
        q != Rule::IfItem && q != Rule::IfEntry && q != Rule::MatchItem && q != Rule::MatchEntry,
    ensures
        item_steps(t, src, cfg) == seq![StepModel::Take(t)],
{
}

} // verus!
