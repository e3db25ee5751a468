//! `#if` and `#match`: which of their items count under a configuration.

use crate::cfg::{
    key_scrutinee, lower_scrutinee, opt_remark, pattern_fits, pattern_matches, values_view,
    CfgModel, CfgValue, CfgValueModel, InMemoryRustCfgProvider, Remark, RemarkModel, Scrutinees,
    ScrutineesModel,
};
use crate::lower::{any_rule, below, child, find_below, find_child, has_rule, Source, SourceModel};
use crate::peg::{Rule, Tree, Trees};
use vstd::prelude::*;

verus! {

broadcast use vstd::std_specs::vec::group_vec_axioms;

/// One step of going through the items of a file or of a type.
pub enum Step<'a> {
    /// The item counts.
    Take(&'a Tree),
    /// A condition is wrong.
    Complain(Remark),
}

/// What a [`Step`] holds.
#[verifier::ext_equal]
pub enum StepModel {
    Take(Tree),
    Complain(RemarkModel),
}

impl<'a> Step<'a> {
    pub open spec fn view(&self) -> StepModel {
        match self {
            Step::Take(t) => StepModel::Take(**t),
            Step::Complain(r) => StepModel::Complain(r.view()),
        }
    }
}

/// What a list of steps holds.
pub open spec fn steps_view(v: Seq<Step<'_>>) -> Seq<StepModel> {
    Seq::new(v.len(), |i: int| v[i].view())
}

/// What a list of remarks holds.
pub open spec fn remarks_view(v: Seq<Remark>) -> Seq<RemarkModel> {
    Seq::new(v.len(), |i: int| v[i].view())
}

/// The steps that complain of each remark.
pub open spec fn complaints(v: Seq<RemarkModel>) -> Seq<StepModel> {
    Seq::new(v.len(), |i: int| StepModel::Complain(v[i]))
}

/// At most one remark.
pub open spec fn as_remarks(r: Option<RemarkModel>) -> Seq<RemarkModel> {
    match r {
        Some(x) => seq![x],
        None => Seq::empty(),
    }
}

/// The pattern among the trees.
pub open spec fn pattern_in(ts: Trees) -> Tree {
    if has_rule(ts, Rule::TuplePattern) {
        child(ts, Rule::TuplePattern)
    } else {
        child(ts, Rule::OrPattern)
    }
}

/// Whether `cfg!(..)` holds: with a pattern, that it matches; without, that the
/// key is set.
pub open spec fn atom_holds(k: Trees, src: SourceModel, cfg: CfgModel) -> (bool, Seq<RemarkModel>) {
    let v = key_scrutinee(child(k, Rule::CfgKey), src, cfg);
    if has_rule(k, Rule::TuplePattern) || has_rule(k, Rule::OrPattern) {
        let (b, r) = pattern_matches(pattern_in(k), src, ScrutineesModel::Single(v));
        (b, as_remarks(r))
    } else {
        (!(v is Empty), Seq::empty())
    }
}

/// Whether a condition holds, and what is wrong with it.
pub open spec fn cond_holds(t: Tree, src: SourceModel, cfg: CfgModel) -> (bool, Seq<RemarkModel>)
    decreases t,
{
    match t {
        Tree::Leaf(_) => (false, Seq::empty()),
        Tree::Node(q, _, _, k) => if q == Rule::CondAtom {
            atom_holds(*k, src, cfg)
        } else if q == Rule::AndCond {
            all_hold(*k, src, cfg)
        } else {
            any_holds(*k, src, cfg)
        },
    }
}

/// Whether one of the conditions holds; those behind it are not looked at.
pub open spec fn any_holds(ts: Trees, src: SourceModel, cfg: CfgModel) -> (bool, Seq<RemarkModel>)
    decreases ts,
{
    match ts {
        Trees::Nil => (false, Seq::empty()),
        Trees::Snoc(rest, x) => {
            let (b, e) = any_holds(*rest, src, cfg);
            if b {
                (b, e)
            } else {
                let (c, f) = cond_holds(*x, src, cfg);
                (c, e + f)
            }
        },
    }
}

/// Whether all conditions hold; those behind one that does not are not looked
/// at.
pub open spec fn all_hold(ts: Trees, src: SourceModel, cfg: CfgModel) -> (bool, Seq<RemarkModel>)
    decreases ts,
{
    match ts {
        Trees::Nil => (true, Seq::empty()),
        Trees::Snoc(rest, x) => {
            let (b, e) = all_hold(*rest, src, cfg);
            if !b {
                (b, e)
            } else {
                let (c, f) = cond_holds(*x, src, cfg);
                (c, e + f)
            }
        },
    }
}

/// What the directives among the trees look at.
pub open spec fn directives_in(ts: Trees, src: SourceModel, cfg: CfgModel) -> Seq<CfgValueModel>
    decreases ts,
{
    match ts {
        Trees::Nil => Seq::empty(),
        Trees::Snoc(rest, x) => match *x {
            Tree::Node(q, _, _, k) => if q == Rule::Directive {
                directives_in(*rest, src, cfg).push(
                    key_scrutinee(child(*k, Rule::CfgKey), src, cfg),
                )
            } else {
                directives_in(*rest, src, cfg)
            },
            _ => directives_in(*rest, src, cfg),
        },
    }
}

/// What a `#match` looks at.
pub open spec fn scrutinees_of(k: Trees, src: SourceModel, cfg: CfgModel) -> ScrutineesModel {
    if has_rule(k, Rule::ScrutineeTuple) {
        ScrutineesModel::Tuple(directives_in(below(child(k, Rule::ScrutineeTuple)), src, cfg))
    } else {
        ScrutineesModel::Single(
            key_scrutinee(child(below(child(k, Rule::Directive)), Rule::CfgKey), src, cfg),
        )
    }
}

/// Whether a rule is a block of items, and whether they are those of a type.
#[verifier::allow_in_spec]
pub fn block_kind(q: Rule) -> Option<bool>
    returns
        (if q == Rule::Items {
            Some(false)
        } else if q == Rule::TypeBody {
            Some(true)
        } else {
            None
        }),
{
    if q == Rule::Items {
        Some(false)
    } else if q == Rule::TypeBody {
        Some(true)
    } else {
        None
    }
}

/// Whether a rule is a single item.
#[verifier::allow_in_spec]
pub fn is_item(q: Rule) -> bool
    returns
        (q == Rule::Item || q == Rule::TypeEntry),
{
    q == Rule::Item || q == Rule::TypeEntry
}

/// The steps of an item: those of the arm that counts for a conditional one,
/// else the item itself.
pub open spec fn item_steps(t: Tree, src: SourceModel, cfg: CfgModel) -> Seq<StepModel>
    decreases t,
{
    match t {
        Tree::Node(_, _, _, k) => match *k {
            Trees::Snoc(_, x) => match *x {
                Tree::Node(q, _, _, k2) => if q == Rule::IfItem || q == Rule::IfEntry {
                    branch_steps(*k2, src, cfg).1
                } else if q == Rule::MatchItem || q == Rule::MatchEntry {
                    arm_steps(
                        *k2,
                        scrutinees_of(below(child(*k2, Rule::Scrutinees)), src, cfg),
                        src,
                        cfg,
                    ).1
                } else {
                    seq![StepModel::Take(t)]
                },
                _ => seq![StepModel::Take(t)],
            },
            _ => seq![StepModel::Take(t)],
        },
        _ => seq![StepModel::Take(t)],
    }
}

/// The steps of the items among the trees, in order or, for those of a
/// conditional block of a type, from the last to the first.
pub open spec fn list_steps(ts: Trees, backwards: bool, src: SourceModel, cfg: CfgModel) -> Seq<
    StepModel,
>
    decreases ts,
{
    match ts {
        Trees::Nil => Seq::empty(),
        Trees::Snoc(rest, x) => match *x {
            Tree::Node(q, _, _, _) => if !is_item(q) {
                list_steps(*rest, backwards, src, cfg)
            } else if backwards {
                item_steps(*x, src, cfg) + list_steps(*rest, backwards, src, cfg)
            } else {
                list_steps(*rest, backwards, src, cfg) + item_steps(*x, src, cfg)
            },
            _ => list_steps(*rest, backwards, src, cfg),
        },
    }
}

/// The steps of what an arm or a branch holds.
pub open spec fn body_steps(ts: Trees, src: SourceModel, cfg: CfgModel) -> Seq<StepModel>
    decreases ts,
{
    match ts {
        Trees::Nil => Seq::empty(),
        Trees::Snoc(rest, x) => match *x {
            Tree::Node(q, _, _, k) => match block_kind(q) {
                Some(backwards) => list_steps(*k, backwards, src, cfg),
                None => if is_item(q) {
                    item_steps(*x, src, cfg)
                } else {
                    body_steps(*rest, src, cfg)
                },
            },
            _ => body_steps(*rest, src, cfg),
        },
    }
}

/// Whether one of the branches of an `#if` is taken, and the steps up to there.
pub open spec fn branch_steps(ts: Trees, src: SourceModel, cfg: CfgModel) -> (bool, Seq<StepModel>)
    decreases ts,
{
    match ts {
        Trees::Nil => (false, Seq::empty()),
        Trees::Snoc(rest, x) => {
            let (taken, steps) = branch_steps(*rest, src, cfg);
            if taken {
                (taken, steps)
            } else {
                match *x {
                    Tree::Node(q, _, _, k) => if block_kind(q) is Some {
                        let (b, e) = cond_holds(child(*rest, Rule::OrCond), src, cfg);
                        if b {
                            (
                                true,
                                steps + complaints(e) + list_steps(*k, block_kind(q)->0, src, cfg),
                            )
                        } else {
                            (false, steps + complaints(e))
                        }
                    } else if q == Rule::ElseIfItem || q == Rule::ElseIfEntry {
                        let (b, e) = cond_holds(child(*k, Rule::OrCond), src, cfg);
                        if b {
                            (true, steps + complaints(e) + body_steps(*k, src, cfg))
                        } else {
                            (false, steps + complaints(e))
                        }
                    } else if q == Rule::ElseItem || q == Rule::ElseEntry {
                        (true, steps + body_steps(*k, src, cfg))
                    } else {
                        (false, steps)
                    },
                    _ => (false, steps),
                }
            }
        },
    }
}

/// Whether one of the arms of a `#match` is taken, and the steps up to there.
pub open spec fn arm_steps(ts: Trees, s: ScrutineesModel, src: SourceModel, cfg: CfgModel) -> (
    bool,
    Seq<StepModel>,
)
    decreases ts,
{
    match ts {
        Trees::Nil => (false, Seq::empty()),
        Trees::Snoc(rest, x) => {
            let (taken, steps) = arm_steps(*rest, s, src, cfg);
            if taken {
                (taken, steps)
            } else {
                match *x {
                    Tree::Node(q, _, _, k) => if q == Rule::ArmItem || q == Rule::ArmEntry {
                        let (b, e) = pattern_matches(pattern_in(*k), src, s);
                        if b {
                            (
                                true,
                                steps + complaints(as_remarks(e)) + body_steps(*k, src, cfg),
                            )
                        } else {
                            (false, steps + complaints(as_remarks(e)))
                        }
                    } else {
                        (false, steps)
                    },
                    _ => (false, steps),
                }
            }
        },
    }
}

/// At most one arm of a `#match` counts: once one has been taken, the arms behind
/// it add nothing.
pub proof fn law_first_arm_decides(
    arms: Trees,
    next: Tree,
    s: ScrutineesModel,
    src: SourceModel,
    cfg: CfgModel,
)
    requires
        arm_steps(arms, s, src, cfg).0,
    ensures
        arm_steps(Trees::Snoc(Box::new(arms), Box::new(next)), s, src, cfg) == arm_steps(
            arms,
            s,
            src,
            cfg,
        ),
{
}

/// At most one branch of an `#if` counts: once one has been taken, those behind
/// it add nothing.
pub proof fn law_first_branch_decides(branches: Trees, next: Tree, src: SourceModel, cfg: CfgModel)
    requires
        branch_steps(branches, src, cfg).0,
    ensures
        branch_steps(Trees::Snoc(Box::new(branches), Box::new(next)), src, cfg) == branch_steps(
            branches,
            src,
            cfg,
        ),
{
}

/// An `#else` branch counts where none before it does.
pub proof fn law_else_counts(
    branches: Trees,
    from: usize,
    to: usize,
    body: Trees,
    src: SourceModel,
    cfg: CfgModel,
)
    requires
        !branch_steps(branches, src, cfg).0,
    ensures
        branch_steps(
            Trees::Snoc(
                Box::new(branches),
                Box::new(Tree::Node(Rule::ElseItem, from, to, Box::new(body))),
            ),
            src,
            cfg,
        ) == (true, branch_steps(branches, src, cfg).1 + body_steps(body, src, cfg)),
{
}

fn push_remarks(mut from: Vec<Remark>, out: &mut Vec<Remark>)
    ensures
        remarks_view(final(out)@) == remarks_view(old(out)@) + remarks_view(from@),
{
    let ghost a = out@;
    let ghost b = from@;
    out.append(&mut from);
    proof {
        assert(remarks_view(a + b) =~= remarks_view(a) + remarks_view(b));
    }
}

fn no_remarks() -> (r: Vec<Remark>)
    ensures
        remarks_view(r@) == Seq::<RemarkModel>::empty(),
{
    let r: Vec<Remark> = Vec::new();
    proof {
        assert(remarks_view(r@) =~= Seq::empty());
    }
    r
}

fn to_remarks(x: Option<Remark>) -> (r: Vec<Remark>)
    ensures
        remarks_view(r@) == as_remarks(opt_remark(x)),
{
    let mut r: Vec<Remark> = Vec::new();
    match x {
        Some(y) => {
            r.push(y);
        },
        None => {},
    }
    proof {
        assert(remarks_view(r@) =~= as_remarks(opt_remark(x)));
    }
    r
}

fn find_pattern(ts: &Trees) -> (r: Option<&Tree>)
    ensures
        match r {
            Some(t) => *t == pattern_in(*ts),
            None => pattern_in(*ts) == Tree::Leaf(usize::MAX),
        },
{
    match find_child(ts, Rule::TuplePattern) {
        Some(t) => Some(t),
        None => find_child(ts, Rule::OrPattern),
    }
}

fn key_value(ts: &Trees, src: &Source, cfg: &InMemoryRustCfgProvider) -> (r: CfgValue)
    ensures
        r@ == key_scrutinee(child(*ts, Rule::CfgKey), src@, cfg@),
{
    match find_child(ts, Rule::CfgKey) {
        Some(t) => lower_scrutinee(t, src, cfg),
        None => CfgValue::Empty,
    }
}

fn eval_pattern(k: &Trees, src: &Source, s: &Scrutinees) -> (r: (bool, Vec<Remark>))
    ensures
        ({
            let (b, e) = pattern_matches(pattern_in(*k), src@, s@);
            r.0 == b && remarks_view(r.1@) == as_remarks(e)
        }),
{
    match find_pattern(k) {
        Some(t) => {
            let (b, e) = pattern_fits(t, src, s);
            (b, to_remarks(e))
        },
        None => (false, no_remarks()),
    }
}

fn eval_atom(k: &Trees, src: &Source, cfg: &InMemoryRustCfgProvider) -> (r: (bool, Vec<Remark>))
    ensures
        (r.0, remarks_view(r.1@)) == atom_holds(*k, src@, cfg@),
{
    let v = key_value(k, src, cfg);
    if any_rule(k, Rule::TuplePattern) || any_rule(k, Rule::OrPattern) {
        let s = Scrutinees::Single(v);
        eval_pattern(k, src, &s)
    } else {
        let set = match v {
            CfgValue::Empty => false,
            _ => true,
        };
        (set, no_remarks())
    }
}

/// Whether a condition holds, and what is wrong with it.
fn eval_cond(t: &Tree, src: &Source, cfg: &InMemoryRustCfgProvider) -> (r: (bool, Vec<Remark>))
    ensures
        (r.0, remarks_view(r.1@)) == cond_holds(*t, src@, cfg@),
    decreases t,
{
    match t {
        Tree::Leaf(_) => (false, no_remarks()),
        Tree::Node(q, _, _, k) => {
            if *q == Rule::CondAtom {
                eval_atom(k, src, cfg)
            } else if *q == Rule::AndCond {
                eval_all(k, src, cfg)
            } else {
                eval_any(k, src, cfg)
            }
        },
    }
}

fn eval_any(ts: &Trees, src: &Source, cfg: &InMemoryRustCfgProvider) -> (r: (bool, Vec<Remark>))
    ensures
        (r.0, remarks_view(r.1@)) == any_holds(*ts, src@, cfg@),
    decreases ts,
{
    match ts {
        Trees::Nil => (false, no_remarks()),
        Trees::Snoc(rest, x) => {
            let (b, mut e) = eval_any(rest, src, cfg);
            if b {
                (b, e)
            } else {
                let (c, f) = eval_cond(x, src, cfg);
                push_remarks(f, &mut e);
                (c, e)
            }
        },
    }
}

fn eval_all(ts: &Trees, src: &Source, cfg: &InMemoryRustCfgProvider) -> (r: (bool, Vec<Remark>))
    ensures
        (r.0, remarks_view(r.1@)) == all_hold(*ts, src@, cfg@),
    decreases ts,
{
    match ts {
        Trees::Nil => (true, no_remarks()),
        Trees::Snoc(rest, x) => {
            let (b, mut e) = eval_all(rest, src, cfg);
            if !b {
                (b, e)
            } else {
                let (c, f) = eval_cond(x, src, cfg);
                push_remarks(f, &mut e);
                (c, e)
            }
        },
    }
}

/// Whether the condition among the trees holds, and what is wrong with it.
fn eval_cond_in(ts: &Trees, src: &Source, cfg: &InMemoryRustCfgProvider) -> (r: (
    bool,
    Vec<Remark>,
))
    ensures
        (r.0, remarks_view(r.1@)) == cond_holds(child(*ts, Rule::OrCond), src@, cfg@),
{
    match find_child(ts, Rule::OrCond) {
        Some(t) => eval_cond(t, src, cfg),
        None => (false, no_remarks()),
    }
}

fn eval_directives(ts: &Trees, src: &Source, cfg: &InMemoryRustCfgProvider) -> (r: Vec<CfgValue>)
    ensures
        values_view(r@) == directives_in(*ts, src@, cfg@),
    decreases ts,
{
    match ts {
        Trees::Nil => {
            let r: Vec<CfgValue> = Vec::new();
            proof {
                assert(values_view(r@) =~= Seq::empty());
            }
            r
        },
        Trees::Snoc(rest, x) => {
            let mut r = eval_directives(rest, src, cfg);
            match &**x {
                Tree::Node(q, _, _, k) => {
                    if *q == Rule::Directive {
                        let v = key_value(k, src, cfg);
                        proof {
                            assert(values_view(r@.push(v)) =~= values_view(r@).push(v.view()));
                        }
                        r.push(v);
                    }
                },
                _ => {},
            }
            r
        },
    }
}

fn eval_scrutinees(k: &Trees, src: &Source, cfg: &InMemoryRustCfgProvider) -> (r: Scrutinees)
    ensures
        r@ == scrutinees_of(*k, src@, cfg@),
{
    if any_rule(k, Rule::ScrutineeTuple) {
        match find_below(k, Rule::ScrutineeTuple) {
            Some(d) => Scrutinees::Tuple(eval_directives(d, src, cfg)),
            None => {
                let none = Trees::Nil;
                Scrutinees::Tuple(eval_directives(&none, src, cfg))
            },
        }
    } else {
        match find_below(k, Rule::Directive) {
            Some(d) => Scrutinees::Single(key_value(d, src, cfg)),
            None => {
                let none = Trees::Nil;
                Scrutinees::Single(key_value(&none, src, cfg))
            },
        }
    }
}

fn push_step<'a>(out: &mut Vec<Step<'a>>, s: Step<'a>)
    ensures
        steps_view(final(out)@) == steps_view(old(out)@) + seq![s@],
{
    proof {
        assert(steps_view(out@.push(s)) =~= steps_view(out@) + seq![s@]);
    }
    out.push(s);
}

fn push_complaints<'a>(out: &mut Vec<Step<'a>>, from: Vec<Remark>)
    ensures
        steps_view(final(out)@) == steps_view(old(out)@) + complaints(remarks_view(from@)),
{
    let ghost all = from@;
    let ghost front = steps_view(out@);
    let mut i: usize = 0;
    proof {
        assert(front + complaints(remarks_view(all)).take(0) =~= front);
    }
    while i < from.len()
        invariant
            i <= from.len(),
            all == from@,
            steps_view(out@) == front + complaints(remarks_view(all)).take(i as int),
        decreases from.len() - i,
    {
        let r = Remark { message: from[i].message.clone(), span: from[i].span };
        proof {
            let c = complaints(remarks_view(all));
            assert(c[i as int] == StepModel::Complain(r.view()));
            assert(front + c.take(i + 1) =~= front + c.take(i as int) + seq![c[i as int]]);
        }
        push_step(out, Step::Complain(r));
        i += 1;
    }
    proof {
        assert(complaints(remarks_view(all)).take(i as int) =~= complaints(remarks_view(all)));
    }
}

/// The steps of an item.
pub fn walk_item<'a>(
    t: &'a Tree,
    src: &Source,
    cfg: &InMemoryRustCfgProvider,
    out: &mut Vec<Step<'a>>,
)
    ensures
        steps_view(final(out)@) == steps_view(old(out)@) + item_steps(*t, src@, cfg@),
    decreases t,
{
    match t {
        Tree::Node(_, _, _, k) => match &**k {
            Trees::Snoc(_, x) => match &**x {
                Tree::Node(q, _, _, k2) => {
                    if *q == Rule::IfItem || *q == Rule::IfEntry {
                        let _ = walk_branches(k2, src, cfg, out);
                    } else if *q == Rule::MatchItem || *q == Rule::MatchEntry {
                        let none = Trees::Nil;
                        let s = match find_below(k2, Rule::Scrutinees) {
                            Some(d) => eval_scrutinees(d, src, cfg),
                            None => eval_scrutinees(&none, src, cfg),
                        };
                        let _ = walk_arms(k2, &s, src, cfg, out);
                    } else {
                        push_step(out, Step::Take(t));
                    }
                },
                _ => push_step(out, Step::Take(t)),
            },
            _ => push_step(out, Step::Take(t)),
        },
        _ => push_step(out, Step::Take(t)),
    }
}

/// The steps of the items among the trees.
pub fn walk_list<'a>(
    ts: &'a Trees,
    backwards: bool,
    src: &Source,
    cfg: &InMemoryRustCfgProvider,
    out: &mut Vec<Step<'a>>,
)
    ensures
        steps_view(final(out)@) == steps_view(old(out)@) + list_steps(*ts, backwards, src@, cfg@),
    decreases ts,
{
    let ghost front = steps_view(out@);
    match ts {
        Trees::Nil => {
            proof {
                assert(front + Seq::<StepModel>::empty() =~= front);
            }
        },
        Trees::Snoc(rest, x) => match &**x {
            Tree::Node(q, _, _, _) => {
                if !is_item(*q) {
                    walk_list(rest, backwards, src, cfg, out);
                } else if backwards {
                    walk_item(x, src, cfg, out);
                    walk_list(rest, backwards, src, cfg, out);
                    proof {
                        let a = item_steps(**x, src@, cfg@);
                        let b = list_steps(**rest, backwards, src@, cfg@);
                        assert(front + a + b =~= front + (a + b));
                    }
                } else {
                    walk_list(rest, backwards, src, cfg, out);
                    walk_item(x, src, cfg, out);
                    proof {
                        let a = list_steps(**rest, backwards, src@, cfg@);
                        let b = item_steps(**x, src@, cfg@);
                        assert(front + a + b =~= front + (a + b));
                    }
                }
            },
            _ => walk_list(rest, backwards, src, cfg, out),
        },
    }
}

fn walk_body<'a>(
    ts: &'a Trees,
    src: &Source,
    cfg: &InMemoryRustCfgProvider,
    out: &mut Vec<Step<'a>>,
)
    ensures
        steps_view(final(out)@) == steps_view(old(out)@) + body_steps(*ts, src@, cfg@),
    decreases ts,
{
    match ts {
        Trees::Nil => {
            proof {
                assert(steps_view(out@) + Seq::<StepModel>::empty() =~= steps_view(out@));
            }
        },
        Trees::Snoc(rest, x) => match &**x {
            Tree::Node(q, _, _, k) => match block_kind(*q) {
                Some(backwards) => walk_list(k, backwards, src, cfg, out),
                None => {
                    if is_item(*q) {
                        walk_item(x, src, cfg, out);
                    } else {
                        walk_body(rest, src, cfg, out);
                    }
                },
            },
            _ => walk_body(rest, src, cfg, out),
        },
    }
}

fn walk_branches<'a>(
    ts: &'a Trees,
    src: &Source,
    cfg: &InMemoryRustCfgProvider,
    out: &mut Vec<Step<'a>>,
) -> (taken: bool)
    ensures
        taken == branch_steps(*ts, src@, cfg@).0,
        steps_view(final(out)@) == steps_view(old(out)@) + branch_steps(*ts, src@, cfg@).1,
    decreases ts,
{
    let ghost front = steps_view(out@);
    match ts {
        Trees::Nil => {
            proof {
                assert(front + Seq::<StepModel>::empty() =~= front);
            }
            false
        },
        Trees::Snoc(rest, x) => {
            if walk_branches(rest, src, cfg, out) {
                return true;
            }
            let ghost steps = branch_steps(**rest, src@, cfg@).1;
            match &**x {
                Tree::Node(q, _, _, k) => {
                    if let Some(backwards) = block_kind(*q) {
                        let (b, e) = eval_cond_in(rest, src, cfg);
                        let ghost c = complaints(remarks_view(e@));
                        push_complaints(out, e);
                        proof {
                            assert(front + steps + c =~= front + (steps + c));
                        }
                        if b {
                            walk_list(k, backwards, src, cfg, out);
                            proof {
                                let l = list_steps(**k, backwards, src@, cfg@);
                                assert(front + (steps + c) + l =~= front + (steps + c + l));
                            }
                        }
                        b
                    } else if *q == Rule::ElseIfItem || *q == Rule::ElseIfEntry {
                        let (b, e) = eval_cond_in(k, src, cfg);
                        let ghost c = complaints(remarks_view(e@));
                        push_complaints(out, e);
                        proof {
                            assert(front + steps + c =~= front + (steps + c));
                        }
                        if b {
                            walk_body(k, src, cfg, out);
                            proof {
                                let l = body_steps(**k, src@, cfg@);
                                assert(front + (steps + c) + l =~= front + (steps + c + l));
                            }
                        }
                        b
                    } else if *q == Rule::ElseItem || *q == Rule::ElseEntry {
                        walk_body(k, src, cfg, out);
                        proof {
                            let l = body_steps(**k, src@, cfg@);
                            assert(front + steps + l =~= front + (steps + l));
                        }
                        true
                    } else {
                        false
                    }
                },
                _ => false,
            }
        },
    }
}

fn walk_arms<'a>(
    ts: &'a Trees,
    s: &Scrutinees,
    src: &Source,
    cfg: &InMemoryRustCfgProvider,
    out: &mut Vec<Step<'a>>,
) -> (taken: bool)
    ensures
        taken == arm_steps(*ts, s@, src@, cfg@).0,
        steps_view(final(out)@) == steps_view(old(out)@) + arm_steps(*ts, s@, src@, cfg@).1,
    decreases ts,
{
    let ghost front = steps_view(out@);
    match ts {
        Trees::Nil => {
            proof {
                assert(front + Seq::<StepModel>::empty() =~= front);
            }
            false
        },
        Trees::Snoc(rest, x) => {
            if walk_arms(rest, s, src, cfg, out) {
                return true;
            }
            let ghost steps = arm_steps(**rest, s@, src@, cfg@).1;
            match &**x {
                Tree::Node(q, _, _, k) => {
                    if *q == Rule::ArmItem || *q == Rule::ArmEntry {
                        let (b, e) = eval_pattern(k, src, s);
                        let ghost c = complaints(remarks_view(e@));
                        push_complaints(out, e);
                        proof {
                            assert(front + steps + c =~= front + (steps + c));
                        }
                        if b {
                            walk_body(k, src, cfg, out);
                            proof {
                                let l = body_steps(**k, src@, cfg@);
                                assert(front + (steps + c) + l =~= front + (steps + c + l));
                            }
                        }
                        b
                    } else {
                        false
                    }
                },
                _ => false,
            }
        },
    }
}

} // verus!
