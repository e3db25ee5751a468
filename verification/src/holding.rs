//! What a text holds: parts that stand in it one behind the other.

use crate::text::{
    concat_all, digit_value, filled_from, is_digit, join_text, lemma_join_front, occurs_at,
};
use vstd::prelude::*;

verus! {

/// Whether the parts stand in a text from `from` on, each behind the one before.
pub open spec fn in_order(text: Seq<char>, parts: Seq<Seq<char>>, from: int) -> bool
    decreases parts.len(),
{
    parts.len() == 0 || exists|i: int|
        from <= i && #[trigger] occurs_at(text, parts[0], i) && in_order(
            text,
            parts.drop_first(),
            i + parts[0].len(),
        )
}

/// Whether the parts stand in a text, each behind the one before.
pub open spec fn holds(text: Seq<char>, parts: Seq<Seq<char>>) -> bool {
    in_order(text, parts, 0)
}

/// Parts that stand in a text also stand in it with more around it.
pub proof fn lemma_holds_around(text: Seq<char>, parts: Seq<Seq<char>>, from: int, a: Seq<char>, b: Seq<char>)
    requires
        0 <= from,
        in_order(text, parts, from),
    ensures
        in_order(a + text + b, parts, a.len() + from),
    decreases parts.len(),
{
    if parts.len() > 0 {
        let i = choose|i: int|
            from <= i && #[trigger] occurs_at(text, parts[0], i) && in_order(
                text,
                parts.drop_first(),
                i + parts[0].len(),
            );
        let all = a + text + b;
        assert(all.subrange(a.len() + i, a.len() + i + parts[0].len()) =~= text.subrange(
            i,
            i + parts[0].len(),
        ));
        assert(occurs_at(all, parts[0], a.len() + i));
        lemma_holds_around(text, parts.drop_first(), i + parts[0].len(), a, b);
    }
}

/// Parts that stand behind a place also stand behind an earlier one.
pub proof fn lemma_holds_earlier(text: Seq<char>, parts: Seq<Seq<char>>, from: int, to: int)
    requires
        to <= from,
        in_order(text, parts, from),
    ensures
        in_order(text, parts, to),
    decreases parts.len(),
{
    if parts.len() > 0 {
        let i = choose|i: int|
            from <= i && #[trigger] occurs_at(text, parts[0], i) && in_order(
                text,
                parts.drop_first(),
                i + parts[0].len(),
            );
        assert(occurs_at(text, parts[0], i));
    }
}

/// A part, and then those behind it in the rest of the text.
pub proof fn lemma_holds_step(
    whole: Seq<char>,
    before: Seq<char>,
    rest: Seq<char>,
    parts: Seq<Seq<char>>,
    j: int,
)
    requires
        0 <= j < parts.len(),
        whole == before + (parts[j] + rest),
        holds(rest, parts.skip(j + 1)),
    ensures
        holds(whole, parts.skip(j)),
{
    let part = parts[j];
    let all = parts.skip(j);
    let more = parts.skip(j + 1);
    assert(all.drop_first() =~= more);
    assert(all[0] == part);
    let at = before.len() as int;
    assert(whole.subrange(at, at + part.len()) =~= part);
    assert(occurs_at(whole, all[0], at));
    assert(whole =~= (before + part) + rest + Seq::<char>::empty());
    lemma_holds_around(rest, more, 0, before + part, Seq::empty());
    assert(in_order(whole, all.drop_first(), at + part.len()));
}

/// Nothing stands in every text.
pub proof fn lemma_holds_nothing(text: Seq<char>, parts: Seq<Seq<char>>)
    ensures
        holds(text, parts.skip(parts.len() as int)),
{
}

/// The parts of what a text starts with stand in the text, and so do those of
/// what stands somewhere in it.
pub proof fn lemma_holds_inside(
    whole: Seq<char>,
    before: Seq<char>,
    text: Seq<char>,
    behind: Seq<char>,
    parts: Seq<Seq<char>>,
)
    requires
        whole == before + text + behind,
        holds(text, parts),
    ensures
        holds(whole, parts),
{
    lemma_holds_around(text, parts, 0, before, behind);
    lemma_holds_earlier(whole, parts, before.len() as int, 0);
}

/// A part of a text that is put together of many stands in it.
pub proof fn lemma_concat_holds(v: Seq<Seq<char>>, k: int) -> (r: (Seq<char>, Seq<char>))
    requires
        0 <= k < v.len(),
    ensures
        concat_all(v) == r.0 + v[k] + r.1,
    decreases v.len(),
{
    if k == v.len() - 1 {
        assert(concat_all(v) =~= concat_all(v.drop_last()) + v[k] + Seq::<char>::empty());
        (concat_all(v.drop_last()), Seq::empty())
    } else {
        let r = lemma_concat_holds(v.drop_last(), k);
        assert(concat_all(v) =~= r.0 + v[k] + (r.1 + v.last()));
        (r.0, r.1 + v.last())
    }
}

/// A template is filled up to a place that no placeholder runs over.
pub proof fn lemma_filled_reaches(template: Seq<char>, args: Seq<Seq<char>>, i: int, p: int) -> (r: Seq<char>)
    requires
        0 <= i <= p <= template.len(),
        p < template.len() ==> !is_digit(template[p]),
    ensures
        filled_from(template, args, i) == r + filled_from(template, args, p),
    decreases p - i,
{
    if i == p {
        assert(filled_from(template, args, i) =~= Seq::<char>::empty() + filled_from(
            template,
            args,
            p,
        ));
        Seq::empty()
    } else if template[i] == '$' && i + 1 < template.len() && is_digit(template[i + 1])
        && digit_value(template[i + 1]) < args.len() {
        let r = lemma_filled_reaches(template, args, i + 2, p);
        let x = args[digit_value(template[i + 1]) as int];
        assert(filled_from(template, args, i) =~= (x + r) + filled_from(template, args, p));
        x + r
    } else {
        let r = lemma_filled_reaches(template, args, i + 1, p);
        assert(filled_from(template, args, i) =~= (seq![template[i]] + r) + filled_from(
            template,
            args,
            p,
        ));
        seq![template[i]] + r
    }
}

/// What stands in a template without a placeholder stands in what it gives.
pub proof fn lemma_filled_literal(template: Seq<char>, args: Seq<Seq<char>>, p: int, lit: Seq<char>)
    requires
        occurs_at(template, lit, p),
        !lit.contains('$'),
    ensures
        filled_from(template, args, p) == lit + filled_from(template, args, p + lit.len()),
    decreases lit.len(),
{
    if lit.len() == 0 {
        assert(lit + filled_from(template, args, p) =~= filled_from(template, args, p));
    } else {
        let rest = lit.drop_first();
        assert(template.subrange(p, p + lit.len())[0] == template[p]);
        assert(lit.contains(lit[0]));
        assert(template.subrange(p + 1, p + 1 + rest.len()) =~= rest);
        assert forall|c: char| rest.contains(c) implies lit.contains(c) by {
            let k = choose|k: int| 0 <= k < rest.len() && rest[k] == c;
            assert(lit[k + 1] == c);
        }
        lemma_filled_literal(template, args, p + 1, rest);
        assert(lit =~= seq![lit[0]] + rest);
        assert(lit + filled_from(template, args, p + lit.len()) =~= seq![lit[0]] + (rest
            + filled_from(template, args, p + lit.len())));
    }
}

proof fn lemma_concat_first(v: Seq<Seq<char>>)
    requires
        v.len() > 0,
    ensures
        concat_all(v) == v[0] + concat_all(v.drop_first()),
    decreases v.len(),
{
    if v.len() == 1 {
        assert(v.drop_last() =~= Seq::empty());
        assert(v.drop_first() =~= Seq::empty());
        assert(concat_all(v) =~= v[0] + concat_all(v.drop_first()));
    } else {
        lemma_concat_first(v.drop_last());
        assert(v.drop_last().drop_first() =~= v.drop_first().drop_last());
        assert(v[0] + concat_all(v.drop_first().drop_last()) + v.last() =~= v[0] + (concat_all(
            v.drop_first().drop_last(),
        ) + v.last()));
    }
}

/// The texts that a text is put together of stand in it, in their order.
pub proof fn lemma_concat_in_order(v: Seq<Seq<char>>)
    ensures
        holds(concat_all(v), v),
    decreases v.len(),
{
    if v.len() > 0 {
        lemma_concat_first(v);
        lemma_concat_in_order(v.drop_first());
        let rest = concat_all(v.drop_first());
        assert(v.skip(1) =~= v.drop_first());
        assert(v.skip(0) =~= v);
        assert(concat_all(v) =~= Seq::<char>::empty() + (v[0] + rest));
        lemma_holds_step(concat_all(v), Seq::empty(), rest, v, 0);
    }
}

/// Texts with a separator in between stand in their order.
pub proof fn lemma_join_in_order(v: Seq<Seq<char>>, sep: Seq<char>)
    ensures
        holds(join_text(v, sep), v),
    decreases v.len(),
{
    if v.len() == 1 {
        assert(v.skip(1) =~= Seq::empty());
        assert(v.skip(0) =~= v);
        assert(v[0] =~= Seq::<char>::empty() + (v[0] + Seq::<char>::empty()));
        lemma_holds_step(v[0], Seq::empty(), Seq::empty(), v, 0);
    } else if v.len() > 1 {
        lemma_join_front(v, sep);
        let tail = v.drop_first();
        let rest = join_text(tail, sep);
        lemma_join_in_order(tail, sep);
        assert(sep + rest =~= sep + rest + Seq::<char>::empty());
        lemma_holds_inside(sep + rest, sep, rest, Seq::empty(), tail);
        assert(v.skip(1) =~= tail);
        assert(v.skip(0) =~= v);
        assert(join_text(v, sep) =~= Seq::<char>::empty() + (v[0] + (sep + rest)));
        lemma_holds_step(join_text(v, sep), Seq::empty(), sep + rest, v, 0);
    }
}

/// One part that stands between two texts.
pub proof fn lemma_holds_one(whole: Seq<char>, before: Seq<char>, part: Seq<char>, behind: Seq<char>)
    requires
        whole == before + (part + behind),
    ensures
        holds(whole, seq![part]),
{
    let parts = seq![part];
    lemma_holds_nothing(behind, parts);
    lemma_holds_step(whole, before, behind, parts, 0);
    assert(parts.skip(0) =~= parts);
}

/// Parts of a text, and behind it those of another.
pub proof fn lemma_holds_both(a: Seq<char>, u: Seq<Seq<char>>, b: Seq<char>, v: Seq<Seq<char>>)
    requires
        holds(a, u),
        holds(b, v),
    ensures
        holds(a + b, u + v),
{
    lemma_in_order_both(a, u, 0, b, v);
}

proof fn lemma_in_order_both(a: Seq<char>, u: Seq<Seq<char>>, from: int, b: Seq<char>, v: Seq<Seq<char>>)
    requires
        0 <= from <= a.len(),
        in_order(a, u, from),
        holds(b, v),
    ensures
        in_order(a + b, u + v, from),
    decreases u.len(),
{
    if u.len() == 0 {
        assert(u + v =~= v);
        lemma_holds_around(b, v, 0, a, Seq::empty());
        assert(a + b + Seq::<char>::empty() =~= a + b);
        lemma_holds_earlier(a + b, v, a.len() as int, from);
    } else {
        let i = choose|i: int|
            from <= i && #[trigger] occurs_at(a, u[0], i) && in_order(
                a,
                u.drop_first(),
                i + u[0].len(),
            );
        assert((a + b).subrange(i, i + u[0].len()) =~= a.subrange(i, i + u[0].len()));
        assert(occurs_at(a + b, (u + v)[0], i));
        lemma_in_order_both(a, u.drop_first(), i + u[0].len(), b, v);
        assert((u + v).drop_first() =~= u.drop_first() + v);
    }
}

/// A text stands in itself.
pub proof fn lemma_holds_itself(text: Seq<char>)
    ensures
        holds(text, seq![text]),
{
    assert(text =~= Seq::<char>::empty() + (text + Seq::<char>::empty()));
    lemma_holds_one(text, Seq::empty(), text, Seq::empty());
}

/// It does not matter how texts are grouped that are put together.
pub proof fn lemma_regroup(a: Seq<char>, b: Seq<char>, c: Seq<char>)
    ensures
        a + b + c == a + (b + c),
{
    assert(a + b + c =~= a + (b + c));
}

/// The first of the parts that a text holds stand in it too.
pub proof fn lemma_holds_fewer(text: Seq<char>, u: Seq<Seq<char>>, v: Seq<Seq<char>>)
    requires
        holds(text, u + v),
    ensures
        holds(text, u),
{
    lemma_in_order_fewer(text, u, v, 0);
}

proof fn lemma_in_order_fewer(text: Seq<char>, u: Seq<Seq<char>>, v: Seq<Seq<char>>, from: int)
    requires
        in_order(text, u + v, from),
    ensures
        in_order(text, u, from),
    decreases u.len(),
{
    if u.len() > 0 {
        let all = u + v;
        let i = choose|i: int|
            from <= i && #[trigger] occurs_at(text, all[0], i) && in_order(
                text,
                all.drop_first(),
                i + all[0].len(),
            );
        assert(all.drop_first() =~= u.drop_first() + v);
        lemma_in_order_fewer(text, u.drop_first(), v, i + u[0].len());
        assert(occurs_at(text, u[0], i));
    }
}

} // verus!
