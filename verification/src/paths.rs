//! Paths of files, and when two of them are spellings of one.

use crate::text::{
    first_at, join, join_text, lemma_join_front, lemma_split_joined, lemma_texts_push, occurs_at,
    split, split_from, split_text, starts_with, str_eq, texts,
};
use vstd::prelude::*;

verus! {

broadcast use vstd::std_specs::vec::group_vec_axioms;

/// Whether a part of a path counts: an empty one never does, and `.` only where
/// the path starts with it.
pub open spec fn part_counts(v: Seq<Seq<char>>, i: int) -> bool {
    v[i].len() > 0 && (v[i] != "."@ || i == 0)
}

/// The parts that count among the first `n`.
pub open spec fn counting_parts(v: Seq<Seq<char>>, n: nat) -> Seq<Seq<char>>
    decreases n,
{
    if n == 0 || n > v.len() {
        Seq::empty()
    } else {
        let front = counting_parts(v, (n - 1) as nat);
        if part_counts(v, n - 1) {
            front.push(v[n - 1])
        } else {
            front
        }
    }
}

/// The parts of a path, without what does not count.
pub open spec fn path_parts(path: Seq<char>) -> Seq<Seq<char>> {
    let v = split_text(path, "/"@);
    counting_parts(v, v.len())
}

/// The plain spelling of a path: slashes are single and none stands at the end,
/// and `.` stands only at the start.
pub open spec fn plain_path(path: Seq<char>) -> Seq<char> {
    let text = join_text(path_parts(path), "/"@);
    if occurs_at(path, "/"@, 0) {
        "/"@ + text
    } else {
        text
    }
}

/// The plain spelling of a path.
pub fn to_plain_path(path: &str) -> (r: String)
    ensures
        r@ == plain_path(path@),
{
    proof {
        reveal_strlit("/");
    }
    let v = split(path, "/");
    let ghost all = texts(v@);
    let mut parts: Vec<String> = Vec::new();
    let mut i: usize = 0;
    proof {
        assert(texts(parts@) =~= Seq::empty());
    }
    while i < v.len()
        invariant
            i <= v.len(),
            all == texts(v@),
            texts(parts@) == counting_parts(all, i as nat),
        decreases v.len() - i,
    {
        proof {
            assert(all[i as int] == v@[i as int]@);
        }
        if !v[i].as_str().is_empty() && (i == 0 || !str_eq(v[i].as_str(), ".")) {
            let part = v[i].clone();
            proof {
                lemma_texts_push(parts@, part);
            }
            parts.push(part);
        }
        i += 1;
    }
    let text = join(&parts, "/");
    if starts_with(path, "/") {
        let mut r = String::from_str("/");
        r.append(text.as_str());
        r
    } else {
        text
    }
}

/// The pieces between slashes hold none, and give the text when slashes are put
/// between them.
proof fn lemma_pieces(text: Seq<char>, start: int)
    requires
        0 <= start <= text.len(),
    ensures
        ({
            let v = split_from(text, "/"@, start);
            &&& v.len() > 0
            &&& join_text(v, "/"@) == text.skip(start)
            &&& forall|i: int| 0 <= i < v.len() ==> !(#[trigger] v[i]).contains('/')
        }),
    decreases text.len() - start,
{
    reveal_strlit("/");
    lemma_first_slash(text, start);
    let v = split_from(text, "/"@, start);
    match first_at(text, "/"@, start) {
        Some(at) => {
            lemma_pieces(text, at + 1);
            let rest = split_from(text, "/"@, at + 1);
            assert(v =~= seq![text.subrange(start, at)] + rest);
            assert(v.drop_first() =~= rest);
            lemma_join_front(v, "/"@);
            assert(text.skip(start) =~= v[0] + "/"@ + text.skip(at + 1));
            assert forall|i: int| 0 <= i < v.len() implies !(#[trigger] v[i]).contains('/') by {
                if i > 0 {
                    assert(v[i] == rest[i - 1]);
                }
            }
        },
        None => {
            assert(v =~= seq![text.subrange(start, text.len() as int)]);
            assert(text.subrange(start, text.len() as int) =~= text.skip(start));
        },
    }
}

proof fn lemma_first_slash(text: Seq<char>, from: int)
    requires
        0 <= from <= text.len(),
    ensures
        match first_at(text, "/"@, from) {
            Some(at) => from <= at < text.len() && text[at] == '/' && forall|k: int|
                from <= k < at ==> text[k] != '/',
            None => forall|k: int| from <= k < text.len() ==> text[k] != '/',
        },
    decreases text.len() - from,
{
    reveal_strlit("/");
    if from < text.len() {
        assert(text.subrange(from, from + 1) =~= seq![text[from]]);
        assert("/"@ =~= seq!['/']);
        if text[from] == '/' {
            assert(occurs_at(text, "/"@, from));
        } else {
            assert(text.subrange(from, from + 1)[0] == text[from]);
            lemma_first_slash(text, from + 1);
        }
    }
}

proof fn lemma_join_both(u: Seq<Seq<char>>, v: Seq<Seq<char>>, sep: Seq<char>)
    requires
        u.len() > 0,
        v.len() > 0,
    ensures
        join_text(u + v, sep) == join_text(u, sep) + sep + join_text(v, sep),
    decreases u.len(),
{
    lemma_join_front(u + v, sep);
    if u.len() == 1 {
        assert((u + v).drop_first() =~= v);
    } else {
        lemma_join_both(u.drop_first(), v, sep);
        lemma_join_front(u, sep);
        assert((u + v).drop_first() =~= u.drop_first() + v);
        assert(u[0] + sep + (join_text(u.drop_first(), sep) + sep + join_text(v, sep)) =~= u[0]
            + sep + join_text(u.drop_first(), sep) + sep + join_text(v, sep));
    }
}

proof fn lemma_split_both(a: Seq<char>, b: Seq<char>)
    ensures
        split_text(a + "/"@ + b, "/"@) == split_text(a, "/"@) + split_text(b, "/"@),
{
    reveal_strlit("/");
    let u = split_text(a, "/"@);
    let v = split_text(b, "/"@);
    let text = a + "/"@ + b;
    lemma_pieces(a, 0);
    lemma_pieces(b, 0);
    assert(a.skip(0) =~= a);
    assert(b.skip(0) =~= b);
    lemma_join_both(u, v, "/"@);
    assert(text.skip(0) =~= text);
    assert forall|i: int| 0 <= i < (u + v).len() implies !(#[trigger] (u + v)[i]).contains('/') by {
        if i < u.len() {
            assert((u + v)[i] == u[i]);
        } else {
            assert((u + v)[i] == v[i - u.len()]);
        }
    }
    lemma_split_joined(text, "/"@, 0, u + v);
}

proof fn lemma_counting_both(u: Seq<Seq<char>>, v: Seq<Seq<char>>, w: Seq<Seq<char>>, n: nat)
    requires
        u.len() > 0,
        v.len() > 0,
        n <= w.len(),
        counting_parts(u, u.len()) == counting_parts(v, v.len()),
    ensures
        counting_parts(u + w, u.len() + n) == counting_parts(v + w, v.len() + n),
    decreases n,
{
    if n == 0 {
        lemma_counting_front(u, w, u.len());
        lemma_counting_front(v, w, v.len());
    } else {
        lemma_counting_both(u, v, w, (n - 1) as nat);
        assert((u + w)[u.len() + n - 1] == w[n - 1]);
        assert((v + w)[v.len() + n - 1] == w[n - 1]);
    }
}

proof fn lemma_counting_front(u: Seq<Seq<char>>, w: Seq<Seq<char>>, n: nat)
    requires
        n <= u.len(),
    ensures
        counting_parts(u + w, n) == counting_parts(u, n),
    decreases n,
{
    if n > 0 {
        lemma_counting_front(u, w, (n - 1) as nat);
        assert((u + w)[n - 1] == u[n - 1]);
    }
}

/// A part `.` inside a path, and a doubled slash, do not make it another path.
pub proof fn law_idle_parts_do_not_count(dir: Seq<char>, file: Seq<char>)
    ensures
        plain_path(dir + "/./"@ + file) == plain_path(dir + "/"@ + file),
        plain_path(dir + "//"@ + file) == plain_path(dir + "/"@ + file),
{
    reveal_strlit("/");
    reveal_strlit("//");
    reveal_strlit("/./");
    reveal_strlit(".");
    let d = split_text(dir, "/"@);
    let f = split_text(file, "/"@);
    lemma_pieces(dir, 0);
    lemma_split_both(dir, file);
    let dot = seq!['.'];
    let none = Seq::<char>::empty();
    assert("."@ =~= dot);
    lemma_idle(dir, dot);
    lemma_idle(dir, none);
    assert(dir + "/./"@ + file =~= (dir + "/"@ + dot) + "/"@ + file);
    assert(dir + "//"@ + file =~= (dir + "/"@ + none) + "/"@ + file);
    lemma_split_both(dir + "/"@ + dot, file);
    lemma_split_both(dir + "/"@ + none, file);
    lemma_counting_both(d + seq![dot], d, f, f.len());
    lemma_counting_both(d + seq![none], d, f, f.len());
    lemma_starts(dir, "/./"@ + file, "/"@ + file);
    lemma_starts(dir, "//"@ + file, "/"@ + file);
    assert(dir + "/./"@ + file =~= dir + ("/./"@ + file));
    assert(dir + "//"@ + file =~= dir + ("//"@ + file));
    assert(dir + "/"@ + file =~= dir + ("/"@ + file));
}

proof fn lemma_idle(dir: Seq<char>, x: Seq<char>)
    requires
        x == seq!['.'] || x.len() == 0,
    ensures
        split_text(dir + "/"@ + x, "/"@) == split_text(dir, "/"@) + seq![x],
        ({
            let d = split_text(dir, "/"@);
            counting_parts(d + seq![x], d.len() + 1) == counting_parts(d, d.len())
        }),
{
    reveal_strlit("/");
    reveal_strlit(".");
    assert("."@ =~= seq!['.']);
    let d = split_text(dir, "/"@);
    lemma_pieces(dir, 0);
    lemma_split_both(dir, x);
    assert(x.skip(0) =~= x);
    assert(!x.contains('/'));
    assert(join_text(seq![x], "/"@) =~= x);
    lemma_split_joined(x, "/"@, 0, seq![x]);
    lemma_counting_front(d, seq![x], d.len());
    assert((d + seq![x])[d.len() as int] == x);
}

proof fn lemma_starts(dir: Seq<char>, a: Seq<char>, b: Seq<char>)
    requires
        a.len() > 0,
        b.len() > 0,
        a[0] == b[0],
    ensures
        occurs_at(dir + a, "/"@, 0) == occurs_at(dir + b, "/"@, 0),
{
    reveal_strlit("/");
    assert((dir + a).subrange(0, 1) =~= seq![(dir + a)[0]]);
    assert((dir + b).subrange(0, 1) =~= seq![(dir + b)[0]]);
}

} // verus!
