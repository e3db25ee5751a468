//! The names under which the two languages link to each other.

use crate::outside::{hex_encode, hex_text, sha256, sha256_digest, unicode_whitespace};
use crate::rust_types::{types_view, RustType, TypeModel};
use crate::text::{chars_of, dec_text, decimal, digit_char, is_digit, occurs_at, stands_at, text_of};
use crate::token::{byte_offsets, bytes_before, lemma_bytes_grow, lemma_encode_split};
use vstd::prelude::*;

verus! {

broadcast use vstd::std_specs::vec::group_vec_axioms;

/// A text without its whitespace.
pub open spec fn without_blanks(s: Seq<char>) -> Seq<char>
    decreases s.len(),
{
    if s.len() == 0 {
        s
    } else if unicode_whitespace(s.last()) {
        without_blanks(s.drop_last())
    } else {
        without_blanks(s.drop_last()).push(s.last())
    }
}

/// The signs that no link name holds, each with the letter that stands for it.
/// Of two signs at one place the earlier one counts.
pub open spec fn signs() -> Seq<(Seq<char>, Seq<char>)> {
    seq![
        ("::<"@, "m"@),
        (">::"@, "n"@),
        ("->"@, "a"@),
        ("&"@, "r"@),
        ("="@, "e"@),
        ("<"@, "x"@),
        (">"@, "y"@),
        ("["@, "j"@),
        ("]"@, "k"@),
        ("::"@, "s"@),
        (","@, "c"@),
        ("+"@, "l"@),
        ("("@, "p"@),
        (")"@, "q"@),
        ("@"@, "z"@),
        ("-"@, "h"@),
    ]
}

/// The first sign, from the `k`-th on, that stands in `s` at `i`.
pub open spec fn sign_at(s: Seq<char>, i: int, k: int) -> Option<int>
    decreases signs().len() - k,
{
    if k < 0 || k >= signs().len() {
        None
    } else if occurs_at(s, signs()[k].0, i) {
        Some(k)
    } else {
        sign_at(s, i, k + 1)
    }
}

/// The first place from `i` on at which a sign stands, and the sign.
pub open spec fn first_sign(s: Seq<char>, i: int) -> Option<(int, int)>
    decreases s.len() - i,
{
    if i < 0 || i >= s.len() {
        None
    } else {
        match sign_at(s, i, 0) {
            Some(k) => Some((i, k)),
            None => first_sign(s, i + 1),
        }
    }
}

/// A text with the `k`-th sign, which stands at `i`, made an underscore; its
/// letter and the number of bytes before it come to the end.
pub open spec fn sign_moved(s: Seq<char>, i: int, k: int) -> Seq<char> {
    s.subrange(0, i) + "_"@ + s.subrange(i + signs()[k].0.len(), s.len() as int) + signs()[k].1
        + dec_text(bytes_before(s, i) as nat)
}

/// Whether a character occurs in a sign.
pub open spec fn special(c: char) -> bool {
    c == ':' || c == '<' || c == '>' || c == '-' || c == '&' || c == '=' || c == '[' || c == ']'
        || c == ',' || c == '+' || c == '(' || c == ')' || c == '@'
}

/// How many characters occur in signs.
pub open spec fn special_count(s: Seq<char>) -> nat
    decreases s.len(),
{
    if s.len() == 0 {
        0
    } else {
        special_count(s.drop_last()) + (if special(s.last()) {
            1nat
        } else {
            0nat
        })
    }
}

/// A text with all its signs moved, from left to right.
pub open spec fn signs_moved(s: Seq<char>) -> Seq<char>
    decreases special_count(s),
{
    match first_sign(s, 0) {
        Some((i, k)) => {
            proof {
                lemma_sign_moved(s);
            }
            signs_moved(sign_moved(s, i, k))
        },
        None => s,
    }
}

/// The link name of something with that name.
pub open spec fn mangled(name: Seq<char>, base: Seq<char>) -> Seq<char> {
    signs_moved("_zngur_"@ + base + without_blanks(name) + "_"@)
}

/// What the types of a signature are written as, each before a `+`.
pub open spec fn signature_text(v: Seq<TypeModel>) -> Seq<char>
    decreases v.len(),
{
    if v.len() == 0 {
        Seq::empty()
    } else {
        signature_text(v.drop_last()) + v.last().text() + "+"@
    }
}

/// A short name for a signature: ten digits of its hash.
pub open spec fn signature_hash(v: Seq<TypeModel>) -> Seq<char> {
    hex_text(sha256_digest(signature_text(v)).take(5))
}

proof fn lemma_count_push(s: Seq<char>, c: char)
    ensures
        special_count(s.push(c)) == special_count(s) + (if special(c) {
            1nat
        } else {
            0nat
        }),
{
    assert(s.push(c).drop_last() =~= s);
}

proof fn lemma_count_add(a: Seq<char>, b: Seq<char>)
    ensures
        special_count(a + b) == special_count(a) + special_count(b),
    decreases b.len(),
{
    if b.len() == 0 {
        assert(a + b =~= a);
    } else {
        lemma_count_add(a, b.drop_last());
        assert((a + b).drop_last() =~= a + b.drop_last());
    }
}

proof fn lemma_count_dec(n: nat)
    ensures
        special_count(dec_text(n)) == 0,
    decreases n,
{
    if n < 10 {
        lemma_count_push(Seq::empty(), digit_char(n));
        assert(dec_text(n) =~= Seq::<char>::empty().push(digit_char(n)));
    } else {
        lemma_count_dec(n / 10);
        lemma_count_push(dec_text(n / 10), digit_char(n % 10));
    }
}

/// A sign starts with a character that occurs in signs, and its letter is none.
proof fn lemma_sign(k: int)
    requires
        0 <= k < signs().len(),
    ensures
        signs()[k].0.len() > 0,
        special(signs()[k].0[0]),
        special_count(signs()[k].1) == 0,
{
    reveal_strlit("::<");
    reveal_strlit(">::");
    reveal_strlit("->");
    reveal_strlit("&");
    reveal_strlit("=");
    reveal_strlit("<");
    reveal_strlit(">");
    reveal_strlit("[");
    reveal_strlit("]");
    reveal_strlit("::");
    reveal_strlit(",");
    reveal_strlit("+");
    reveal_strlit("(");
    reveal_strlit(")");
    reveal_strlit("@");
    reveal_strlit("-");
    reveal_strlit("m");
    reveal_strlit("n");
    reveal_strlit("a");
    reveal_strlit("r");
    reveal_strlit("e");
    reveal_strlit("x");
    reveal_strlit("y");
    reveal_strlit("j");
    reveal_strlit("k");
    reveal_strlit("s");
    reveal_strlit("c");
    reveal_strlit("l");
    reveal_strlit("p");
    reveal_strlit("q");
    reveal_strlit("z");
    reveal_strlit("h");
    let l = signs()[k].1;
    assert(l.len() == 1);
    assert(!special(l[0]));
    assert(l =~= Seq::<char>::empty().push(l[0]));
    lemma_count_push(Seq::empty(), l[0]);
}

proof fn lemma_sign_at(s: Seq<char>, i: int, k: int)
    requires
        0 <= k,
    ensures
        match sign_at(s, i, k) {
            Some(j) => k <= j < signs().len() && occurs_at(s, signs()[j].0, i),
            None => forall|j: int|
                k <= j < signs().len() ==> !occurs_at(s, #[trigger] signs()[j].0, i),
        },
    decreases signs().len() - k,
{
    if k < signs().len() && !occurs_at(s, signs()[k].0, i) {
        lemma_sign_at(s, i, k + 1);
    }
}

proof fn lemma_first_sign(s: Seq<char>, i: int)
    requires
        0 <= i,
    ensures
        match first_sign(s, i) {
            Some((p, k)) => i <= p < s.len() && 0 <= k < signs().len() && occurs_at(
                s,
                signs()[k].0,
                p,
            ),
            None => forall|p: int, k: int|
                i <= p < s.len() && 0 <= k < signs().len() ==> !#[trigger] occurs_at(
                    s,
                    signs()[k].0,
                    p,
                ),
        },
    decreases s.len() - i,
{
    if i < s.len() {
        lemma_sign_at(s, i, 0);
        if sign_at(s, i, 0) is None {
            lemma_first_sign(s, i + 1);
        }
    }
}

/// Moving the first sign leaves fewer characters that occur in signs.
pub proof fn lemma_sign_moved(s: Seq<char>)
    ensures
        first_sign(s, 0) matches Some((i, k)) ==> special_count(sign_moved(s, i, k))
            < special_count(s),
{
    lemma_first_sign(s, 0);
    match first_sign(s, 0) {
        Some((i, k)) => {
            lemma_sign(k);
            let pat = signs()[k].0;
            let a = s.subrange(0, i);
            let b = s.subrange(i, i + 1);
            let c = s.subrange(i + 1, i + pat.len());
            let d = s.subrange(i + pat.len(), s.len() as int);
            assert(s =~= a + b + c + d);
            lemma_count_add(a + b + c, d);
            lemma_count_add(a + b, c);
            lemma_count_add(a, b);
            assert(pat[0] == s.subrange(i, i + pat.len())[0]);
            assert(b =~= Seq::<char>::empty().push(pat[0]));
            lemma_count_push(Seq::empty(), pat[0]);
            reveal_strlit("_");
            assert("_"@ =~= Seq::<char>::empty().push('_'));
            lemma_count_push(Seq::empty(), '_');
            let n = dec_text(bytes_before(s, i) as nat);
            lemma_count_dec(bytes_before(s, i) as nat);
            lemma_count_add(a + "_"@ + d + signs()[k].1, n);
            lemma_count_add(a + "_"@ + d, signs()[k].1);
            lemma_count_add(a + "_"@, d);
            lemma_count_add(a, "_"@);
        },
        None => {},
    }
}

proof fn lemma_signs_moved(s: Seq<char>)
    ensures
        first_sign(signs_moved(s), 0) is None,
    decreases special_count(s),
{
    lemma_sign_moved(s);
    match first_sign(s, 0) {
        Some((i, k)) => {
            lemma_signs_moved(sign_moved(s, i, k));
        },
        None => {},
    }
}

/// A link name holds none of the signs.
pub proof fn law_mangled_holds_no_sign(name: Seq<char>, base: Seq<char>, i: int, k: int)
    requires
        0 <= k < signs().len(),
    ensures
        !occurs_at(mangled(name, base), signs()[k].0, i),
{
    let s = "_zngur_"@ + base + without_blanks(name) + "_"@;
    lemma_signs_moved(s);
    lemma_first_sign(mangled(name, base), 0);
    lemma_sign(k);
}

/// The whitespace of a name does not count for its link name.
pub proof fn law_mangled_ignores_blanks(name: Seq<char>, base: Seq<char>)
    ensures
        mangled(without_blanks(name), base) == mangled(name, base),
{
    lemma_without_blanks_twice(name);
}

proof fn lemma_without_blanks_twice(s: Seq<char>)
    ensures
        without_blanks(without_blanks(s)) == without_blanks(s),
    decreases s.len(),
{
    if s.len() > 0 {
        let t = without_blanks(s.drop_last());
        lemma_without_blanks_twice(s.drop_last());
        assert(t.push(s.last()).drop_last() =~= t);
    }
}

/// The bytes before a place depend on what stands before it alone.
proof fn lemma_bytes_before(s: Seq<char>, t: Seq<char>, i: int)
    requires
        0 <= i <= s.len(),
        i <= t.len(),
        s.take(i) == t.take(i),
    ensures
        bytes_before(s, i) == bytes_before(t, i),
{
    lemma_encode_split(s, i);
    lemma_encode_split(t, i);
}

proof fn lemma_dec_digits(n: nat)
    ensures
        dec_text(n).len() > 0,
        forall|i: int| 0 <= i < dec_text(n).len() ==> is_digit(#[trigger] dec_text(n)[i]),
    decreases n,
{
    if n >= 10 {
        lemma_dec_digits(n / 10);
    }
}

proof fn lemma_dec_injective(m: nat, n: nat)
    requires
        dec_text(m) == dec_text(n),
    ensures
        m == n,
    decreases m,
{
    lemma_dec_digits(m / 10);
    lemma_dec_digits(n / 10);
    assert(dec_text(m).last() == digit_char(m % 10));
    assert(dec_text(n).last() == digit_char(n % 10));
    assert(m < 10 <==> dec_text(m).len() == 1);
    assert(n < 10 <==> dec_text(n).len() == 1);
    if m >= 10 {
        assert(dec_text(m).drop_last() =~= dec_text(m / 10));
        assert(dec_text(n).drop_last() =~= dec_text(n / 10));
        lemma_dec_injective(m / 10, n / 10);
    }
}

/// A letter behind a text and a number behind the letter can be told apart.
proof fn lemma_group_apart(
    a: Seq<char>,
    b: Seq<char>,
    x: char,
    y: char,
    m: Seq<char>,
    n: Seq<char>,
)
    requires
        !is_digit(x),
        !is_digit(y),
        forall|i: int| 0 <= i < m.len() ==> is_digit(#[trigger] m[i]),
        forall|i: int| 0 <= i < n.len() ==> is_digit(#[trigger] n[i]),
        a.push(x) + m == b.push(y) + n,
    ensures
        a == b,
        x == y,
        m == n,
{
    let s = a.push(x) + m;
    let t = b.push(y) + n;
    assert(s.len() == a.len() + 1 + m.len());
    assert(t.len() == b.len() + 1 + n.len());
    if a.len() < b.len() {
        assert(t[b.len() as int] == y);
        assert(s[b.len() as int] == m[b.len() - a.len() - 1]);
    } else if b.len() < a.len() {
        assert(s[a.len() as int] == x);
        assert(t[a.len() as int] == n[a.len() - b.len() - 1]);
    }
    assert(a =~= s.take(a.len() as int));
    assert(b =~= t.take(b.len() as int));
    assert(s[a.len() as int] == x && t[b.len() as int] == y);
    assert(m =~= s.skip(a.len() as int + 1));
    assert(n =~= t.skip(b.len() as int + 1));
}

/// The letter of a sign.
spec fn letter(k: int) -> char {
    signs()[k].1[0]
}

proof fn lemma_letters(k: int, l: int)
    requires
        0 <= k < signs().len(),
        0 <= l < signs().len(),
    ensures
        signs()[k].1 == Seq::<char>::empty().push(letter(k)),
        !is_digit(letter(k)),
        letter(k) == letter(l) ==> k == l,
{
    reveal_strlit("m");
    reveal_strlit("n");
    reveal_strlit("a");
    reveal_strlit("r");
    reveal_strlit("e");
    reveal_strlit("x");
    reveal_strlit("y");
    reveal_strlit("j");
    reveal_strlit("k");
    reveal_strlit("s");
    reveal_strlit("c");
    reveal_strlit("l");
    reveal_strlit("p");
    reveal_strlit("q");
    reveal_strlit("z");
    reveal_strlit("h");
    assert(signs()[k].1.len() == 1);
    assert(signs()[k].1 =~= Seq::<char>::empty().push(letter(k)));
}

/// Two texts that are the same once a sign was moved in each were the same.
proof fn lemma_sign_moved_injective(s: Seq<char>, i: int, k: int, t: Seq<char>, j: int, l: int)
    requires
        0 <= k < signs().len(),
        0 <= l < signs().len(),
        occurs_at(s, signs()[k].0, i),
        occurs_at(t, signs()[l].0, j),
        i < s.len(),
        j < t.len(),
        sign_moved(s, i, k) == sign_moved(t, j, l),
    ensures
        s == t,
{
    let p = signs()[k].0;
    let q = signs()[l].0;
    let a = s.subrange(0, i) + "_"@ + s.subrange(i + p.len(), s.len() as int);
    let b = t.subrange(0, j) + "_"@ + t.subrange(j + q.len(), t.len() as int);
    let m = bytes_before(s, i) as nat;
    let n = bytes_before(t, j) as nat;
    lemma_letters(k, l);
    lemma_letters(l, k);
    lemma_dec_digits(m);
    lemma_dec_digits(n);
    assert(sign_moved(s, i, k) =~= a.push(letter(k)) + dec_text(m));
    assert(sign_moved(t, j, l) =~= b.push(letter(l)) + dec_text(n));
    lemma_group_apart(a, b, letter(k), letter(l), dec_text(m), dec_text(n));
    lemma_dec_injective(m, n);
    lemma_encode_split(s, i);
    lemma_encode_split(t, j);
    reveal_strlit("_");
    assert(a.take(i) =~= s.take(i));
    assert(b.take(j) =~= t.take(j));
    lemma_bytes_before(s, a, i);
    lemma_bytes_before(t, b, j);
    if i < j {
        lemma_bytes_grow(a, i, j);
    } else if j < i {
        lemma_bytes_grow(a, j, i);
    }
    assert(i == j);
    assert(s.subrange(i, i + p.len()) == t.subrange(j, j + q.len()));
    assert(a.skip(i + 1) =~= s.subrange(i + p.len(), s.len() as int));
    assert(b.skip(j + 1) =~= t.subrange(j + q.len(), t.len() as int));
    assert(s =~= s.take(i) + s.subrange(i, i + p.len()) + a.skip(i + 1));
    assert(t =~= t.take(j) + t.subrange(j, j + q.len()) + b.skip(j + 1));
}

/// A text with its first sign moved `n` times.
spec fn moved_times(s: Seq<char>, n: nat) -> Seq<char>
    decreases n,
{
    if n == 0 {
        s
    } else {
        let t = moved_times(s, (n - 1) as nat);
        match first_sign(t, 0) {
            Some((i, k)) => sign_moved(t, i, k),
            None => t,
        }
    }
}

/// Whether there is a sign to move each of `n` times.
spec fn has_signs(s: Seq<char>, n: nat) -> bool {
    forall|m: nat| m < n ==> first_sign(#[trigger] moved_times(s, m), 0) is Some
}

proof fn lemma_moved_once_more(s: Seq<char>, i: int, k: int, n: nat)
    requires
        first_sign(s, 0) == Some((i, k)),
    ensures
        moved_times(sign_moved(s, i, k), n) == moved_times(s, n + 1),
    decreases n,
{
    if n == 0 {
        assert(moved_times(s, 0) == s);
    } else {
        lemma_moved_once_more(s, i, k, (n - 1) as nat);
    }
}

proof fn lemma_signs_moved_times(s: Seq<char>) -> (n: nat)
    ensures
        signs_moved(s) == moved_times(s, n),
        has_signs(s, n),
    decreases special_count(s),
{
    lemma_sign_moved(s);
    match first_sign(s, 0) {
        Some((i, k)) => {
            let t = sign_moved(s, i, k);
            let n = lemma_signs_moved_times(t);
            lemma_moved_once_more(s, i, k, n);
            assert forall|m: nat| m < n + 1 implies first_sign(
                #[trigger] moved_times(s, m),
                0,
            ) is Some by {
                if m > 0 {
                    lemma_moved_once_more(s, i, k, (m - 1) as nat);
                    assert(first_sign(moved_times(t, (m - 1) as nat), 0) is Some);
                }
            }
            n + 1
        },
        None => 0,
    }
}

proof fn lemma_moved_times_injective(s: Seq<char>, n: nat, t: Seq<char>, m: nat)
    requires
        has_signs(s, n),
        has_signs(t, m),
        moved_times(s, n) == moved_times(t, m),
        s.len() > 0 && s.last() == '_',
        t.len() > 0 && t.last() == '_',
    ensures
        s == t,
    decreases n + m,
{
    if n == 0 && m == 0 {
    } else if n == 0 {
        lemma_moved_ends_in_digit(t, m);
    } else if m == 0 {
        lemma_moved_ends_in_digit(s, n);
    } else {
        let a = moved_times(s, (n - 1) as nat);
        let b = moved_times(t, (m - 1) as nat);
        lemma_first_sign(a, 0);
        lemma_first_sign(b, 0);
        assert(first_sign(a, 0) is Some);
        assert(first_sign(b, 0) is Some);
        let (i, k) = first_sign(a, 0)->0;
        let (j, l) = first_sign(b, 0)->0;
        lemma_sign_moved_injective(a, i, k, b, j, l);
        lemma_moved_times_injective(s, (n - 1) as nat, t, (m - 1) as nat);
    }
}

proof fn lemma_moved_ends_in_digit(s: Seq<char>, n: nat)
    requires
        n > 0,
        has_signs(s, n),
    ensures
        moved_times(s, n).len() > 0,
        is_digit(moved_times(s, n).last()),
{
    let t = moved_times(s, (n - 1) as nat);
    assert(first_sign(t, 0) is Some);
    let (i, k) = first_sign(t, 0)->0;
    lemma_dec_digits(bytes_before(t, i) as nat);
    let d = dec_text(bytes_before(t, i) as nat);
    assert(sign_moved(t, i, k).last() == d[d.len() - 1]);
}

/// Names that differ in more than whitespace have different link names.
pub proof fn law_different_names_link_apart(a: Seq<char>, b: Seq<char>, base: Seq<char>)
    requires
        without_blanks(a) != without_blanks(b),
    ensures
        mangled(a, base) != mangled(b, base),
{
    if mangled(a, base) == mangled(b, base) {
        let s = "_zngur_"@ + base + without_blanks(a) + "_"@;
        let t = "_zngur_"@ + base + without_blanks(b) + "_"@;
        reveal_strlit("_");
        let n = lemma_signs_moved_times(s);
        let m = lemma_signs_moved_times(t);
        lemma_moved_times_injective(s, n, t, m);
        let front = "_zngur_"@ + base;
        let from = front.len() as int;
        assert(without_blanks(a) =~= s.subrange(from, s.len() - 1));
        assert(without_blanks(b) =~= t.subrange(from, t.len() - 1));
    }
}

fn drop_blanks(s: &str) -> (r: String)
    ensures
        r@ == without_blanks(s@),
{
    let v = chars_of(s);
    let mut r = String::new();
    let mut i: usize = 0;
    while i < v.len()
        invariant
            i <= v.len(),
            v@ == s@,
            r@ == without_blanks(s@.take(i as int)),
        decreases v.len() - i,
    {
        proof {
            assert(s@.take(i + 1).drop_last() =~= s@.take(i as int));
        }
        if !v[i].is_whitespace() {
            r.push(v[i]);
        }
        i += 1;
    }
    proof {
        assert(s@.take(i as int) =~= s@);
    }
    r
}

/// The table of signs.
fn sign_table() -> (r: Vec<(&'static str, &'static str)>)
    ensures
        r@.len() == signs().len(),
        forall|k: int|
            0 <= k < signs().len() ==> (#[trigger] r@[k]).0@ == signs()[k].0 && r@[k].1@
                == signs()[k].1,
{
    vec![
        ("::<", "m"),
        (">::", "n"),
        ("->", "a"),
        ("&", "r"),
        ("=", "e"),
        ("<", "x"),
        (">", "y"),
        ("[", "j"),
        ("]", "k"),
        ("::", "s"),
        (",", "c"),
        ("+", "l"),
        ("(", "p"),
        (")", "q"),
        ("@", "z"),
        ("-", "h"),
    ]
}

fn find_sign_at(
    s: &Vec<char>,
    i: usize,
    table: &Vec<(&'static str, &'static str)>,
) -> (r: Option<usize>)
    requires
        table@.len() == signs().len(),
        forall|k: int| 0 <= k < signs().len() ==> (#[trigger] table@[k]).0@ == signs()[k].0,
    ensures
        match sign_at(s@, i as int, 0) {
            Some(k) => (r matches Some(x) && x == k) && k < signs().len(),
            None => r is None,
        },
{
    let mut k: usize = 0;
    while k < table.len()
        invariant
            k <= table.len(),
            table@.len() == signs().len(),
            forall|j: int| 0 <= j < signs().len() ==> (#[trigger] table@[j]).0@ == signs()[j].0,
            sign_at(s@, i as int, k as int) == sign_at(s@, i as int, 0),
        decreases table.len() - k,
    {
        if stands_at(s, &chars_of(table[k].0), i) {
            return Some(k);
        }
        k += 1;
    }
    None
}

fn find_sign(s: &Vec<char>, table: &Vec<(&'static str, &'static str)>) -> (r: Option<(usize, usize)>)
    requires
        table@.len() == signs().len(),
        forall|k: int| 0 <= k < signs().len() ==> (#[trigger] table@[k]).0@ == signs()[k].0,
    ensures
        match first_sign(s@, 0) {
            Some((p, k)) => (r matches Some(x) && x.0 == p && x.1 == k) && p < s@.len() && k
                < signs().len(),
            None => r is None,
        },
{
    let mut i: usize = 0;
    while i < s.len()
        invariant
            i <= s.len(),
            table@.len() == signs().len(),
            forall|k: int| 0 <= k < signs().len() ==> (#[trigger] table@[k]).0@ == signs()[k].0,
            first_sign(s@, i as int) == first_sign(s@, 0),
        decreases s.len() - i,
    {
        match find_sign_at(s, i, table) {
            Some(k) => {
                return Some((i, k));
            },
            None => {},
        }
        i += 1;
    }
    None
}

/// The link name of something with that name.
pub fn mangle_name(name: &str, mangling_base: &str) -> (r: String)
    ensures
        r@ == mangled(name@, mangling_base@),
{
    let table = sign_table();
    let mut r = String::from_str("_zngur_");
    r.append(mangling_base);
    r.append(drop_blanks(name).as_str());
    r.append("_");
    loop
        invariant
            table@.len() == signs().len(),
            forall|k: int|
                0 <= k < signs().len() ==> (#[trigger] table@[k]).0@ == signs()[k].0
                    && table@[k].1@ == signs()[k].1,
            signs_moved(r@) == mangled(name@, mangling_base@),
        decreases special_count(r@),
    {
        let v = chars_of(r.as_str());
        match find_sign(&v, &table) {
            Some((i, k)) => {
                proof {
                    lemma_first_sign(r@, 0);
                    lemma_sign_moved(r@);
                }
                let sign = chars_of(table[k].0);
                let offsets = byte_offsets(r.as_str());
                let mut next = text_of(&v, 0, i);
                next.append("_");
                next.append(text_of(&v, i + sign.len(), v.len()).as_str());
                next.append(table[k].1);
                next.append(decimal(offsets[i]).as_str());
                r = next;
            },
            None => {
                return r;
            },
        }
    }
}

/// A short name for a signature.
pub fn hash_of_sig(sig: &Vec<RustType>) -> (r: String)
    ensures
        r@ == signature_hash(types_view(sig@)),
{
    let mut text = String::new();
    let mut i: usize = 0;
    let ghost all = types_view(sig@);
    proof {
        assert(all.take(0) =~= Seq::empty());
    }
    while i < sig.len()
        invariant
            i <= sig.len(),
            all == types_view(sig@),
            text@ == signature_text(all.take(i as int)),
        decreases sig.len() - i,
    {
        proof {
            assert(all.take(i + 1).drop_last() =~= all.take(i as int));
            assert(all.take(i + 1).last() == sig@[i as int].view());
        }
        text.append(sig[i].to_text().as_str());
        text.append("+");
        i += 1;
    }
    proof {
        assert(all.take(i as int) =~= all);
    }
    let digest = sha256(text.as_str());
    let mut head: Vec<u8> = Vec::new();
    let mut i: usize = 0;
    while i < 5
        invariant
            i <= 5,
            digest@.len() == 32,
            head@ == digest@.take(i as int),
        decreases 5 - i,
    {
        head.push(digest[i]);
        i += 1;
    }
    hex_encode(&head)
}

} // verus!
