//! Text as sequences of characters: the models of the string operations that
//! the rest of the crate is stated with, and their executable counterparts.

use crate::outside::unicode_whitespace;
use vstd::prelude::*;

verus! {

broadcast use vstd::std_specs::vec::group_vec_axioms;

/// The texts of a list of strings.
pub open spec fn texts(v: Seq<String>) -> Seq<Seq<char>> {
    Seq::new(v.len(), |i: int| v[i]@)
}

/// The pieces, one after the other.
pub open spec fn concat_all(parts: Seq<Seq<char>>) -> Seq<char>
    decreases parts.len(),
{
    if parts.len() == 0 {
        Seq::empty()
    } else {
        concat_all(parts.drop_last()) + parts.last()
    }
}

/// The pieces, with `sep` between each two neighbours.
pub open spec fn join_text(parts: Seq<Seq<char>>, sep: Seq<char>) -> Seq<char>
    decreases parts.len(),
{
    if parts.len() == 0 {
        Seq::empty()
    } else if parts.len() == 1 {
        parts[0]
    } else {
        join_text(parts.drop_last(), sep) + sep + parts.last()
    }
}

/// The character of a decimal digit.
pub open spec fn digit_char(d: nat) -> char {
    if d == 0 {
        '0'
    } else if d == 1 {
        '1'
    } else if d == 2 {
        '2'
    } else if d == 3 {
        '3'
    } else if d == 4 {
        '4'
    } else if d == 5 {
        '5'
    } else if d == 6 {
        '6'
    } else if d == 7 {
        '7'
    } else if d == 8 {
        '8'
    } else {
        '9'
    }
}

/// A number in decimal notation, without leading zeros.
pub open spec fn dec_text(n: nat) -> Seq<char>
    decreases n,
{
    if n < 10 {
        seq![digit_char(n)]
    } else {
        dec_text(n / 10).push(digit_char(n % 10))
    }
}

/// The value of a decimal digit.
pub open spec fn digit_value(c: char) -> nat {
    (c as u32 - '0' as u32) as nat
}

/// Whether `c` is one of `0` to `9`.
pub open spec fn is_digit(c: char) -> bool {
    '0' <= c <= '9'
}

/// Whether `s` is made of decimal digits alone.
pub open spec fn all_digits(s: Seq<char>) -> bool {
    forall|i: int| 0 <= i < s.len() ==> is_digit(#[trigger] s[i])
}

/// The number that a row of decimal digits stands for.
pub open spec fn digits_value(s: Seq<char>) -> nat
    decreases s.len(),
{
    if s.len() == 0 {
        0
    } else {
        digits_value(s.drop_last()) * 10 + digit_value(s.last())
    }
}

/// `s` without one leading `+`.
pub open spec fn without_plus(s: Seq<char>) -> Seq<char> {
    if s.len() > 0 && s[0] == '+' {
        s.skip(1)
    } else {
        s
    }
}

/// The unsigned number that `s` denotes: an optional `+`, then at least one
/// decimal digit, with a value of at most `max`.
pub open spec fn parse_uint(s: Seq<char>, max: nat) -> Option<nat> {
    let d = without_plus(s);
    if d.len() > 0 && all_digits(d) && digits_value(d) <= max {
        Some(digits_value(d))
    } else {
        None
    }
}

/// Whether `pat` stands in `text` at position `i`.
pub open spec fn occurs_at(text: Seq<char>, pat: Seq<char>, i: int) -> bool {
    0 <= i && i + pat.len() <= text.len() && text.subrange(i, i + pat.len()) == pat
}

/// The first position from `from` on at which `pat` stands in `text`.
pub open spec fn first_at(text: Seq<char>, pat: Seq<char>, from: int) -> Option<int>
    decreases text.len() - from + 1,
{
    if from < 0 || from + pat.len() > text.len() {
        None
    } else if occurs_at(text, pat, from) {
        Some(from)
    } else {
        first_at(text, pat, from + 1)
    }
}

/// The pieces of `text` from `start` on that occurrences of `pat` separate.
pub open spec fn split_from(text: Seq<char>, pat: Seq<char>, start: int) -> Seq<Seq<char>>
    decreases text.len() - start,
{
    match first_at(text, pat, start) {
        Some(i) => if 0 <= start <= i && 0 < pat.len() && i + pat.len() <= text.len() {
            seq![text.subrange(start, i)] + split_from(text, pat, i + pat.len())
        } else {
            seq![text.subrange(start, text.len() as int)]
        },
        None => seq![text.subrange(start, text.len() as int)],
    }
}

/// `text` cut at each occurrence of `pat`, taken from left to right.
pub open spec fn split_text(text: Seq<char>, pat: Seq<char>) -> Seq<Seq<char>> {
    split_from(text, pat, 0)
}

/// `text` with each occurrence of `pat`, taken from left to right, replaced.
pub open spec fn replace_text(text: Seq<char>, pat: Seq<char>, by: Seq<char>) -> Seq<char> {
    join_text(split_text(text, pat), by)
}

/// The first position from `i` on that holds no whitespace.
pub open spec fn skip_blank(s: Seq<char>, i: int) -> int
    decreases s.len() - i,
{
    if 0 <= i < s.len() && unicode_whitespace(s[i]) {
        skip_blank(s, i + 1)
    } else {
        i
    }
}

/// The position behind the last character before `j`, and not before `lo`,
/// that is no whitespace.
pub open spec fn skip_blank_back(s: Seq<char>, lo: int, j: int) -> int
    decreases j - lo,
{
    if lo < j <= s.len() && 0 <= lo && unicode_whitespace(s[j - 1]) {
        skip_blank_back(s, lo, j - 1)
    } else {
        j
    }
}

/// `s` without the whitespace at its two ends.
pub open spec fn trim_text(s: Seq<char>) -> Seq<char> {
    let lo = skip_blank(s, 0);
    s.subrange(lo, skip_blank_back(s, lo, s.len() as int))
}

/// `s` without `prefix`, where it starts with it.
pub open spec fn strip_prefix_text(s: Seq<char>, prefix: Seq<char>) -> Option<Seq<char>> {
    if occurs_at(s, prefix, 0) {
        Some(s.skip(prefix.len() as int))
    } else {
        None
    }
}

/// `s` without `prefix` where it starts with it, else `s`.
pub open spec fn without_prefix(s: Seq<char>, prefix: Seq<char>) -> Seq<char> {
    match strip_prefix_text(s, prefix) {
        Some(r) => r,
        None => s,
    }
}

/// `prefix`, the number, `suffix`, for each number below `n`.
pub open spec fn numbered(prefix: Seq<char>, n: nat, suffix: Seq<char>) -> Seq<Seq<char>> {
    Seq::new(n, |k: int| prefix + dec_text(k as nat) + suffix)
}

/// `prefix`, the number of an item, `middle`, the item, `suffix`, for each item;
/// the numbers start at `start`.
pub open spec fn numbered_items(
    prefix: Seq<char>,
    start: nat,
    middle: Seq<char>,
    items: Seq<Seq<char>>,
    suffix: Seq<char>,
) -> Seq<Seq<char>> {
    Seq::new(
        items.len(),
        |k: int| prefix + dec_text((start + k) as nat) + middle + items[k] + suffix,
    )
}

/// `prefix`, an item, `middle`, its number, `suffix`, for each item.
pub open spec fn items_numbered(
    prefix: Seq<char>,
    items: Seq<Seq<char>>,
    middle: Seq<char>,
    suffix: Seq<char>,
) -> Seq<Seq<char>> {
    Seq::new(items.len(), |k: int| prefix + items[k] + middle + dec_text(k as nat) + suffix)
}

/// Whether one text comes before another, or is it, from the `i`-th character on.
pub open spec fn text_le(a: Seq<char>, b: Seq<char>, i: int) -> bool
    decreases a.len() - i,
{
    if i >= a.len() {
        true
    } else if i >= b.len() || i < 0 {
        false
    } else if a[i] != b[i] {
        a[i] < b[i]
    } else {
        text_le(a, b, i + 1)
    }
}

/// `prefix`, the number, `middle`, the number, `suffix`, for each number below `n`.
pub open spec fn numbered_twice(
    prefix: Seq<char>,
    middle: Seq<char>,
    n: nat,
    suffix: Seq<char>,
) -> Seq<Seq<char>> {
    Seq::new(n, |k: int| prefix + dec_text(k as nat) + middle + dec_text(k as nat) + suffix)
}

/// What a template gives from the `i`-th character on: `$0` stands for the first
/// argument, `$1` for the second, and so on.
pub open spec fn filled_from(template: Seq<char>, args: Seq<Seq<char>>, i: int) -> Seq<char>
    decreases template.len() - i,
{
    if i < 0 || i >= template.len() {
        Seq::empty()
    } else if template[i] == '$' && i + 1 < template.len() && is_digit(template[i + 1])
        && digit_value(template[i + 1]) < args.len() {
        args[digit_value(template[i + 1]) as int] + filled_from(template, args, i + 2)
    } else {
        seq![template[i]] + filled_from(template, args, i + 1)
    }
}

/// A template with its arguments filled in.
pub open spec fn filled(template: Seq<char>, args: Seq<Seq<char>>) -> Seq<char> {
    filled_from(template, args, 0)
}

pub proof fn lemma_texts_push(v: Seq<String>, s: String)
    ensures
        texts(v.push(s)) == texts(v).push(s@),
{
    assert(texts(v.push(s)) =~= texts(v).push(s@));
}

/// Whether two texts are the same.
pub fn str_eq(a: &str, b: &str) -> (r: bool)
    ensures
        r == (a@ == b@),
{
    let x = String::from_str(a);
    let y = String::from_str(b);
    x == y
}

/// Whether two lists of strings hold the same texts.
pub fn strings_eq(a: &Vec<String>, b: &Vec<String>) -> (r: bool)
    ensures
        r == (texts(a@) == texts(b@)),
{
    if a.len() != b.len() {
        proof {
            assert(texts(a@).len() != texts(b@).len());
        }
        return false;
    }
    let mut i: usize = 0;
    while i < a.len()
        invariant
            a.len() == b.len(),
            i <= a.len(),
            forall|k: int| 0 <= k < i ==> (#[trigger] a@[k])@ == b@[k]@,
        decreases a.len() - i,
    {
        if a[i] != b[i] {
            proof {
                assert(texts(a@)[i as int] != texts(b@)[i as int]);
            }
            return false;
        }
        i += 1;
    }
    proof {
        assert(texts(a@) =~= texts(b@));
    }
    true
}

/// A copy of a list of strings.
pub fn strings_copy(v: &Vec<String>) -> (r: Vec<String>)
    ensures
        texts(r@) == texts(v@),
        r@.len() == v@.len(),
{
    let mut r: Vec<String> = Vec::new();
    let mut i: usize = 0;
    while i < v.len()
        invariant
            i <= v.len(),
            r.len() == i,
            forall|k: int| 0 <= k < i ==> (#[trigger] r@[k])@ == v@[k]@,
        decreases v.len() - i,
    {
        r.push(v[i].clone());
        i += 1;
    }
    proof {
        assert(texts(r@) =~= texts(v@));
    }
    r
}

/// Whether a list of strings holds a text.
pub fn strings_contain(v: &Vec<String>, s: &str) -> (r: bool)
    ensures
        r == texts(v@).contains(s@),
{
    let mut i: usize = 0;
    while i < v.len()
        invariant
            i <= v.len(),
            forall|k: int| 0 <= k < i ==> (#[trigger] texts(v@)[k]) != s@,
        decreases v.len() - i,
    {
        if str_eq(v[i].as_str(), s) {
            proof {
                assert(texts(v@)[i as int] == s@);
            }
            return true;
        }
        i += 1;
    }
    false
}

/// The pieces, one after the other.
pub fn concat_strings(parts: &Vec<String>) -> (r: String)
    ensures
        r@ == concat_all(texts(parts@)),
{
    let mut r = String::new();
    let mut i: usize = 0;
    while i < parts.len()
        invariant
            i <= parts.len(),
            r@ == concat_all(texts(parts@).take(i as int)),
        decreases parts.len() - i,
    {
        proof {
            let t = texts(parts@).take(i + 1);
            assert(t.drop_last() =~= texts(parts@).take(i as int));
            assert(t.last() == parts@[i as int]@);
        }
        r.append(parts[i].as_str());
        i += 1;
    }
    proof {
        assert(texts(parts@).take(i as int) =~= texts(parts@));
    }
    r
}

/// The pieces, with `sep` between each two neighbours.
pub fn join(parts: &Vec<String>, sep: &str) -> (r: String)
    ensures
        r@ == join_text(texts(parts@), sep@),
{
    if parts.len() == 0 {
        return String::new();
    }
    let mut r = parts[0].clone();
    let mut i: usize = 1;
    proof {
        assert(texts(parts@).take(1)[0] == parts@[0]@);
    }
    while i < parts.len()
        invariant
            1 <= i <= parts.len(),
            r@ == join_text(texts(parts@).take(i as int), sep@),
        decreases parts.len() - i,
    {
        proof {
            let t = texts(parts@).take(i + 1);
            assert(t.drop_last() =~= texts(parts@).take(i as int));
            assert(t.last() == parts@[i as int]@);
        }
        r.append(sep);
        r.append(parts[i].as_str());
        i += 1;
    }
    proof {
        assert(texts(parts@).take(i as int) =~= texts(parts@));
    }
    r
}

/// The characters of a text.
pub fn chars_of(s: &str) -> (r: Vec<char>)
    ensures
        r@ == s@,
{
    let mut r: Vec<char> = Vec::new();
    for c in it: s.chars()
        invariant
            it.seq() == s@,
            r@ == s@.take(it.index() as int),
    {
        proof {
            assert(s@.take(it.index() as int + 1) =~= s@.take(it.index() as int).push(
                s@[it.index() as int],
            ));
        }
        r.push(c);
    }
    proof {
        assert(s@.take(s@.len() as int) =~= s@);
    }
    r
}

/// The text that the characters from `lo` to `hi` make up.
pub fn text_of(v: &Vec<char>, lo: usize, hi: usize) -> (r: String)
    requires
        lo <= hi <= v.len(),
    ensures
        r@ == v@.subrange(lo as int, hi as int),
{
    let mut r = String::new();
    let mut i: usize = lo;
    while i < hi
        invariant
            lo <= i <= hi <= v.len(),
            r@ == v@.subrange(lo as int, i as int),
        decreases hi - i,
    {
        proof {
            assert(v@.subrange(lo as int, i + 1) =~= v@.subrange(lo as int, i as int).push(
                v@[i as int],
            ));
        }
        r.push(v[i]);
        i += 1;
    }
    r
}

fn digit(d: u32) -> (r: char)
    requires
        d < 10,
    ensures
        r == digit_char(d as nat),
{
    if d == 0 {
        '0'
    } else if d == 1 {
        '1'
    } else if d == 2 {
        '2'
    } else if d == 3 {
        '3'
    } else if d == 4 {
        '4'
    } else if d == 5 {
        '5'
    } else if d == 6 {
        '6'
    } else if d == 7 {
        '7'
    } else if d == 8 {
        '8'
    } else {
        '9'
    }
}

/// A number in decimal notation.
pub fn decimal(n: usize) -> (r: String)
    ensures
        r@ == dec_text(n as nat),
    decreases n,
{
    if n < 10 {
        let mut r = String::new();
        r.push(digit(n as u32));
        proof {
            assert(r@ =~= seq![digit_char(n as nat)]);
        }
        r
    } else {
        let mut r = decimal(n / 10);
        r.push(digit((n % 10) as u32));
        r
    }
}

proof fn lemma_digits_value_mono(s: Seq<char>, k: int)
    requires
        0 <= k <= s.len(),
    ensures
        digits_value(s.take(k)) <= digits_value(s),
    decreases s.len() - k,
{
    if k < s.len() {
        lemma_digits_value_mono(s, k + 1);
        assert(s.take(k + 1).drop_last() =~= s.take(k));
    } else {
        assert(s.take(k) =~= s);
    }
}

/// The unsigned number that `s` denotes, where it is at most `max`.
pub fn parse_number(s: &str, max: usize) -> (r: Option<usize>)
    ensures
        match parse_uint(s@, max as nat) {
            Some(n) => r matches Some(k) && k == n,
            None => r is None,
        },
{
    let v = chars_of(s);
    let start: usize = if v.len() > 0 && v[0] == '+' {
        1
    } else {
        0
    };
    let ghost d = without_plus(s@);
    proof {
        if start == 0 {
            assert(s@.skip(0) =~= s@);
        }
        assert(d == s@.skip(start as int));
    }
    if v.len() == start {
        return None;
    }
    let mut value: usize = 0;
    let mut i: usize = start;
    proof {
        assert(d.take(0) =~= Seq::<char>::empty());
    }
    while i < v.len()
        invariant
            start <= i <= v.len(),
            v@ == s@,
            d == without_plus(s@),
            d == s@.skip(start as int),
            value == digits_value(d.take(i - start)),
            value <= max,
            forall|k: int| 0 <= k < i - start ==> is_digit(#[trigger] d[k]),
        decreases v.len() - i,
    {
        let c = v[i];
        proof {
            assert(d[i - start] == c);
            assert(d.take(i - start + 1).drop_last() =~= d.take(i - start));
            assert(d.take(i - start + 1).last() == c);
        }
        if !('0' <= c && c <= '9') {
            proof {
                assert(!is_digit(d[i - start]));
            }
            return None;
        }
        let dv: usize = (c as u32 - '0' as u32) as usize;
        proof {
            lemma_digits_value_mono(d, i - start + 1);
        }
        let next: usize = match value.checked_mul(10) {
            Some(x) => match x.checked_add(dv) {
                Some(y) => y,
                None => {
                    return None;
                },
            },
            None => {
                return None;
            },
        };
        if next > max {
            return None;
        }
        value = next;
        i += 1;
    }
    proof {
        assert(d.take(i - start) =~= d);
    }
    Some(value)
}

/// Whether `pat` stands in `t` at position `i`.
pub fn stands_at(t: &Vec<char>, pat: &Vec<char>, i: usize) -> (r: bool)
    ensures
        r == occurs_at(t@, pat@, i as int),
{
    if i > t.len() || pat.len() > t.len() - i {
        return false;
    }
    let mut k: usize = 0;
    while k < pat.len()
        invariant
            k <= pat.len(),
            i + pat.len() <= t.len(),
            forall|j: int| 0 <= j < k ==> t@[i + j] == #[trigger] pat@[j],
        decreases pat.len() - k,
    {
        if t[i + k] != pat[k] {
            proof {
                assert(t@.subrange(i as int, i + pat@.len())[k as int] != pat@[k as int]);
            }
            return false;
        }
        k += 1;
    }
    proof {
        assert(t@.subrange(i as int, i + pat@.len()) =~= pat@);
    }
    true
}

/// Whether a text starts with another.
pub fn starts_with(s: &str, prefix: &str) -> (r: bool)
    ensures
        r == occurs_at(s@, prefix@, 0),
{
    stands_at(&chars_of(s), &chars_of(prefix), 0)
}

/// The first position from `from` on at which `pat` stands in `t`.
pub fn find_from(t: &Vec<char>, pat: &Vec<char>, from: usize) -> (r: Option<usize>)
    ensures
        match first_at(t@, pat@, from as int) {
            Some(i) => (r matches Some(k) && k == i) && from <= i && i + pat@.len() <= t@.len(),
            None => r is None,
        },
{
    let mut i: usize = from;
    while i <= t.len() && pat.len() <= t.len() - i
        invariant
            from <= i,
            i <= t.len() + 1 || i == from,
            first_at(t@, pat@, i as int) == first_at(t@, pat@, from as int),
        decreases t.len() + 1 - i,
    {
        if stands_at(t, pat, i) {
            return Some(i);
        }
        if i == t.len() {
            proof {
                assert(first_at(t@, pat@, i + 1) is None);
            }
            return None;
        }
        i += 1;
    }
    None
}

/// `text` cut at each occurrence of `pat`, taken from left to right.
pub fn split(text: &str, pat: &str) -> (r: Vec<String>)
    requires
        pat@.len() > 0,
    ensures
        texts(r@) == split_text(text@, pat@),
        r@.len() > 0,
{
    let t = chars_of(text);
    let p = chars_of(pat);
    let mut r: Vec<String> = Vec::new();
    let mut start: usize = 0;
    proof {
        assert(texts(r@) + split_from(t@, p@, 0) =~= split_from(t@, p@, 0));
    }
    loop
        invariant
            start <= t.len(),
            p@ == pat@,
            t@ == text@,
            p@.len() > 0,
            texts(r@) + split_from(t@, p@, start as int) == split_text(text@, pat@),
        decreases t.len() - start,
    {
        match find_from(&t, &p, start) {
            Some(i) => {
                let piece = text_of(&t, start, i);
                proof {
                    lemma_texts_push(r@, piece);
                    assert(texts(r@) + (seq![piece@] + split_from(t@, p@, i + p@.len()))
                        =~= texts(r@).push(piece@) + split_from(t@, p@, i + p@.len()));
                }
                r.push(piece);
                start = i + p.len();
            },
            None => {
                let piece = text_of(&t, start, t.len());
                proof {
                    lemma_texts_push(r@, piece);
                    assert(texts(r@) + seq![piece@] =~= texts(r@).push(piece@));
                }
                r.push(piece);
                return r;
            },
        }
    }
}

/// `text` with each occurrence of `pat` replaced.
pub fn replace(text: &str, pat: &str, by: &str) -> (r: String)
    requires
        pat@.len() > 0,
    ensures
        r@ == replace_text(text@, pat@, by@),
{
    let parts = split(text, pat);
    join(&parts, by)
}

/// `s` without the whitespace at its two ends.
pub fn trim(s: &str) -> (r: String)
    ensures
        r@ == trim_text(s@),
        r@.len() <= s@.len(),
{
    let v = chars_of(s);
    let mut lo: usize = 0;
    while lo < v.len() && v[lo].is_whitespace()
        invariant
            lo <= v.len(),
            skip_blank(v@, lo as int) == skip_blank(v@, 0),
        decreases v.len() - lo,
    {
        lo += 1;
    }
    let mut hi: usize = v.len();
    while hi > lo && v[hi - 1].is_whitespace()
        invariant
            lo <= hi <= v.len(),
            skip_blank_back(v@, lo as int, hi as int) == skip_blank_back(
                v@,
                lo as int,
                v@.len() as int,
            ),
        decreases hi - lo,
    {
        hi -= 1;
    }
    text_of(&v, lo, hi)
}

/// `s` without `prefix`, where it starts with it.
pub fn strip_prefix(s: &str, prefix: &str) -> (r: Option<String>)
    ensures
        match strip_prefix_text(s@, prefix@) {
            Some(t) => r is Some && r->0@ == t,
            None => r is None,
        },
{
    let v = chars_of(s);
    let p = chars_of(prefix);
    if stands_at(&v, &p, 0) {
        let r = text_of(&v, p.len(), v.len());
        proof {
            assert(r@ =~= s@.skip(prefix@.len() as int));
        }
        Some(r)
    } else {
        None
    }
}

/// `s` without `prefix` where it starts with it, else `s`.
pub fn drop_prefix(s: &str, prefix: &str) -> (r: String)
    ensures
        r@ == without_prefix(s@, prefix@),
{
    match strip_prefix(s, prefix) {
        Some(r) => r,
        None => String::from_str(s),
    }
}

/// `prefix`, the number, `suffix`, for each number below `n`.
pub fn number_items(prefix: &str, n: usize, suffix: &str) -> (r: Vec<String>)
    ensures
        texts(r@) == numbered(prefix@, n as nat, suffix@),
        r@.len() == n,
{
    let mut r: Vec<String> = Vec::new();
    let mut i: usize = 0;
    while i < n
        invariant
            i <= n,
            r.len() == i,
            forall|k: int|
                0 <= k < i ==> (#[trigger] r@[k])@ == prefix@ + dec_text(k as nat) + suffix@,
        decreases n - i,
    {
        let mut s = String::from_str(prefix);
        s.append(decimal(i).as_str());
        s.append(suffix);
        r.push(s);
        i += 1;
    }
    proof {
        assert(texts(r@) =~= numbered(prefix@, n as nat, suffix@));
    }
    r
}

/// `prefix`, the number of an item, `middle`, the item, `suffix`, for each item;
/// the numbers start at `start`.
pub fn number_texts(
    prefix: &str,
    start: usize,
    middle: &str,
    items: &Vec<String>,
    suffix: &str,
) -> (r: Vec<String>)
    requires
        start + items@.len() <= usize::MAX,
    ensures
        texts(r@) == numbered_items(prefix@, start as nat, middle@, texts(items@), suffix@),
{
    let mut r: Vec<String> = Vec::new();
    let mut i: usize = 0;
    while i < items.len()
        invariant
            i <= items.len(),
            start + items@.len() <= usize::MAX,
            r.len() == i,
            forall|k: int|
                0 <= k < i ==> (#[trigger] r@[k])@ == prefix@ + dec_text((start + k) as nat)
                    + middle@ + items@[k]@ + suffix@,
        decreases items.len() - i,
    {
        let mut s = String::from_str(prefix);
        s.append(decimal(start + i).as_str());
        s.append(middle);
        s.append(items[i].as_str());
        s.append(suffix);
        r.push(s);
        i += 1;
    }
    proof {
        assert(texts(r@) =~= numbered_items(
            prefix@,
            start as nat,
            middle@,
            texts(items@),
            suffix@,
        ));
    }
    r
}

/// `prefix`, the number, `middle`, the number, `suffix`, for each number below `n`.
pub fn number_twice(prefix: &str, middle: &str, n: usize, suffix: &str) -> (r: Vec<String>)
    ensures
        texts(r@) == numbered_twice(prefix@, middle@, n as nat, suffix@),
{
    let mut r: Vec<String> = Vec::new();
    let mut i: usize = 0;
    while i < n
        invariant
            i <= n,
            r.len() == i,
            forall|k: int|
                0 <= k < i ==> (#[trigger] r@[k])@ == prefix@ + dec_text(k as nat) + middle@
                    + dec_text(k as nat) + suffix@,
        decreases n - i,
    {
        let mut s = String::from_str(prefix);
        s.append(decimal(i).as_str());
        s.append(middle);
        s.append(decimal(i).as_str());
        s.append(suffix);
        r.push(s);
        i += 1;
    }
    proof {
        assert(texts(r@) =~= numbered_twice(prefix@, middle@, n as nat, suffix@));
    }
    r
}

/// `prefix`, an item, `middle`, its number, `suffix`, for each item.
pub fn texts_numbered(prefix: &str, items: &Vec<String>, middle: &str, suffix: &str) -> (r: Vec<
    String,
>)
    ensures
        texts(r@) == items_numbered(prefix@, texts(items@), middle@, suffix@),
{
    let mut r: Vec<String> = Vec::new();
    let mut i: usize = 0;
    while i < items.len()
        invariant
            i <= items.len(),
            r.len() == i,
            forall|k: int|
                0 <= k < i ==> (#[trigger] r@[k])@ == prefix@ + items@[k]@ + middle@ + dec_text(
                    k as nat,
                ) + suffix@,
        decreases items.len() - i,
    {
        let mut s = String::from_str(prefix);
        s.append(items[i].as_str());
        s.append(middle);
        s.append(decimal(i).as_str());
        s.append(suffix);
        r.push(s);
        i += 1;
    }
    proof {
        assert(texts(r@) =~= items_numbered(prefix@, texts(items@), middle@, suffix@));
    }
    r
}

/// Whether one text comes before another, or is it.
pub fn text_before(a: &String, b: &String) -> (r: bool)
    ensures
        r == text_le(a@, b@, 0),
{
    let x = chars_of(a.as_str());
    let y = chars_of(b.as_str());
    let mut i: usize = 0;
    while i < x.len()
        invariant
            i <= x.len(),
            x@ == a@,
            y@ == b@,
            text_le(a@, b@, i as int) == text_le(a@, b@, 0),
        decreases x.len() - i,
    {
        if i >= y.len() {
            return false;
        }
        if x[i] != y[i] {
            return x[i] < y[i];
        }
        i += 1;
    }
    true
}

/// What a list of string slices holds.
pub open spec fn slices(v: Seq<&str>) -> Seq<Seq<char>> {
    Seq::new(v.len(), |i: int| v[i]@)
}

fn digit_number(c: char) -> (r: Option<usize>)
    ensures
        match r {
            Some(d) => is_digit(c) && d == digit_value(c),
            None => !is_digit(c),
        },
{
    if '0' <= c && c <= '9' {
        Some((c as u32 - '0' as u32) as usize)
    } else {
        None
    }
}

/// A template with its arguments filled in.
pub fn fill(template: &str, args: &Vec<&str>) -> (r: String)
    ensures
        r@ == filled(template@, slices(args@)),
{
    let t = chars_of(template);
    let ghost all = slices(args@);
    let mut r = String::new();
    let mut i: usize = 0;
    proof {
        assert(r@ + filled_from(t@, all, 0) =~= filled_from(t@, all, 0));
    }
    while i < t.len()
        invariant
            i <= t.len(),
            t@ == template@,
            all == slices(args@),
            r@ + filled_from(t@, all, i as int) == filled(template@, all),
        decreases t.len() - i,
    {
        if t[i] == '$' && i + 1 < t.len() {
            match digit_number(t[i + 1]) {
                Some(d) => {
                    if d < args.len() {
                        proof {
                            assert(r@ + (all[d as int] + filled_from(t@, all, i + 2)) =~= (r@
                                + all[d as int]) + filled_from(t@, all, i + 2));
                        }
                        r.append(args[d]);
                        i += 2;
                        continue ;
                    }
                },
                None => {},
            }
        }
        proof {
            assert(r@ + (seq![t@[i as int]] + filled_from(t@, all, i + 1)) =~= r@.push(
                t@[i as int],
            ) + filled_from(t@, all, i + 1));
        }
        r.push(t[i]);
        i += 1;
    }
    proof {
        assert(r@ + filled_from(t@, all, i as int) =~= r@);
    }
    r
}

/// A template with one argument filled in.
pub fn fill1(template: &str, a: &str) -> (r: String)
    ensures
        r@ == filled(template@, seq![a@]),
{
    let args: Vec<&str> = vec![a];
    proof {
        assert(slices(args@) =~= seq![a@]);
    }
    fill(template, &args)
}

/// A template with two arguments filled in.
pub fn fill2(template: &str, a: &str, b: &str) -> (r: String)
    ensures
        r@ == filled(template@, seq![a@, b@]),
{
    let args: Vec<&str> = vec![a, b];
    proof {
        assert(slices(args@) =~= seq![a@, b@]);
    }
    fill(template, &args)
}

/// A template with three arguments filled in.
pub fn fill3(template: &str, a: &str, b: &str, c: &str) -> (r: String)
    ensures
        r@ == filled(template@, seq![a@, b@, c@]),
{
    let args: Vec<&str> = vec![a, b, c];
    proof {
        assert(slices(args@) =~= seq![a@, b@, c@]);
    }
    fill(template, &args)
}

/// A template with four arguments filled in.
pub fn fill4(template: &str, a: &str, b: &str, c: &str, d: &str) -> (r: String)
    ensures
        r@ == filled(template@, seq![a@, b@, c@, d@]),
{
    let args: Vec<&str> = vec![a, b, c, d];
    proof {
        assert(slices(args@) =~= seq![a@, b@, c@, d@]);
    }
    fill(template, &args)
}

/// A template with five arguments filled in.
pub fn fill5(template: &str, a: &str, b: &str, c: &str, d: &str, e: &str) -> (r: String)
    ensures
        r@ == filled(template@, seq![a@, b@, c@, d@, e@]),
{
    let args: Vec<&str> = vec![a, b, c, d, e];
    proof {
        assert(slices(args@) =~= seq![a@, b@, c@, d@, e@]);
    }
    fill(template, &args)
}

/// A template with six arguments filled in.
pub fn fill6(template: &str, a: &str, b: &str, c: &str, d: &str, e: &str, f: &str) -> (r: String)
    ensures
        r@ == filled(template@, seq![a@, b@, c@, d@, e@, f@]),
{
    let args: Vec<&str> = vec![a, b, c, d, e, f];
    proof {
        assert(slices(args@) =~= seq![a@, b@, c@, d@, e@, f@]);
    }
    fill(template, &args)
}

/// A template with seven arguments filled in.
pub fn fill7(
    template: &str,
    a: &str,
    b: &str,
    c: &str,
    d: &str,
    e: &str,
    f: &str,
    g: &str,
) -> (r: String)
    ensures
        r@ == filled(template@, seq![a@, b@, c@, d@, e@, f@, g@]),
{
    let args: Vec<&str> = vec![a, b, c, d, e, f, g];
    proof {
        assert(slices(args@) =~= seq![a@, b@, c@, d@, e@, f@, g@]);
    }
    fill(template, &args)
}

/// A template with eight arguments filled in.
pub fn fill8(
    template: &str,
    a: &str,
    b: &str,
    c: &str,
    d: &str,
    e: &str,
    f: &str,
    g: &str,
    h: &str,
) -> (r: String)
    ensures
        r@ == filled(template@, seq![a@, b@, c@, d@, e@, f@, g@, h@]),
{
    let args: Vec<&str> = vec![a, b, c, d, e, f, g, h];
    proof {
        assert(slices(args@) =~= seq![a@, b@, c@, d@, e@, f@, g@, h@]);
    }
    fill(template, &args)
}

/// A template with ten arguments filled in.
pub fn fill10(
    template: &str,
    a: &str,
    b: &str,
    c: &str,
    d: &str,
    e: &str,
    f: &str,
    g: &str,
    h: &str,
    i: &str,
    j: &str,
) -> (r: String)
    ensures
        r@ == filled(template@, seq![a@, b@, c@, d@, e@, f@, g@, h@, i@, j@]),
{
    let args: Vec<&str> = vec![a, b, c, d, e, f, g, h, i, j];
    proof {
        assert(slices(args@) =~= seq![a@, b@, c@, d@, e@, f@, g@, h@, i@, j@]);
    }
    fill(template, &args)
}

pub proof fn lemma_join_front(v: Seq<Seq<char>>, sep: Seq<char>)
    requires
        v.len() > 1,
    ensures
        join_text(v, sep) == v[0] + sep + join_text(v.drop_first(), sep),
    decreases v.len(),
{
    let rest = v.drop_first();
    if v.len() == 2 {
        assert(v.drop_last() =~= seq![v[0]]);
        assert(join_text(v.drop_last(), sep) == v[0]);
    } else {
        lemma_join_front(v.drop_last(), sep);
        assert(v.drop_last().drop_first() =~= rest.drop_last());
        assert(v[0] + sep + join_text(rest.drop_last(), sep) + sep + v.last() =~= v[0] + sep + (
        join_text(rest.drop_last(), sep) + sep + v.last()));
    }
}

proof fn lemma_first_at(text: Seq<char>, pat: Seq<char>, from: int, at: int)
    requires
        0 <= from <= at <= text.len(),
        pat.len() > 0,
        forall|k: int| from <= k < at ==> text[k] != pat[0],
        at == text.len() || occurs_at(text, pat, at),
    ensures
        first_at(text, pat, from) == (if at == text.len() {
            None
        } else {
            Some(at)
        }),
    decreases at - from,
{
    if from < at {
        if occurs_at(text, pat, from) {
            assert(text.subrange(from, from + pat.len())[0] == text[from]);
        }
        lemma_first_at(text, pat, from + 1, at);
    }
}

/// Pieces that were put together from `start` on, and hold nothing that a
/// separator starts with, are found again.
pub proof fn lemma_split_joined(text: Seq<char>, sep: Seq<char>, start: int, v: Seq<Seq<char>>)
    requires
        0 <= start <= text.len(),
        text.skip(start) == join_text(v, sep),
        v.len() > 0,
        sep.len() > 0,
        forall|i: int| 0 <= i < v.len() ==> !(#[trigger] v[i]).contains(sep[0]),
    ensures
        split_from(text, sep, start) == v,
    decreases v.len(),
{
    let tail = text.skip(start);
    let at = start + v[0].len();
    if v.len() == 1 {
        assert forall|k: int| start <= k < text.len() implies text[k] != sep[0] by {
            assert(tail[k - start] == text[k]);
            assert(v[0].contains(v[0][k - start]));
        }
        lemma_first_at(text, sep, start, text.len() as int);
        assert(text.subrange(start, text.len() as int) =~= v[0]);
        assert(split_from(text, sep, start) =~= v);
    } else {
        let rest = v.drop_first();
        lemma_join_front(v, sep);
        let next = at + sep.len();
        assert(tail.len() == v[0].len() + sep.len() + join_text(rest, sep).len());
        assert forall|k: int| start <= k < at implies text[k] != sep[0] by {
            assert(tail[k - start] == text[k]);
            assert(v[0].contains(v[0][k - start]));
        }
        assert(text.subrange(at, next) =~= sep) by {
            assert forall|k: int| 0 <= k < sep.len() implies text[at + k] == sep[k] by {
                assert(tail[v[0].len() + k] == text[at + k]);
            }
        }
        lemma_first_at(text, sep, start, at);
        assert(text.skip(next) =~= join_text(rest, sep)) by {
            assert forall|k: int| 0 <= k < join_text(rest, sep).len() implies text[next + k]
                == join_text(rest, sep)[k] by {
                assert(tail[v[0].len() + sep.len() + k] == text[next + k]);
            }
        }
        assert forall|i: int| 0 <= i < rest.len() implies !(#[trigger] rest[i]).contains(sep[0]) by {
            assert(rest[i] == v[i + 1]);
        }
        lemma_split_joined(text, sep, next, rest);
        assert(text.subrange(start, at) =~= v[0]) by {
            assert forall|k: int| 0 <= k < v[0].len() implies text[start + k] == v[0][k] by {
                assert(tail[k] == text[start + k]);
            }
        }
        assert(seq![v[0]] + rest =~= v);
    }
}

} // verus!
