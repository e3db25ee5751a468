//! What is said of a text that cannot be cut into tokens: the furthest place
//! that was reached, and all that could have stood there.

use crate::outside::{is_lexical_whitespace, lexical_whitespace};
use crate::scope::Span;
use crate::text::{chars_of, occurs_at, texts};
use crate::token::{
    byte_at, close_at, digits_end, find_close, find_hashes_end, find_line_end, hashes_end, ident, ident_at,
    ident_end, lex, lex_from, lexeme_at, line_end, number, number_at, past_trivia,
    raw_string, raw_string_at, sign, sign_at, skip_trivia, stands, string, string_at, tok_str, tok_text, Tok,
    TokenModel,
};
use vstd::prelude::*;

verus! {

broadcast use vstd::std_specs::vec::group_vec_axioms;

/// What could have stood at a place in the text.
#[derive(Clone, Copy, Debug, PartialEq, Eq, Structural)]
pub enum CharWant {
    Char(char),
    /// Any character.
    Any,
    SomethingElse,
    EndOfInput,
    Identifier,
    Int,
}

/// The furthest place at which something was missed, in characters, and what
/// was missed there, in the order in which it was tried.
#[derive(Debug)]
pub struct LexicalFailure {
    pub pos: usize,
    pub wants: Vec<CharWant>,
}

/// What a [`LexicalFailure`] holds.
#[verifier::ext_equal]
pub struct LexicalModel {
    pub pos: int,
    pub wants: Seq<CharWant>,
}

impl LexicalFailure {
    pub open spec fn view(&self) -> LexicalModel {
        LexicalModel { pos: self.pos as int, wants: self.wants@ }
    }
}

/// Before anything was missed.
pub open spec fn nothing_missed() -> LexicalModel {
    LexicalModel { pos: 0, wants: Seq::empty() }
}

/// Once something was missed at `pos`: a further place goes before a nearer one,
/// and at the same place each want counts once.
pub open spec fn char_missed(f: LexicalModel, pos: int, x: CharWant) -> LexicalModel {
    if pos > f.pos {
        LexicalModel { pos, wants: seq![x] }
    } else if pos < f.pos || f.wants.contains(x) {
        f
    } else {
        LexicalModel { wants: f.wants.push(x), ..f }
    }
}

/// Once the characters of `t` from the `k`-th on were looked for, where the
/// first of `t` is at `i`.
pub open spec fn text_missed(f: LexicalModel, s: Seq<char>, i: int, t: Seq<char>, k: int) -> LexicalModel
    decreases t.len() - k,
{
    if k < 0 || k >= t.len() {
        f
    } else if 0 <= i + k < s.len() && s[i + k] == t[k] {
        text_missed(f, s, i, t, k + 1)
    } else {
        char_missed(f, i + k, CharWant::Char(t[k]))
    }
}

/// The number of the signs.
pub const SIGNS: usize = 25;

/// The `k`-th sign, in the order in which they are tried.
#[verifier::allow_in_spec]
pub fn nth_sign(k: usize) -> Tok
    returns
        match k {
            0 => Tok::Arrow,
            1 => Tok::ArrowArm,
            2 => Tok::AngleOpen,
            3 => Tok::AngleClose,
            4 => Tok::BracketOpen,
            5 => Tok::BracketClose,
            6 => Tok::ParenOpen,
            7 => Tok::ParenClose,
            8 => Tok::BraceOpen,
            9 => Tok::BraceClose,
            10 => Tok::ColonColon,
            11 => Tok::Colon,
            12 => Tok::And,
            13 => Tok::Star,
            14 => Tok::Sharp,
            15 => Tok::Plus,
            16 => Tok::Eq,
            17 => Tok::Question,
            18 => Tok::Comma,
            19 => Tok::Semicolon,
            20 => Tok::Pipe,
            21 => Tok::Underscore,
            22 => Tok::Dot,
            23 => Tok::Bang,
            _ => Tok::CppPathStart,
        },
{
    match k {
        0 => Tok::Arrow,
        1 => Tok::ArrowArm,
        2 => Tok::AngleOpen,
        3 => Tok::AngleClose,
        4 => Tok::BracketOpen,
        5 => Tok::BracketClose,
        6 => Tok::ParenOpen,
        7 => Tok::ParenClose,
        8 => Tok::BraceOpen,
        9 => Tok::BraceClose,
        10 => Tok::ColonColon,
        11 => Tok::Colon,
        12 => Tok::And,
        13 => Tok::Star,
        14 => Tok::Sharp,
        15 => Tok::Plus,
        16 => Tok::Eq,
        17 => Tok::Question,
        18 => Tok::Comma,
        19 => Tok::Semicolon,
        20 => Tok::Pipe,
        21 => Tok::Underscore,
        22 => Tok::Dot,
        23 => Tok::Bang,
        _ => Tok::CppPathStart,
    }
}

/// Once the signs from the `k`-th on were looked for at `i`, up to the first
/// that stands there.
pub open spec fn signs_missed(f: LexicalModel, s: Seq<char>, i: int, k: usize) -> LexicalModel
    decreases SIGNS - k,
{
    if k >= SIGNS || occurs_at(s, tok_text(nth_sign(k)), i) {
        f
    } else {
        signs_missed(text_missed(f, s, i, tok_text(nth_sign(k)), 0), s, i, (k + 1) as usize)
    }
}

/// Once a row of characters ended at `e`.
pub open spec fn row_missed(f: LexicalModel, s: Seq<char>, e: int) -> LexicalModel {
    char_missed(
        f,
        e,
        if e < s.len() {
            CharWant::SomethingElse
        } else {
            CharWant::Any
        },
    )
}

/// Once a raw string was looked for at `i`.
pub open spec fn raw_string_missed(f: LexicalModel, s: Seq<char>, i: int) -> LexicalModel {
    if !(0 <= i < s.len() && s[i] == 'r') {
        char_missed(f, i, CharWant::Char('r'))
    } else {
        let open = hashes_end(s, i + 1);
        let g = char_missed(f, open, CharWant::Char('#'));
        if !(open < s.len() && s[open] == '"') {
            char_missed(g, open, CharWant::Char('"'))
        } else {
            match close_at(s, open + 1, (open - i - 1) as nat) {
                Some(_) => g,
                None => char_missed(
                    char_missed(g, s.len() as int, CharWant::Any),
                    s.len() as int,
                    CharWant::Char('"'),
                ),
            }
        }
    }
}

/// Once a string in quotes was looked for at `i`.
pub open spec fn string_missed(f: LexicalModel, s: Seq<char>, i: int) -> LexicalModel {
    if !(0 <= i < s.len() && s[i] == '"') {
        char_missed(f, i, CharWant::Char('"'))
    } else {
        match close_at(s, i + 1, 0) {
            Some(_) => f,
            None => char_missed(
                char_missed(f, s.len() as int, CharWant::SomethingElse),
                s.len() as int,
                CharWant::Char('"'),
            ),
        }
    }
}

/// Once an identifier was looked for at `i`.
pub open spec fn ident_missed(f: LexicalModel, s: Seq<char>, i: int) -> LexicalModel {
    match ident_at(s, i) {
        Some(l) => row_missed(f, s, l.end),
        None => char_missed(f, i, CharWant::Identifier),
    }
}

/// Once a number was looked for at `i`. Behind `0` no other digit can stand.
pub open spec fn number_missed(f: LexicalModel, s: Seq<char>, i: int) -> LexicalModel {
    match number_at(s, i) {
        Some(l) => if s[i] == '0' {
            f
        } else {
            row_missed(f, s, l.end)
        },
        None => char_missed(f, i, CharWant::Int),
    }
}

/// Once a token was looked for at `i`.
pub open spec fn token_missed(f: LexicalModel, s: Seq<char>, i: int) -> LexicalModel {
    let f = signs_missed(f, s, i, 0);
    if sign_at(s, i) is Some {
        f
    } else {
        let f = raw_string_missed(f, s, i);
        if raw_string_at(s, i) is Some {
            f
        } else {
            let f = string_missed(f, s, i);
            if string_at(s, i) is Some {
                f
            } else {
                let f = ident_missed(f, s, i);
                if ident_at(s, i) is Some {
                    f
                } else {
                    number_missed(f, s, i)
                }
            }
        }
    }
}

/// Once whitespace and comments were skipped from `i` on.
pub open spec fn trivia_missed(f: LexicalModel, s: Seq<char>, i: int) -> LexicalModel
    decreases s.len() - i,
{
    if 0 <= i < s.len() && lexical_whitespace(s[i]) {
        trivia_missed(f, s, i + 1)
    } else if occurs_at(s, "//"@, i) && i < line_end(s, i) <= s.len() {
        let e = line_end(s, i);
        trivia_missed(
            if e == s.len() {
                char_missed(f, e, CharWant::Any)
            } else {
                f
            },
            s,
            e,
        )
    } else {
        text_missed(f, s, i, "//"@, 0)
    }
}

/// Once the end of the text was looked for: behind the last token, which ends at
/// `i`, and the whitespace and comments behind it, which end at `j`; or at the
/// start, where there is no token.
pub open spec fn end_missed(f: LexicalModel, i: int, j: int) -> LexicalModel {
    char_missed(
        f,
        if i == 0 {
            0
        } else {
            j
        },
        CharWant::EndOfInput,
    )
}

/// Once tokens were looked for from `i` on, up to a place where none stands.
pub open spec fn tokens_missed(f: LexicalModel, s: Seq<char>, i: int) -> LexicalModel
    decreases s.len() - i,
{
    let j = skip_trivia(s, i);
    let f = token_missed(trivia_missed(f, s, i), s, j);
    match lexeme_at(s, j) {
        Some(l) => if i <= j < l.end <= s.len() {
            tokens_missed(f, s, l.end)
        } else {
            end_missed(f, i, j)
        },
        None => end_missed(f, i, j),
    }
}

/// What was missed in a text that cannot be cut into tokens.
pub open spec fn lexical_failure(s: Seq<char>) -> LexicalModel {
    tokens_missed(nothing_missed(), s, 0)
}

/// How something that was missed is written.
pub open spec fn char_want_text(w: CharWant) -> Seq<char> {
    match w {
        CharWant::Char(c) => "'"@ + seq![c] + "'"@,
        CharWant::Any => "any"@,
        CharWant::SomethingElse => "something else"@,
        CharWant::EndOfInput => "end of input"@,
        CharWant::Identifier => "identifier"@,
        CharWant::Int => "int"@,
    }
}

/// How all that was missed is written.
pub open spec fn char_want_texts(v: Seq<CharWant>) -> Seq<Seq<char>> {
    Seq::new(v.len(), |i: int| char_want_text(v[i]))
}

/// The place of a character.
pub open spec fn char_span(text: Seq<char>, at: int) -> Span {
    Span {
        start: byte_at(text, at),
        end: if 0 <= at < text.len() {
            byte_at(text, at + 1)
        } else {
            byte_at(text, at)
        },
    }
}

/// Whether more was missed, in the text.
spec fn goes_on(f: LexicalModel, g: LexicalModel, s: Seq<char>) -> bool {
    f.pos <= g.pos <= s.len()
}

proof fn lemma_text_goes_on(f: LexicalModel, s: Seq<char>, i: int, t: Seq<char>, k: int)
    requires
        f.pos <= s.len(),
        0 <= k,
        0 <= i,
        i + k <= s.len(),
    ensures
        goes_on(f, text_missed(f, s, i, t, k), s),
    decreases t.len() - k,
{
    if k < t.len() && i + k < s.len() && s[i + k] == t[k] {
        lemma_text_goes_on(f, s, i, t, k + 1);
    }
}

proof fn lemma_signs_go_on(f: LexicalModel, s: Seq<char>, i: int, k: usize)
    requires
        f.pos <= s.len(),
        0 <= i <= s.len(),
    ensures
        goes_on(f, signs_missed(f, s, i, k), s),
    decreases SIGNS - k,
{
    if k < SIGNS && !occurs_at(s, tok_text(nth_sign(k)), i) {
        lemma_text_goes_on(f, s, i, tok_text(nth_sign(k)), 0);
        lemma_signs_go_on(
            text_missed(f, s, i, tok_text(nth_sign(k)), 0),
            s,
            i,
            (k + 1) as usize,
        );
    }
}

proof fn lemma_ident_ends(s: Seq<char>, i: int)
    requires
        0 <= i <= s.len(),
    ensures
        ident_end(s, i) <= s.len(),
    decreases s.len() - i,
{
    if i < s.len() {
        lemma_ident_ends(s, i + 1);
    }
}

proof fn lemma_digits_end(s: Seq<char>, i: int)
    requires
        0 <= i <= s.len(),
    ensures
        digits_end(s, i) <= s.len(),
    decreases s.len() - i,
{
    if i < s.len() {
        lemma_digits_end(s, i + 1);
    }
}

proof fn lemma_hashes_end(s: Seq<char>, i: int)
    requires
        0 <= i <= s.len(),
    ensures
        hashes_end(s, i) <= s.len(),
    decreases s.len() - i,
{
    if i < s.len() {
        lemma_hashes_end(s, i + 1);
    }
}

proof fn lemma_token_goes_on(f: LexicalModel, s: Seq<char>, i: int)
    requires
        f.pos <= s.len(),
        0 <= i <= s.len(),
    ensures
        goes_on(f, token_missed(f, s, i), s),
        lexeme_at(s, i) is None ==> i <= token_missed(f, s, i).pos,
{
    lemma_signs_go_on(f, s, i, 0);
    if i < s.len() {
        lemma_ident_ends(s, i + 1);
        lemma_digits_end(s, i + 1);
        lemma_hashes_end(s, i + 1);
    }
}

proof fn lemma_trivia_goes_on(f: LexicalModel, s: Seq<char>, i: int)
    requires
        f.pos <= s.len(),
        0 <= i <= s.len(),
    ensures
        goes_on(f, trivia_missed(f, s, i), s),
        i <= skip_trivia(s, i) <= s.len(),
    decreases s.len() - i,
{
    if i < s.len() && lexical_whitespace(s[i]) {
        lemma_trivia_goes_on(f, s, i + 1);
    } else if occurs_at(s, "//"@, i) && i < line_end(s, i) <= s.len() {
        let e = line_end(s, i);
        lemma_trivia_goes_on(
            if e == s.len() {
                char_missed(f, e, CharWant::Any)
            } else {
                f
            },
            s,
            e,
        );
    } else {
        lemma_text_goes_on(f, s, i, "//"@, 0);
    }
}

proof fn lemma_signs_are_not_empty(s: Seq<char>, i: int)
    ensures
        sign_at(s, i) matches Some(t) ==> tok_text(t).len() > 0 && occurs_at(s, tok_text(t), i),
{
    reveal_strlit("->");
    reveal_strlit("=>");
    reveal_strlit("<");
    reveal_strlit(">");
    reveal_strlit("[");
    reveal_strlit("]");
    reveal_strlit("(");
    reveal_strlit(")");
    reveal_strlit("{");
    reveal_strlit("}");
    reveal_strlit("::");
    reveal_strlit(":");
    reveal_strlit("&");
    reveal_strlit("*");
    reveal_strlit("#");
    reveal_strlit("+");
    reveal_strlit("=");
    reveal_strlit("?");
    reveal_strlit(",");
    reveal_strlit(";");
    reveal_strlit("|");
    reveal_strlit("_");
    reveal_strlit(".");
    reveal_strlit("!");
    reveal_strlit("c++");
}

proof fn lemma_closes_behind(s: Seq<char>, i: int, h: nat)
    ensures
        close_at(s, i, h) matches Some(c) ==> i <= c && c + h < s.len(),
    decreases s.len() - i,
{
    if 0 <= i < s.len() {
        lemma_closes_behind(s, i + 1, h);
    }
}

proof fn lemma_rows_end_behind(s: Seq<char>, i: int)
    ensures
        i <= ident_end(s, i),
        i <= digits_end(s, i),
        i <= hashes_end(s, i),
    decreases s.len() - i,
{
    if 0 <= i < s.len() {
        lemma_rows_end_behind(s, i + 1);
    }
}

proof fn lemma_tokens_end(s: Seq<char>, i: int)
    requires
        0 <= i <= s.len(),
    ensures
        lexeme_at(s, i) matches Some(l) ==> i < l.end <= s.len(),
{
    lemma_signs_are_not_empty(s, i);
    if i < s.len() {
        lemma_rows_end_behind(s, i + 1);
        lemma_ident_ends(s, i + 1);
        lemma_digits_end(s, i + 1);
        let open = hashes_end(s, i + 1);
        lemma_closes_behind(s, open + 1, (open - i - 1) as nat);
        lemma_closes_behind(s, i + 1, 0);
    }
}

proof fn lemma_tokens_go_on(f: LexicalModel, s: Seq<char>, i: int, before: Seq<TokenModel>)
    requires
        f.pos <= s.len(),
        0 <= i <= s.len(),
    ensures
        goes_on(f, tokens_missed(f, s, i), s),
        match lex_from(s, i, before) {
            Ok(t) => t.len() >= before.len() && (t.len() == before.len() ==> s.len()
                <= tokens_missed(f, s, i).pos),
            Err(e) => e <= tokens_missed(f, s, i).pos,
        },
    decreases s.len() - i,
{
    let j = skip_trivia(s, i);
    let g = trivia_missed(f, s, i);
    lemma_trivia_goes_on(f, s, i);
    lemma_token_goes_on(g, s, j);
    let h = token_missed(g, s, j);
    lemma_tokens_end(s, j);
    if let Some(l) = lexeme_at(s, j) {
        let x = TokenModel {
            tok: l.tok,
            text: l.text,
            number: l.number,
            start: byte_at(s, j),
            end: byte_at(s, l.end),
        };
        lemma_tokens_go_on(h, s, l.end, before.push(x));
    }
}

/// Where a text cannot be cut into tokens, what is said of it speaks of a place
/// no nearer than the one at which no token stands.
pub proof fn law_lexical_failure_reaches_far(s: Seq<char>)
    ensures
        0 <= lexical_failure(s).pos <= s.len(),
        lex(s) matches Err(e) ==> e <= lexical_failure(s).pos,
{
    lemma_tokens_go_on(nothing_missed(), s, 0, Seq::empty());
}

fn contains_want(v: &Vec<CharWant>, x: CharWant) -> (r: bool)
    ensures
        r == v@.contains(x),
{
    let mut i: usize = 0;
    while i < v.len()
        invariant
            i <= v.len(),
            forall|k: int| 0 <= k < i ==> v@[k] != x,
        decreases v.len() - i,
    {
        if v[i] == x {
            return true;
        }
        i += 1;
    }
    false
}

impl LexicalFailure {
    fn miss(&mut self, pos: usize, x: CharWant)
        ensures
            final(self)@ == char_missed(old(self)@, pos as int, x),
    {
        if pos > self.pos {
            self.pos = pos;
            self.wants = Vec::new();
            self.wants.push(x);
            proof {
                assert(self.wants@ =~= seq![x]);
            }
        } else if pos == self.pos && !contains_want(&self.wants, x) {
            self.wants.push(x);
        }
    }

    fn miss_text(&mut self, v: &Vec<char>, i: usize, t: &str)
        requires
            i <= v.len(),
        ensures
            final(self)@ == text_missed(old(self)@, v@, i as int, t@, 0),
    {
        let p = chars_of(t);
        let mut k: usize = 0;
        while k < p.len()
            invariant
                i <= v.len(),
                k <= p.len(),
                i + k <= v.len(),
                p@ == t@,
                self@ == old(self)@,
                text_missed(self@, v@, i as int, t@, k as int) == text_missed(
                    old(self)@,
                    v@,
                    i as int,
                    t@,
                    0,
                ),
            decreases p.len() - k,
        {
            if i + k < v.len() && v[i + k] == p[k] {
                k += 1;
            } else {
                self.miss(i + k, CharWant::Char(p[k]));
                return;
            }
        }
    }

    fn miss_signs(&mut self, v: &Vec<char>, i: usize)
        requires
            i <= v.len(),
        ensures
            final(self)@ == signs_missed(old(self)@, v@, i as int, 0),
    {
        let mut k: usize = 0;
        while k < SIGNS
            invariant
                i <= v.len(),
                k <= SIGNS,
                signs_missed(self@, v@, i as int, k) == signs_missed(old(self)@, v@, i as int, 0),
            decreases SIGNS - k,
        {
            let t = tok_str(nth_sign(k));
            if stands(v, t, i) {
                return;
            }
            self.miss_text(v, i, t);
            k += 1;
        }
    }

    fn miss_row(&mut self, v: &Vec<char>, e: usize)
        ensures
            final(self)@ == row_missed(old(self)@, v@, e as int),
    {
        if e < v.len() {
            self.miss(e, CharWant::SomethingElse);
        } else {
            self.miss(e, CharWant::Any);
        }
    }

    fn miss_raw_string(&mut self, v: &Vec<char>, i: usize)
        ensures
            final(self)@ == raw_string_missed(old(self)@, v@, i as int),
    {
        if !(i < v.len() && v[i] == 'r') {
            self.miss(i, CharWant::Char('r'));
            return;
        }
        let open = find_hashes_end(v, i + 1);
        self.miss(open, CharWant::Char('#'));
        if !(open < v.len() && v[open] == '"') {
            self.miss(open, CharWant::Char('"'));
            return;
        }
        if find_close(v, open + 1, open - i - 1).is_none() {
            self.miss(v.len(), CharWant::Any);
            self.miss(v.len(), CharWant::Char('"'));
        }
    }

    fn miss_string(&mut self, v: &Vec<char>, i: usize)
        ensures
            final(self)@ == string_missed(old(self)@, v@, i as int),
    {
        if !(i < v.len() && v[i] == '"') {
            self.miss(i, CharWant::Char('"'));
            return;
        }
        if find_close(v, i + 1, 0).is_none() {
            self.miss(v.len(), CharWant::SomethingElse);
            self.miss(v.len(), CharWant::Char('"'));
        }
    }

    fn miss_token(&mut self, v: &Vec<char>, i: usize) -> (r: Option<usize>)
        requires
            i <= v.len(),
        ensures
            final(self)@ == token_missed(old(self)@, v@, i as int),
            match lexeme_at(v@, i as int) {
                Some(l) => r matches Some(e) && e == l.end,
                None => r is None,
            },
    {
        proof {
            lemma_tokens_end(v@, i as int);
        }
        self.miss_signs(v, i);
        if let Some(t) = sign(v, i) {
            let n: usize = tok_str(t).unicode_len();
            proof {
                lemma_signs_are_not_empty(v@, i as int);
            }
            return Some(i + n);
        }
        self.miss_raw_string(v, i);
        if i < v.len() {
            if let Some(l) = raw_string(v, i) {
                return Some(l.end);
            }
        }
        self.miss_string(v, i);
        if i < v.len() {
            if let Some(l) = string(v, i) {
                return Some(l.end);
            }
            if let Some(l) = ident(v, i) {
                self.miss_row(v, l.end);
                return Some(l.end);
            }
        }
        self.miss(i, CharWant::Identifier);
        if i < v.len() {
            if let Some(l) = number(v, i) {
                if v[i] != '0' {
                    self.miss_row(v, l.end);
                }
                return Some(l.end);
            }
        }
        self.miss(i, CharWant::Int);
        None
    }

    fn miss_trivia(&mut self, v: &Vec<char>, start: usize)
        requires
            start <= v.len(),
        ensures
            final(self)@ == trivia_missed(old(self)@, v@, start as int),
    {
        let mut i: usize = start;
        loop
            invariant
                i <= v.len(),
                trivia_missed(self@, v@, i as int) == trivia_missed(
                    old(self)@,
                    v@,
                    start as int,
                ),
            decreases v.len() - i,
        {
            if i < v.len() && is_lexical_whitespace(v[i]) {
                i += 1;
            } else {
                if stands(v, "//", i) {
                    let e = find_line_end(v, i);
                    if i < e {
                        if e == v.len() {
                            self.miss(e, CharWant::Any);
                        }
                        i = e;
                        continue;
                    }
                }
                self.miss_text(v, i, "//");
                return;
            }
        }
    }
}

/// What was missed in a text that cannot be cut into tokens.
pub fn find_lexical_failure(text: &str) -> (r: LexicalFailure)
    ensures
        r@ == lexical_failure(text@),
        r.pos <= text@.len(),
{
    let v = chars_of(text);
    let mut f = LexicalFailure { pos: 0, wants: Vec::new() };
    proof {
        assert(f@ =~= nothing_missed());
        law_lexical_failure_reaches_far(text@);
    }
    let mut i: usize = 0;
    loop
        invariant
            i <= v.len(),
            v@ == text@,
            tokens_missed(f@, v@, i as int) == lexical_failure(text@),
            lexical_failure(text@).pos <= text@.len(),
        decreases v.len() - i,
    {
        f.miss_trivia(&v, i);
        let j = past_trivia(&v, i);
        let ghost before = f@;
        match f.miss_token(&v, j) {
            Some(e) => {
                proof {
                    lemma_tokens_end(v@, j as int);
                }
                i = e;
            },
            None => {
                f.miss(
                    if i == 0 {
                        0
                    } else {
                        j
                    },
                    CharWant::EndOfInput,
                );
                return f;
            },
        }
    }
}

fn char_want_string(w: CharWant) -> (r: String)
    ensures
        r@ == char_want_text(w),
{
    match w {
        CharWant::Char(c) => {
            let mut r = String::from_str("'");
            r.push(c);
            r.append("'");
            proof {
                assert("'"@.push(c) =~= "'"@ + seq![c]);
            }
            r
        },
        CharWant::Any => String::from_str("any"),
        CharWant::SomethingElse => String::from_str("something else"),
        CharWant::EndOfInput => String::from_str("end of input"),
        CharWant::Identifier => String::from_str("identifier"),
        CharWant::Int => String::from_str("int"),
    }
}

/// How all that was missed is written.
pub fn char_want_strings(v: &Vec<CharWant>) -> (r: Vec<String>)
    ensures
        texts(r@) == char_want_texts(v@),
{
    let mut r: Vec<String> = Vec::new();
    let mut i: usize = 0;
    while i < v.len()
        invariant
            i <= v.len(),
            r.len() == i,
            forall|k: int| 0 <= k < i ==> (#[trigger] r@[k])@ == char_want_text(v@[k]),
        decreases v.len() - i,
    {
        r.push(char_want_string(v[i]));
        i += 1;
    }
    proof {
        assert(texts(r@) =~= char_want_texts(v@));
    }
    r
}

} // verus!
