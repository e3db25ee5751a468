//! What words stand for: keywords, signs, numbers and the names of primitive types
//! are read as what is written by them.

use crate::rust_types::{primitive_text, PrimitiveRustType};
use crate::text::{
    all_digits, dec_text, digit_char, digit_value, digits_value, is_digit, occurs_at, parse_uint,
    without_plus,
};
use crate::token::{ident_or_kw, scalar_bits, sign_at, tok_text, word_of, word_text, Tok, Word};
use vstd::prelude::*;

verus! {

/// A number in decimal notation is made of digits, and they stand for it.
proof fn lemma_decimal(n: nat)
    ensures
        dec_text(n).len() > 0,
        all_digits(dec_text(n)),
        digits_value(dec_text(n)) == n,
    decreases n,
{
    if n < 10 {
        let s = seq![digit_char(n)];
        assert(s.drop_last() =~= Seq::empty());
        assert(digits_value(s.drop_last()) == 0);
        assert(digit_value(s.last()) == n);
    } else {
        lemma_decimal(n / 10);
        let s = dec_text(n / 10).push(digit_char(n % 10));
        assert(s.drop_last() =~= dec_text(n / 10));
        assert(digit_value(s.last()) == n % 10);
        assert forall|i: int| 0 <= i < s.len() implies is_digit(#[trigger] s[i]) by {
            if i < s.len() - 1 {
                assert(s[i] == dec_text(n / 10)[i]);
            }
        }
    }
}

/// A number is read as what it is written for.
pub proof fn law_numbers_are_read_back(n: nat, max: nat)
    ensures
        parse_uint(dec_text(n), max) == (if n <= max {
            Some(n)
        } else {
            None
        }),
{
    lemma_decimal(n);
    assert(is_digit(dec_text(n)[0]));
    assert(without_plus(dec_text(n)) == dec_text(n));
}

proof fn lemma_bits(head: char, n: nat, other: char)
    requires
        n <= u32::MAX,
    ensures
        scalar_bits(seq![head] + dec_text(n), seq![head]) == Some(n),
        other != head ==> scalar_bits(seq![head] + dec_text(n), seq![other]) is None,
        (seq![head] + dec_text(n))[0] == head,
        is_digit((seq![head] + dec_text(n))[1]),
        (seq![head] + dec_text(n)).len() >= 2,
{
    lemma_decimal(n);
    let s = seq![head] + dec_text(n);
    assert(s.skip(1) =~= dec_text(n));
    assert(s.take(1) =~= seq![head]);
    assert(s.subrange(0, 1) =~= seq![head]);
    assert(s.subrange(1, s.len() as int) =~= dec_text(n));
    law_numbers_are_read_back(n, u32::MAX as nat);
    assert(s[1] == dec_text(n)[0]);
    if other != head {
        assert(seq![other][0] == other);
        assert(s.subrange(0, 1)[0] == head);
        assert(s.take(1)[0] == head);
    }
}

/// The name of each primitive type is read as that type.
pub proof fn law_primitive_names_are_read_back(p: PrimitiveRustType)
    ensures
        word_of(primitive_text(p)) == Word::Scalar(p),
{
    reveal_strlit("bool");
    reveal_strlit("str");
    reveal_strlit("char");
    reveal_strlit("usize");
    reveal_strlit("u");
    reveal_strlit("i");
    reveal_strlit("f");
    assert("u"@ =~= seq!['u']);
    assert("i"@ =~= seq!['i']);
    assert("f"@ =~= seq!['f']);
    assert("bool"@[0] == 'b' && "str"@[0] == 's' && "char"@[0] == 'c' && "usize"@[0] == 'u');
    assert("usize"@[1] == 's');
    match p {
        PrimitiveRustType::Uint(s) => {
            lemma_bits('u', s as nat, 'i');
        },
        PrimitiveRustType::Int(s) => {
            lemma_bits('i', s as nat, 'u');
        },
        PrimitiveRustType::Float(s) => {
            lemma_bits('f', s as nat, 'u');
            lemma_bits('f', s as nat, 'i');
        },
        _ => {},
    }
}

/// A keyword, a word with a meaning or a sign is read of nothing but its own text.
pub proof fn law_tokens_have_their_text(text: Seq<char>, i: int)
    ensures
        !(ident_or_kw(text) is Ident) ==> tok_text(ident_or_kw(text)) == text,
        ident_or_kw(text) matches Tok::Ident(w) ==> w == Word::Other || w is Scalar || word_text(w)
            == text,
        sign_at(text, i) matches Some(t) ==> occurs_at(text, tok_text(t), i),
{
}

/// Whether a token is a keyword.
pub open spec fn is_keyword(t: Tok) -> bool {
    t == Tok::KwAs
        || t == Tok::KwAsync
        || t == Tok::KwDyn
        || t == Tok::KwMod
        || t == Tok::KwType
        || t == Tok::KwTrait
        || t == Tok::KwCrate
        || t == Tok::KwFn
        || t == Tok::KwMut
        || t == Tok::KwConst
        || t == Tok::KwUse
        || t == Tok::KwFor
        || t == Tok::KwExtern
        || t == Tok::KwImpl
        || t == Tok::KwImport
        || t == Tok::KwMerge
        || t == Tok::KwIf
        || t == Tok::KwElse
        || t == Tok::KwMatch
        || t == Tok::KwSafe
        || t == Tok::KwUnsafe
}

/// Each keyword is read as itself.
pub proof fn law_keywords_are_read(t: Tok)
    requires
        is_keyword(t),
    ensures
        ident_or_kw(tok_text(t)) == t,
{
    reveal_strlit("as");
    reveal_strlit("async");
    reveal_strlit("dyn");
    reveal_strlit("mod");
    reveal_strlit("type");
    reveal_strlit("trait");
    reveal_strlit("crate");
    reveal_strlit("fn");
    reveal_strlit("mut");
    reveal_strlit("const");
    reveal_strlit("use");
    reveal_strlit("for");
    reveal_strlit("extern");
    reveal_strlit("impl");
    reveal_strlit("import");
    reveal_strlit("merge");
    reveal_strlit("if");
    reveal_strlit("else");
    reveal_strlit("match");
    reveal_strlit("safe");
    reveal_strlit("unsafe");
    let s = tok_text(t);
    let a = s[0];
    let b = s[1];
    let n = s.len();
}

/// Whether a token is a sign.
pub open spec fn is_sign(t: Tok) -> bool {
    t == Tok::Arrow
        || t == Tok::ArrowArm
        || t == Tok::AngleOpen
        || t == Tok::AngleClose
        || t == Tok::BracketOpen
        || t == Tok::BracketClose
        || t == Tok::ParenOpen
        || t == Tok::ParenClose
        || t == Tok::BraceOpen
        || t == Tok::BraceClose
        || t == Tok::ColonColon
        || t == Tok::Colon
        || t == Tok::And
        || t == Tok::Star
        || t == Tok::Sharp
        || t == Tok::Plus
        || t == Tok::Eq
        || t == Tok::Question
        || t == Tok::Comma
        || t == Tok::Semicolon
        || t == Tok::Pipe
        || t == Tok::Underscore
        || t == Tok::Dot
        || t == Tok::Bang
        || t == Tok::CppPathStart
}

/// A sign is read where it stands, unless a longer one stands there.
pub proof fn law_signs_are_read(s: Seq<char>, i: int, t: Tok)
    requires
        is_sign(t),
        occurs_at(s, tok_text(t), i),
        t == Tok::Colon ==> !occurs_at(s, tok_text(Tok::ColonColon), i),
        t == Tok::Eq ==> !occurs_at(s, tok_text(Tok::ArrowArm), i),
    ensures
        sign_at(s, i) == Some(t),
{
    reveal_strlit("->");
    reveal_strlit("=>");
    reveal_strlit("<");
    reveal_strlit(">");
    reveal_strlit("[");
    reveal_strlit("]");
    reveal_strlit("(");
    reveal_strlit(")");
    reveal_strlit("{");
    reveal_strlit("}");
    reveal_strlit("::");
    reveal_strlit(":");
    reveal_strlit("&");
    reveal_strlit("*");
    reveal_strlit("#");
    reveal_strlit("+");
    reveal_strlit("=");
    reveal_strlit("?");
    reveal_strlit(",");
    reveal_strlit(";");
    reveal_strlit("|");
    reveal_strlit("_");
    reveal_strlit(".");
    reveal_strlit("!");
    reveal_strlit("c++");
    let u = tok_text(t);
    assert(s.subrange(i, i + u.len())[0] == s[i]);
    assert(s[i] == u[0]);
    if u.len() > 1 {
        assert(s.subrange(i, i + u.len())[1] == s[i + 1]);
    }
    assert forall|v: Tok| is_sign(v) && #[trigger] occurs_at(s, tok_text(v), i) implies s[i]
        == tok_text(v)[0] by {
        assert(s.subrange(i, i + tok_text(v).len())[0] == s[i]);
    }
}

} // verus!
