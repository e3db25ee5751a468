//! The calls that leave this crate. What is stated here of an outside function
//! is believed; everything else in the crate is proved from it.

use std::hash::RandomState;
use vstd::prelude::*;

verus! {

/// Whether a character has the Unicode property `White_Space`.
pub open spec fn unicode_whitespace(c: char) -> bool {
    ||| '\t' <= c <= '\r'
    ||| c == ' '
    ||| c == '\u{85}'
    ||| c == '\u{A0}'
    ||| c == '\u{1680}'
    ||| '\u{2000}' <= c <= '\u{200A}'
    ||| c == '\u{2028}'
    ||| c == '\u{2029}'
    ||| c == '\u{202F}'
    ||| c == '\u{205F}'
    ||| c == '\u{3000}'
}

/// `char::is_whitespace`: whether the character has the property `White_Space`.
pub assume_specification[ char::is_whitespace ](c: char) -> (r: bool)
    ensures
        r == unicode_whitespace(c),
;

/// `String::push`: appends the character at the end.
pub assume_specification[ String::push ](s: &mut String, c: char)
    ensures
        final(s)@ == old(s)@.push(c),
;

/// Whether a character changes the direction in which text is shown.
pub open spec fn changes_direction(c: char) -> bool {
    '\u{202A}' <= c <= '\u{202E}' || '\u{2066}' <= c <= '\u{2069}'
}

/// Whether a character is space between tokens.
pub open spec fn lexical_whitespace(c: char) -> bool {
    unicode_whitespace(c) && !changes_direction(c)
}

/// `chumsky::text::Char::is_whitespace` for `char`: as `char::is_whitespace`, but
/// for the characters that change the direction of text, which are none.
#[verifier::external_body]
pub(crate) fn is_lexical_whitespace(c: char) -> (r: bool)
    ensures
        r == lexical_whitespace(c),
{
    chumsky::text::Char::is_whitespace(&c)
}

/// Whether a character has the Unicode property `XID_Start`.
pub uninterp spec fn xid_start(c: char) -> bool;

/// Whether an identifier can start with a character.
pub open spec fn identifier_start(c: char) -> bool {
    xid_start(c) || c == '_'
}

/// `chumsky::text::Char::is_ident_start` for `char`: Unicode `XID_Start`, or `_`.
#[verifier::external_body]
pub(crate) fn is_identifier_start(c: char) -> (r: bool)
    ensures
        r == (xid_start(c) || c == '_'),
{
    chumsky::text::Char::is_ident_start(&c)
}

/// Whether an identifier can go on with a character: whether it has the Unicode
/// property `XID_Continue`.
pub uninterp spec fn identifier_continue(c: char) -> bool;

/// `chumsky::text::Char::is_ident_continue` for `char`: Unicode `XID_Continue`, a
/// fixed property of the character.
#[verifier::external_body]
pub(crate) fn is_identifier_continue(c: char) -> (r: bool)
    ensures
        r == identifier_continue(c),
{
    chumsky::text::Char::is_ident_continue(&c)
}

/// What `str::to_lowercase` makes of a text.
pub uninterp spec fn lowercase_text(s: Seq<char>) -> Seq<char>;

/// `str::to_lowercase`: the Unicode lower case of the text, which depends on the
/// text alone.
#[verifier::external_body]
pub(crate) fn lowercase(s: &str) -> (r: String)
    ensures
        r@ == lowercase_text(s@),
{
    s.to_lowercase()
}

/// What `str::to_uppercase` makes of a text.
pub uninterp spec fn uppercase_text(s: Seq<char>) -> Seq<char>;

/// `str::to_uppercase`: the Unicode upper case of the text, which depends on the
/// text alone.
#[verifier::external_body]
pub(crate) fn uppercase(s: &str) -> (r: String)
    ensures
        r@ == uppercase_text(s@),
{
    s.to_uppercase()
}

/// What `sha2::Sha256` makes of a text.
pub uninterp spec fn sha256_digest(s: Seq<char>) -> Seq<u8>;

/// `sha2::Sha256::digest` on the UTF-8 bytes of a text: thirty-two bytes, which
/// depend on the text alone.
#[verifier::external_body]
pub(crate) fn sha256(s: &str) -> (r: Vec<u8>)
    ensures
        r@ == sha256_digest(s@),
        r@.len() == 32,
{
    <sha2::Sha256 as sha2::Digest>::digest(s).to_vec()
}

/// The hexadecimal digit of a number below sixteen.
pub open spec fn hex_digit(d: int) -> char {
    "0123456789abcdef"@[d]
}

/// Two digits for each byte, the higher one first.
pub open spec fn hex_text(v: Seq<u8>) -> Seq<char> {
    Seq::new(
        2 * v.len(),
        |i: int|
            if i % 2 == 0 {
                hex_digit(v[i / 2] as int / 16)
            } else {
                hex_digit(v[i / 2] as int % 16)
            },
    )
}

/// `hex::encode`: each byte as two lower case hexadecimal digits.
#[verifier::external_body]
pub(crate) fn hex_encode(v: &Vec<u8>) -> (r: String)
    ensures
        r@ == hex_text(v@),
{
    hex::encode(v)
}

/// `indexmap::IndexMap`, a map that keeps its entries in the order in which
/// their keys were first inserted.
#[verifier::external_type_specification]
#[verifier::external_body]
#[verifier::reject_recursive_types(K)]
#[verifier::reject_recursive_types(V)]
#[verifier::reject_recursive_types(S)]
pub struct ExIndexMap<K, V, S>(indexmap::IndexMap<K, V, S>);

/// The keys and values of a map, in its order.
pub uninterp spec fn map_entries(m: indexmap::IndexMap<String, String, RandomState>) -> Seq<
    (Seq<char>, Seq<char>),
>;

/// The position of a key among entries.
pub open spec fn entry_at(v: Seq<(Seq<char>, Seq<char>)>, key: Seq<char>, i: int) -> Option<int>
    decreases v.len() - i,
{
    if i < 0 || i >= v.len() {
        None
    } else if v[i].0 == key {
        Some(i)
    } else {
        entry_at(v, key, i + 1)
    }
}

/// `indexmap::IndexMap::new`: a map without entries.
#[verifier::external_body]
pub(crate) fn new_map() -> (r: indexmap::IndexMap<String, String, RandomState>)
    ensures
        map_entries(r) == Seq::<(Seq<char>, Seq<char>)>::empty(),
{
    indexmap::IndexMap::new()
}

/// `indexmap::IndexMap::insert_full`: where the key is in the map its value is
/// replaced, else the entry comes last; the position of the key is returned.
#[verifier::external_body]
pub(crate) fn map_insert(
    m: &mut indexmap::IndexMap<String, String, RandomState>,
    key: String,
    value: String,
) -> (r: usize)
    ensures
        match entry_at(map_entries(*old(m)), key@, 0) {
            Some(i) => r == i && map_entries(*final(m)) == map_entries(*old(m)).update(
                i,
                (key@, value@),
            ),
            None => r == map_entries(*old(m)).len() && map_entries(*final(m)) == map_entries(
                *old(m),
            ).push((key@, value@)),
        },
{
    m.insert_full(key, value).0
}

/// `indexmap::IndexMap::get_index`: the entry at a position.
#[verifier::external_body]
pub(crate) fn map_get(m: &indexmap::IndexMap<String, String, RandomState>, i: usize) -> (r: Option<
    (&String, &String),
>)
    ensures
        match r {
            Some(e) => i < map_entries(*m).len() && map_entries(*m)[i as int] == (e.0@, e.1@),
            None => i >= map_entries(*m).len(),
        },
{
    m.get_index(i)
}

} // verus!
