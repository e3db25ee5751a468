//! Tokens: the words and signs of a `.zng` file, and how its text is cut into
//! them.

use crate::outside::{
    identifier_continue, identifier_start, is_identifier_continue, is_identifier_start,
    is_lexical_whitespace, lexical_whitespace,
};
use crate::rust_types::PrimitiveRustType;
use crate::text::{
    all_digits, chars_of, digits_value, is_digit, occurs_at, parse_number, parse_uint, stands_at,
    str_eq, strip_prefix, strip_prefix_text, text_of,
};
use vstd::prelude::*;
use vstd::string::StringSliceAdditionalSpecFns;
use vstd::utf8::{encode_scalar, encode_utf8};

verus! {

broadcast use vstd::std_specs::vec::group_vec_axioms;

/// The words that mean something in some place without being reserved.
#[derive(Clone, Copy, Debug, PartialEq, Eq, Structural)]
pub enum Word {
    Box,
    Layout,
    LayoutConservative,
    OnlyByRef,
    HeapAllocated,
    Debug,
    Copy,
    Sized,
    WellknownTraits,
    NonExhaustive,
    Constructor,
    Field,
    Offset,
    Auto,
    CppValue,
    CppHeapAllocated,
    CppRef,
    CppStackOwned,
    Variant,
    Deref,
    CppAdditionalIncludes,
    ConvertPanicToException,
    Unstable,
    CfgMatch,
    CfgIf,
    TemplateTypes,
    Cfg,
    Present,
    Absent,
    /// A primitive type.
    Scalar(PrimitiveRustType),
    /// Any other word.
    Other,
}

/// What a token is; its text is kept beside it.
#[derive(Clone, Copy, Debug, PartialEq, Eq, Structural)]
pub enum Tok {
    Arrow,
    ArrowArm,
    AngleOpen,
    AngleClose,
    BracketOpen,
    BracketClose,
    ParenOpen,
    ParenClose,
    BraceOpen,
    BraceClose,
    ColonColon,
    Colon,
    And,
    Star,
    Sharp,
    Plus,
    Eq,
    Question,
    Comma,
    Semicolon,
    Pipe,
    Underscore,
    Dot,
    Bang,
    CppPathStart,
    KwAs,
    KwAsync,
    KwDyn,
    KwMod,
    KwType,
    KwTrait,
    KwCrate,
    KwFn,
    KwMut,
    KwConst,
    KwUse,
    KwFor,
    KwExtern,
    KwImpl,
    KwImport,
    KwMerge,
    KwIf,
    KwElse,
    KwMatch,
    KwSafe,
    KwUnsafe,
    Ident(Word),
    /// A string in quotes, and whether it is `C++`.
    Str(bool),
    RawStr,
    Number,
}

/// A token with its text and its place in the source, in bytes.
#[derive(Debug, PartialEq, Eq)]
pub struct Token {
    pub tok: Tok,
    /// An identifier, a keyword or a sign as it stands; the inside of a string.
    pub text: String,
    /// The value of a number; the number of `#` before a raw string.
    pub number: usize,
    pub start: usize,
    pub end: usize,
}

/// What a [`Token`] holds.
#[verifier::ext_equal]
pub struct TokenModel {
    pub tok: Tok,
    pub text: Seq<char>,
    pub number: usize,
    pub start: usize,
    pub end: usize,
}

impl Token {
    pub open spec fn view(&self) -> TokenModel {
        TokenModel {
            tok: self.tok,
            text: self.text@,
            number: self.number,
            start: self.start,
            end: self.end,
        }
    }
}

/// What a list of tokens holds.
pub open spec fn tokens_view(v: Seq<Token>) -> Seq<TokenModel> {
    Seq::new(v.len(), |i: int| v[i].view())
}

/// The kinds of a list of tokens.
pub open spec fn kinds(v: Seq<TokenModel>) -> Seq<Tok> {
    Seq::new(v.len(), |i: int| v[i].tok)
}

/// How a word is written.
pub open spec fn word_text(w: Word) -> Seq<char> {
    match w {
        Word::Box => "Box"@,
        Word::Layout => "layout"@,
        Word::LayoutConservative => "layout_conservative"@,
        Word::OnlyByRef => "only_by_ref"@,
        Word::HeapAllocated => "heap_allocated"@,
        Word::Debug => "Debug"@,
        Word::Copy => "Copy"@,
        Word::Sized => "Sized"@,
        Word::WellknownTraits => "wellknown_traits"@,
        Word::NonExhaustive => "non_exhaustive"@,
        Word::Constructor => "constructor"@,
        Word::Field => "field"@,
        Word::Offset => "offset"@,
        Word::Auto => "auto"@,
        Word::CppValue => "cpp_value"@,
        Word::CppHeapAllocated => "cpp_heap_allocated"@,
        Word::CppRef => "cpp_ref"@,
        Word::CppStackOwned => "cpp_stack_owned"@,
        Word::Variant => "variant"@,
        Word::Deref => "deref"@,
        Word::CppAdditionalIncludes => "cpp_additional_includes"@,
        Word::ConvertPanicToException => "convert_panic_to_exception"@,
        Word::Unstable => "unstable"@,
        Word::CfgMatch => "cfg_match"@,
        Word::CfgIf => "cfg_if"@,
        Word::TemplateTypes => "template_types"@,
        Word::Cfg => "cfg"@,
        Word::Present => "Some"@,
        Word::Absent => "None"@,
        Word::Scalar(_) => "something else"@,
        Word::Other => "something else"@,
    }
}

/// How a token with a fixed text is written.
pub open spec fn tok_text(t: Tok) -> Seq<char> {
    match t {
        Tok::Arrow => "->"@,
        Tok::ArrowArm => "=>"@,
        Tok::AngleOpen => "<"@,
        Tok::AngleClose => ">"@,
        Tok::BracketOpen => "["@,
        Tok::BracketClose => "]"@,
        Tok::ParenOpen => "("@,
        Tok::ParenClose => ")"@,
        Tok::BraceOpen => "{"@,
        Tok::BraceClose => "}"@,
        Tok::ColonColon => "::"@,
        Tok::Colon => ":"@,
        Tok::And => "&"@,
        Tok::Star => "*"@,
        Tok::Sharp => "#"@,
        Tok::Plus => "+"@,
        Tok::Eq => "="@,
        Tok::Question => "?"@,
        Tok::Comma => ","@,
        Tok::Semicolon => ";"@,
        Tok::Pipe => "|"@,
        Tok::Underscore => "_"@,
        Tok::Dot => "."@,
        Tok::Bang => "!"@,
        Tok::CppPathStart => "c++"@,
        Tok::KwAs => "as"@,
        Tok::KwAsync => "async"@,
        Tok::KwDyn => "dyn"@,
        Tok::KwMod => "mod"@,
        Tok::KwType => "type"@,
        Tok::KwTrait => "trait"@,
        Tok::KwCrate => "crate"@,
        Tok::KwFn => "fn"@,
        Tok::KwMut => "mut"@,
        Tok::KwConst => "const"@,
        Tok::KwUse => "use"@,
        Tok::KwFor => "for"@,
        Tok::KwExtern => "extern"@,
        Tok::KwImpl => "impl"@,
        Tok::KwImport => "import"@,
        Tok::KwMerge => "merge"@,
        Tok::KwIf => "if"@,
        Tok::KwElse => "else"@,
        Tok::KwMatch => "match"@,
        Tok::KwSafe => "safe"@,
        Tok::KwUnsafe => "unsafe"@,
        Tok::Ident(w) => word_text(w),
        Tok::Str(_) => "\"C++\""@,
        Tok::RawStr => "something else"@,
        Tok::Number => "something else"@,
    }
}

/// How a word is written.
pub fn word_str(w: Word) -> (r: &'static str)
    ensures
        r@ == word_text(w),
{
    match w {
        Word::Box => "Box",
        Word::Layout => "layout",
        Word::LayoutConservative => "layout_conservative",
        Word::OnlyByRef => "only_by_ref",
        Word::HeapAllocated => "heap_allocated",
        Word::Debug => "Debug",
        Word::Copy => "Copy",
        Word::Sized => "Sized",
        Word::WellknownTraits => "wellknown_traits",
        Word::NonExhaustive => "non_exhaustive",
        Word::Constructor => "constructor",
        Word::Field => "field",
        Word::Offset => "offset",
        Word::Auto => "auto",
        Word::CppValue => "cpp_value",
        Word::CppHeapAllocated => "cpp_heap_allocated",
        Word::CppRef => "cpp_ref",
        Word::CppStackOwned => "cpp_stack_owned",
        Word::Variant => "variant",
        Word::Deref => "deref",
        Word::CppAdditionalIncludes => "cpp_additional_includes",
        Word::ConvertPanicToException => "convert_panic_to_exception",
        Word::Unstable => "unstable",
        Word::CfgMatch => "cfg_match",
        Word::CfgIf => "cfg_if",
        Word::TemplateTypes => "template_types",
        Word::Cfg => "cfg",
        Word::Present => "Some",
        Word::Absent => "None",
        Word::Scalar(_) => "something else",
        Word::Other => "something else",
    }
}

/// How a token with a fixed text is written.
pub fn tok_str(t: Tok) -> (r: &'static str)
    ensures
        r@ == tok_text(t),
{
    match t {
        Tok::Arrow => "->",
        Tok::ArrowArm => "=>",
        Tok::AngleOpen => "<",
        Tok::AngleClose => ">",
        Tok::BracketOpen => "[",
        Tok::BracketClose => "]",
        Tok::ParenOpen => "(",
        Tok::ParenClose => ")",
        Tok::BraceOpen => "{",
        Tok::BraceClose => "}",
        Tok::ColonColon => "::",
        Tok::Colon => ":",
        Tok::And => "&",
        Tok::Star => "*",
        Tok::Sharp => "#",
        Tok::Plus => "+",
        Tok::Eq => "=",
        Tok::Question => "?",
        Tok::Comma => ",",
        Tok::Semicolon => ";",
        Tok::Pipe => "|",
        Tok::Underscore => "_",
        Tok::Dot => ".",
        Tok::Bang => "!",
        Tok::CppPathStart => "c++",
        Tok::KwAs => "as",
        Tok::KwAsync => "async",
        Tok::KwDyn => "dyn",
        Tok::KwMod => "mod",
        Tok::KwType => "type",
        Tok::KwTrait => "trait",
        Tok::KwCrate => "crate",
        Tok::KwFn => "fn",
        Tok::KwMut => "mut",
        Tok::KwConst => "const",
        Tok::KwUse => "use",
        Tok::KwFor => "for",
        Tok::KwExtern => "extern",
        Tok::KwImpl => "impl",
        Tok::KwImport => "import",
        Tok::KwMerge => "merge",
        Tok::KwIf => "if",
        Tok::KwElse => "else",
        Tok::KwMatch => "match",
        Tok::KwSafe => "safe",
        Tok::KwUnsafe => "unsafe",
        Tok::Ident(w) => word_str(w),
        Tok::Str(_) => "\"C++\"",
        Tok::RawStr => "something else",
        Tok::Number => "something else",
    }
}

/// The number of bits in the name of a primitive type that starts with `head`.
pub open spec fn scalar_bits(text: Seq<char>, head: Seq<char>) -> Option<nat> {
    match strip_prefix_text(text, head) {
        Some(rest) => parse_uint(rest, u32::MAX as nat),
        None => None,
    }
}

/// The word that an identifier is.
pub open spec fn word_of(text: Seq<char>) -> Word {
    if text == "bool"@ {
        Word::Scalar(PrimitiveRustType::Bool)
    } else if text == "str"@ {
        Word::Scalar(PrimitiveRustType::Str)
    } else if text == "char"@ {
        Word::Scalar(PrimitiveRustType::Char)
    } else if text == "usize"@ {
        Word::Scalar(PrimitiveRustType::Usize)
    } else if scalar_bits(text, "u"@) is Some {
        Word::Scalar(PrimitiveRustType::Uint(scalar_bits(text, "u"@)->0 as u32))
    } else if scalar_bits(text, "i"@) is Some {
        Word::Scalar(PrimitiveRustType::Int(scalar_bits(text, "i"@)->0 as u32))
    } else if scalar_bits(text, "f"@) is Some {
        Word::Scalar(PrimitiveRustType::Float(scalar_bits(text, "f"@)->0 as u32))
    } else if text == "Box"@ {
        Word::Box
    } else if text == "layout"@ {
        Word::Layout
    } else if text == "layout_conservative"@ {
        Word::LayoutConservative
    } else if text == "only_by_ref"@ {
        Word::OnlyByRef
    } else if text == "heap_allocated"@ {
        Word::HeapAllocated
    } else if text == "Debug"@ {
        Word::Debug
    } else if text == "Copy"@ {
        Word::Copy
    } else if text == "Sized"@ {
        Word::Sized
    } else if text == "wellknown_traits"@ {
        Word::WellknownTraits
    } else if text == "non_exhaustive"@ {
        Word::NonExhaustive
    } else if text == "constructor"@ {
        Word::Constructor
    } else if text == "field"@ {
        Word::Field
    } else if text == "offset"@ {
        Word::Offset
    } else if text == "auto"@ {
        Word::Auto
    } else if text == "cpp_value"@ {
        Word::CppValue
    } else if text == "cpp_heap_allocated"@ {
        Word::CppHeapAllocated
    } else if text == "cpp_ref"@ {
        Word::CppRef
    } else if text == "cpp_stack_owned"@ {
        Word::CppStackOwned
    } else if text == "variant"@ {
        Word::Variant
    } else if text == "deref"@ {
        Word::Deref
    } else if text == "cpp_additional_includes"@ {
        Word::CppAdditionalIncludes
    } else if text == "convert_panic_to_exception"@ {
        Word::ConvertPanicToException
    } else if text == "unstable"@ {
        Word::Unstable
    } else if text == "cfg_match"@ {
        Word::CfgMatch
    } else if text == "cfg_if"@ {
        Word::CfgIf
    } else if text == "template_types"@ {
        Word::TemplateTypes
    } else if text == "cfg"@ {
        Word::Cfg
    } else if text == "Some"@ {
        Word::Present
    } else if text == "None"@ {
        Word::Absent
    } else {
        Word::Other
    }
}

/// The token that an identifier is: a keyword or a word.
pub open spec fn ident_or_kw(text: Seq<char>) -> Tok {
    if text == "as"@ {
        Tok::KwAs
    } else if text == "async"@ {
        Tok::KwAsync
    } else if text == "dyn"@ {
        Tok::KwDyn
    } else if text == "mod"@ {
        Tok::KwMod
    } else if text == "type"@ {
        Tok::KwType
    } else if text == "trait"@ {
        Tok::KwTrait
    } else if text == "crate"@ {
        Tok::KwCrate
    } else if text == "fn"@ {
        Tok::KwFn
    } else if text == "mut"@ {
        Tok::KwMut
    } else if text == "const"@ {
        Tok::KwConst
    } else if text == "use"@ {
        Tok::KwUse
    } else if text == "for"@ {
        Tok::KwFor
    } else if text == "extern"@ {
        Tok::KwExtern
    } else if text == "impl"@ {
        Tok::KwImpl
    } else if text == "import"@ {
        Tok::KwImport
    } else if text == "merge"@ {
        Tok::KwMerge
    } else if text == "if"@ {
        Tok::KwIf
    } else if text == "else"@ {
        Tok::KwElse
    } else if text == "match"@ {
        Tok::KwMatch
    } else if text == "safe"@ {
        Tok::KwSafe
    } else if text == "unsafe"@ {
        Tok::KwUnsafe
    } else {
        Tok::Ident(word_of(text))
    }
}

fn bits_of(text: &str, head: &str) -> (r: Option<u32>)
    ensures
        match scalar_bits(text@, head@) {
            Some(n) => r matches Some(k) && k == n && n <= u32::MAX,
            None => r is None,
        },
{
    match strip_prefix(text, head) {
        Some(rest) => match parse_number(rest.as_str(), u32::MAX as usize) {
            Some(n) => Some(n as u32),
            None => None,
        },
        None => None,
    }
}

fn classify_word(text: &str) -> (r: Word)
    ensures
        r == word_of(text@),
{
    if str_eq(text, "bool") {
        return Word::Scalar(PrimitiveRustType::Bool);
    }
    if str_eq(text, "str") {
        return Word::Scalar(PrimitiveRustType::Str);
    }
    if str_eq(text, "char") {
        return Word::Scalar(PrimitiveRustType::Char);
    }
    if str_eq(text, "usize") {
        return Word::Scalar(PrimitiveRustType::Usize);
    }
    if let Some(n) = bits_of(text, "u") {
        return Word::Scalar(PrimitiveRustType::Uint(n));
    }
    if let Some(n) = bits_of(text, "i") {
        return Word::Scalar(PrimitiveRustType::Int(n));
    }
    if let Some(n) = bits_of(text, "f") {
        return Word::Scalar(PrimitiveRustType::Float(n));
    }
    if str_eq(text, "Box") {
        Word::Box
    } else if str_eq(text, "layout") {
        Word::Layout
    } else if str_eq(text, "layout_conservative") {
        Word::LayoutConservative
    } else if str_eq(text, "only_by_ref") {
        Word::OnlyByRef
    } else if str_eq(text, "heap_allocated") {
        Word::HeapAllocated
    } else if str_eq(text, "Debug") {
        Word::Debug
    } else if str_eq(text, "Copy") {
        Word::Copy
    } else if str_eq(text, "Sized") {
        Word::Sized
    } else if str_eq(text, "wellknown_traits") {
        Word::WellknownTraits
    } else if str_eq(text, "non_exhaustive") {
        Word::NonExhaustive
    } else if str_eq(text, "constructor") {
        Word::Constructor
    } else if str_eq(text, "field") {
        Word::Field
    } else if str_eq(text, "offset") {
        Word::Offset
    } else if str_eq(text, "auto") {
        Word::Auto
    } else if str_eq(text, "cpp_value") {
        Word::CppValue
    } else if str_eq(text, "cpp_heap_allocated") {
        Word::CppHeapAllocated
    } else if str_eq(text, "cpp_ref") {
        Word::CppRef
    } else if str_eq(text, "cpp_stack_owned") {
        Word::CppStackOwned
    } else if str_eq(text, "variant") {
        Word::Variant
    } else if str_eq(text, "deref") {
        Word::Deref
    } else if str_eq(text, "cpp_additional_includes") {
        Word::CppAdditionalIncludes
    } else if str_eq(text, "convert_panic_to_exception") {
        Word::ConvertPanicToException
    } else if str_eq(text, "unstable") {
        Word::Unstable
    } else if str_eq(text, "cfg_match") {
        Word::CfgMatch
    } else if str_eq(text, "cfg_if") {
        Word::CfgIf
    } else if str_eq(text, "template_types") {
        Word::TemplateTypes
    } else if str_eq(text, "cfg") {
        Word::Cfg
    } else if str_eq(text, "Some") {
        Word::Present
    } else if str_eq(text, "None") {
        Word::Absent
    } else {
        Word::Other
    }
}

fn classify(text: &str) -> (r: Tok)
    ensures
        r == ident_or_kw(text@),
{
    if str_eq(text, "as") {
        Tok::KwAs
    } else if str_eq(text, "async") {
        Tok::KwAsync
    } else if str_eq(text, "dyn") {
        Tok::KwDyn
    } else if str_eq(text, "mod") {
        Tok::KwMod
    } else if str_eq(text, "type") {
        Tok::KwType
    } else if str_eq(text, "trait") {
        Tok::KwTrait
    } else if str_eq(text, "crate") {
        Tok::KwCrate
    } else if str_eq(text, "fn") {
        Tok::KwFn
    } else if str_eq(text, "mut") {
        Tok::KwMut
    } else if str_eq(text, "const") {
        Tok::KwConst
    } else if str_eq(text, "use") {
        Tok::KwUse
    } else if str_eq(text, "for") {
        Tok::KwFor
    } else if str_eq(text, "extern") {
        Tok::KwExtern
    } else if str_eq(text, "impl") {
        Tok::KwImpl
    } else if str_eq(text, "import") {
        Tok::KwImport
    } else if str_eq(text, "merge") {
        Tok::KwMerge
    } else if str_eq(text, "if") {
        Tok::KwIf
    } else if str_eq(text, "else") {
        Tok::KwElse
    } else if str_eq(text, "match") {
        Tok::KwMatch
    } else if str_eq(text, "safe") {
        Tok::KwSafe
    } else if str_eq(text, "unsafe") {
        Tok::KwUnsafe
    } else {
        Tok::Ident(classify_word(text))
    }
}

/// The sign that stands at `i`.
pub open spec fn sign_at(s: Seq<char>, i: int) -> Option<Tok> {
    if occurs_at(s, "->"@, i) {
        Some(Tok::Arrow)
    } else if occurs_at(s, "=>"@, i) {
        Some(Tok::ArrowArm)
    } else if occurs_at(s, "<"@, i) {
        Some(Tok::AngleOpen)
    } else if occurs_at(s, ">"@, i) {
        Some(Tok::AngleClose)
    } else if occurs_at(s, "["@, i) {
        Some(Tok::BracketOpen)
    } else if occurs_at(s, "]"@, i) {
        Some(Tok::BracketClose)
    } else if occurs_at(s, "("@, i) {
        Some(Tok::ParenOpen)
    } else if occurs_at(s, ")"@, i) {
        Some(Tok::ParenClose)
    } else if occurs_at(s, "{"@, i) {
        Some(Tok::BraceOpen)
    } else if occurs_at(s, "}"@, i) {
        Some(Tok::BraceClose)
    } else if occurs_at(s, "::"@, i) {
        Some(Tok::ColonColon)
    } else if occurs_at(s, ":"@, i) {
        Some(Tok::Colon)
    } else if occurs_at(s, "&"@, i) {
        Some(Tok::And)
    } else if occurs_at(s, "*"@, i) {
        Some(Tok::Star)
    } else if occurs_at(s, "#"@, i) {
        Some(Tok::Sharp)
    } else if occurs_at(s, "+"@, i) {
        Some(Tok::Plus)
    } else if occurs_at(s, "="@, i) {
        Some(Tok::Eq)
    } else if occurs_at(s, "?"@, i) {
        Some(Tok::Question)
    } else if occurs_at(s, ","@, i) {
        Some(Tok::Comma)
    } else if occurs_at(s, ";"@, i) {
        Some(Tok::Semicolon)
    } else if occurs_at(s, "|"@, i) {
        Some(Tok::Pipe)
    } else if occurs_at(s, "_"@, i) {
        Some(Tok::Underscore)
    } else if occurs_at(s, "."@, i) {
        Some(Tok::Dot)
    } else if occurs_at(s, "!"@, i) {
        Some(Tok::Bang)
    } else if occurs_at(s, "c++"@, i) {
        Some(Tok::CppPathStart)
    } else {
        None
    }
}

/// The end of the identifier whose first character stands before `i`.
pub open spec fn ident_end(s: Seq<char>, i: int) -> int
    decreases s.len() - i,
{
    if 0 <= i < s.len() && identifier_continue(s[i]) {
        ident_end(s, i + 1)
    } else {
        i
    }
}

/// The end of the row of digits that starts at `i`.
pub open spec fn digits_end(s: Seq<char>, i: int) -> int
    decreases s.len() - i,
{
    if 0 <= i < s.len() && is_digit(s[i]) {
        digits_end(s, i + 1)
    } else {
        i
    }
}

/// The end of the row of `#` that starts at `i`.
pub open spec fn hashes_end(s: Seq<char>, i: int) -> int
    decreases s.len() - i,
{
    if 0 <= i < s.len() && s[i] == '#' {
        hashes_end(s, i + 1)
    } else {
        i
    }
}

/// Whether a quote with `h` times `#` behind it stands at `i`.
pub open spec fn closes_at(s: Seq<char>, i: int, h: nat) -> bool {
    0 <= i && i + h < s.len() && s[i] == '"' && forall|k: int|
        i < k <= i + h ==> #[trigger] s[k] == '#'
}

/// The first position from `i` on at which a string with `h` times `#` closes.
pub open spec fn close_at(s: Seq<char>, i: int, h: nat) -> Option<int>
    decreases s.len() - i,
{
    if i < 0 || i >= s.len() {
        None
    } else if closes_at(s, i, h) {
        Some(i)
    } else {
        close_at(s, i + 1, h)
    }
}

/// A token, and the position behind it.
#[verifier::ext_equal]
pub struct Lexeme {
    pub tok: Tok,
    pub text: Seq<char>,
    pub number: usize,
    pub end: int,
}

/// The raw string that stands at `i`.
pub open spec fn raw_string_at(s: Seq<char>, i: int) -> Option<Lexeme> {
    if !(0 <= i < s.len() && s[i] == 'r') {
        None
    } else {
        let open = hashes_end(s, i + 1);
        let h = (open - i - 1) as nat;
        if !(open < s.len() && s[open] == '"') {
            None
        } else {
            match close_at(s, open + 1, h) {
                Some(c) => Some(
                    Lexeme {
                        tok: Tok::RawStr,
                        text: s.subrange(open + 1, c),
                        number: h as usize,
                        end: c + 1 + h,
                    },
                ),
                None => None,
            }
        }
    }
}

/// The string in quotes that stands at `i`.
pub open spec fn string_at(s: Seq<char>, i: int) -> Option<Lexeme> {
    if !(0 <= i < s.len() && s[i] == '"') {
        None
    } else {
        match close_at(s, i + 1, 0) {
            Some(c) => {
                let text = s.subrange(i + 1, c);
                Some(Lexeme { tok: Tok::Str(text == "C++"@), text, number: 0, end: c + 1 })
            },
            None => None,
        }
    }
}

/// The identifier or keyword that stands at `i`.
pub open spec fn ident_at(s: Seq<char>, i: int) -> Option<Lexeme> {
    if !(0 <= i < s.len() && identifier_start(s[i])) {
        None
    } else {
        let e = ident_end(s, i + 1);
        let text = s.subrange(i, e);
        Some(Lexeme { tok: ident_or_kw(text), text, number: 0, end: e })
    }
}

/// The number that stands at `i`: `0`, or digits that start with another one.
pub open spec fn number_at(s: Seq<char>, i: int) -> Option<Lexeme> {
    if !(0 <= i < s.len() && is_digit(s[i])) {
        None
    } else {
        let e = if s[i] == '0' {
            i + 1
        } else {
            digits_end(s, i + 1)
        };
        let text = s.subrange(i, e);
        if digits_value(text) <= usize::MAX {
            Some(
                Lexeme { tok: Tok::Number, text, number: digits_value(text) as usize, end: e },
            )
        } else {
            None
        }
    }
}

/// The token that stands at `i`.
pub open spec fn lexeme_at(s: Seq<char>, i: int) -> Option<Lexeme> {
    match sign_at(s, i) {
        Some(t) => Some(
            Lexeme { tok: t, text: tok_text(t), number: 0, end: i + tok_text(t).len() },
        ),
        None => if raw_string_at(s, i) is Some {
            raw_string_at(s, i)
        } else if string_at(s, i) is Some {
            string_at(s, i)
        } else if ident_at(s, i) is Some {
            ident_at(s, i)
        } else {
            number_at(s, i)
        },
    }
}

/// The end of the line that `i` stands in.
pub open spec fn line_end(s: Seq<char>, i: int) -> int
    decreases s.len() - i,
{
    if 0 <= i < s.len() && s[i] != '\n' {
        line_end(s, i + 1)
    } else {
        i
    }
}

/// The first position from `i` on that is in no whitespace and no comment.
pub open spec fn skip_trivia(s: Seq<char>, i: int) -> int
    decreases s.len() - i,
{
    if 0 <= i < s.len() && lexical_whitespace(s[i]) {
        skip_trivia(s, i + 1)
    } else if occurs_at(s, "//"@, i) && i < line_end(s, i) <= s.len() {
        skip_trivia(s, line_end(s, i))
    } else {
        i
    }
}

/// The number of bytes before the character at `i`.
pub open spec fn bytes_before(s: Seq<char>, i: int) -> int {
    encode_utf8(s).len() - encode_utf8(s.skip(i)).len()
}

/// The number of bytes before the character at `i` of a text that is in memory.
pub open spec fn byte_at(s: Seq<char>, i: int) -> usize {
    bytes_before(s, i) as usize
}

/// The tokens before `i` followed by those from `i` on, or the position at
/// which no token stands.
pub open spec fn lex_from(s: Seq<char>, i: int, before: Seq<TokenModel>) -> Result<
    Seq<TokenModel>,
    int,
>
    decreases s.len() - i,
{
    let j = skip_trivia(s, i);
    if j >= s.len() {
        Ok(before)
    } else {
        match lexeme_at(s, j) {
            Some(l) => if i <= j < l.end <= s.len() {
                lex_from(
                    s,
                    l.end,
                    before.push(
                        TokenModel {
                            tok: l.tok,
                            text: l.text,
                            number: l.number,
                            start: byte_at(s, j),
                            end: byte_at(s, l.end),
                        },
                    ),
                )
            } else {
                Err(j)
            },
            None => Err(j),
        }
    }
}

/// The tokens of a text, or the position at which no token stands. A text that
/// is not empty has at least one token.
pub open spec fn lex(s: Seq<char>) -> Result<Seq<TokenModel>, int> {
    match lex_from(s, 0, Seq::empty()) {
        Ok(t) => if t.len() == 0 && s.len() > 0 {
            Err(s.len() as int)
        } else {
            Ok(t)
        },
        Err(e) => Err(e),
    }
}

/// The bytes of a text are those of its two parts.
pub proof fn lemma_encode_split(s: Seq<char>, i: int)
    requires
        0 <= i <= s.len(),
    ensures
        encode_utf8(s).len() == encode_utf8(s.take(i)).len() + encode_utf8(s.skip(i)).len(),
    decreases i,
{
    if i == 0 {
        assert(s.take(0) =~= Seq::empty());
        assert(s.skip(0) =~= s);
    } else {
        lemma_encode_split(s.drop_first(), i - 1);
        assert(s.take(i).drop_first() =~= s.drop_first().take(i - 1));
        assert(s.skip(i) =~= s.drop_first().skip(i - 1));
    }
}

/// Fewer bytes stand before an earlier place.
pub proof fn lemma_bytes_grow(s: Seq<char>, i: int, j: int)
    requires
        0 <= i < j <= s.len(),
    ensures
        bytes_before(s, i) < bytes_before(s, j),
{
    let t = s.skip(i);
    lemma_encode_split(t, j - i);
    assert(t.skip(j - i) =~= s.skip(j));
    assert(t.take(j - i).len() > 0);
}

/// Whether tokens stand one behind the other, before the byte at `end`.
spec fn in_order(v: Seq<TokenModel>, end: int) -> bool {
    &&& forall|i: int| 0 <= i < v.len() ==> (#[trigger] v[i]).start < v[i].end <= end
    &&& forall|i: int, j: int|
        0 <= i < j < v.len() ==> (#[trigger] v[i]).end <= (#[trigger] v[j]).start
}

proof fn lemma_lex_in_order(s: Seq<char>, i: int, before: Seq<TokenModel>)
    requires
        encode_utf8(s).len() <= usize::MAX,
        0 <= i <= s.len(),
        in_order(before, bytes_before(s, i)),
    ensures
        lex_from(s, i, before) matches Ok(t) ==> in_order(t, encode_utf8(s).len() as int),
    decreases s.len() - i,
{
    lemma_encode_split(s, i);
    let j = skip_trivia(s, i);
    if j < s.len() {
        match lexeme_at(s, j) {
            Some(l) => {
                if i <= j < l.end <= s.len() {
                    lemma_encode_split(s, j);
                    lemma_encode_split(s, l.end);
                    lemma_bytes_grow(s, j, l.end);
                    if i < j {
                        lemma_bytes_grow(s, i, j);
                    }
                    let x = TokenModel {
                        tok: l.tok,
                        text: l.text,
                        number: l.number,
                        start: byte_at(s, j),
                        end: byte_at(s, l.end),
                    };
                    assert(in_order(before.push(x), bytes_before(s, l.end)));
                    lemma_lex_in_order(s, l.end, before.push(x));
                }
            },
            None => {},
        }
    }
}

/// The tokens of a text that can be in memory stand one behind the other in it,
/// and none is empty.
pub proof fn law_tokens_stand_in_order(s: Seq<char>, t: Seq<TokenModel>, i: int)
    requires
        encode_utf8(s).len() <= usize::MAX,
        lex(s) == Ok::<Seq<TokenModel>, int>(t),
        0 <= i < t.len(),
    ensures
        t[i].start < t[i].end <= encode_utf8(s).len(),
        i + 1 < t.len() ==> t[i].end <= t[i + 1].start,
{
    assert(s.skip(0) =~= s);
    lemma_lex_in_order(s, 0, Seq::empty());
}

pub(crate) fn stands(v: &Vec<char>, pat: &str, i: usize) -> (r: bool)
    ensures
        r == occurs_at(v@, pat@, i as int),
{
    let p = chars_of(pat);
    stands_at(v, &p, i)
}

pub(crate) fn sign(v: &Vec<char>, i: usize) -> (r: Option<Tok>)
    ensures
        r == sign_at(v@, i as int),
{
    if stands(v, "->", i) {
        Some(Tok::Arrow)
    } else if stands(v, "=>", i) {
        Some(Tok::ArrowArm)
    } else if stands(v, "<", i) {
        Some(Tok::AngleOpen)
    } else if stands(v, ">", i) {
        Some(Tok::AngleClose)
    } else if stands(v, "[", i) {
        Some(Tok::BracketOpen)
    } else if stands(v, "]", i) {
        Some(Tok::BracketClose)
    } else if stands(v, "(", i) {
        Some(Tok::ParenOpen)
    } else if stands(v, ")", i) {
        Some(Tok::ParenClose)
    } else if stands(v, "{", i) {
        Some(Tok::BraceOpen)
    } else if stands(v, "}", i) {
        Some(Tok::BraceClose)
    } else if stands(v, "::", i) {
        Some(Tok::ColonColon)
    } else if stands(v, ":", i) {
        Some(Tok::Colon)
    } else if stands(v, "&", i) {
        Some(Tok::And)
    } else if stands(v, "*", i) {
        Some(Tok::Star)
    } else if stands(v, "#", i) {
        Some(Tok::Sharp)
    } else if stands(v, "+", i) {
        Some(Tok::Plus)
    } else if stands(v, "=", i) {
        Some(Tok::Eq)
    } else if stands(v, "?", i) {
        Some(Tok::Question)
    } else if stands(v, ",", i) {
        Some(Tok::Comma)
    } else if stands(v, ";", i) {
        Some(Tok::Semicolon)
    } else if stands(v, "|", i) {
        Some(Tok::Pipe)
    } else if stands(v, "_", i) {
        Some(Tok::Underscore)
    } else if stands(v, ".", i) {
        Some(Tok::Dot)
    } else if stands(v, "!", i) {
        Some(Tok::Bang)
    } else if stands(v, "c++", i) {
        Some(Tok::CppPathStart)
    } else {
        None
    }
}

/// A token, and the position behind it.
pub(crate) struct Lexed {
    pub tok: Tok,
    pub text: String,
    pub number: usize,
    pub end: usize,
}

impl Lexed {
    pub(crate) open spec fn view(&self) -> Lexeme {
        Lexeme { tok: self.tok, text: self.text@, number: self.number, end: self.end as int }
    }
}

pub(crate) open spec fn lexed(r: Option<Lexed>) -> Option<Lexeme> {
    match r {
        Some(l) => Some(l.view()),
        None => None,
    }
}

fn find_ident_end(v: &Vec<char>, start: usize) -> (r: usize)
    requires
        start <= v.len(),
    ensures
        r == ident_end(v@, start as int),
        start <= r <= v.len(),
{
    let mut i: usize = start;
    while i < v.len() && is_identifier_continue(v[i])
        invariant
            start <= i <= v.len(),
            ident_end(v@, i as int) == ident_end(v@, start as int),
        decreases v.len() - i,
    {
        i += 1;
    }
    i
}

fn find_digits_end(v: &Vec<char>, start: usize) -> (r: usize)
    requires
        start <= v.len(),
    ensures
        r == digits_end(v@, start as int),
        start <= r <= v.len(),
        forall|k: int| start <= k < r ==> is_digit(#[trigger] v@[k]),
{
    let mut i: usize = start;
    while i < v.len() && '0' <= v[i] && v[i] <= '9'
        invariant
            start <= i <= v.len(),
            digits_end(v@, i as int) == digits_end(v@, start as int),
            forall|k: int| start <= k < i ==> is_digit(#[trigger] v@[k]),
        decreases v.len() - i,
    {
        i += 1;
    }
    i
}

pub(crate) fn find_hashes_end(v: &Vec<char>, start: usize) -> (r: usize)
    requires
        start <= v.len(),
    ensures
        r == hashes_end(v@, start as int),
        start <= r <= v.len(),
{
    let mut i: usize = start;
    while i < v.len() && v[i] == '#'
        invariant
            start <= i <= v.len(),
            hashes_end(v@, i as int) == hashes_end(v@, start as int),
        decreases v.len() - i,
    {
        i += 1;
    }
    i
}

fn closes(v: &Vec<char>, i: usize, h: usize) -> (r: bool)
    requires
        i < v.len(),
    ensures
        r == closes_at(v@, i as int, h as nat),
{
    if v[i] != '"' || h >= v.len() - i {
        return false;
    }
    let mut k: usize = 0;
    while k < h
        invariant
            k <= h,
            i + h < v.len(),
            v@[i as int] == '"',
            forall|j: int| i < j <= i + k ==> #[trigger] v@[j] == '#',
        decreases h - k,
    {
        if v[i + 1 + k] != '#' {
            return false;
        }
        k += 1;
    }
    true
}

pub(crate) fn find_close(v: &Vec<char>, start: usize, h: usize) -> (r: Option<usize>)
    ensures
        match close_at(v@, start as int, h as nat) {
            Some(c) => (r matches Some(k) && k == c) && start <= c && c + h < v@.len(),
            None => r is None,
        },
{
    let mut i: usize = start;
    while i < v.len()
        invariant
            start <= i,
            close_at(v@, i as int, h as nat) == close_at(v@, start as int, h as nat),
        decreases v.len() - i,
    {
        if closes(v, i, h) {
            return Some(i);
        }
        i += 1;
    }
    None
}

pub(crate) fn raw_string(v: &Vec<char>, i: usize) -> (r: Option<Lexed>)
    requires
        i < v.len(),
    ensures
        lexed(r) == raw_string_at(v@, i as int),
{
    if v[i] != 'r' {
        return None;
    }
    let open = find_hashes_end(v, i + 1);
    let h: usize = open - i - 1;
    if open >= v.len() || v[open] != '"' {
        return None;
    }
    match find_close(v, open + 1, h) {
        Some(c) => Some(
            Lexed {
                tok: Tok::RawStr,
                text: text_of(v, open + 1, c),
                number: h,
                end: c + 1 + h,
            },
        ),
        None => None,
    }
}

pub(crate) fn string(v: &Vec<char>, i: usize) -> (r: Option<Lexed>)
    requires
        i < v.len(),
    ensures
        lexed(r) == string_at(v@, i as int),
{
    if v[i] != '"' {
        return None;
    }
    match find_close(v, i + 1, 0) {
        Some(c) => {
            let text = text_of(v, i + 1, c);
            let tok = Tok::Str(str_eq(text.as_str(), "C++"));
            Some(Lexed { tok, text, number: 0, end: c + 1 })
        },
        None => None,
    }
}

pub(crate) fn ident(v: &Vec<char>, i: usize) -> (r: Option<Lexed>)
    requires
        i < v.len(),
    ensures
        lexed(r) == ident_at(v@, i as int),
{
    if !is_identifier_start(v[i]) {
        return None;
    }
    let e = find_ident_end(v, i + 1);
    let text = text_of(v, i, e);
    let tok = classify(text.as_str());
    Some(Lexed { tok, text, number: 0, end: e })
}

pub(crate) fn number(v: &Vec<char>, i: usize) -> (r: Option<Lexed>)
    requires
        i < v.len(),
    ensures
        lexed(r) == number_at(v@, i as int),
{
    let c = v[i];
    if !('0' <= c && c <= '9') {
        return None;
    }
    let e: usize = if c == '0' {
        i + 1
    } else {
        find_digits_end(v, i + 1)
    };
    let text = text_of(v, i, e);
    proof {
        assert(all_digits(text@)) by {
            assert forall|k: int| 0 <= k < text@.len() implies is_digit(#[trigger] text@[k]) by {
                assert(text@[k] == v@[i + k]);
            }
        }
        assert(text@[0] == c);
        assert(parse_uint(text@, usize::MAX as nat) == if digits_value(text@) <= usize::MAX {
            Some(digits_value(text@))
        } else {
            None
        });
    }
    match parse_number(text.as_str(), usize::MAX) {
        Some(n) => Some(Lexed { tok: Tok::Number, text, number: n, end: e }),
        None => None,
    }
}

fn lexeme(v: &Vec<char>, i: usize) -> (r: Option<Lexed>)
    requires
        i < v.len(),
    ensures
        lexed(r) == lexeme_at(v@, i as int),
{
    match sign(v, i) {
        Some(t) => {
            let s = tok_str(t);
            let n: usize = s.unicode_len();
            proof {
                lemma_sign_fits(v@, i as int);
            }
            return Some(Lexed { tok: t, text: String::from_str(s), number: 0, end: i + n });
        },
        None => {},
    }
    let r = raw_string(v, i);
    if r.is_some() {
        return r;
    }
    let r = string(v, i);
    if r.is_some() {
        return r;
    }
    let r = ident(v, i);
    if r.is_some() {
        return r;
    }
    number(v, i)
}

proof fn lemma_sign_fits(s: Seq<char>, i: int)
    ensures
        sign_at(s, i) matches Some(t) ==> occurs_at(s, tok_text(t), i),
{
}

pub(crate) fn find_line_end(v: &Vec<char>, start: usize) -> (r: usize)
    requires
        start <= v.len(),
    ensures
        r == line_end(v@, start as int),
        start <= r <= v.len(),
{
    let mut i: usize = start;
    while i < v.len() && v[i] != '\n'
        invariant
            start <= i <= v.len(),
            line_end(v@, i as int) == line_end(v@, start as int),
        decreases v.len() - i,
    {
        i += 1;
    }
    i
}

pub(crate) fn past_trivia(v: &Vec<char>, start: usize) -> (r: usize)
    requires
        start <= v.len(),
    ensures
        r == skip_trivia(v@, start as int),
        start <= r <= v.len(),
{
    let mut i: usize = start;
    loop
        invariant
            start <= i <= v.len(),
            skip_trivia(v@, i as int) == skip_trivia(v@, start as int),
        decreases v.len() - i,
    {
        if i < v.len() && is_lexical_whitespace(v[i]) {
            i += 1;
        } else if stands(v, "//", i) {
            let e = find_line_end(v, i);
            if e == i {
                return i;
            }
            i = e;
        } else {
            return i;
        }
    }
}

fn char_width(c: char) -> (r: usize)
    ensures
        r == encode_scalar(c as u32).len(),
{
    let n: u32 = c as u32;
    if n <= 0x7F {
        1
    } else if n <= 0x7FF {
        2
    } else if n <= 0xFFFF {
        3
    } else {
        4
    }
}

/// The number of bytes before each character, and before the end.
pub fn byte_offsets(text: &str) -> (r: Vec<usize>)
    ensures
        r@.len() == text@.len() + 1,
        forall|k: int| 0 <= k <= text@.len() ==> r@[k] == byte_at(text@, k),
        forall|k: int| 0 <= k <= text@.len() ==> r@[k] == bytes_before(text@, k),
{
    let v = chars_of(text);
    let total: usize = text.as_bytes().len();
    let mut left: usize = total;
    let mut r: Vec<usize> = Vec::new();
    let mut i: usize = 0;
    let ghost s = text@;
    proof {
        assert(s.skip(0) =~= s);
    }
    r.push(0);
    while i < v.len()
        invariant
            i <= v.len(),
            v@ == s,
            r@.len() == i + 1,
            total == encode_utf8(s).len(),
            left == encode_utf8(s.skip(i as int)).len(),
            left <= total,
            forall|k: int| 0 <= k <= i ==> r@[k] == byte_at(s, k),
            forall|k: int| 0 <= k <= i ==> r@[k] == bytes_before(s, k),
        decreases v.len() - i,
    {
        let w = char_width(v[i]);
        proof {
            assert(s.skip(i as int)[0] == v@[i as int]);
            assert(s.skip(i as int).drop_first() =~= s.skip(i + 1));
        }
        left -= w;
        r.push(total - left);
        i += 1;
    }
    r
}

/// Cuts a text into its tokens, or tells the position, in characters, at which
/// no token stands.
pub fn tokenize(text: &str) -> (r: Result<Vec<Token>, usize>)
    ensures
        match lex(text@) {
            Ok(t) => r is Ok && tokens_view(r->Ok_0@) == t,
            Err(e) => r is Err && r->Err_0 == e,
        },
{
    let v = chars_of(text);
    let offsets = byte_offsets(text);
    let mut out: Vec<Token> = Vec::new();
    let mut i: usize = 0;
    proof {
        assert(tokens_view(out@) =~= Seq::empty());
    }
    loop
        invariant
            i <= v.len(),
            v@ == text@,
            offsets@.len() == v@.len() + 1,
            forall|k: int| 0 <= k <= v@.len() ==> offsets@[k] == byte_at(v@, k),
            lex_from(v@, i as int, tokens_view(out@)) == lex_from(v@, 0, Seq::empty()),
        decreases v.len() - i,
    {
        let j = past_trivia(&v, i);
        if j >= v.len() {
            if out.len() == 0 && v.len() > 0 {
                return Err(v.len());
            }
            return Ok(out);
        }
        match lexeme(&v, j) {
            Some(l) => {
                if !(j < l.end && l.end <= v.len()) {
                    return Err(j);
                }
                let t = Token {
                    tok: l.tok,
                    text: l.text,
                    number: l.number,
                    start: offsets[j],
                    end: offsets[l.end],
                };
                proof {
                    assert(tokens_view(out@.push(t)) =~= tokens_view(out@).push(t.view()));
                }
                i = l.end;
                out.push(t);
            },
            None => {
                return Err(j);
            },
        }
    }
}

} // verus!
