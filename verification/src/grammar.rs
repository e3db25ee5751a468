//! The grammar of `.zng` files.

use crate::peg::{Complaint, Expr, Feature, Pick, Rule};
use crate::token::{Tok, Word};
use vstd::prelude::*;

verus! {

/// One given token.
#[verifier::allow_in_spec]
pub fn one(t: Tok) -> Box<Expr>
    returns
        Box::new(Expr::One(t)),
{
    Box::new(Expr::One(t))
}

/// One of several tokens, which is kept.
#[verifier::allow_in_spec]
pub fn keep(p: Pick) -> Box<Expr>
    returns
        Box::new(Expr::Keep(p)),
{
    Box::new(Expr::Keep(p))
}

/// The one, then the other.
#[verifier::allow_in_spec]
pub fn both(a: Box<Expr>, b: Box<Expr>) -> Box<Expr>
    returns
        Box::new(Expr::Both(a, b)),
{
    Box::new(Expr::Both(a, b))
}

/// The one or, where it fails, the other.
#[verifier::allow_in_spec]
pub fn either(a: Box<Expr>, b: Box<Expr>) -> Box<Expr>
    returns
        Box::new(Expr::Either(a, b)),
{
    Box::new(Expr::Either(a, b))
}

/// As often as it goes.
#[verifier::allow_in_spec]
pub fn many(a: Box<Expr>) -> Box<Expr>
    returns
        Box::new(Expr::Many(a)),
{
    Box::new(Expr::Many(a))
}

/// Once or not at all.
#[verifier::allow_in_spec]
pub fn maybe(a: Box<Expr>) -> Box<Expr>
    returns
        Box::new(Expr::Maybe(a)),
{
    Box::new(Expr::Maybe(a))
}

/// What a rule says.
#[verifier::allow_in_spec]
pub fn rule(r: Rule) -> Box<Expr>
    returns
        Box::new(Expr::Use(r)),
{
    Box::new(Expr::Use(r))
}

/// What needs a feature.
#[verifier::allow_in_spec]
pub fn gated(f: Feature, a: Box<Expr>) -> Box<Expr>
    returns
        Box::new(Expr::Gated(f, a)),
{
    Box::new(Expr::Gated(f, a))
}

/// A name in round brackets, which asks for a feature.
#[verifier::allow_in_spec]
pub fn ask() -> Box<Expr>
    returns
        Box::new(Expr::Ask),
{
    Box::new(Expr::Ask)
}

/// What must not start with `c++`.
#[verifier::allow_in_spec]
pub fn not_cpp(c: Complaint, a: Box<Expr>) -> Box<Expr>
    returns
        Box::new(Expr::NotCpp(c, a)),
{
    Box::new(Expr::NotCpp(c, a))
}

/// The end of the tokens.
#[verifier::allow_in_spec]
pub fn end() -> Box<Expr>
    returns
        Box::new(Expr::End),
{
    Box::new(Expr::End)
}

/// One after the other.
#[verifier::allow_in_spec]
pub fn seq2(a: Box<Expr>, b: Box<Expr>) -> Box<Expr>
    returns
        both(a, b),
{
    both(a, b)
}

/// One after the other.
#[verifier::allow_in_spec]
pub fn seq3(a: Box<Expr>, b: Box<Expr>, c: Box<Expr>) -> Box<Expr>
    returns
        both(a, seq2(b, c)),
{
    both(a, seq2(b, c))
}

/// One after the other.
#[verifier::allow_in_spec]
pub fn seq4(a: Box<Expr>, b: Box<Expr>, c: Box<Expr>, d: Box<Expr>) -> Box<Expr>
    returns
        both(a, seq3(b, c, d)),
{
    both(a, seq3(b, c, d))
}

/// One after the other.
#[verifier::allow_in_spec]
pub fn seq5(a: Box<Expr>, b: Box<Expr>, c: Box<Expr>, d: Box<Expr>, e: Box<Expr>) -> Box<Expr>
    returns
        both(a, seq4(b, c, d, e)),
{
    both(a, seq4(b, c, d, e))
}

/// One after the other.
#[verifier::allow_in_spec]
pub fn seq6(
    a: Box<Expr>,
    b: Box<Expr>,
    c: Box<Expr>,
    d: Box<Expr>,
    e: Box<Expr>,
    f: Box<Expr>,
) -> Box<Expr>
    returns
        both(a, seq5(b, c, d, e, f)),
{
    both(a, seq5(b, c, d, e, f))
}

/// One after the other.
#[verifier::allow_in_spec]
pub fn seq7(
    a: Box<Expr>,
    b: Box<Expr>,
    c: Box<Expr>,
    d: Box<Expr>,
    e: Box<Expr>,
    f: Box<Expr>,
    g: Box<Expr>,
) -> Box<Expr>
    returns
        both(a, seq6(b, c, d, e, f, g)),
{
    both(a, seq6(b, c, d, e, f, g))
}

/// One after the other.
#[verifier::allow_in_spec]
pub fn seq8(
    a: Box<Expr>,
    b: Box<Expr>,
    c: Box<Expr>,
    d: Box<Expr>,
    e: Box<Expr>,
    f: Box<Expr>,
    g: Box<Expr>,
    h: Box<Expr>,
) -> Box<Expr>
    returns
        both(a, seq7(b, c, d, e, f, g, h)),
{
    both(a, seq7(b, c, d, e, f, g, h))
}

/// One after the other.
#[verifier::allow_in_spec]
pub fn seq9(
    a: Box<Expr>,
    b: Box<Expr>,
    c: Box<Expr>,
    d: Box<Expr>,
    e: Box<Expr>,
    f: Box<Expr>,
    g: Box<Expr>,
    h: Box<Expr>,
    i: Box<Expr>,
) -> Box<Expr>
    returns
        both(a, seq8(b, c, d, e, f, g, h, i)),
{
    both(a, seq8(b, c, d, e, f, g, h, i))
}

/// One after the other.
#[verifier::allow_in_spec]
pub fn seq10(
    a: Box<Expr>,
    b: Box<Expr>,
    c: Box<Expr>,
    d: Box<Expr>,
    e: Box<Expr>,
    f: Box<Expr>,
    g: Box<Expr>,
    h: Box<Expr>,
    i: Box<Expr>,
    j: Box<Expr>,
) -> Box<Expr>
    returns
        both(a, seq9(b, c, d, e, f, g, h, i, j)),
{
    both(a, seq9(b, c, d, e, f, g, h, i, j))
}

/// One after the other.
#[verifier::allow_in_spec]
pub fn seq11(
    a: Box<Expr>,
    b: Box<Expr>,
    c: Box<Expr>,
    d: Box<Expr>,
    e: Box<Expr>,
    f: Box<Expr>,
    g: Box<Expr>,
    h: Box<Expr>,
    i: Box<Expr>,
    j: Box<Expr>,
    k: Box<Expr>,
) -> Box<Expr>
    returns
        both(a, seq10(b, c, d, e, f, g, h, i, j, k)),
{
    both(a, seq10(b, c, d, e, f, g, h, i, j, k))
}

/// The first that does not fail.
#[verifier::allow_in_spec]
pub fn alt2(a: Box<Expr>, b: Box<Expr>) -> Box<Expr>
    returns
        either(a, b),
{
    either(a, b)
}

/// The first that does not fail.
#[verifier::allow_in_spec]
pub fn alt3(a: Box<Expr>, b: Box<Expr>, c: Box<Expr>) -> Box<Expr>
    returns
        either(a, alt2(b, c)),
{
    either(a, alt2(b, c))
}

/// The first that does not fail.
#[verifier::allow_in_spec]
pub fn alt4(a: Box<Expr>, b: Box<Expr>, c: Box<Expr>, d: Box<Expr>) -> Box<Expr>
    returns
        either(a, alt3(b, c, d)),
{
    either(a, alt3(b, c, d))
}

/// The first that does not fail.
#[verifier::allow_in_spec]
pub fn alt5(a: Box<Expr>, b: Box<Expr>, c: Box<Expr>, d: Box<Expr>, e: Box<Expr>) -> Box<Expr>
    returns
        either(a, alt4(b, c, d, e)),
{
    either(a, alt4(b, c, d, e))
}

/// The first that does not fail.
#[verifier::allow_in_spec]
pub fn alt6(
    a: Box<Expr>,
    b: Box<Expr>,
    c: Box<Expr>,
    d: Box<Expr>,
    e: Box<Expr>,
    f: Box<Expr>,
) -> Box<Expr>
    returns
        either(a, alt5(b, c, d, e, f)),
{
    either(a, alt5(b, c, d, e, f))
}

/// The first that does not fail.
#[verifier::allow_in_spec]
pub fn alt7(
    a: Box<Expr>,
    b: Box<Expr>,
    c: Box<Expr>,
    d: Box<Expr>,
    e: Box<Expr>,
    f: Box<Expr>,
    g: Box<Expr>,
) -> Box<Expr>
    returns
        either(a, alt6(b, c, d, e, f, g)),
{
    either(a, alt6(b, c, d, e, f, g))
}

/// The first that does not fail.
#[verifier::allow_in_spec]
pub fn alt8(
    a: Box<Expr>,
    b: Box<Expr>,
    c: Box<Expr>,
    d: Box<Expr>,
    e: Box<Expr>,
    f: Box<Expr>,
    g: Box<Expr>,
    h: Box<Expr>,
) -> Box<Expr>
    returns
        either(a, alt7(b, c, d, e, f, g, h)),
{
    either(a, alt7(b, c, d, e, f, g, h))
}

/// The first that does not fail.
#[verifier::allow_in_spec]
pub fn alt9(
    a: Box<Expr>,
    b: Box<Expr>,
    c: Box<Expr>,
    d: Box<Expr>,
    e: Box<Expr>,
    f: Box<Expr>,
    g: Box<Expr>,
    h: Box<Expr>,
    i: Box<Expr>,
) -> Box<Expr>
    returns
        either(a, alt8(b, c, d, e, f, g, h, i)),
{
    either(a, alt8(b, c, d, e, f, g, h, i))
}

/// The first that does not fail.
#[verifier::allow_in_spec]
pub fn alt10(
    a: Box<Expr>,
    b: Box<Expr>,
    c: Box<Expr>,
    d: Box<Expr>,
    e: Box<Expr>,
    f: Box<Expr>,
    g: Box<Expr>,
    h: Box<Expr>,
    i: Box<Expr>,
    j: Box<Expr>,
) -> Box<Expr>
    returns
        either(a, alt9(b, c, d, e, f, g, h, i, j)),
{
    either(a, alt9(b, c, d, e, f, g, h, i, j))
}

/// The first that does not fail.
#[verifier::allow_in_spec]
pub fn alt11(
    a: Box<Expr>,
    b: Box<Expr>,
    c: Box<Expr>,
    d: Box<Expr>,
    e: Box<Expr>,
    f: Box<Expr>,
    g: Box<Expr>,
    h: Box<Expr>,
    i: Box<Expr>,
    j: Box<Expr>,
    k: Box<Expr>,
) -> Box<Expr>
    returns
        either(a, alt10(b, c, d, e, f, g, h, i, j, k)),
{
    either(a, alt10(b, c, d, e, f, g, h, i, j, k))
}

/// The first that does not fail.
#[verifier::allow_in_spec]
pub fn alt12(
    a: Box<Expr>,
    b: Box<Expr>,
    c: Box<Expr>,
    d: Box<Expr>,
    e: Box<Expr>,
    f: Box<Expr>,
    g: Box<Expr>,
    h: Box<Expr>,
    i: Box<Expr>,
    j: Box<Expr>,
    k: Box<Expr>,
    l: Box<Expr>,
) -> Box<Expr>
    returns
        either(a, alt11(b, c, d, e, f, g, h, i, j, k, l)),
{
    either(a, alt11(b, c, d, e, f, g, h, i, j, k, l))
}

/// The first that does not fail.
#[verifier::allow_in_spec]
pub fn alt13(
    a: Box<Expr>,
    b: Box<Expr>,
    c: Box<Expr>,
    d: Box<Expr>,
    e: Box<Expr>,
    f: Box<Expr>,
    g: Box<Expr>,
    h: Box<Expr>,
    i: Box<Expr>,
    j: Box<Expr>,
    k: Box<Expr>,
    l: Box<Expr>,
    m: Box<Expr>,
) -> Box<Expr>
    returns
        either(a, alt12(b, c, d, e, f, g, h, i, j, k, l, m)),
{
    either(a, alt12(b, c, d, e, f, g, h, i, j, k, l, m))
}

/// Items with commas in between, or none; `again` is the item once more.
#[verifier::allow_in_spec]
pub fn list(item: Box<Expr>, again: Box<Expr>) -> Box<Expr>
    returns
        maybe(both(item, many(both(one(Tok::Comma), again)))),
{
    maybe(both(item, many(both(one(Tok::Comma), again))))
}

/// As [`list`], where a comma may stand behind the last item too.
#[verifier::allow_in_spec]
pub fn list_trailing(item: Box<Expr>, again: Box<Expr>) -> Box<Expr>
    returns
        maybe(both(item, both(many(both(one(Tok::Comma), again)), maybe(one(Tok::Comma))))),
{
    maybe(both(item, both(many(both(one(Tok::Comma), again)), maybe(one(Tok::Comma)))))
}

/// A pattern without `|` and `&`.
#[verifier::allow_in_spec]
pub fn pattern_atom() -> Box<Expr>
    returns
        alt6(
            rule(Rule::NotPattern),
            rule(Rule::PatternLiteral),
            rule(Rule::PatternAny),
            rule(Rule::PatternSome),
            rule(Rule::PatternNone),
            rule(Rule::PatternGroup),
        ),
{
    alt6(
        rule(Rule::NotPattern),
        rule(Rule::PatternLiteral),
        rule(Rule::PatternAny),
        rule(Rule::PatternSome),
        rule(Rule::PatternNone),
        rule(Rule::PatternGroup),
    )
}

/// What a rule says.
pub open spec fn production(r: Rule) -> Box<Expr> {
    match r {
        Rule::File => seq2(many(rule(Rule::Item)), end()),
        Rule::Item => alt12(
            rule(Rule::Unstable),
            rule(Rule::Mod),
            rule(Rule::TypeItem),
            rule(Rule::TraitItem),
            rule(Rule::ExternCpp),
            rule(Rule::FnItem),
            seq2(one(Tok::Sharp), alt2(rule(Rule::Includes), rule(Rule::Panic))),
            rule(Rule::Merge),
            rule(Rule::Import),
            rule(Rule::Alias),
            rule(Rule::IfItem),
            rule(Rule::MatchItem),
        ),
        Rule::Unstable => seq3(one(Tok::Sharp), one(Tok::Ident(Word::Unstable)), ask()),
        Rule::Mod => seq3(one(Tok::KwMod), rule(Rule::Path), rule(Rule::Items)),
        Rule::Items => seq3(one(Tok::BraceOpen), many(rule(Rule::Item)), one(Tok::BraceClose)),
        Rule::TypeItem => seq4(
            one(Tok::KwType),
            maybe(rule(Rule::TypeVars)),
            rule(Rule::Type),
            rule(Rule::TypeBody),
        ),
        Rule::TypeVars => gated(
            Feature::TemplateTypes,
            seq5(
                one(Tok::AngleOpen),
                keep(Pick::AnyIdent),
                many(seq2(one(Tok::Comma), keep(Pick::AnyIdent))),
                maybe(one(Tok::Comma)),
                one(Tok::AngleClose),
            ),
        ),
        Rule::TypeBody => seq3(one(Tok::BraceOpen), many(rule(Rule::TypeEntry)), one(Tok::BraceClose)),
        Rule::TypeEntry => alt4(
            rule(Rule::IfEntry),
            rule(Rule::MatchEntry),
            rule(Rule::Variant),
            seq2(
                alt13(
                    rule(Rule::LayoutStack),
                    rule(Rule::LayoutConservative),
                    rule(Rule::LayoutOnlyByRef),
                    rule(Rule::LayoutHeap),
                    rule(Rule::Traits),
                    rule(Rule::NonExhaustive),
                    rule(Rule::Constructor),
                    rule(Rule::Field),
                    rule(Rule::CppValue),
                    rule(Rule::CppHeapAllocated),
                    rule(Rule::CppRef),
                    rule(Rule::CppStackOwned),
                    rule(Rule::MethodItem),
                ),
                one(Tok::Semicolon),
            ),
        ),
        Rule::LayoutStack => seq3(one(Tok::Sharp), one(Tok::Ident(Word::Layout)), rule(Rule::Props)),
        Rule::LayoutConservative => seq3(
            one(Tok::Sharp),
            one(Tok::Ident(Word::LayoutConservative)),
            rule(Rule::Props),
        ),
        Rule::LayoutOnlyByRef => seq2(one(Tok::Sharp), one(Tok::Ident(Word::OnlyByRef))),
        Rule::LayoutHeap => seq2(one(Tok::Sharp), one(Tok::Ident(Word::HeapAllocated))),
        Rule::Props => seq3(
            one(Tok::ParenOpen),
            list(rule(Rule::Prop), rule(Rule::Prop)),
            one(Tok::ParenClose),
        ),
        Rule::Prop => seq3(keep(Pick::AnyIdent), one(Tok::Eq), keep(Pick::AnyNumber)),
        Rule::Traits => seq4(
            one(Tok::Ident(Word::WellknownTraits)),
            one(Tok::ParenOpen),
            list(rule(Rule::WellknownTrait), rule(Rule::WellknownTrait)),
            one(Tok::ParenClose),
        ),
        Rule::WellknownTrait => alt2(
            keep(Pick::DebugOrCopy),
            seq2(one(Tok::Question), one(Tok::Ident(Word::Sized))),
        ),
        Rule::NonExhaustive => one(Tok::Ident(Word::NonExhaustive)),
        Rule::Constructor => seq2(
            one(Tok::Ident(Word::Constructor)),
            maybe(alt2(rule(Rule::TupleArgs), rule(Rule::NamedArgs))),
        ),
        Rule::TupleArgs => seq3(
            one(Tok::ParenOpen),
            list(rule(Rule::Type), rule(Rule::Type)),
            one(Tok::ParenClose),
        ),
        Rule::NamedArgs => seq3(
            one(Tok::BraceOpen),
            list(rule(Rule::NamedType), rule(Rule::NamedType)),
            one(Tok::BraceClose),
        ),
        Rule::NamedType => seq3(keep(Pick::AnyIdent), one(Tok::Colon), rule(Rule::Type)),
        Rule::Field => seq11(
            one(Tok::Ident(Word::Field)),
            keep(Pick::IdentOrNumber),
            one(Tok::ParenOpen),
            one(Tok::Ident(Word::Offset)),
            one(Tok::Eq),
            keep(Pick::NumberOrAuto),
            one(Tok::Comma),
            one(Tok::KwType),
            one(Tok::Eq),
            rule(Rule::Type),
            one(Tok::ParenClose),
        ),
        Rule::CppValue => seq4(
            one(Tok::Sharp),
            one(Tok::Ident(Word::CppValue)),
            keep(Pick::AnyStr),
            keep(Pick::AnyStr),
        ),
        Rule::CppHeapAllocated => seq3(one(Tok::Sharp), one(Tok::Ident(Word::CppHeapAllocated)), keep(Pick::AnyStr)),
        Rule::CppRef => seq3(one(Tok::Sharp), one(Tok::Ident(Word::CppRef)), keep(Pick::AnyStr)),
        Rule::CppStackOwned => seq4(
            one(Tok::Sharp),
            one(Tok::Ident(Word::CppStackOwned)),
            keep(Pick::AnyStr),
            rule(Rule::Props),
        ),
        Rule::MethodItem => seq4(
            rule(Rule::Method),
            maybe(rule(Rule::UsePath)),
            maybe(rule(Rule::DerefTo)),
            maybe(rule(Rule::CppName)),
        ),
        Rule::UsePath => seq2(one(Tok::KwUse), not_cpp(Complaint::CppUsePath, rule(Rule::Path))),
        Rule::DerefTo => seq2(one(Tok::Ident(Word::Deref)), rule(Rule::Type)),
        Rule::CppName => seq2(one(Tok::KwAs), keep(Pick::AnyIdent)),
        Rule::Method => seq5(
            maybe(rule(Rule::Async)),
            one(Tok::KwFn),
            keep(Pick::AnyIdent),
            maybe(rule(Rule::MethodGenerics)),
            rule(Rule::FnArgs),
        ),
        Rule::Async => one(Tok::KwAsync),
        Rule::MethodGenerics => seq3(
            one(Tok::AngleOpen),
            list(rule(Rule::Type), rule(Rule::Type)),
            one(Tok::AngleClose),
        ),
        Rule::FnArgs => seq2(rule(Rule::FnInputs), maybe(rule(Rule::Output))),
        Rule::FnInputs => seq3(
            one(Tok::ParenOpen),
            list_trailing(rule(Rule::Type), rule(Rule::Type)),
            one(Tok::ParenClose),
        ),
        Rule::Output => seq2(one(Tok::Arrow), rule(Rule::Type)),
        Rule::Variant => seq5(
            one(Tok::Ident(Word::Variant)),
            keep(Pick::AnyIdent),
            one(Tok::BraceOpen),
            many(rule(Rule::VariantEntry)),
            one(Tok::BraceClose),
        ),
        Rule::VariantEntry => seq2(alt2(rule(Rule::NonExhaustive), rule(Rule::Field)), one(Tok::Semicolon)),
        Rule::TraitItem => seq5(
            one(Tok::KwTrait),
            rule(Rule::Trait),
            one(Tok::BraceOpen),
            many(seq2(rule(Rule::Method), one(Tok::Semicolon))),
            one(Tok::BraceClose),
        ),
        Rule::FnItem => seq2(rule(Rule::Method), one(Tok::Semicolon)),
        Rule::Includes => seq2(one(Tok::Ident(Word::CppAdditionalIncludes)), keep(Pick::StrOrRaw)),
        Rule::Panic => one(Tok::Ident(Word::ConvertPanicToException)),
        Rule::ExternCpp => seq5(
            one(Tok::KwExtern),
            one(Tok::Str(true)),
            one(Tok::BraceOpen),
            many(alt2(rule(Rule::ExternFn), rule(Rule::ExternImpl))),
            one(Tok::BraceClose),
        ),
        Rule::ExternFn => seq3(
            alt2(rule(Rule::Safe), rule(Rule::NotSafe)),
            rule(Rule::Method),
            one(Tok::Semicolon),
        ),
        Rule::ExternImpl => seq6(
            one(Tok::KwImpl),
            maybe(rule(Rule::TraitFor)),
            rule(Rule::Type),
            one(Tok::BraceOpen),
            many(rule(Rule::ImplMethod)),
            one(Tok::BraceClose),
        ),
        Rule::Safe => one(Tok::KwSafe),
        Rule::NotSafe => one(Tok::KwUnsafe),
        Rule::TraitFor => seq2(rule(Rule::Trait), one(Tok::KwFor)),
        Rule::ImplMethod => seq3(
            alt2(rule(Rule::Safe), rule(Rule::NotSafe)),
            rule(Rule::Method),
            one(Tok::Semicolon),
        ),
        Rule::Merge => seq3(one(Tok::KwMerge), keep(Pick::AnyStr), one(Tok::Semicolon)),
        Rule::Import => seq3(one(Tok::KwImport), keep(Pick::AnyStr), one(Tok::Semicolon)),
        Rule::Alias => seq5(
            one(Tok::KwUse),
            rule(Rule::Path),
            one(Tok::KwAs),
            keep(Pick::AnyIdent),
            one(Tok::Semicolon),
        ),
        Rule::Path => alt2(
            seq3(
                maybe(
                    alt3(
                        rule(Rule::Absolute),
                        rule(Rule::CrateStart),
                        rule(Rule::CppStart),
                    ),
                ),
                keep(Pick::AnyIdent),
                many(seq2(one(Tok::ColonColon), keep(Pick::AnyIdent))),
            ),
            rule(Rule::BareCrate),
        ),
        Rule::Absolute => one(Tok::ColonColon),
        Rule::CrateStart => seq2(one(Tok::KwCrate), one(Tok::ColonColon)),
        Rule::CppStart => seq2(one(Tok::CppPathStart), one(Tok::ColonColon)),
        Rule::BareCrate => one(Tok::KwCrate),
        Rule::PathGenerics => seq2(rule(Rule::Path), maybe(rule(Rule::Generics))),
        Rule::Generics => seq4(
            maybe(one(Tok::ColonColon)),
            one(Tok::AngleOpen),
            list_trailing(
                alt2(rule(Rule::NamedGeneric), rule(Rule::Type)),
                alt2(rule(Rule::NamedGeneric), rule(Rule::Type)),
            ),
            one(Tok::AngleClose),
        ),
        Rule::NamedGeneric => seq3(keep(Pick::AnyIdent), one(Tok::Eq), rule(Rule::Type)),
        Rule::Trait => alt2(rule(Rule::FnTrait), rule(Rule::TraitPath)),
        Rule::FnTrait => seq2(keep(Pick::AnyIdent), rule(Rule::FnArgs)),
        Rule::TraitPath => not_cpp(Complaint::CppTrait, rule(Rule::PathGenerics)),
        Rule::Type => alt9(
            rule(Rule::Scalar),
            rule(Rule::Boxed),
            rule(Rule::Unit),
            rule(Rule::Tuple),
            rule(Rule::Slice),
            rule(Rule::Adt),
            rule(Rule::Reference),
            rule(Rule::RawPointer),
            rule(Rule::DynType),
        ),
        Rule::Scalar => keep(Pick::ScalarType),
        Rule::Boxed => seq6(
            one(Tok::Ident(Word::Box)),
            maybe(one(Tok::ColonColon)),
            one(Tok::AngleOpen),
            rule(Rule::Type),
            maybe(one(Tok::Comma)),
            one(Tok::AngleClose),
        ),
        Rule::Unit => seq2(one(Tok::ParenOpen), one(Tok::ParenClose)),
        Rule::Tuple => seq3(
            one(Tok::ParenOpen),
            list_trailing(rule(Rule::Type), rule(Rule::Type)),
            one(Tok::ParenClose),
        ),
        Rule::Slice => seq3(one(Tok::BracketOpen), rule(Rule::Type), one(Tok::BracketClose)),
        Rule::Adt => rule(Rule::PathGenerics),
        Rule::Reference => seq3(one(Tok::And), maybe(rule(Rule::MutKw)), rule(Rule::Type)),
        Rule::RawPointer => seq3(
            one(Tok::Star),
            alt2(rule(Rule::MutKw), rule(Rule::ConstKw)),
            rule(Rule::Type),
        ),
        Rule::MutKw => one(Tok::KwMut),
        Rule::ConstKw => one(Tok::KwConst),
        Rule::DynType => seq3(
            alt2(rule(Rule::DynKw), rule(Rule::ImplKw)),
            rule(Rule::Trait),
            many(rule(Rule::Bound)),
        ),
        Rule::DynKw => one(Tok::KwDyn),
        Rule::ImplKw => one(Tok::KwImpl),
        Rule::Bound => seq2(one(Tok::Plus), keep(Pick::AnyIdent)),
        Rule::OrCond => seq2(
            rule(Rule::AndCond),
            many(seq3(one(Tok::Pipe), one(Tok::Pipe), rule(Rule::AndCond))),
        ),
        Rule::AndCond => seq2(
            alt2(rule(Rule::CondGroup), rule(Rule::CondAtom)),
            many(
                seq3(
                    one(Tok::And),
                    one(Tok::And),
                    alt2(rule(Rule::CondGroup), rule(Rule::CondAtom)),
                ),
            ),
        ),
        Rule::CondGroup => seq3(one(Tok::ParenOpen), rule(Rule::OrCond), one(Tok::ParenClose)),
        Rule::CondAtom => seq6(
            one(Tok::Ident(Word::Cfg)),
            one(Tok::Bang),
            one(Tok::ParenOpen),
            rule(Rule::CfgKey),
            maybe(
                seq2(one(Tok::Eq), alt2(rule(Rule::TuplePattern), rule(Rule::OrPattern))),
            ),
            one(Tok::ParenClose),
        ),
        Rule::CfgKey => seq2(keep(Pick::AnyIdent), maybe(seq2(one(Tok::Dot), keep(Pick::AnyIdent)))),
        Rule::Directive => seq5(
            one(Tok::Ident(Word::Cfg)),
            one(Tok::Bang),
            one(Tok::ParenOpen),
            rule(Rule::CfgKey),
            one(Tok::ParenClose),
        ),
        Rule::Scrutinees => alt2(rule(Rule::Directive), rule(Rule::ScrutineeTuple)),
        Rule::ScrutineeTuple => seq5(
            one(Tok::ParenOpen),
            rule(Rule::Directive),
            many(seq2(one(Tok::Comma), rule(Rule::Directive))),
            maybe(one(Tok::Comma)),
            one(Tok::ParenClose),
        ),
        Rule::TuplePattern => seq4(
            one(Tok::ParenOpen),
            rule(Rule::OrPattern),
            many(seq2(one(Tok::Comma), rule(Rule::OrPattern))),
            one(Tok::ParenClose),
        ),
        Rule::OrPattern => seq2(rule(Rule::AndPattern), many(seq2(one(Tok::Pipe), rule(Rule::AndPattern)))),
        Rule::AndPattern => seq2(pattern_atom(), many(seq2(one(Tok::And), pattern_atom()))),
        Rule::NotPattern => seq2(one(Tok::Bang), pattern_atom()),
        Rule::PatternLiteral => keep(Pick::StrOrNumber),
        Rule::PatternAny => one(Tok::Underscore),
        Rule::PatternSome => one(Tok::Ident(Word::Present)),
        Rule::PatternNone => one(Tok::Ident(Word::Absent)),
        Rule::PatternGroup => seq3(one(Tok::ParenOpen), rule(Rule::OrPattern), one(Tok::ParenClose)),
        Rule::IfItem => gated(
            Feature::CfgIf,
            seq6(
                one(Tok::Sharp),
                one(Tok::KwIf),
                rule(Rule::OrCond),
                rule(Rule::Items),
                many(rule(Rule::ElseIfItem)),
                maybe(rule(Rule::ElseItem)),
            ),
        ),
        Rule::ElseIfItem => seq5(
            one(Tok::Sharp),
            one(Tok::KwElse),
            one(Tok::KwIf),
            rule(Rule::OrCond),
            rule(Rule::Items),
        ),
        Rule::ElseItem => seq3(one(Tok::Sharp), one(Tok::KwElse), rule(Rule::Items)),
        Rule::MatchItem => gated(
            Feature::CfgMatch,
            seq6(
                one(Tok::Sharp),
                one(Tok::KwMatch),
                rule(Rule::Scrutinees),
                one(Tok::BraceOpen),
                many(rule(Rule::ArmItem)),
                one(Tok::BraceClose),
            ),
        ),
        Rule::ArmItem => seq4(
            alt2(rule(Rule::TuplePattern), rule(Rule::OrPattern)),
            one(Tok::ArrowArm),
            alt2(rule(Rule::Items), rule(Rule::Item)),
            maybe(one(Tok::Comma)),
        ),
        Rule::IfEntry => gated(
            Feature::CfgIf,
            seq6(
                one(Tok::Sharp),
                one(Tok::KwIf),
                rule(Rule::OrCond),
                rule(Rule::TypeBody),
                many(rule(Rule::ElseIfEntry)),
                maybe(rule(Rule::ElseEntry)),
            ),
        ),
        Rule::ElseIfEntry => seq5(
            one(Tok::Sharp),
            one(Tok::KwElse),
            one(Tok::KwIf),
            rule(Rule::OrCond),
            rule(Rule::TypeBody),
        ),
        Rule::ElseEntry => seq3(one(Tok::Sharp), one(Tok::KwElse), rule(Rule::TypeBody)),
        Rule::MatchEntry => gated(
            Feature::CfgMatch,
            seq6(
                one(Tok::Sharp),
                one(Tok::KwMatch),
                rule(Rule::Scrutinees),
                one(Tok::BraceOpen),
                many(rule(Rule::ArmEntry)),
                one(Tok::BraceClose),
            ),
        ),
        Rule::ArmEntry => seq4(
            alt2(rule(Rule::TuplePattern), rule(Rule::OrPattern)),
            one(Tok::ArrowArm),
            alt2(rule(Rule::TypeBody), rule(Rule::TypeEntry)),
            maybe(one(Tok::Comma)),
        ),
    }
}

/// What a rule says.
pub fn production_of(r: Rule) -> (e: Box<Expr>)
    ensures
        e == production(r),
{
    match r {
        Rule::File => seq2(many(rule(Rule::Item)), end()),
        Rule::Item => alt12(
            rule(Rule::Unstable),
            rule(Rule::Mod),
            rule(Rule::TypeItem),
            rule(Rule::TraitItem),
            rule(Rule::ExternCpp),
            rule(Rule::FnItem),
            seq2(one(Tok::Sharp), alt2(rule(Rule::Includes), rule(Rule::Panic))),
            rule(Rule::Merge),
            rule(Rule::Import),
            rule(Rule::Alias),
            rule(Rule::IfItem),
            rule(Rule::MatchItem),
        ),
        Rule::Unstable => seq3(one(Tok::Sharp), one(Tok::Ident(Word::Unstable)), ask()),
        Rule::Mod => seq3(one(Tok::KwMod), rule(Rule::Path), rule(Rule::Items)),
        Rule::Items => seq3(one(Tok::BraceOpen), many(rule(Rule::Item)), one(Tok::BraceClose)),
        Rule::TypeItem => seq4(
            one(Tok::KwType),
            maybe(rule(Rule::TypeVars)),
            rule(Rule::Type),
            rule(Rule::TypeBody),
        ),
        Rule::TypeVars => gated(
            Feature::TemplateTypes,
            seq5(
                one(Tok::AngleOpen),
                keep(Pick::AnyIdent),
                many(seq2(one(Tok::Comma), keep(Pick::AnyIdent))),
                maybe(one(Tok::Comma)),
                one(Tok::AngleClose),
            ),
        ),
        Rule::TypeBody => seq3(one(Tok::BraceOpen), many(rule(Rule::TypeEntry)), one(Tok::BraceClose)),
        Rule::TypeEntry => alt4(
            rule(Rule::IfEntry),
            rule(Rule::MatchEntry),
            rule(Rule::Variant),
            seq2(
                alt13(
                    rule(Rule::LayoutStack),
                    rule(Rule::LayoutConservative),
                    rule(Rule::LayoutOnlyByRef),
                    rule(Rule::LayoutHeap),
                    rule(Rule::Traits),
                    rule(Rule::NonExhaustive),
                    rule(Rule::Constructor),
                    rule(Rule::Field),
                    rule(Rule::CppValue),
                    rule(Rule::CppHeapAllocated),
                    rule(Rule::CppRef),
                    rule(Rule::CppStackOwned),
                    rule(Rule::MethodItem),
                ),
                one(Tok::Semicolon),
            ),
        ),
        Rule::LayoutStack => seq3(one(Tok::Sharp), one(Tok::Ident(Word::Layout)), rule(Rule::Props)),
        Rule::LayoutConservative => seq3(
            one(Tok::Sharp),
            one(Tok::Ident(Word::LayoutConservative)),
            rule(Rule::Props),
        ),
        Rule::LayoutOnlyByRef => seq2(one(Tok::Sharp), one(Tok::Ident(Word::OnlyByRef))),
        Rule::LayoutHeap => seq2(one(Tok::Sharp), one(Tok::Ident(Word::HeapAllocated))),
        Rule::Props => seq3(
            one(Tok::ParenOpen),
            list(rule(Rule::Prop), rule(Rule::Prop)),
            one(Tok::ParenClose),
        ),
        Rule::Prop => seq3(keep(Pick::AnyIdent), one(Tok::Eq), keep(Pick::AnyNumber)),
        Rule::Traits => seq4(
            one(Tok::Ident(Word::WellknownTraits)),
            one(Tok::ParenOpen),
            list(rule(Rule::WellknownTrait), rule(Rule::WellknownTrait)),
            one(Tok::ParenClose),
        ),
        Rule::WellknownTrait => alt2(
            keep(Pick::DebugOrCopy),
            seq2(one(Tok::Question), one(Tok::Ident(Word::Sized))),
        ),
        Rule::NonExhaustive => one(Tok::Ident(Word::NonExhaustive)),
        Rule::Constructor => seq2(
            one(Tok::Ident(Word::Constructor)),
            maybe(alt2(rule(Rule::TupleArgs), rule(Rule::NamedArgs))),
        ),
        Rule::TupleArgs => seq3(
            one(Tok::ParenOpen),
            list(rule(Rule::Type), rule(Rule::Type)),
            one(Tok::ParenClose),
        ),
        Rule::NamedArgs => seq3(
            one(Tok::BraceOpen),
            list(rule(Rule::NamedType), rule(Rule::NamedType)),
            one(Tok::BraceClose),
        ),
        Rule::NamedType => seq3(keep(Pick::AnyIdent), one(Tok::Colon), rule(Rule::Type)),
        Rule::Field => seq11(
            one(Tok::Ident(Word::Field)),
            keep(Pick::IdentOrNumber),
            one(Tok::ParenOpen),
            one(Tok::Ident(Word::Offset)),
            one(Tok::Eq),
            keep(Pick::NumberOrAuto),
            one(Tok::Comma),
            one(Tok::KwType),
            one(Tok::Eq),
            rule(Rule::Type),
            one(Tok::ParenClose),
        ),
        Rule::CppValue => seq4(
            one(Tok::Sharp),
            one(Tok::Ident(Word::CppValue)),
            keep(Pick::AnyStr),
            keep(Pick::AnyStr),
        ),
        Rule::CppHeapAllocated => seq3(one(Tok::Sharp), one(Tok::Ident(Word::CppHeapAllocated)), keep(Pick::AnyStr)),
        Rule::CppRef => seq3(one(Tok::Sharp), one(Tok::Ident(Word::CppRef)), keep(Pick::AnyStr)),
        Rule::CppStackOwned => seq4(
            one(Tok::Sharp),
            one(Tok::Ident(Word::CppStackOwned)),
            keep(Pick::AnyStr),
            rule(Rule::Props),
        ),
        Rule::MethodItem => seq4(
            rule(Rule::Method),
            maybe(rule(Rule::UsePath)),
            maybe(rule(Rule::DerefTo)),
            maybe(rule(Rule::CppName)),
        ),
        Rule::UsePath => seq2(one(Tok::KwUse), not_cpp(Complaint::CppUsePath, rule(Rule::Path))),
        Rule::DerefTo => seq2(one(Tok::Ident(Word::Deref)), rule(Rule::Type)),
        Rule::CppName => seq2(one(Tok::KwAs), keep(Pick::AnyIdent)),
        Rule::Method => seq5(
            maybe(rule(Rule::Async)),
            one(Tok::KwFn),
            keep(Pick::AnyIdent),
            maybe(rule(Rule::MethodGenerics)),
            rule(Rule::FnArgs),
        ),
        Rule::Async => one(Tok::KwAsync),
        Rule::MethodGenerics => seq3(
            one(Tok::AngleOpen),
            list(rule(Rule::Type), rule(Rule::Type)),
            one(Tok::AngleClose),
        ),
        Rule::FnArgs => seq2(rule(Rule::FnInputs), maybe(rule(Rule::Output))),
        Rule::FnInputs => seq3(
            one(Tok::ParenOpen),
            list_trailing(rule(Rule::Type), rule(Rule::Type)),
            one(Tok::ParenClose),
        ),
        Rule::Output => seq2(one(Tok::Arrow), rule(Rule::Type)),
        Rule::Variant => seq5(
            one(Tok::Ident(Word::Variant)),
            keep(Pick::AnyIdent),
            one(Tok::BraceOpen),
            many(rule(Rule::VariantEntry)),
            one(Tok::BraceClose),
        ),
        Rule::VariantEntry => seq2(alt2(rule(Rule::NonExhaustive), rule(Rule::Field)), one(Tok::Semicolon)),
        Rule::TraitItem => seq5(
            one(Tok::KwTrait),
            rule(Rule::Trait),
            one(Tok::BraceOpen),
            many(seq2(rule(Rule::Method), one(Tok::Semicolon))),
            one(Tok::BraceClose),
        ),
        Rule::FnItem => seq2(rule(Rule::Method), one(Tok::Semicolon)),
        Rule::Includes => seq2(one(Tok::Ident(Word::CppAdditionalIncludes)), keep(Pick::StrOrRaw)),
        Rule::Panic => one(Tok::Ident(Word::ConvertPanicToException)),
        Rule::ExternCpp => seq5(
            one(Tok::KwExtern),
            one(Tok::Str(true)),
            one(Tok::BraceOpen),
            many(alt2(rule(Rule::ExternFn), rule(Rule::ExternImpl))),
            one(Tok::BraceClose),
        ),
        Rule::ExternFn => seq3(
            alt2(rule(Rule::Safe), rule(Rule::NotSafe)),
            rule(Rule::Method),
            one(Tok::Semicolon),
        ),
        Rule::ExternImpl => seq6(
            one(Tok::KwImpl),
            maybe(rule(Rule::TraitFor)),
            rule(Rule::Type),
            one(Tok::BraceOpen),
            many(rule(Rule::ImplMethod)),
            one(Tok::BraceClose),
        ),
        Rule::Safe => one(Tok::KwSafe),
        Rule::NotSafe => one(Tok::KwUnsafe),
        Rule::TraitFor => seq2(rule(Rule::Trait), one(Tok::KwFor)),
        Rule::ImplMethod => seq3(
            alt2(rule(Rule::Safe), rule(Rule::NotSafe)),
            rule(Rule::Method),
            one(Tok::Semicolon),
        ),
        Rule::Merge => seq3(one(Tok::KwMerge), keep(Pick::AnyStr), one(Tok::Semicolon)),
        Rule::Import => seq3(one(Tok::KwImport), keep(Pick::AnyStr), one(Tok::Semicolon)),
        Rule::Alias => seq5(
            one(Tok::KwUse),
            rule(Rule::Path),
            one(Tok::KwAs),
            keep(Pick::AnyIdent),
            one(Tok::Semicolon),
        ),
        Rule::Path => alt2(
            seq3(
                maybe(
                    alt3(
                        rule(Rule::Absolute),
                        rule(Rule::CrateStart),
                        rule(Rule::CppStart),
                    ),
                ),
                keep(Pick::AnyIdent),
                many(seq2(one(Tok::ColonColon), keep(Pick::AnyIdent))),
            ),
            rule(Rule::BareCrate),
        ),
        Rule::Absolute => one(Tok::ColonColon),
        Rule::CrateStart => seq2(one(Tok::KwCrate), one(Tok::ColonColon)),
        Rule::CppStart => seq2(one(Tok::CppPathStart), one(Tok::ColonColon)),
        Rule::BareCrate => one(Tok::KwCrate),
        Rule::PathGenerics => seq2(rule(Rule::Path), maybe(rule(Rule::Generics))),
        Rule::Generics => seq4(
            maybe(one(Tok::ColonColon)),
            one(Tok::AngleOpen),
            list_trailing(
                alt2(rule(Rule::NamedGeneric), rule(Rule::Type)),
                alt2(rule(Rule::NamedGeneric), rule(Rule::Type)),
            ),
            one(Tok::AngleClose),
        ),
        Rule::NamedGeneric => seq3(keep(Pick::AnyIdent), one(Tok::Eq), rule(Rule::Type)),
        Rule::Trait => alt2(rule(Rule::FnTrait), rule(Rule::TraitPath)),
        Rule::FnTrait => seq2(keep(Pick::AnyIdent), rule(Rule::FnArgs)),
        Rule::TraitPath => not_cpp(Complaint::CppTrait, rule(Rule::PathGenerics)),
        Rule::Type => alt9(
            rule(Rule::Scalar),
            rule(Rule::Boxed),
            rule(Rule::Unit),
            rule(Rule::Tuple),
            rule(Rule::Slice),
            rule(Rule::Adt),
            rule(Rule::Reference),
            rule(Rule::RawPointer),
            rule(Rule::DynType),
        ),
        Rule::Scalar => keep(Pick::ScalarType),
        Rule::Boxed => seq6(
            one(Tok::Ident(Word::Box)),
            maybe(one(Tok::ColonColon)),
            one(Tok::AngleOpen),
            rule(Rule::Type),
            maybe(one(Tok::Comma)),
            one(Tok::AngleClose),
        ),
        Rule::Unit => seq2(one(Tok::ParenOpen), one(Tok::ParenClose)),
        Rule::Tuple => seq3(
            one(Tok::ParenOpen),
            list_trailing(rule(Rule::Type), rule(Rule::Type)),
            one(Tok::ParenClose),
        ),
        Rule::Slice => seq3(one(Tok::BracketOpen), rule(Rule::Type), one(Tok::BracketClose)),
        Rule::Adt => rule(Rule::PathGenerics),
        Rule::Reference => seq3(one(Tok::And), maybe(rule(Rule::MutKw)), rule(Rule::Type)),
        Rule::RawPointer => seq3(
            one(Tok::Star),
            alt2(rule(Rule::MutKw), rule(Rule::ConstKw)),
            rule(Rule::Type),
        ),
        Rule::MutKw => one(Tok::KwMut),
        Rule::ConstKw => one(Tok::KwConst),
        Rule::DynType => seq3(
            alt2(rule(Rule::DynKw), rule(Rule::ImplKw)),
            rule(Rule::Trait),
            many(rule(Rule::Bound)),
        ),
        Rule::DynKw => one(Tok::KwDyn),
        Rule::ImplKw => one(Tok::KwImpl),
        Rule::Bound => seq2(one(Tok::Plus), keep(Pick::AnyIdent)),
        Rule::OrCond => seq2(
            rule(Rule::AndCond),
            many(seq3(one(Tok::Pipe), one(Tok::Pipe), rule(Rule::AndCond))),
        ),
        Rule::AndCond => seq2(
            alt2(rule(Rule::CondGroup), rule(Rule::CondAtom)),
            many(
                seq3(
                    one(Tok::And),
                    one(Tok::And),
                    alt2(rule(Rule::CondGroup), rule(Rule::CondAtom)),
                ),
            ),
        ),
        Rule::CondGroup => seq3(one(Tok::ParenOpen), rule(Rule::OrCond), one(Tok::ParenClose)),
        Rule::CondAtom => seq6(
            one(Tok::Ident(Word::Cfg)),
            one(Tok::Bang),
            one(Tok::ParenOpen),
            rule(Rule::CfgKey),
            maybe(
                seq2(one(Tok::Eq), alt2(rule(Rule::TuplePattern), rule(Rule::OrPattern))),
            ),
            one(Tok::ParenClose),
        ),
        Rule::CfgKey => seq2(keep(Pick::AnyIdent), maybe(seq2(one(Tok::Dot), keep(Pick::AnyIdent)))),
        Rule::Directive => seq5(
            one(Tok::Ident(Word::Cfg)),
            one(Tok::Bang),
            one(Tok::ParenOpen),
            rule(Rule::CfgKey),
            one(Tok::ParenClose),
        ),
        Rule::Scrutinees => alt2(rule(Rule::Directive), rule(Rule::ScrutineeTuple)),
        Rule::ScrutineeTuple => seq5(
            one(Tok::ParenOpen),
            rule(Rule::Directive),
            many(seq2(one(Tok::Comma), rule(Rule::Directive))),
            maybe(one(Tok::Comma)),
            one(Tok::ParenClose),
        ),
        Rule::TuplePattern => seq4(
            one(Tok::ParenOpen),
            rule(Rule::OrPattern),
            many(seq2(one(Tok::Comma), rule(Rule::OrPattern))),
            one(Tok::ParenClose),
        ),
        Rule::OrPattern => seq2(rule(Rule::AndPattern), many(seq2(one(Tok::Pipe), rule(Rule::AndPattern)))),
        Rule::AndPattern => seq2(pattern_atom(), many(seq2(one(Tok::And), pattern_atom()))),
        Rule::NotPattern => seq2(one(Tok::Bang), pattern_atom()),
        Rule::PatternLiteral => keep(Pick::StrOrNumber),
        Rule::PatternAny => one(Tok::Underscore),
        Rule::PatternSome => one(Tok::Ident(Word::Present)),
        Rule::PatternNone => one(Tok::Ident(Word::Absent)),
        Rule::PatternGroup => seq3(one(Tok::ParenOpen), rule(Rule::OrPattern), one(Tok::ParenClose)),
        Rule::IfItem => gated(
            Feature::CfgIf,
            seq6(
                one(Tok::Sharp),
                one(Tok::KwIf),
                rule(Rule::OrCond),
                rule(Rule::Items),
                many(rule(Rule::ElseIfItem)),
                maybe(rule(Rule::ElseItem)),
            ),
        ),
        Rule::ElseIfItem => seq5(
            one(Tok::Sharp),
            one(Tok::KwElse),
            one(Tok::KwIf),
            rule(Rule::OrCond),
            rule(Rule::Items),
        ),
        Rule::ElseItem => seq3(one(Tok::Sharp), one(Tok::KwElse), rule(Rule::Items)),
        Rule::MatchItem => gated(
            Feature::CfgMatch,
            seq6(
                one(Tok::Sharp),
                one(Tok::KwMatch),
                rule(Rule::Scrutinees),
                one(Tok::BraceOpen),
                many(rule(Rule::ArmItem)),
                one(Tok::BraceClose),
            ),
        ),
        Rule::ArmItem => seq4(
            alt2(rule(Rule::TuplePattern), rule(Rule::OrPattern)),
            one(Tok::ArrowArm),
            alt2(rule(Rule::Items), rule(Rule::Item)),
            maybe(one(Tok::Comma)),
        ),
        Rule::IfEntry => gated(
            Feature::CfgIf,
            seq6(
                one(Tok::Sharp),
                one(Tok::KwIf),
                rule(Rule::OrCond),
                rule(Rule::TypeBody),
                many(rule(Rule::ElseIfEntry)),
                maybe(rule(Rule::ElseEntry)),
            ),
        ),
        Rule::ElseIfEntry => seq5(
            one(Tok::Sharp),
            one(Tok::KwElse),
            one(Tok::KwIf),
            rule(Rule::OrCond),
            rule(Rule::TypeBody),
        ),
        Rule::ElseEntry => seq3(one(Tok::Sharp), one(Tok::KwElse), rule(Rule::TypeBody)),
        Rule::MatchEntry => gated(
            Feature::CfgMatch,
            seq6(
                one(Tok::Sharp),
                one(Tok::KwMatch),
                rule(Rule::Scrutinees),
                one(Tok::BraceOpen),
                many(rule(Rule::ArmEntry)),
                one(Tok::BraceClose),
            ),
        ),
        Rule::ArmEntry => seq4(
            alt2(rule(Rule::TuplePattern), rule(Rule::OrPattern)),
            one(Tok::ArrowArm),
            alt2(rule(Rule::TypeBody), rule(Rule::TypeEntry)),
            maybe(one(Tok::Comma)),
        ),
    }
}

} // verus!
