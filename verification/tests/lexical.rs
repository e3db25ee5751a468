use chumsky::error::Rich;
use chumsky::extra;
use chumsky::primitive::{any, choice, just, none_of};
use chumsky::span::SimpleSpan;
use chumsky::text;
use chumsky::{ConfigIterParser, IterParser, Parser};
use zngur::cfg::InMemoryRustCfgProvider;
use zngur::parse::ParsedZngFile;
use zngur::token::tokenize;

/// The tokens written down with combinators, by their places.
fn combined<'src>(
) -> impl Parser<'src, &'src str, Vec<SimpleSpan>, extra::Err<Rich<'src, char, SimpleSpan>>> {
    let plain_string = just('"')
        .ignore_then(none_of('"').repeated().to_slice())
        .then_ignore(just('"'))
        .ignored();
    let raw_string_start = just('r')
        .ignore_then(just('#').repeated().count())
        .then_ignore(just('"'));
    let raw_string_end =
        just('"').then(just('#').repeated().configure(|cfg, ctx: &usize| cfg.exactly(*ctx)));
    let raw_string = raw_string_start
        .then_with_ctx(
            any()
                .and_is(raw_string_end.not())
                .repeated()
                .to_slice()
                .then_ignore(raw_string_end),
        )
        .ignored();
    let signs = [
        "->", "=>", "<", ">", "[", "]", "(", ")", "{", "}", "::", ":", "&", "*", "#", "+", "=", "?",
        ",", ";", "|", "_", ".", "!", "c++",
    ];
    let token = choice((
        choice(signs.map(|x| just(x).ignored())),
        raw_string,
        plain_string,
        text::ident().ignored(),
        text::int(10).ignored(),
    ));
    let comment = just("//").then(any().and_is(just('\n').not()).repeated()).padded();
    token
        .map_with(|_, extra| extra.span())
        .padded_by(comment.repeated())
        .padded()
        .repeated()
        .collect()
}

fn compare(text: &str) {
    let (places, errors) = combined().parse(text).into_output_errors();
    match tokenize(text) {
        Ok(tokens) => {
            let places = places.expect("the combinators fail");
            assert_eq!(
                tokens.iter().map(|t| (t.start, t.end)).collect::<Vec<_>>(),
                places.iter().map(|s| (s.start, s.end)).collect::<Vec<_>>(),
                "{text:?}"
            );
        }
        Err(_) => {
            assert!(places.is_none(), "{text:?}");
            let e = errors[0].clone().map_token(|c| c.to_string());
            let r = ParsedZngFile::parse_str(text, InMemoryRustCfgProvider::new());
            assert_eq!(r.reports.len(), 1);
            assert_eq!(r.reports[0].message, e.to_string(), "{text:?}");
            assert_eq!(r.reports[0].labels[0].message, e.reason().to_string(), "{text:?}");
            let at = r.reports[0].at;
            assert_eq!((at.span.start, at.span.end), (e.span().start, e.span().end), "{text:?}");
        }
    }
}

#[test]
fn texts_without_tokens_read_as_with_combinators() {
    let pieces = [
        "a", "c", "r", "0", "7", "12", "\"", "#", "/", "//", "\n", " ", "\u{3000}", "-", "->", "=",
        ":", "::", "+", "c+", "c++", "@", "\u{e9}", "_", "r\"", "r#\"", "\"#", "mod", "\u{202E}",
    ];
    let mut seed: u64 = 1;
    for round in 0..30000 {
        let mut text = String::new();
        for _ in 0..(1 + round % 9) {
            seed = seed.wrapping_mul(6364136223846793005).wrapping_add(1442695040888963407);
            text.push_str(pieces[(seed >> 33) as usize % pieces.len()]);
        }
        compare(&text);
    }
}

fn first(text: &str) -> (String, usize, usize) {
    let r = ParsedZngFile::parse_str(text, InMemoryRustCfgProvider::new());
    assert_eq!(r.errors, 1);
    let at = r.reports[0].at;
    (r.reports[0].message.clone(), at.span.start, at.span.end)
}

#[test]
fn the_furthest_place_is_reported() {
    assert_eq!(
        first("merge \"a"),
        ("found end of input expected something else, or '\"'".to_string(), 8, 8)
    );
    assert_eq!(first("mod a / b"), ("found ' ' expected '/'".to_string(), 7, 8));
    assert_eq!(first("fn f() -\u{e9}"), ("found '\u{e9}' expected '>'".to_string(), 8, 10));
    assert_eq!(
        first("@"),
        (
            "found '@' expected '/', '-', '=', '<', '>', '[', ']', '(', ')', '{', '}', ':', '&', \
             '*', '#', '+', '?', ',', ';', '|', '_', '.', '!', 'c', 'r', '\"', identifier, int, or \
             end of input"
                .to_string(),
            0,
            1
        )
    );
    assert_eq!(
        first("r#\"a\" @").0,
        "found end of input expected any, or '\"'"
    );
}
