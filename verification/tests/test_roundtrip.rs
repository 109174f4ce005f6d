use syn::{parse_ty, reconstruct, Delim, Span, Token};

fn w(s: &str, n: u32) -> Token {
    Token::Word {
        text: s.to_string(),
        span: Span(n),
    }
}

fn p(ch: char, joint: bool, n: u32) -> Token {
    Token::Punct {
        ch,
        joint,
        span: Span(n),
    }
}

fn paren(tts: Vec<Token>, n: u32) -> Token {
    Token::Group {
        delim: Delim::Paren,
        tts,
        span: Span(n),
    }
}

/// Parses, reconstructs, and checks the tokens come back exactly, spans
/// included; then re-parses the reconstruction and checks the same tree
/// comes back.
fn round_trip(toks: Vec<Token>) {
    let ty = parse_ty(&toks).expect("parse");
    let printed = reconstruct(&ty);
    assert_eq!(printed, toks, "reconstruction reproduces the input");
    let again = parse_ty(&printed).expect("re-parse");
    assert_eq!(again, ty, "re-parsing yields the same tree");
}

#[test]
fn round_trip_tuple_trailing() {
    round_trip(vec![paren(
        vec![w("A", 1), p(',', false, 2), w("B", 3), p(',', false, 4)],
        0,
    )]);
}

#[test]
fn round_trip_group_wrapper() {
    round_trip(vec![paren(vec![w("A", 7)], 5)]);
}

#[test]
fn round_trip_bare_fn() {
    round_trip(vec![
        w("unsafe", 1),
        w("fn", 2),
        paren(
            vec![w("x", 3), p(':', false, 4), w("i32", 5), p(',', false, 6), w("B", 7)],
            8,
        ),
        p('-', true, 9),
        p('>', false, 10),
        w("bool", 11),
    ]);
}

#[test]
fn round_trip_trait_object() {
    round_trip(vec![
        w("Trait1", 1),
        p('+', false, 2),
        w("'a", 3),
        p('+', false, 4),
        w("Trait2", 5),
    ]);
}

#[test]
fn round_trip_generic_path() {
    round_trip(vec![
        w("a", 1),
        p(':', true, 2),
        p(':', false, 3),
        w("B", 4),
        p('<', false, 5),
        w("'x", 6),
        p(',', false, 7),
        w("C", 8),
        p(',', false, 9),
        p('>', false, 10),
        p(':', true, 11),
        p(':', false, 12),
        w("D", 13),
    ]);
}

#[test]
fn round_trip_qualified_path() {
    round_trip(vec![
        p('<', false, 1),
        w("T", 2),
        w("as", 3),
        w("Tr", 4),
        p('>', false, 5),
        p(':', true, 6),
        p(':', false, 7),
        w("Out", 8),
    ]);
}

#[test]
fn round_trip_leading_colon_and_fn_sugar() {
    round_trip(vec![
        p(':', true, 1),
        p(':', false, 2),
        w("f", 3),
        p(':', true, 4),
        p(':', false, 5),
        w("Fun", 6),
        paren(vec![w("A", 7)], 8),
        p('-', true, 9),
        p('>', false, 10),
        w("B", 11),
    ]);
}

#[test]
fn round_trip_for_binder() {
    round_trip(vec![
        w("for", 1),
        p('<', false, 2),
        w("'a", 3),
        p(',', false, 4),
        w("'b", 5),
        p(':', false, 6),
        w("'a", 7),
        p('>', false, 8),
        w("fn", 9),
        paren(vec![w("'a", 10)], 11),
    ]);
}

#[test]
fn round_trip_spans_preserved() {
    // Distinct spans everywhere; exact equality means spans survived.
    let toks = vec![paren(
        vec![w("X", 21), p(',', false, 22), w("'y", 23)],
        20,
    )];
    let ty = parse_ty(&toks).expect("parse");
    let printed = reconstruct(&ty);
    assert_eq!(printed, toks);
}
