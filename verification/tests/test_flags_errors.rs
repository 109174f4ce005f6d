use syn::{parse_ty, parse_ty_with, Delim, Label, Span, Token, Ty};

fn w(s: &str, n: u32) -> Token {
    Token::Word {
        text: s.to_string(),
        span: Span(n),
    }
}

fn p(ch: char, joint: bool, n: u32) -> Token {
    Token::Punct {
        ch,
        joint,
        span: Span(n),
    }
}

#[test]
fn plus_rejected_when_flag_off() {
    // A + B must fail at the `+` when "allow plus" is off: the path `A`
    // parses, and the leftover `+` is reported one token in.
    let toks = vec![w("A", 1), p('+', false, 2), w("B", 3)];
    let err = parse_ty_with(&toks, false).unwrap_err();
    assert_eq!(err.label, Some(Label::Leftover));
    assert_eq!(err.pos, 1, "failure sits at the `+`, one token in");
}

#[test]
fn plus_accepted_when_flag_on() {
    let toks = vec![w("A", 1), p('+', false, 2), w("B", 3)];
    let ty = parse_ty_with(&toks, true).unwrap();
    match ty {
        Ty::TraitObject(to) => assert_eq!(to.bounds.inner.len(), 2),
        other => panic!("expected two-bound trait object, got {:?}", other),
    }
}

#[test]
fn furthest_progress_error_wins() {
    // `for <'a> 123`: the higher-rank branch consumes four tokens before
    // failing, while every other alternative fails without progress, so
    // the reported failure is the furthest one.
    let toks = vec![
        w("for", 1),
        p('<', false, 2),
        w("'a", 3),
        p('>', false, 4),
        Token::Literal {
            text: "123".to_string(),
            span: Span(5),
        },
    ];
    let err = parse_ty(&toks).unwrap_err();
    assert_eq!(err.pos, 4, "the branch that progressed furthest reports");
}

#[test]
fn no_alternative_matches() {
    let toks = vec![p('+', false, 1)];
    let err = parse_ty(&toks).unwrap_err();
    assert_eq!(err.pos, 0);
}

#[test]
fn unclosed_generics_fail_inside() {
    // `Vec <` : the path branch consumes both tokens, then misses the
    // argument list.
    let toks = vec![w("Vec", 1), p('<', false, 2)];
    let err = parse_ty(&toks).unwrap_err();
    assert!(err.pos >= 2, "failure lies past the `<`, got {}", err.pos);
}

#[test]
fn too_deep_nesting_is_its_own_error() {
    let mut t = Token::Word {
        text: "A".to_string(),
        span: Span(1),
    };
    let mut i = 0;
    while i < 400 {
        t = Token::Group {
            delim: Delim::Paren,
            tts: vec![t],
            span: Span(0),
        };
        i += 1;
    }
    let toks = vec![t];
    let err = parse_ty(&toks).unwrap_err();
    assert_eq!(err.label, Some(Label::TooDeep));
}

#[test]
fn leftover_differs_from_no_match() {
    // `A B`: parsing succeeds on `A` and reports the unconsumed rest,
    // which is distinct from failing to parse anything.
    let toks = vec![w("A", 1), w("B", 2)];
    let err = parse_ty(&toks).unwrap_err();
    assert_eq!(err.label, Some(Label::Leftover));
    let none = vec![p('+', false, 1)];
    let err2 = parse_ty(&none).unwrap_err();
    assert_ne!(err2.label, Some(Label::Leftover));
}
