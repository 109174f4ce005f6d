use syn::cursor::{Cursor, Synom};
use syn::{
    Delim, ParenthesizedParameterData, Path, Span, Token, Ty, TyGroup, TyParamBound,
};

fn w(s: &str, n: u32) -> Token {
    Token::Word {
        text: s.to_string(),
        span: Span(n),
    }
}

fn p(ch: char, joint: bool, n: u32) -> Token {
    Token::Punct {
        ch,
        joint,
        span: Span(n),
    }
}

fn paren(tts: Vec<Token>, n: u32) -> Token {
    Token::Group {
        delim: Delim::Paren,
        tts,
        span: Span(n),
    }
}

#[test]
fn ty_parse_leaves_the_rest() {
    // `A B`: the capability parses one type and hands back the rest.
    let toks = vec![w("A", 1), w("B", 2)];
    let (c2, ty) = Ty::parse(Cursor::new(&toks)).unwrap();
    assert!(matches!(ty, Ty::Path(_)));
    assert!(!c2.at_end());
    assert_eq!(c2.pos, 1);
}

#[test]
fn ty_group_parse_wants_single_type_parens() {
    let good = vec![paren(vec![w("A", 1)], 0)];
    let (_, g) = TyGroup::parse(Cursor::new(&good)).unwrap();
    assert!(matches!(*g.ty, Ty::Path(_)));
    // A two-element interior is not a group wrapper.
    let two = vec![paren(vec![w("A", 1), p(',', false, 2), w("B", 3)], 0)];
    assert!(TyGroup::parse(Cursor::new(&two)).is_err());
    // A brace group is the wrong delimiter kind.
    let brace = vec![Token::Group {
        delim: Delim::Brace,
        tts: vec![w("A", 1)],
        span: Span(0),
    }];
    assert!(TyGroup::parse(Cursor::new(&brace)).is_err());
}

#[test]
fn parenthesized_parameter_data_parse() {
    // (A, B) -> C
    let toks = vec![
        paren(vec![w("A", 1), p(',', false, 2), w("B", 3)], 0),
        p('-', true, 4),
        p('>', false, 5),
        w("C", 6),
    ];
    let (c2, pd) = ParenthesizedParameterData::parse(Cursor::new(&toks)).unwrap();
    assert!(c2.at_end());
    assert_eq!(pd.inputs.inner.len(), 2);
    assert!(pd.output.is_some());
    // Without the arrow the output is absent.
    let plain = vec![paren(vec![w("A", 1)], 0)];
    let (_, pd2) = ParenthesizedParameterData::parse(Cursor::new(&plain)).unwrap();
    assert!(pd2.output.is_none());
}

#[test]
fn path_parse_head_words() {
    let toks = vec![
        w("self", 1),
        p(':', true, 2),
        p(':', false, 3),
        w("x", 4),
    ];
    let (_, path) = Path::parse(Cursor::new(&toks)).unwrap();
    assert_eq!(path.segments.inner.len(), 2);
    assert_eq!(path.segments.inner[0].0.ident.sym, "self");
    // `self` is only allowed as the first segment.
    let bad = vec![
        w("x", 1),
        p(':', true, 2),
        p(':', false, 3),
        w("self", 4),
    ];
    assert!(Path::parse(Cursor::new(&bad)).is_err());
}

#[test]
fn bound_parse_lifetime_or_trait() {
    let life = vec![w("'a", 1)];
    let (_, b) = TyParamBound::parse(Cursor::new(&life)).unwrap();
    assert!(matches!(b, TyParamBound::Region(_)));
    let tr = vec![w("Send", 1)];
    let (_, b2) = TyParamBound::parse(Cursor::new(&tr)).unwrap();
    assert!(matches!(b2, TyParamBound::Trait(_)));
}

#[test]
fn double_colon_needs_joint_first_colon() {
    // `a : : b` with both colons isolated is not a path separator.
    let toks = vec![w("a", 1), p(':', false, 2), p(':', false, 3), w("b", 4)];
    let (c2, _) = Path::parse(Cursor::new(&toks)).unwrap();
    assert_eq!(c2.pos, 1, "only the head segment parses");
}

#[test]
fn arrow_needs_joint_dash() {
    // `fn() - > A` with an isolated dash has no return arrow.
    let toks = vec![
        w("fn", 1),
        paren(vec![], 2),
        p('-', false, 3),
        p('>', false, 4),
        w("A", 5),
    ];
    let (c2, ty) = Ty::parse(Cursor::new(&toks)).unwrap();
    match ty {
        Ty::BareFn(f) => assert!(f.output.is_none()),
        other => panic!("expected bare fn, got {:?}", other),
    }
    assert_eq!(c2.pos, 2, "the dash stays unconsumed");
}
