use syn::cursor::{Cursor, Synom};
use syn::{Delim, Ident, Lifetime, Lit, LitKind, Mac, Span, Token, TokenTree};

fn w(s: &str, n: u32) -> Token {
    Token::Word {
        text: s.to_string(),
        span: Span(n),
    }
}

fn p(ch: char, joint: bool, n: u32) -> Token {
    Token::Punct {
        ch,
        joint,
        span: Span(n),
    }
}

#[test]
fn ident_try_new_validates_characters() {
    assert!(Ident::try_new("abc".to_string(), Span(1)).is_some());
    assert!(Ident::try_new("_abc".to_string(), Span(1)).is_some());
    assert!(Ident::try_new("a1_b".to_string(), Span(1)).is_some());
    // A keyword is permitted when built programmatically.
    assert!(Ident::try_new("fn".to_string(), Span(1)).is_some());
    // The empty string is not an identifier.
    assert!(Ident::try_new(String::new(), Span(1)).is_none());
    // An underscore by itself is not an identifier.
    assert!(Ident::try_new("_".to_string(), Span(1)).is_none());
    // A leading digit has no XID start property.
    assert!(Ident::try_new("1abc".to_string(), Span(1)).is_none());
    // An embedded space has no XID continue property.
    assert!(Ident::try_new("a b".to_string(), Span(1)).is_none());
}

#[test]
fn ident_parse_rejects_keywords_and_lifetimes() {
    let kw = vec![w("fn", 1)];
    assert!(Ident::parse(Cursor::new(&kw)).is_err());
    let life = vec![w("'a", 1)];
    assert!(Ident::parse(Cursor::new(&life)).is_err());
    let under = vec![w("_", 1)];
    assert!(Ident::parse(Cursor::new(&under)).is_err());
    let good = vec![w("abc", 1)];
    let (_, id) = Ident::parse(Cursor::new(&good)).unwrap();
    assert_eq!(id.sym, "abc");
}

#[test]
fn lifetime_parse_needs_apostrophe() {
    let good = vec![w("'a", 1)];
    let (_, lf) = Lifetime::parse(Cursor::new(&good)).unwrap();
    assert_eq!(lf.sym, "'a");
    let bad = vec![w("a", 1)];
    assert!(Lifetime::parse(Cursor::new(&bad)).is_err());
}

#[test]
fn lit_parse_booleans_and_literals() {
    let t = vec![w("true", 1)];
    let (_, l) = Lit::parse(Cursor::new(&t)).unwrap();
    assert_eq!(l.value, LitKind::Bool(true));
    let f = vec![w("false", 2)];
    let (_, l) = Lit::parse(Cursor::new(&f)).unwrap();
    assert_eq!(l.value, LitKind::Bool(false));
    let num = vec![Token::Literal {
        text: "42".to_string(),
        span: Span(3),
    }];
    let (_, l) = Lit::parse(Cursor::new(&num)).unwrap();
    assert_eq!(l.value, LitKind::Other("42".to_string()));
    let other = vec![w("word", 4)];
    assert!(Lit::parse(Cursor::new(&other)).is_err());
}

#[test]
fn lit_into_token_tree() {
    let l = Lit {
        value: LitKind::Bool(true),
        span: Span(9),
    };
    let tt = l.into_token_tree();
    assert_eq!(
        tt.0,
        Token::Word {
            text: "true".to_string(),
            span: Span(9)
        }
    );
    let l2 = Lit {
        value: LitKind::Other("1.5".to_string()),
        span: Span(10),
    };
    let tt2 = l2.into_token_tree();
    assert_eq!(
        tt2.0,
        Token::Literal {
            text: "1.5".to_string(),
            span: Span(10)
        }
    );
}

#[test]
fn token_tree_is_braced() {
    let braced = TokenTree(Token::Group {
        delim: Delim::Brace,
        tts: vec![],
        span: Span(1),
    });
    assert!(braced.is_braced());
    let parend = TokenTree(Token::Group {
        delim: Delim::Paren,
        tts: vec![],
        span: Span(1),
    });
    assert!(!parend.is_braced());
    let word = TokenTree(w("x", 1));
    assert!(!word.is_braced());
}

#[test]
fn token_tree_parse_list_consumes_everything() {
    let toks = vec![w("a", 1), p('+', false, 2), w("b", 3)];
    let (c2, list) = TokenTree::parse_list(Cursor::new(&toks)).unwrap();
    assert_eq!(list.len(), 3);
    assert!(c2.at_end());
    assert_eq!(list[0].0, toks[0]);
}

#[test]
fn token_tree_parse_delimited_wants_a_group() {
    let toks = vec![Token::Group {
        delim: Delim::Bracket,
        tts: vec![w("x", 1)],
        span: Span(2),
    }];
    let (_, tt) = TokenTree::parse_delimited(Cursor::new(&toks)).unwrap();
    assert_eq!(tt.0, toks[0]);
    let flat = vec![w("x", 1)];
    assert!(TokenTree::parse_delimited(Cursor::new(&flat)).is_err());
}

#[test]
fn mac_parse_and_is_braced() {
    // m ! { x }
    let toks = vec![
        w("m", 1),
        p('!', false, 2),
        Token::Group {
            delim: Delim::Brace,
            tts: vec![w("x", 3)],
            span: Span(4),
        },
    ];
    let (c2, mac) = Mac::parse(Cursor::new(&toks)).unwrap();
    assert!(c2.at_end());
    assert!(mac.ident.is_none());
    assert_eq!(mac.tokens.len(), 1);
    assert!(mac.is_braced());

    // a::b ! ( y )
    let toks2 = vec![
        w("a", 1),
        p(':', true, 2),
        p(':', false, 3),
        w("b", 4),
        p('!', false, 5),
        Token::Group {
            delim: Delim::Paren,
            tts: vec![w("y", 6)],
            span: Span(7),
        },
    ];
    let (_, mac2) = Mac::parse(Cursor::new(&toks2)).unwrap();
    assert_eq!(mac2.path.segments.inner.len(), 2);
    assert!(!mac2.is_braced());
}
