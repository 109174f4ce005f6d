use syn::tokens::Comma;
use syn::{
    parse_test, Delim, Generics, Ident, Lifetime, LifetimeDef, Span, ToTokens, Token, Tokens,
    TyParam,
};

fn w(s: &str, n: u32) -> Token {
    Token::Word {
        text: s.to_string(),
        span: Span(n),
    }
}

#[test]
fn lifetime_def_new_is_bare() {
    let ld = LifetimeDef::new(Lifetime {
        sym: "'a".to_string(),
        span: Span(1),
    });
    assert!(ld.attrs.is_empty());
    assert!(ld.colon_token.is_none());
    assert!(ld.bounds.inner.is_empty());
    assert_eq!(ld.lifetime.sym, "'a");
}

#[test]
fn ty_param_from_ident_is_bare() {
    let tp = TyParam::from(Ident {
        sym: "T".to_string(),
        span: Span(1),
    });
    assert!(tp.attrs.is_empty());
    assert!(tp.colon_token.is_none());
    assert!(tp.bounds.inner.is_empty());
    assert!(tp.eq_token.is_none());
    assert!(tp.default.is_none());
    assert_eq!(tp.ident.sym, "T");
}

#[test]
fn default_generics_reconstruct_to_nothing() {
    let g = Generics::default();
    let (ig, tg) = g.split_for_impl();
    let mut sink = Tokens::new();
    ig.to_tokens(&mut sink);
    tg.to_tokens(&mut sink);
    assert_eq!(sink.into_trees(), Vec::<Token>::new());
}

#[test]
fn split_for_impl_views_print_angles() {
    let mut g = Generics::default();
    let ld = LifetimeDef::new(Lifetime {
        sym: "'a".to_string(),
        span: Span(1),
    });
    // The comma between the lists rides on the last lifetime.
    g.lifetimes.push_first(ld);
    g.lifetimes.push_trailing(Comma {
        span: Span(2),
        joint: false,
    });
    g.ty_params.push_first(TyParam::from(Ident {
        sym: "T".to_string(),
        span: Span(3),
    }));
    let (ig, tg) = g.split_for_impl();

    let mut sink = Tokens::new();
    tg.to_tokens(&mut sink);
    let printed = sink.into_trees();
    assert_eq!(
        printed,
        vec![
            Token::Punct {
                ch: '<',
                joint: false,
                span: Span(0)
            },
            w("'a", 1),
            Token::Punct {
                ch: ',',
                joint: false,
                span: Span(2)
            },
            w("T", 3),
            Token::Punct {
                ch: '>',
                joint: false,
                span: Span(0)
            },
        ]
    );

    let mut sink2 = Tokens::new();
    ig.to_tokens(&mut sink2);
    // With no bounds and no attributes the impl view prints the same here.
    assert_eq!(sink2.into_trees(), printed);
}

#[test]
fn parse_test_starts_a_singleton_list() {
    let toks = vec![Token::Group {
        delim: Delim::Paren,
        tts: vec![w("A", 1)],
        span: Span(0),
    }];
    let d = parse_test(&toks).unwrap();
    assert_eq!(d.inner.len(), 1);
    assert!(d.inner[0].1.is_none());
    let bad = vec![Token::Punct {
        ch: '+',
        joint: false,
        span: Span(1),
    }];
    assert!(parse_test(&bad).is_err());
}
