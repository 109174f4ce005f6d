use syn::cursor::Cursor;
use syn::tokens::{Add, Comma};
use syn::{Delimited, Lifetime, Span, Token};

fn lt(s: &str, n: u32) -> Lifetime {
    Lifetime {
        sym: s.to_string(),
        span: Span(n),
    }
}

fn w(s: &str, n: u32) -> Token {
    Token::Word {
        text: s.to_string(),
        span: Span(n),
    }
}

fn p(ch: char, joint: bool, n: u32) -> Token {
    Token::Punct {
        ch,
        joint,
        span: Span(n),
    }
}

#[test]
fn push_first_then_next_attaches_separator_to_previous() {
    let mut d: Delimited<Lifetime, Comma> = Delimited::new();
    d.push_first(lt("'a", 1));
    assert!(d.inner[0].1.is_none());
    d.push_next(
        lt("'b", 2),
        Comma {
            span: Span(3),
            joint: false,
        },
    );
    // The separator discovered before 'b now sits on 'a.
    assert!(d.inner[0].1.is_some());
    assert!(d.inner[1].1.is_none());
    assert_eq!(d.inner.len(), 2);
}

#[test]
fn separator_invariant_holds_after_building() {
    let mut d: Delimited<Lifetime, Comma> = Delimited::new();
    d.push_first(lt("'a", 1));
    d.push_next(
        lt("'b", 2),
        Comma {
            span: Span(3),
            joint: false,
        },
    );
    d.push_next(
        lt("'c", 4),
        Comma {
            span: Span(5),
            joint: false,
        },
    );
    // Every element except the last carries a separator.
    for i in 0..d.inner.len() - 1 {
        assert!(d.inner[i].1.is_some());
    }
    assert!(d.inner.last().unwrap().1.is_none());
}

#[test]
fn empty_level_parses_as_zero_element_terminated_list() {
    let toks: Vec<Token> = vec![];
    let c = Cursor::new(&toks);
    let (c2, list) = Delimited::<Lifetime, Comma>::parse_terminated(c).expect("empty list");
    assert_eq!(list.inner.len(), 0);
    assert!(c2.at_end());
}

#[test]
fn terminated_list_records_trailing_separator() {
    // 'a , 'b ,
    let toks = vec![w("'a", 1), p(',', false, 2), w("'b", 3), p(',', false, 4)];
    let c = Cursor::new(&toks);
    let (_, list) = Delimited::<Lifetime, Comma>::parse_terminated(c).expect("list");
    assert_eq!(list.inner.len(), 2);
    assert!(list.inner[1].1.is_some(), "trailing separator recorded");
}

#[test]
fn terminated_list_without_trailing_separator() {
    let toks = vec![w("'a", 1), p(',', false, 2), w("'b", 3)];
    let c = Cursor::new(&toks);
    let (_, list) = Delimited::<Lifetime, Comma>::parse_terminated(c).expect("list");
    assert_eq!(list.inner.len(), 2);
    assert!(list.inner[1].1.is_none());
}

#[test]
fn separated_nonempty_stops_at_foreign_token() {
    // 'a + 'b , : stops before the comma, which stays unconsumed.
    let toks = vec![w("'a", 1), p('+', false, 2), w("'b", 3), p(',', false, 4)];
    let c = Cursor::new(&toks);
    let (c2, list) = Delimited::<Lifetime, Add>::parse_separated_nonempty(c).expect("list");
    assert_eq!(list.inner.len(), 2);
    assert!(!c2.at_end(), "the comma is left for the surrounding grammar");
}

#[test]
fn separated_nonempty_requires_an_item() {
    let toks = vec![p('+', false, 1)];
    let c = Cursor::new(&toks);
    assert!(Delimited::<Lifetime, Add>::parse_separated_nonempty(c).is_err());
}

#[test]
fn item_failure_after_separator_fails_the_list() {
    // 'a + 7 : the separator is consumed, the item fails, the whole list
    // fails rather than returning a partial one.
    let toks = vec![
        w("'a", 1),
        p('+', false, 2),
        Token::Literal {
            text: "7".to_string(),
            span: Span(3),
        },
    ];
    let c = Cursor::new(&toks);
    assert!(Delimited::<Lifetime, Add>::parse_separated_nonempty(c).is_err());
}
