use syn::{parse_ty, parse_ty_with, Delim, PathParameters, Span, Token, Ty};

fn w(s: &str, n: u32) -> Token {
    Token::Word {
        text: s.to_string(),
        span: Span(n),
    }
}

fn p(ch: char, joint: bool, n: u32) -> Token {
    Token::Punct {
        ch,
        joint,
        span: Span(n),
    }
}

fn paren(tts: Vec<Token>, n: u32) -> Token {
    Token::Group {
        delim: Delim::Paren,
        tts,
        span: Span(n),
    }
}

#[test]
fn tuple_with_trailing_comma() {
    // (A, B,)
    let toks = vec![paren(
        vec![w("A", 1), p(',', false, 2), w("B", 3), p(',', false, 4)],
        0,
    )];
    let ty = parse_ty(&toks).unwrap();
    match ty {
        Ty::Tup(tup) => {
            assert_eq!(tup.tys.inner.len(), 2);
            assert!(tup.tys.inner[0].1.is_some());
            assert!(tup.tys.inner[1].1.is_some(), "trailing comma recorded");
        }
        other => panic!("expected tuple, got {:?}", other),
    }
}

#[test]
fn parenthesized_single_is_group_not_tuple() {
    // (A)
    let toks = vec![paren(vec![w("A", 1)], 0)];
    let ty = parse_ty(&toks).unwrap();
    match ty {
        Ty::Group(g) => match *g.ty {
            Ty::Path(ref tp) => {
                assert!(tp.qself.is_none());
                assert_eq!(tp.path.segments.inner.len(), 1);
            }
            ref other => panic!("expected path inside group, got {:?}", other),
        },
        other => panic!("expected group wrapper, got {:?}", other),
    }
}

#[test]
fn single_element_tuple_needs_trailing_comma() {
    // (A,)
    let toks = vec![paren(vec![w("A", 1), p(',', false, 2)], 0)];
    let ty = parse_ty(&toks).unwrap();
    match ty {
        Ty::Tup(tup) => {
            assert_eq!(tup.tys.inner.len(), 1);
            assert!(tup.tys.inner[0].1.is_some());
        }
        other => panic!("expected one-element tuple, got {:?}", other),
    }
}

#[test]
fn empty_parens_are_the_empty_tuple() {
    let toks = vec![paren(vec![], 0)];
    let ty = parse_ty(&toks).unwrap();
    match ty {
        Ty::Tup(tup) => assert_eq!(tup.tys.inner.len(), 0),
        other => panic!("expected empty tuple, got {:?}", other),
    }
}

#[test]
fn trait_object_two_bounds() {
    // Trait1 + Trait2
    let toks = vec![w("Trait1", 1), p('+', false, 2), w("Trait2", 3)];
    let ty = parse_ty_with(&toks, true).unwrap();
    match ty {
        Ty::TraitObject(to) => {
            assert_eq!(to.bounds.inner.len(), 2);
            assert!(to.bounds.inner[0].1.is_some());
            assert!(to.bounds.inner[1].1.is_none(), "no trailing separator");
        }
        other => panic!("expected trait object, got {:?}", other),
    }
}

#[test]
fn single_path_is_path_not_trait_object() {
    // Trait1 alone: the earlier-declared path alternative wins over a
    // one-bound trait object.
    let toks = vec![w("Trait1", 1)];
    let ty = parse_ty(&toks).unwrap();
    assert!(matches!(ty, Ty::Path(_)), "got {:?}", ty);
}

#[test]
fn bare_fn_one_unnamed_arg() {
    // fn(i32) -> bool
    let toks = vec![
        w("fn", 1),
        paren(vec![w("i32", 2)], 3),
        p('-', true, 4),
        p('>', false, 5),
        w("bool", 6),
    ];
    let ty = parse_ty(&toks).unwrap();
    match ty {
        Ty::BareFn(f) => {
            assert!(f.lifetimes.is_none());
            assert!(f.unsafety.is_none());
            assert_eq!(f.inputs.inner.len(), 1);
            assert!(f.inputs.inner[0].0.name.is_none(), "argument is unnamed");
            assert!(f.output.is_some(), "return arrow present");
        }
        other => panic!("expected bare fn, got {:?}", other),
    }
}

#[test]
fn bare_fn_named_arg() {
    // fn(x: i32)
    let toks = vec![
        w("fn", 1),
        paren(vec![w("x", 2), p(':', false, 3), w("i32", 4)], 5),
    ];
    let ty = parse_ty(&toks).unwrap();
    match ty {
        Ty::BareFn(f) => {
            assert_eq!(f.inputs.inner.len(), 1);
            assert!(f.inputs.inner[0].0.name.is_some(), "argument is named");
            assert!(f.output.is_none());
        }
        other => panic!("expected bare fn, got {:?}", other),
    }
}

#[test]
fn path_three_segments() {
    // A::B::C
    let toks = vec![
        w("A", 1),
        p(':', true, 2),
        p(':', false, 3),
        w("B", 4),
        p(':', true, 5),
        p(':', false, 6),
        w("C", 7),
    ];
    let ty = parse_ty(&toks).unwrap();
    match ty {
        Ty::Path(tp) => {
            assert!(tp.qself.is_none());
            assert!(tp.path.leading_colon.is_none(), "no leading double-colon");
            assert_eq!(tp.path.segments.inner.len(), 3);
            for (seg, _) in tp.path.segments.inner.iter() {
                assert!(
                    matches!(seg.parameters, PathParameters::Plain),
                    "no generic arguments on any segment"
                );
            }
        }
        other => panic!("expected path, got {:?}", other),
    }
}

#[test]
fn infer_placeholder() {
    let toks = vec![w("_", 1)];
    let ty = parse_ty(&toks).unwrap();
    assert!(matches!(ty, Ty::Infer(_)));
}

#[test]
fn lifetime_alone_is_trait_object() {
    let toks = vec![w("'a", 1)];
    let ty = parse_ty(&toks).unwrap();
    match ty {
        Ty::TraitObject(to) => assert_eq!(to.bounds.inner.len(), 1),
        other => panic!("expected trait object, got {:?}", other),
    }
}

#[test]
fn generic_arguments_with_nested_close() {
    // Vec<Vec<u8>> with the first `>` joint, as a lexer produces it.
    let toks = vec![
        w("Vec", 1),
        p('<', false, 2),
        w("Vec", 3),
        p('<', false, 4),
        w("u8", 5),
        p('>', true, 6),
        p('>', false, 7),
    ];
    let ty = parse_ty(&toks).unwrap();
    match ty {
        Ty::Path(tp) => {
            let seg = &tp.path.segments.inner[0].0;
            match &seg.parameters {
                PathParameters::AngleBracketed(ab) => {
                    assert_eq!(ab.lifetimes.inner.len(), 0);
                    assert_eq!(ab.types.inner.len(), 1);
                }
                other => panic!("expected angle arguments, got {:?}", other),
            }
        }
        other => panic!("expected path, got {:?}", other),
    }
}

#[test]
fn qualified_path_with_as_clause() {
    // <T as Trait>::Out
    let toks = vec![
        p('<', false, 1),
        w("T", 2),
        w("as", 3),
        w("Trait", 4),
        p('>', false, 5),
        p(':', true, 6),
        p(':', false, 7),
        w("Out", 8),
    ];
    let ty = parse_ty(&toks).unwrap();
    match ty {
        Ty::Path(tp) => {
            let q = tp.qself.expect("qualifying self-type");
            assert!(q.as_clause.is_some());
            assert!(matches!(*q.ty, Ty::Path(_)));
            assert_eq!(tp.path.segments.inner.len(), 1);
        }
        other => panic!("expected qualified path, got {:?}", other),
    }
}

#[test]
fn higher_rank_trait_bound() {
    // for<'a> Tr + 'b
    let toks = vec![
        w("for", 1),
        p('<', false, 2),
        w("'a", 3),
        p('>', false, 4),
        w("Tr", 5),
        p('+', false, 6),
        w("'b", 7),
    ];
    let ty = parse_ty(&toks).unwrap();
    match ty {
        Ty::TraitObject(to) => assert_eq!(to.bounds.inner.len(), 2),
        other => panic!("expected trait object, got {:?}", other),
    }
}
