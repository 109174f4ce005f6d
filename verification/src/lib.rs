//! A token-tree parsing library: a combinator-style recursive-descent parser
//! over pre-lexed token trees, a separator-delimited list abstraction, and the
//! recursive type-expression grammar, with lossless reconstruction of the
//! original token sequence from every parsed syntax tree.
//!
//! An external lexer hands the entry points a [`token::Token`] tree; parsing
//! either consumes the whole tree and yields a strongly typed syntax tree, or
//! fails with the furthest position any alternative reached.  Every node can
//! reproduce, through [`tokens::ToTokens`], exactly the token sequence it was
//! parsed from, spans included.

pub mod attr;
pub mod cursor;
pub mod delimited;
pub mod generics;
pub mod ident;
pub mod lifetime;
pub mod lit;
pub mod mac;
pub mod span;
pub mod token;
pub mod tokens;
pub mod ty;

pub use crate::cursor::{Cursor, Label, PResult, ParseError, Synom};
pub use crate::delimited::Delimited;
pub use crate::generics::{
    BoundLifetimes, Generics, ImplGenerics, LifetimeDef, TyGenerics, TyParam, TyParamBound,
};
pub use crate::ident::Ident;
pub use crate::lifetime::Lifetime;
pub use crate::lit::{Lit, LitKind};
pub use crate::mac::{Mac, TokenTree};
pub use crate::span::Span;
pub use crate::token::{Delim, Token, TokenView};
pub use crate::tokens::{ToTokens, Tokens};
pub use crate::ty::{
    AngleBracketedParameterData, ParenthesizedParameterData, Path, PathParameters, PathSegment,
    PolyTraitRef, QSelf, Ty, TyBareFn, TyGroup, TyInfer, TyPath, TyTraitObject, TyTup,
};

use vstd::prelude::*;

use crate::token::view_tokens;
use crate::tokens::Comma;
use crate::ty::{ambig_ty, ty_tokens, ty_wf, DEPTH_LIMIT};

verus! {

broadcast use crate::token::lemma_view_tokens_len, crate::token::lemma_view_tokens_index;

/// Parses a whole token tree as a type expression, with the grammar's
/// "allow `+`" ambiguity flag chosen by the caller.  Success means the
/// entire tree was consumed and the tree's token views are exactly the
/// result's token sequence; leftover input is a failure of its own kind,
/// distinct from a failure to parse anything.
pub fn parse_ty_with(toks: &Vec<Token>, allow_plus: bool) -> (r: Result<Ty, ParseError>)
    ensures
        match r {
            Ok(v) => {
                &&& view_tokens(toks@) == ty_tokens(v)
                &&& ty_wf(v)
                &&& (!allow_plus ==> (v matches Ty::TraitObject(to)
                    ==> to.bounds.pairs().len() == 1))
            },
            Err(_) => true,
        },
        (toks@.len() == 1 && (view_tokens(toks@)[0] matches TokenView::Word { text, .. }
            && text == "_"@)) ==> r is Ok,
        (toks@.len() == 1 && (view_tokens(toks@)[0] matches TokenView::Group { delim, tts, .. }
            && delim == Delim::Paren && tts.len() == 0)) ==> (r matches Ok(v) && (
        v matches Ty::Tup(t) && t.tys.pairs().len() == 0)),
        (toks@.len() >= 2 && crate::ty::ident_word(view_tokens(toks@)[0]) && (view_tokens(
            toks@,
        )[1] matches TokenView::Punct { ch, .. } && ch == '+') && !allow_plus) ==> (
        r matches Err(e) && e.label == Some(Label::Leftover) && e.pos == 1),
        (toks@.len() == 3 && crate::ty::ident_word(view_tokens(toks@)[0]) && (view_tokens(
            toks@,
        )[1] matches TokenView::Punct { ch, .. } && ch == '+') && crate::ty::ident_word(
            view_tokens(toks@)[2],
        ) && allow_plus) ==> (r matches Ok(v) && (v matches Ty::TraitObject(to)
            && to.bounds.pairs().len() == 2)),
        (toks@.len() == 1 && (view_tokens(toks@)[0] matches TokenView::Group { delim, tts, .. }
            && delim == Delim::Paren && tts.len() == 1 && crate::ty::ident_word(tts[0]))) ==> (
        r matches Ok(v) && v is Group),
        (toks@.len() == 1 && (view_tokens(toks@)[0] matches TokenView::Group { delim, tts, .. }
            && delim == Delim::Paren && tts.len() == 2 && crate::ty::ident_word(tts[0]) && (
        tts[1] matches TokenView::Punct { ch, .. } && ch == ','))) ==> (r matches Ok(v) && (
        v matches Ty::Tup(t) && t.tys.pairs().len() == 1 && t.tys.trailing_sep())),
        (toks@.len() == 1 && (view_tokens(toks@)[0] matches TokenView::Group { delim, tts, .. }
            && delim == Delim::Paren && tts.len() == 4 && crate::ty::ident_word(tts[0]) && (
        tts[1] matches TokenView::Punct { ch, .. } && ch == ',') && crate::ty::ident_word(
            tts[2],
        ) && (tts[3] matches TokenView::Punct { ch, .. } && ch == ','))) ==> (r matches Ok(v)
            && (v matches Ty::Tup(t) && t.tys.pairs().len() == 2 && t.tys.trailing_sep())),
        (toks@.len() == 7 && crate::ty::ident_word(view_tokens(toks@)[0])
            && crate::ty::colon2_at(view_tokens(toks@), 1) && crate::ty::ident_word(
            view_tokens(toks@)[3],
        ) && crate::ty::colon2_at(view_tokens(toks@), 4) && crate::ty::ident_word(
            view_tokens(toks@)[6],
        )) ==> (r matches Ok(v) && (v matches Ty::Path(tp) && tp.qself is None
            && tp.path.leading_colon is None && tp.path.segments.pairs().len() == 3 && (
        forall|i: int| 0 <= i < tp.path.segments.pairs().len()
            ==> (#[trigger] tp.path.segments.pairs()[i]).0.parameters is Plain))),
        (toks@.len() == 5 && (view_tokens(toks@)[0] matches TokenView::Word { text, .. }
            && text == "fn"@) && (view_tokens(toks@)[1]
            matches TokenView::Group { delim, tts, .. } && delim == Delim::Paren && tts.len()
            == 1 && crate::ty::ident_word(tts[0])) && (view_tokens(toks@)[2]
            matches TokenView::Punct { ch, joint, .. } && ch == '-' && joint) && (view_tokens(
            toks@,
        )[3] matches TokenView::Punct { ch, .. } && ch == '>') && crate::ty::ident_word(
            view_tokens(toks@)[4],
        )) ==> (r matches Ok(v) && (v matches Ty::BareFn(f) && f.unsafety is None
            && f.lifetimes is None && f.inputs.pairs().len() == 1 && (
        f.inputs.pairs()[0].0.name is None) && f.output is Some)),
{
    let c = Cursor::new(toks);
    match ambig_ty(c, allow_plus, DEPTH_LIMIT) {
        Ok((c2, v)) => {
            if c2.at_end() {
                proof {
                    assert(c.stream().subrange(0, c2.pos as int) =~= c.stream());
                }
                Ok(v)
            } else {
                Err(c2.err(Some(Label::Leftover)))
            }
        },
        Err(e) => Err(e),
    }
}

/// Parses a whole token tree as a type expression, `+`-joined bound lists
/// allowed.
pub fn parse_ty(toks: &Vec<Token>) -> (r: Result<Ty, ParseError>)
    ensures
        match r {
            Ok(v) => view_tokens(toks@) == ty_tokens(v) && ty_wf(v),
            Err(_) => true,
        },
        (toks@.len() == 1 && (view_tokens(toks@)[0] matches TokenView::Word { text, .. }
            && text == "_"@)) ==> r is Ok,
        (toks@.len() == 1 && (view_tokens(toks@)[0] matches TokenView::Group { delim, tts, .. }
            && delim == Delim::Paren && tts.len() == 0)) ==> (r matches Ok(v) && (
        v matches Ty::Tup(t) && t.tys.pairs().len() == 0)),
        (toks@.len() == 3 && crate::ty::ident_word(view_tokens(toks@)[0]) && (view_tokens(
            toks@,
        )[1] matches TokenView::Punct { ch, .. } && ch == '+') && crate::ty::ident_word(
            view_tokens(toks@)[2],
        )) ==> (r matches Ok(v) && (v matches Ty::TraitObject(to) && to.bounds.pairs().len()
            == 2)),
{
    parse_ty_with(toks, true)
}

/// Reconstructs the exact token sequence a type stands for, spans
/// included.
pub fn reconstruct(t: &Ty) -> (v: Vec<Token>)
    ensures
        view_tokens(v@) == ty_tokens(*t),
{
    let mut sink = Tokens::new();
    t.to_tokens(&mut sink);
    sink.into_trees()
}

/// Exercises the grammar once: parses the tree as a type and starts a
/// delimited list with the result, as the first item that no separator
/// precedes.
pub fn parse_test(toks: &Vec<Token>) -> (r: Result<Delimited<Ty, Comma>, ParseError>)
    ensures
        match r {
            Ok(d) => {
                &&& d.pairs().len() == 1
                &&& d.pairs()[0].1 is None
                &&& view_tokens(toks@) == ty_tokens(d.pairs()[0].0)
                &&& ty_wf(d.pairs()[0].0)
            },
            Err(_) => true,
        },
        (toks@.len() == 1 && (view_tokens(toks@)[0] matches TokenView::Word { text, .. }
            && text == "_"@)) ==> r is Ok,
{
    let mut res: Delimited<Ty, Comma> = Delimited::new();
    match parse_ty(toks) {
        Ok(t) => {
            res.push_first(t);
            Ok(res)
        },
        Err(e) => Err(e),
    }
}

/// The round-trip law.  A successful whole-tree parse of `input` meets
/// `view_tokens(input@) == ty_tokens(t)`, and reconstruction meets
/// `view_tokens(printed@) == ty_tokens(t)`: so the reconstructed token
/// sequence is, view for view and span for span, the original input, and
/// re-parsing it is re-parsing the original.
pub proof fn lemma_round_trip(input: Seq<Token>, t: Ty, printed: Seq<Token>)
    requires
        view_tokens(input) == ty_tokens(t),
        view_tokens(printed) == ty_tokens(t),
    ensures
        view_tokens(printed) == view_tokens(input),
{
}

} // verus!
