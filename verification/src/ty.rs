//! The recursive type-expression grammar.
//!
//! A type expression is exactly one of: a tuple, a trait-object bound list
//! joined by `+`, a path with an optional qualifying self-type, a transparent
//! parenthesized wrapper kept for faithful reconstruction, an inferred
//! placeholder, or a bare function pointer.
//!
//! The one piece of non-local parsing state in the grammar is the "allow
//! `+`" flag: a type may itself be a step inside a larger `+`-joined bound
//! list, so the entry parser takes the flag and threads it to every
//! recursive call; when it is false a bare path or a parenthesized type is
//! accepted but a `+`-joined trait-object list is not.

use vstd::prelude::*;

use crate::cursor::{
    advanced, advanced_le, err_further, lemma_advanced_trans, Cursor, Label, PResult, ParseError,
    Synom,
};
use crate::delimited::{pairs_token_seq, Delimited};
use crate::generics::{BoundLifetimes, TyParamBound};
use crate::ident::{is_keyword, Ident};
use crate::lifetime::{peek_lifetime, Lifetime};
use crate::token::{Delim, TokenView};
use crate::tokens::{
    opt_token_seq, Add, As, Colon, Colon2, Comma, Fn_, Gt, Lt, Paren, RArrow, ToTokens, Tokens,
    Underscore, Unsafe,
};

verus! {

broadcast use
    crate::token::lemma_view_tokens_len,
    crate::token::lemma_view_tokens_index,
    vstd::std_specs::vec::axiom_vec_decreases_to_view,
    vstd::seq::axiom_seq_index_decreases,
    vstd::seq::axiom_seq_subrange_decreases,
;

/// The recursion budget for the type grammar: input nesting deeper than
/// this is rejected with a dedicated failure rather than exhausting the
/// call stack.
pub const DEPTH_LIMIT: u64 = 255;

/// The different kinds of type expression.
#[derive(Debug, PartialEq)]
pub enum Ty {
    /// A tuple: `(A, B, C)`, `()`, or `(A,)`.
    Tup(TyTup),
    /// A trait object: bounds joined by `+`, each a trait or a lifetime.
    TraitObject(TyTraitObject),
    /// A path, optionally qualified by a self-type: `A::B::C` or
    /// `<A as T>::C`.
    Path(TyPath),
    /// A transparent parenthesized wrapper: `(A)` with no comma.  Kept
    /// solely so that reconstruction is faithful.
    Group(TyGroup),
    /// The inferred placeholder `_`.
    Infer(TyInfer),
    /// A bare function pointer: `fn(A) -> B`.
    BareFn(TyBareFn),
}

/// A tuple type.
#[derive(Debug, PartialEq)]
pub struct TyTup {
    pub paren_token: Paren,
    pub tys: Delimited<Ty, Comma>,
}

/// A trait object: a nonempty `+`-joined bound list.
#[derive(Debug, PartialEq)]
pub struct TyTraitObject {
    pub bounds: Delimited<TyParamBound, Add>,
}

/// A path type, with an optional qualifying self-type.
#[derive(Debug, PartialEq)]
pub struct TyPath {
    pub qself: Option<QSelf>,
    pub path: Path,
}

/// The qualifying self-type of a path: `<Ty as Trait>::` or `<Ty>::`.
#[derive(Debug, PartialEq)]
pub struct QSelf {
    pub lt_token: Lt,
    pub ty: Box<Ty>,
    pub as_clause: Option<(As, Path)>,
    pub gt_token: Gt,
    pub colon2_token: Colon2,
}

/// The transparent parenthesized wrapper.
#[derive(Debug, PartialEq)]
pub struct TyGroup {
    pub paren_token: Paren,
    pub ty: Box<Ty>,
}

/// The inferred placeholder `_`.
#[derive(Debug, PartialEq)]
pub struct TyInfer {
    pub underscore_token: Underscore,
}

/// A bare function pointer type.
#[derive(Debug, PartialEq)]
pub struct TyBareFn {
    pub lifetimes: Option<BoundLifetimes>,
    pub unsafety: Option<Unsafe>,
    pub fn_token: Fn_,
    pub paren_token: Paren,
    pub inputs: Delimited<BareFnArg, Comma>,
    pub output: Option<(RArrow, Box<Ty>)>,
}

/// One argument of a bare function type, optionally named.
#[derive(Debug, PartialEq)]
pub struct BareFnArg {
    pub name: Option<(Ident, Colon)>,
    pub ty: Ty,
}

/// A path: an optional leading `::` and a `::`-separated nonempty segment
/// list.
#[derive(Debug, PartialEq)]
pub struct Path {
    pub leading_colon: Option<Colon2>,
    pub segments: Delimited<PathSegment, Colon2>,
}

/// One path segment: an identifier with optional generic arguments.
#[derive(Debug, PartialEq)]
pub struct PathSegment {
    pub ident: Ident,
    pub parameters: PathParameters,
}

/// The generic arguments of a path segment, disambiguated purely by the
/// token that opens them.
#[derive(Debug, PartialEq)]
pub enum PathParameters {
    /// No arguments.
    Plain,
    /// `<'a, A, B>`
    AngleBracketed(AngleBracketedParameterData),
    /// `(A, B) -> C`
    Parenthesized(ParenthesizedParameterData),
}

/// Angle-bracketed generic arguments: lifetimes first, then types.
#[derive(Debug, PartialEq)]
pub struct AngleBracketedParameterData {
    pub lt_token: Lt,
    pub lifetimes: Delimited<Lifetime, Comma>,
    pub types: Delimited<Ty, Comma>,
    pub gt_token: Gt,
}

/// Parenthesized call-style arguments: `(A, B) -> C`.
#[derive(Debug, PartialEq)]
pub struct ParenthesizedParameterData {
    pub paren_token: Paren,
    pub inputs: Delimited<Ty, Comma>,
    pub output: Option<(RArrow, Box<Ty>)>,
}

/// A trait reference with an optional higher-rank lifetime binder.
#[derive(Debug, PartialEq)]
pub struct PolyTraitRef {
    pub bound_lifetimes: Option<BoundLifetimes>,
    pub trait_ref: Path,
}

/// The token sequence a type expression stands for.
pub open spec fn ty_tokens(t: Ty) -> Seq<TokenView>
    decreases t,
{
    match t {
        Ty::Tup(tup) => seq![
            TokenView::Group {
                delim: Delim::Paren,
                tts: ty_pairs_tokens(tup.tys.inner@),
                span: tup.paren_token.span,
            },
        ],
        Ty::TraitObject(to) => bound_pairs_tokens(to.bounds.inner@),
        Ty::Path(tp) => match tp.qself {
            None => path_tokens(tp.path),
            Some(q) => q.lt_token.token_seq() + ty_tokens(*q.ty) + (match q.as_clause {
                Some((a, p)) => a.token_seq() + path_tokens(p),
                None => Seq::<TokenView>::empty(),
            }) + q.gt_token.token_seq() + q.colon2_token.token_seq() + path_tokens(tp.path),
        },
        Ty::Group(g) => seq![
            TokenView::Group {
                delim: Delim::Paren,
                tts: ty_tokens(*g.ty),
                span: g.paren_token.span,
            },
        ],
        Ty::Infer(i) => i.underscore_token.token_seq(),
        Ty::BareFn(f) => opt_token_seq(f.lifetimes) + opt_token_seq(f.unsafety)
            + f.fn_token.token_seq() + seq![
            TokenView::Group {
                delim: Delim::Paren,
                tts: arg_pairs_tokens(f.inputs.inner@),
                span: f.paren_token.span,
            },
        ] + ret_tokens(f.output),
    }
}

/// The token sequence of a comma-delimited type list.
pub open spec fn ty_pairs_tokens(ps: Seq<(Ty, Option<Comma>)>) -> Seq<TokenView>
    decreases ps,
{
    if ps.len() == 0 {
        Seq::empty()
    } else {
        ty_pairs_tokens(ps.drop_last()) + ty_tokens(ps.last().0) + opt_token_seq(ps.last().1)
    }
}

/// The token sequence of one bound.
pub open spec fn bound_tokens(b: TyParamBound) -> Seq<TokenView>
    decreases b,
{
    match b {
        TyParamBound::Trait(ptr) => opt_token_seq(ptr.bound_lifetimes) + path_tokens(
            ptr.trait_ref,
        ),
        TyParamBound::Region(lt) => lt.token_seq(),
    }
}

/// The token sequence of a `+`-delimited bound list.
pub open spec fn bound_pairs_tokens(ps: Seq<(TyParamBound, Option<Add>)>) -> Seq<TokenView>
    decreases ps,
{
    if ps.len() == 0 {
        Seq::empty()
    } else {
        bound_pairs_tokens(ps.drop_last()) + bound_tokens(ps.last().0) + opt_token_seq(
            ps.last().1,
        )
    }
}

/// The token sequence of a path.
pub open spec fn path_tokens(p: Path) -> Seq<TokenView>
    decreases p,
{
    opt_token_seq(p.leading_colon) + seg_pairs_tokens(p.segments.inner@)
}

/// The token sequence of a `::`-delimited segment list.
pub open spec fn seg_pairs_tokens(ps: Seq<(PathSegment, Option<Colon2>)>) -> Seq<TokenView>
    decreases ps,
{
    if ps.len() == 0 {
        Seq::empty()
    } else {
        seg_pairs_tokens(ps.drop_last()) + seg_tokens(ps.last().0) + opt_token_seq(ps.last().1)
    }
}

/// The token sequence of one path segment.
pub open spec fn seg_tokens(s: PathSegment) -> Seq<TokenView>
    decreases s,
{
    s.ident.token_seq() + params_tokens(s.parameters)
}

/// The token sequence of a segment's generic arguments.
pub open spec fn params_tokens(pp: PathParameters) -> Seq<TokenView>
    decreases pp,
{
    match pp {
        PathParameters::Plain => Seq::<TokenView>::empty(),
        PathParameters::AngleBracketed(ab) => ab.lt_token.token_seq() + pairs_token_seq(
            ab.lifetimes.inner@,
        ) + ty_pairs_tokens(ab.types.inner@) + ab.gt_token.token_seq(),
        PathParameters::Parenthesized(pd) => seq![
            TokenView::Group {
                delim: Delim::Paren,
                tts: ty_pairs_tokens(pd.inputs.inner@),
                span: pd.paren_token.span,
            },
        ] + ret_tokens(pd.output),
    }
}

/// The token sequence of an optional return arrow and type.
pub open spec fn ret_tokens(o: Option<(RArrow, Box<Ty>)>) -> Seq<TokenView>
    decreases o,
{
    match o {
        Some((ar, t)) => ar.token_seq() + ty_tokens(*t),
        None => Seq::<TokenView>::empty(),
    }
}

/// The token sequence of a comma-delimited bare-function argument list.
pub open spec fn arg_pairs_tokens(ps: Seq<(BareFnArg, Option<Comma>)>) -> Seq<TokenView>
    decreases ps,
{
    if ps.len() == 0 {
        Seq::empty()
    } else {
        arg_pairs_tokens(ps.drop_last()) + arg_tokens(ps.last().0) + opt_token_seq(ps.last().1)
    }
}

/// The token sequence of one bare-function argument.
pub open spec fn arg_tokens(a: BareFnArg) -> Seq<TokenView>
    decreases a,
{
    (match a.name {
        Some((id, col)) => id.token_seq() + col.token_seq(),
        None => Seq::<TokenView>::empty(),
    }) + ty_tokens(a.ty)
}

} // verus!

verus! {

/// Well-formedness of a comma-delimited type list's items.
pub open spec fn ty_pairs_wf(ps: Seq<(Ty, Option<Comma>)>) -> bool
    decreases ps,
{
    forall|i: int| 0 <= i < ps.len() ==> ty_wf((#[trigger] ps[i]).0)
}

/// Well-formedness of a `+`-delimited bound list's items.
pub open spec fn bound_pairs_wf(ps: Seq<(TyParamBound, Option<Add>)>) -> bool
    decreases ps,
{
    forall|i: int| 0 <= i < ps.len() ==> bound_wf((#[trigger] ps[i]).0)
}

/// Well-formedness of a `::`-delimited segment list's items.
pub open spec fn seg_pairs_wf(ps: Seq<(PathSegment, Option<Colon2>)>) -> bool
    decreases ps,
{
    forall|i: int| 0 <= i < ps.len() ==> seg_wf((#[trigger] ps[i]).0)
}

/// Well-formedness of a bare-function argument list's items.
pub open spec fn arg_pairs_wf(ps: Seq<(BareFnArg, Option<Comma>)>) -> bool
    decreases ps,
{
    forall|i: int| 0 <= i < ps.len() ==> arg_wf((#[trigger] ps[i]).0)
}

/// The words allowed as a path's first segment besides plain identifiers.
pub open spec fn path_head_word_ok(s: Seq<char>) -> bool {
    ||| s == "self"@
    ||| s == "Self"@
    ||| s == "super"@
    ||| s == "crate"@
}

/// Well-formedness of one path segment's identifier and arguments.
pub open spec fn seg_wf(s: PathSegment) -> bool
    decreases s,
{
    &&& s.ident.sym@.len() > 0
    &&& s.ident.sym@[0] != '\''
    &&& !(s.ident.sym@.len() == 1 && s.ident.sym@[0] == '_')
    &&& (!is_keyword(s.ident.sym@) || path_head_word_ok(s.ident.sym@))
    &&& params_wf(s.parameters)
}

/// Well-formedness of a segment's generic arguments.
pub open spec fn params_wf(pp: PathParameters) -> bool
    decreases pp,
{
    match pp {
        PathParameters::Plain => true,
        PathParameters::AngleBracketed(ab) => {
            &&& ab.lifetimes.wf_seps()
            &&& ab.lifetimes.items_wf()
            &&& ab.types.wf_seps()
            &&& ty_pairs_wf(ab.types.inner@)
            &&& (ab.types.inner@.len() > 0 ==> (ab.lifetimes.inner@.len() == 0
                || ab.lifetimes.trailing_sep()))
        },
        PathParameters::Parenthesized(pd) => {
            &&& pd.inputs.wf_seps()
            &&& ty_pairs_wf(pd.inputs.inner@)
            &&& (match pd.output {
                Some((_ar, t)) => ty_wf(*t),
                None => true,
            })
        },
    }
}

/// Well-formedness of a path: a nonempty segment list with a separator
/// between every two segments and none trailing; a path-relative keyword
/// may stand only as the first segment.
pub open spec fn path_wf(p: Path) -> bool
    decreases p,
{
    &&& p.segments.inner@.len() >= 1
    &&& p.segments.wf_seps()
    &&& !p.segments.trailing_sep()
    &&& seg_pairs_wf(p.segments.inner@)
    &&& (forall|i: int| 1 <= i < p.segments.inner@.len()
        ==> !is_keyword((#[trigger] p.segments.inner@[i]).0.ident.sym@))
}

/// Well-formedness of one bound.
pub open spec fn bound_wf(b: TyParamBound) -> bool
    decreases b,
{
    match b {
        TyParamBound::Trait(ptr) => (match ptr.bound_lifetimes {
            Some(bl) => bl.wf(),
            None => true,
        }) && path_wf(ptr.trait_ref),
        TyParamBound::Region(lt) => lt.wf(),
    }
}

/// Well-formedness of one bare-function argument.
pub open spec fn arg_wf(a: BareFnArg) -> bool
    decreases a,
{
    (match a.name {
        Some((id, _col)) => id.wf(),
        None => true,
    }) && ty_wf(a.ty)
}

/// Structural well-formedness of a parsed type expression.  Besides the
/// delimited-list invariants, this pins down how the ordered alternatives
/// resolve overlapping shapes: a one-element tuple records a trailing
/// comma (a comma-free `(A)` is a `Group`), and a one-bound trait object
/// exists only for a lifetime bound or a bound with a higher-rank binder
/// (a bare path alone is a `Path`).
pub open spec fn ty_wf(t: Ty) -> bool
    decreases t,
{
    match t {
        Ty::Tup(tup) => {
            &&& tup.tys.wf_seps()
            &&& ty_pairs_wf(tup.tys.inner@)
            &&& !(tup.tys.inner@.len() == 1 && tup.tys.inner@.last().1 is None)
        },
        Ty::TraitObject(to) => {
            &&& to.bounds.inner@.len() >= 1
            &&& to.bounds.wf_seps()
            &&& !to.bounds.trailing_sep()
            &&& bound_pairs_wf(to.bounds.inner@)
            &&& (to.bounds.inner@.len() == 1 ==> single_bound_ok(to.bounds.inner@[0].0))
        },
        Ty::Path(tp) => {
            &&& (match tp.qself {
                Some(q) => ty_wf(*q.ty) && (match q.as_clause {
                    Some((_a, p)) => path_wf(p),
                    None => true,
                }) && path_wf(tp.path) && (forall|i: int|
                    0 <= i < tp.path.segments.inner@.len()
                        ==> !is_keyword((#[trigger] tp.path.segments.inner@[i]).0.ident.sym@)),
                None => path_wf(tp.path),
            })
        },
        Ty::Group(g) => ty_wf(*g.ty),
        Ty::Infer(_) => true,
        Ty::BareFn(f) => {
            &&& (match f.lifetimes {
                Some(bl) => bl.wf(),
                None => true,
            })
            &&& f.inputs.wf_seps()
            &&& arg_pairs_wf(f.inputs.inner@)
            &&& (match f.output {
                Some((_ar, t)) => ty_wf(*t),
                None => true,
            })
        },
    }
}

/// The single-bound trait-object shapes the ordered alternatives can
/// produce: a lifetime, or a trait reference with a binder.
pub open spec fn single_bound_ok(b: TyParamBound) -> bool {
    match b {
        TyParamBound::Region(_) => true,
        TyParamBound::Trait(ptr) => ptr.bound_lifetimes is Some,
    }
}

/// A word the identifier parser accepts: the head shape of a plain path.
pub open spec fn ident_word(v: TokenView) -> bool {
    v matches TokenView::Word { text, .. } && text.len() > 0 && text[0] != '\''
        && !is_keyword(text) && !(text.len() == 1 && text[0] == '_')
}

/// Whether position `i` of a stream opens generic arguments or a further
/// segment: a `<`, a parenthesis group, or a `::`.
pub open spec fn path_tail_opens(s: Seq<TokenView>, i: int) -> bool {
    ||| (0 <= i < s.len() && (s[i] matches TokenView::Punct { ch, .. } && ch == '<'))
    ||| (0 <= i < s.len() && (s[i] matches TokenView::Group { delim, .. } && delim
        == Delim::Paren))
    ||| ((0 <= i < s.len() && (s[i] matches TokenView::Punct { ch, joint, .. } && ch == ':'
        && joint)) && i + 1 < s.len() && (s[i + 1] matches TokenView::Punct { ch: c1, .. } && c1
        == ':'))
}

/// An explicit `::` pair stands at position `i` of the stream: a joint
/// colon followed by a second colon.
pub open spec fn colon2_at(s: Seq<TokenView>, i: int) -> bool {
    (0 <= i < s.len() && (s[i] matches TokenView::Punct { ch, joint, .. } && ch == ':'
        && joint)) && i + 1 < s.len() && (s[i + 1] matches TokenView::Punct { ch: c1, .. }
        && c1 == ':')
}

/// No alternative of the type grammar can begin at the cursor: the level
/// is exhausted, or its head token is a literal, a punctuation character
/// that opens neither a qualified path nor a leading `::`, or a group of
/// the wrong delimiter kind.
pub open spec fn no_ty_head<'a>(c: Cursor<'a>) -> bool {
    ||| c.pos == c.toks@.len()
    ||| (c.pos < c.toks@.len() && (c.stream()[c.pos as int] is Literal || (c.stream()[c.pos
        as int] matches TokenView::Punct { ch, .. } && ch != '<' && ch != ':') || (c.stream()[
        c.pos as int
    ] matches TokenView::Group { delim, .. } && delim != Delim::Paren)))
}

/// Ordered-alternative determinism at the one point where two alternatives
/// overlap on a prefix: a well-formed one-bound trait object is only ever a
/// lifetime bound or a bound with a higher-rank binder.  A bare trait path
/// with no `+` always takes the earlier-declared path alternative, so no
/// well-formed tree holds it as a one-element bound list.
pub proof fn lemma_alternative_order(t: Ty)
    requires
        ty_wf(t),
        t is TraitObject,
        t->TraitObject_0.bounds.pairs().len() == 1,
    ensures
        single_bound_ok(t->TraitObject_0.bounds.pairs()[0].0),
{
}

} // verus!

verus! {

/// Extending a type-list prefix by one pair extends its token sequence.
proof fn lemma_ty_pairs_take_snoc(ps: Seq<(Ty, Option<Comma>)>, i: int)
    requires
        0 <= i < ps.len(),
    ensures
        ty_pairs_tokens(ps.take(i + 1)) == ty_pairs_tokens(ps.take(i)) + ty_tokens(ps[i].0)
            + opt_token_seq(ps[i].1),
{
    assert(ps.take(i + 1).drop_last() =~= ps.take(i));
    assert(ps.take(i + 1).last() == ps[i]);
}

/// Extending a bound-list prefix by one pair extends its token sequence.
proof fn lemma_bound_pairs_take_snoc(ps: Seq<(TyParamBound, Option<Add>)>, i: int)
    requires
        0 <= i < ps.len(),
    ensures
        bound_pairs_tokens(ps.take(i + 1)) == bound_pairs_tokens(ps.take(i)) + bound_tokens(
            ps[i].0,
        ) + opt_token_seq(ps[i].1),
{
    assert(ps.take(i + 1).drop_last() =~= ps.take(i));
    assert(ps.take(i + 1).last() == ps[i]);
}

/// Extending a segment-list prefix by one pair extends its token sequence.
proof fn lemma_seg_pairs_take_snoc(ps: Seq<(PathSegment, Option<Colon2>)>, i: int)
    requires
        0 <= i < ps.len(),
    ensures
        seg_pairs_tokens(ps.take(i + 1)) == seg_pairs_tokens(ps.take(i)) + seg_tokens(ps[i].0)
            + opt_token_seq(ps[i].1),
{
    assert(ps.take(i + 1).drop_last() =~= ps.take(i));
    assert(ps.take(i + 1).last() == ps[i]);
}

/// Extending an argument-list prefix by one pair extends its token
/// sequence.
proof fn lemma_arg_pairs_take_snoc(ps: Seq<(BareFnArg, Option<Comma>)>, i: int)
    requires
        0 <= i < ps.len(),
    ensures
        arg_pairs_tokens(ps.take(i + 1)) == arg_pairs_tokens(ps.take(i)) + arg_tokens(ps[i].0)
            + opt_token_seq(ps[i].1),
{
    assert(ps.take(i + 1).drop_last() =~= ps.take(i));
    assert(ps.take(i + 1).last() == ps[i]);
}

/// Appends a type expression's tokens to the sink.
pub fn print_ty(t: &Ty, tokens: &mut Tokens)
    ensures
        final(tokens)@ == old(tokens)@ + ty_tokens(*t),
    decreases *t,
{
    match t {
        Ty::Tup(tup) => {
            let mut sub = Tokens::new();
            print_ty_pairs(&tup.tys.inner, &mut sub);
            let tts = sub.into_trees();
            proof {
                crate::tokens::lemma_push_one(
                    tokens@,
                    TokenView::Group {
                        delim: Delim::Paren,
                        tts: ty_pairs_tokens(tup.tys.inner@),
                        span: tup.paren_token.span,
                    },
                );
            }
            tokens.append(
                crate::token::Token::Group {
                    delim: Delim::Paren,
                    tts,
                    span: tup.paren_token.span,
                },
            );
        },
        Ty::TraitObject(to) => {
            print_bound_pairs(&to.bounds.inner, tokens);
        },
        Ty::Path(tp) => {
            print_ty_path(tp, tokens);
        },
        Ty::Group(g) => {
            let mut sub = Tokens::new();
            print_ty(&g.ty, &mut sub);
            let tts = sub.into_trees();
            proof {
                crate::tokens::lemma_push_one(
                    tokens@,
                    TokenView::Group {
                        delim: Delim::Paren,
                        tts: ty_tokens(*g.ty),
                        span: g.paren_token.span,
                    },
                );
                assert(ty_tokens(*g.ty) + Seq::<TokenView>::empty() =~= ty_tokens(*g.ty));
            }
            tokens.append(
                crate::token::Token::Group {
                    delim: Delim::Paren,
                    tts,
                    span: g.paren_token.span,
                },
            );
        },
        Ty::Infer(i) => {
            i.underscore_token.to_tokens(tokens);
        },
        Ty::BareFn(f) => {
            match &f.lifetimes {
                Some(bl) => bl.to_tokens(tokens),
                None => {
                    proof {
                        assert(tokens@ + opt_token_seq(f.lifetimes) =~= tokens@);
                    }
                },
            }
            match &f.unsafety {
                Some(u) => u.to_tokens(tokens),
                None => {
                    proof {
                        assert(tokens@ + opt_token_seq(f.unsafety) =~= tokens@);
                    }
                },
            }
            f.fn_token.to_tokens(tokens);
            let mut sub = Tokens::new();
            print_arg_pairs(&f.inputs.inner, &mut sub);
            let tts = sub.into_trees();
            tokens.append(
                crate::token::Token::Group {
                    delim: Delim::Paren,
                    tts,
                    span: f.paren_token.span,
                },
            );
            print_ret(&f.output, tokens);
            proof {
                assert(tokens@ =~= old(tokens)@ + ty_tokens(*t));
            }
        },
    }
}

/// Appends a path type's tokens, qualifying self-type included.
#[verifier::rlimit(60)]
fn print_ty_path(tp: &TyPath, tokens: &mut Tokens)
    ensures
        final(tokens)@ == old(tokens)@ + ty_tokens(Ty::Path(*tp)),
    decreases *tp,
{
    match &tp.qself {
        None => {
            print_path(&tp.path, tokens);
        },
        Some(q) => {
            q.lt_token.to_tokens(tokens);
            print_ty(&q.ty, tokens);
            match &q.as_clause {
                Some(ap) => {
                    ap.0.to_tokens(tokens);
                    print_path(&ap.1, tokens);
                },
                None => {},
            }
            q.gt_token.to_tokens(tokens);
            q.colon2_token.to_tokens(tokens);
            print_path(&tp.path, tokens);
            proof {
                assert(tokens@ =~= old(tokens)@ + ty_tokens(Ty::Path(*tp)));
            }
        },
    }
}

/// Appends a comma-delimited type list's tokens.
fn print_ty_pairs(ps: &Vec<(Ty, Option<Comma>)>, tokens: &mut Tokens)
    ensures
        final(tokens)@ == old(tokens)@ + ty_pairs_tokens(ps@),
    decreases ps@,
{
    let n = ps.len();
    let mut i: usize = 0;
    proof {
        assert(tokens@ =~= old(tokens)@ + ty_pairs_tokens(ps@.take(0)));
    }
    while i < n
        invariant
            n == ps@.len(),
            i <= n,
            tokens@ == old(tokens)@ + ty_pairs_tokens(ps@.take(i as int)),
        decreases n - i,
    {
        let p = &ps[i];
        print_ty(&p.0, tokens);
        match &p.1 {
            Some(comma) => comma.to_tokens(tokens),
            None => {},
        }
        proof {
            lemma_ty_pairs_take_snoc(ps@, i as int);
            assert(tokens@ =~= old(tokens)@ + ty_pairs_tokens(ps@.take(i as int + 1)));
        }
        i = i + 1;
    }
    proof {
        assert(ps@.take(n as int) =~= ps@);
    }
}

/// Appends one bound's tokens.
fn print_bound(b: &TyParamBound, tokens: &mut Tokens)
    ensures
        final(tokens)@ == old(tokens)@ + bound_tokens(*b),
    decreases *b,
{
    match b {
        TyParamBound::Trait(ptr) => {
            match &ptr.bound_lifetimes {
                Some(bl) => bl.to_tokens(tokens),
                None => {},
            }
            print_path(&ptr.trait_ref, tokens);
            proof {
                assert(tokens@ =~= old(tokens)@ + bound_tokens(*b));
            }
        },
        TyParamBound::Region(lt) => {
            lt.to_tokens(tokens);
        },
    }
}

/// Appends a `+`-delimited bound list's tokens.
fn print_bound_pairs(ps: &Vec<(TyParamBound, Option<Add>)>, tokens: &mut Tokens)
    ensures
        final(tokens)@ == old(tokens)@ + bound_pairs_tokens(ps@),
    decreases ps@,
{
    let n = ps.len();
    let mut i: usize = 0;
    proof {
        assert(tokens@ =~= old(tokens)@ + bound_pairs_tokens(ps@.take(0)));
    }
    while i < n
        invariant
            n == ps@.len(),
            i <= n,
            tokens@ == old(tokens)@ + bound_pairs_tokens(ps@.take(i as int)),
        decreases n - i,
    {
        let p = &ps[i];
        print_bound(&p.0, tokens);
        match &p.1 {
            Some(add) => add.to_tokens(tokens),
            None => {},
        }
        proof {
            lemma_bound_pairs_take_snoc(ps@, i as int);
            assert(tokens@ =~= old(tokens)@ + bound_pairs_tokens(ps@.take(i as int + 1)));
        }
        i = i + 1;
    }
    proof {
        assert(ps@.take(n as int) =~= ps@);
    }
}

/// Appends a path's tokens.
fn print_path(p: &Path, tokens: &mut Tokens)
    ensures
        final(tokens)@ == old(tokens)@ + path_tokens(*p),
    decreases *p,
{
    match &p.leading_colon {
        Some(c2) => c2.to_tokens(tokens),
        None => {},
    }
    print_seg_pairs(&p.segments.inner, tokens);
    proof {
        assert(tokens@ =~= old(tokens)@ + path_tokens(*p));
    }
}

/// Appends a `::`-delimited segment list's tokens.
fn print_seg_pairs(ps: &Vec<(PathSegment, Option<Colon2>)>, tokens: &mut Tokens)
    ensures
        final(tokens)@ == old(tokens)@ + seg_pairs_tokens(ps@),
    decreases ps@,
{
    let n = ps.len();
    let mut i: usize = 0;
    proof {
        assert(tokens@ =~= old(tokens)@ + seg_pairs_tokens(ps@.take(0)));
    }
    while i < n
        invariant
            n == ps@.len(),
            i <= n,
            tokens@ == old(tokens)@ + seg_pairs_tokens(ps@.take(i as int)),
        decreases n - i,
    {
        let p = &ps[i];
        print_seg(&p.0, tokens);
        match &p.1 {
            Some(c2) => c2.to_tokens(tokens),
            None => {},
        }
        proof {
            lemma_seg_pairs_take_snoc(ps@, i as int);
            assert(tokens@ =~= old(tokens)@ + seg_pairs_tokens(ps@.take(i as int + 1)));
        }
        i = i + 1;
    }
    proof {
        assert(ps@.take(n as int) =~= ps@);
    }
}

/// Appends one segment's tokens.
fn print_seg(s: &PathSegment, tokens: &mut Tokens)
    ensures
        final(tokens)@ == old(tokens)@ + seg_tokens(*s),
    decreases *s,
{
    s.ident.to_tokens(tokens);
    match &s.parameters {
        PathParameters::Plain => {
            proof {
                assert(tokens@ =~= old(tokens)@ + seg_tokens(*s));
            }
        },
        PathParameters::AngleBracketed(ab) => {
            ab.lt_token.to_tokens(tokens);
            ab.lifetimes.to_tokens(tokens);
            print_ty_pairs(&ab.types.inner, tokens);
            ab.gt_token.to_tokens(tokens);
            proof {
                assert(tokens@ =~= old(tokens)@ + seg_tokens(*s));
            }
        },
        PathParameters::Parenthesized(pd) => {
            let mut sub = Tokens::new();
            print_ty_pairs(&pd.inputs.inner, &mut sub);
            let tts = sub.into_trees();
            tokens.append(
                crate::token::Token::Group {
                    delim: Delim::Paren,
                    tts,
                    span: pd.paren_token.span,
                },
            );
            print_ret(&pd.output, tokens);
            proof {
                assert(tokens@ =~= old(tokens)@ + seg_tokens(*s));
            }
        },
    }
}

/// Appends an optional return arrow and type.
fn print_ret(o: &Option<(RArrow, Box<Ty>)>, tokens: &mut Tokens)
    ensures
        final(tokens)@ == old(tokens)@ + ret_tokens(*o),
    decreases *o,
{
    match o {
        Some(p) => {
            p.0.to_tokens(tokens);
            print_ty(&p.1, tokens);
            proof {
                assert(tokens@ =~= old(tokens)@ + ret_tokens(*o));
            }
        },
        None => {
            proof {
                assert(tokens@ + ret_tokens(*o) =~= tokens@);
            }
        },
    }
}

/// Appends a bare-function argument list's tokens.
fn print_arg_pairs(ps: &Vec<(BareFnArg, Option<Comma>)>, tokens: &mut Tokens)
    ensures
        final(tokens)@ == old(tokens)@ + arg_pairs_tokens(ps@),
    decreases ps@,
{
    let n = ps.len();
    let mut i: usize = 0;
    proof {
        assert(tokens@ =~= old(tokens)@ + arg_pairs_tokens(ps@.take(0)));
    }
    while i < n
        invariant
            n == ps@.len(),
            i <= n,
            tokens@ == old(tokens)@ + arg_pairs_tokens(ps@.take(i as int)),
        decreases n - i,
    {
        let p = &ps[i];
        print_arg(&p.0, tokens);
        match &p.1 {
            Some(comma) => comma.to_tokens(tokens),
            None => {},
        }
        proof {
            lemma_arg_pairs_take_snoc(ps@, i as int);
            assert(tokens@ =~= old(tokens)@ + arg_pairs_tokens(ps@.take(i as int + 1)));
        }
        i = i + 1;
    }
    proof {
        assert(ps@.take(n as int) =~= ps@);
    }
}

/// Appends one bare-function argument's tokens.
fn print_arg(a: &BareFnArg, tokens: &mut Tokens)
    ensures
        final(tokens)@ == old(tokens)@ + arg_tokens(*a),
    decreases *a,
{
    match &a.name {
        Some(nc) => {
            nc.0.to_tokens(tokens);
            nc.1.to_tokens(tokens);
        },
        None => {},
    }
    print_ty(&a.ty, tokens);
    proof {
        assert(tokens@ =~= old(tokens)@ + arg_tokens(*a));
    }
}

} // verus!

verus! {

impl ToTokens for Ty {
    open spec fn token_seq(&self) -> Seq<TokenView> {
        ty_tokens(*self)
    }

    fn to_tokens(&self, tokens: &mut Tokens) {
        print_ty(self, tokens);
    }
}

impl ToTokens for TyParamBound {
    open spec fn token_seq(&self) -> Seq<TokenView> {
        bound_tokens(*self)
    }

    fn to_tokens(&self, tokens: &mut Tokens) {
        print_bound(self, tokens);
    }
}

impl ToTokens for Path {
    open spec fn token_seq(&self) -> Seq<TokenView> {
        path_tokens(*self)
    }

    fn to_tokens(&self, tokens: &mut Tokens) {
        print_path(self, tokens);
    }
}

impl ToTokens for PathSegment {
    open spec fn token_seq(&self) -> Seq<TokenView> {
        seg_tokens(*self)
    }

    fn to_tokens(&self, tokens: &mut Tokens) {
        print_seg(self, tokens);
    }
}

impl ToTokens for BareFnArg {
    open spec fn token_seq(&self) -> Seq<TokenView> {
        arg_tokens(*self)
    }

    fn to_tokens(&self, tokens: &mut Tokens) {
        print_arg(self, tokens);
    }
}

impl ToTokens for TyGroup {
    open spec fn token_seq(&self) -> Seq<TokenView> {
        seq![
            TokenView::Group {
                delim: Delim::Paren,
                tts: ty_tokens(*self.ty),
                span: self.paren_token.span,
            },
        ]
    }

    fn to_tokens(&self, tokens: &mut Tokens) {
        let mut sub = Tokens::new();
        print_ty(&self.ty, &mut sub);
        let tts = sub.into_trees();
        proof {
            crate::tokens::lemma_push_one(
                tokens@,
                TokenView::Group {
                    delim: Delim::Paren,
                    tts: ty_tokens(*self.ty),
                    span: self.paren_token.span,
                },
            );
            assert(ty_tokens(*self.ty) + Seq::<TokenView>::empty() =~= ty_tokens(*self.ty));
        }
        tokens.append(
            crate::token::Token::Group {
                delim: Delim::Paren,
                tts,
                span: self.paren_token.span,
            },
        );
    }
}

impl ToTokens for ParenthesizedParameterData {
    open spec fn token_seq(&self) -> Seq<TokenView> {
        seq![
            TokenView::Group {
                delim: Delim::Paren,
                tts: ty_pairs_tokens(self.inputs.inner@),
                span: self.paren_token.span,
            },
        ] + ret_tokens(self.output)
    }

    fn to_tokens(&self, tokens: &mut Tokens) {
        let mut sub = Tokens::new();
        print_ty_pairs(&self.inputs.inner, &mut sub);
        let tts = sub.into_trees();
        tokens.append(
            crate::token::Token::Group {
                delim: Delim::Paren,
                tts,
                span: self.paren_token.span,
            },
        );
        print_ret(&self.output, tokens);
        proof {
            assert(tokens@ =~= old(tokens)@ + self.token_seq());
        }
    }
}

/// The concrete type-list token function agrees with the generic pair one.
proof fn lemma_ty_pairs_equiv(ps: Seq<(Ty, Option<Comma>)>)
    ensures
        ty_pairs_tokens(ps) == pairs_token_seq(ps),
    decreases ps.len(),
{
    if ps.len() > 0 {
        lemma_ty_pairs_equiv(ps.drop_last());
        assert(ty_pairs_tokens(ps) =~= pairs_token_seq(ps));
    }
}

/// The concrete bound-list token function agrees with the generic pair one.
proof fn lemma_bound_pairs_equiv(ps: Seq<(TyParamBound, Option<Add>)>)
    ensures
        bound_pairs_tokens(ps) == pairs_token_seq(ps),
    decreases ps.len(),
{
    if ps.len() > 0 {
        lemma_bound_pairs_equiv(ps.drop_last());
        assert(bound_pairs_tokens(ps) =~= pairs_token_seq(ps));
    }
}

/// The concrete segment-list token function agrees with the generic pair
/// one.
proof fn lemma_seg_pairs_equiv(ps: Seq<(PathSegment, Option<Colon2>)>)
    ensures
        seg_pairs_tokens(ps) == pairs_token_seq(ps),
    decreases ps.len(),
{
    if ps.len() > 0 {
        lemma_seg_pairs_equiv(ps.drop_last());
        assert(seg_pairs_tokens(ps) =~= pairs_token_seq(ps));
    }
}

/// The concrete argument-list token function agrees with the generic pair
/// one.
proof fn lemma_arg_pairs_equiv(ps: Seq<(BareFnArg, Option<Comma>)>)
    ensures
        arg_pairs_tokens(ps) == pairs_token_seq(ps),
    decreases ps.len(),
{
    if ps.len() > 0 {
        lemma_arg_pairs_equiv(ps.drop_last());
        assert(arg_pairs_tokens(ps) =~= pairs_token_seq(ps));
    }
}

/// True when the next token is a `>` punct, consuming nothing.
fn peek_gt(c: Cursor<'_>) -> (r: bool)
    requires
        c.wf(),
    ensures
        r == (c.pos < c.toks@.len() && (c.stream()[c.pos as int] matches TokenView::Punct {
            ch, ..
        } && ch == '>')),
{
    match c.punct('>') {
        Some(_) => true,
        None => false,
    }
}

} // verus!

verus! {

/// The tokens of a bare-function type after its higher-rank binder.
pub open spec fn bare_fn_rest_tokens(f: TyBareFn) -> Seq<TokenView> {
    opt_token_seq(f.unsafety) + f.fn_token.token_seq() + seq![
        TokenView::Group {
            delim: Delim::Paren,
            tts: arg_pairs_tokens(f.inputs.inner@),
            span: f.paren_token.span,
        },
    ] + ret_tokens(f.output)
}

/// Parses a comma-delimited type list until this nesting level is
/// exhausted; the empty level yields the empty list, and a trailing comma
/// is recorded.
fn parse_ty_terminated(c: Cursor<'_>, depth: u64) -> (r: PResult<'_, Delimited<Ty, Comma>>)
    requires
        c.wf(),
    ensures
        match r {
            Ok((c2, v)) => {
                &&& advanced_le(c, c2, ty_pairs_tokens(v.inner@))
                &&& c2.wf()
                &&& c2.pos == c.toks@.len()
                &&& v.wf_seps()
                &&& ty_pairs_wf(v.inner@)
            },
            Err(e) => e.pos >= c.off,
        },
        (depth > 0 && c.pos == c.toks@.len()) ==> (r matches Ok((_, v)) && v.pairs().len()
            == 0),
        (depth > 5 && c.pos + 1 == c.toks@.len() && ident_word(c.stream()[c.pos as int])) ==> (
        r matches Ok((_, v)) && v.pairs().len() == 1 && !v.trailing_sep()),
        (depth > 5 && c.pos + 2 == c.toks@.len() && ident_word(c.stream()[c.pos as int]) && (
        c.stream()[c.pos as int + 1] matches TokenView::Punct { ch, .. } && ch == ',')) ==> (
        r matches Ok((_, v)) && v.pairs().len() == 1 && v.trailing_sep()),
        (depth > 5 && c.pos + 4 == c.toks@.len() && ident_word(c.stream()[c.pos as int]) && (
        c.stream()[c.pos as int + 1] matches TokenView::Punct { ch, .. } && ch == ',')
            && ident_word(c.stream()[c.pos as int + 2]) && (c.stream()[c.pos as int + 3]
            matches TokenView::Punct { ch, .. } && ch == ',')) ==> (r matches Ok((_, v))
            && v.pairs().len() == 2 && v.trailing_sep()),
        r matches Ok((_, v)) ==> (v.pairs().len() >= 1 ==> ((ty_pairs_tokens(
            v.inner@,
        ).last() matches TokenView::Punct { ch, .. } && ch == ',') <==> v.trailing_sep())),
    decreases depth,
{
    if depth == 0 {
        return Err(c.err(Some(Label::TooDeep)));
    }
    let d = depth - 1;
    let mut list: Delimited<Ty, Comma> = Delimited::new();
    if c.at_end() {
        proof {
            assert(c.stream().subrange(c.pos as int, c.pos as int) =~= Seq::<TokenView>::empty());
            assert(ty_pairs_tokens(list.inner@) =~= Seq::<TokenView>::empty());
        }
        return Ok((c, list));
    }
    let (c1, first) = ambig_ty(c, true, d)?;
    list.push_first(first);
    proof {
        crate::delimited::lemma_pairs_single::<Ty, Comma>(list.inner@[0].0);
        lemma_ty_pairs_equiv(list.inner@);
        assert(ty_pairs_tokens(list.inner@) == ty_tokens(first));
    }
    let mut cur = c1;
    while !cur.at_end()
        invariant
            d < depth,
            c.wf(),
            cur.wf(),
            advanced(c, cur, ty_pairs_tokens(list.inner@)),
            list.wf_seps(),
            ty_pairs_wf(list.inner@),
            list.pairs().len() >= 1,
            !list.trailing_sep(),
            d + 1 == depth,
            (depth > 5 && c.pos + 1 == c.toks@.len() && ident_word(c.stream()[c.pos as int]))
                ==> (cur.pos == c.toks@.len() && list.pairs().len() == 1),
            (depth > 5 && c.pos + 2 == c.toks@.len() && ident_word(c.stream()[c.pos as int])
                && (c.stream()[c.pos as int + 1] matches TokenView::Punct { ch, .. } && ch
                == ',')) ==> (cur.pos == c.pos + 1 && list.pairs().len() == 1),
            (depth > 5 && c.pos + 4 == c.toks@.len() && ident_word(c.stream()[c.pos as int])
                && (c.stream()[c.pos as int + 1] matches TokenView::Punct { ch, .. } && ch
                == ',') && ident_word(c.stream()[c.pos as int + 2]) && (c.stream()[c.pos as int
                + 3] matches TokenView::Punct { ch, .. } && ch == ',')) ==> ((cur.pos == c.pos
                + 1 && list.pairs().len() == 1) || (cur.pos == c.pos + 3 && list.pairs().len()
                == 2)),
        decreases cur.toks@.len() - cur.pos,
    {
        let ghost pre = ty_pairs_tokens(list.inner@);
        let (cs, comma) = match Comma::parse(cur) {
            Ok(x) => x,
            Err(e) => {
                return Err(e);
            },
        };
        if cs.at_end() {
            proof {
                lemma_ty_pairs_equiv(list.inner@);
                crate::delimited::lemma_pairs_push_trailing(list.pairs(), comma);
            }
            list.push_trailing(comma);
            proof {
                lemma_ty_pairs_equiv(list.inner@);
                crate::cursor::lemma_advanced_le_trans(c, cur, cs, pre, comma.token_seq());
                lemma_ty_list_trailing_iff(list.inner@);
            }
            return Ok((cs, list));
        }
        let (cn, item) = match ambig_ty(cs, true, d) {
            Ok(x) => x,
            Err(e) => {
                return Err(e);
            },
        };
        proof {
            lemma_ty_pairs_equiv(list.inner@);
            crate::delimited::lemma_pairs_push_next(list.pairs(), item, comma);
        }
        list.push_next(item, comma);
        proof {
            lemma_ty_pairs_equiv(list.inner@);
            crate::cursor::lemma_advanced_le_trans(c, cur, cs, pre, comma.token_seq());
            crate::cursor::lemma_advanced_le_trans(
                c,
                cs,
                cn,
                pre + comma.token_seq(),
                ty_tokens(item),
            );
            assert(pre + comma.token_seq() + ty_tokens(item) == ty_pairs_tokens(list.inner@));
        }
        cur = cn;
    }
    proof {
        if list.pairs().len() >= 1 {
            lemma_ty_list_trailing_iff(list.inner@);
        }
    }
    Ok((cur, list))
}

/// Parses a nonempty comma-delimited type list that stops before a `>`,
/// recording a trailing comma that stands immediately before the `>`.
fn parse_ty_gt_list(c: Cursor<'_>, depth: u64) -> (r: PResult<'_, Delimited<Ty, Comma>>)
    requires
        c.wf(),
    ensures
        match r {
            Ok((c2, v)) => {
                &&& advanced(c, c2, ty_pairs_tokens(v.inner@))
                &&& c2.wf()
                &&& v.wf_seps()
                &&& ty_pairs_wf(v.inner@)
                &&& v.pairs().len() >= 1
            },
            Err(e) => e.pos >= c.off,
        },
    decreases depth,
{
    if depth == 0 {
        return Err(c.err(Some(Label::TooDeep)));
    }
    let d = depth - 1;
    let (c1, first) = ambig_ty(c, true, d)?;
    let mut list: Delimited<Ty, Comma> = Delimited::new();
    list.push_first(first);
    proof {
        crate::delimited::lemma_pairs_single::<Ty, Comma>(list.inner@[0].0);
        lemma_ty_pairs_equiv(list.inner@);
    }
    let mut cur = c1;
    loop
        invariant
            d < depth,
            c.wf(),
            cur.wf(),
            advanced(c, cur, ty_pairs_tokens(list.inner@)),
            list.wf_seps(),
            ty_pairs_wf(list.inner@),
            list.pairs().len() >= 1,
            !list.trailing_sep(),
        decreases cur.toks@.len() - cur.pos,
    {
        let ghost pre = ty_pairs_tokens(list.inner@);
        let (cs, comma) = match Comma::parse(cur) {
            Ok(x) => x,
            Err(_) => {
                return Ok((cur, list));
            },
        };
        if peek_gt(cs) {
            proof {
                lemma_ty_pairs_equiv(list.inner@);
                crate::delimited::lemma_pairs_push_trailing(list.pairs(), comma);
            }
            list.push_trailing(comma);
            proof {
                lemma_ty_pairs_equiv(list.inner@);
                crate::cursor::lemma_advanced_le_trans(c, cur, cs, pre, comma.token_seq());
            }
            return Ok((cs, list));
        }
        let (cn, item) = match ambig_ty(cs, true, d) {
            Ok(x) => x,
            Err(e) => {
                return Err(e);
            },
        };
        proof {
            lemma_ty_pairs_equiv(list.inner@);
            crate::delimited::lemma_pairs_push_next(list.pairs(), item, comma);
        }
        list.push_next(item, comma);
        proof {
            lemma_ty_pairs_equiv(list.inner@);
            crate::cursor::lemma_advanced_le_trans(c, cur, cs, pre, comma.token_seq());
            crate::cursor::lemma_advanced_le_trans(
                c,
                cs,
                cn,
                pre + comma.token_seq(),
                ty_tokens(item),
            );
            assert(pre + comma.token_seq() + ty_tokens(item) == ty_pairs_tokens(list.inner@));
        }
        cur = cn;
    }
}

/// Parses a comma-delimited bare-function argument list until this nesting
/// level is exhausted.
fn parse_fn_args_terminated(c: Cursor<'_>, depth: u64) -> (r: PResult<
    '_,
    Delimited<BareFnArg, Comma>,
>)
    requires
        c.wf(),
    ensures
        match r {
            Ok((c2, v)) => {
                &&& advanced_le(c, c2, arg_pairs_tokens(v.inner@))
                &&& c2.wf()
                &&& c2.pos == c.toks@.len()
                &&& v.wf_seps()
                &&& arg_pairs_wf(v.inner@)
            },
            Err(e) => e.pos >= c.off,
        },
        (depth > 0 && c.pos == c.toks@.len()) ==> (r matches Ok((_, v)) && v.pairs().len()
            == 0),
        (depth > 6 && c.pos + 1 == c.toks@.len() && ident_word(c.stream()[c.pos as int]))
            ==> (r matches Ok((_, v)) && v.pairs().len() == 1 && !v.trailing_sep() && (
        v.pairs()[0].0.name is None)),
    decreases depth,
{
    if depth == 0 {
        return Err(c.err(Some(Label::TooDeep)));
    }
    let d = depth - 1;
    let mut list: Delimited<BareFnArg, Comma> = Delimited::new();
    if c.at_end() {
        proof {
            assert(c.stream().subrange(c.pos as int, c.pos as int) =~= Seq::<TokenView>::empty());
            assert(arg_pairs_tokens(list.inner@) =~= Seq::<TokenView>::empty());
        }
        return Ok((c, list));
    }
    let (c1, first) = parse_bare_fn_arg(c, d)?;
    list.push_first(first);
    proof {
        crate::delimited::lemma_pairs_single::<BareFnArg, Comma>(list.inner@[0].0);
        lemma_arg_pairs_equiv(list.inner@);
    }
    let mut cur = c1;
    while !cur.at_end()
        invariant
            d < depth,
            c.wf(),
            cur.wf(),
            advanced(c, cur, arg_pairs_tokens(list.inner@)),
            list.wf_seps(),
            arg_pairs_wf(list.inner@),
            list.pairs().len() >= 1,
            !list.trailing_sep(),
            (depth > 6 && c.pos + 1 == c.toks@.len() && ident_word(c.stream()[c.pos as int]))
                ==> (cur.pos == c.toks@.len() && list.pairs().len() == 1 && (list.pairs()[0].0.name
                is None)),
        decreases cur.toks@.len() - cur.pos,
    {
        let ghost pre = arg_pairs_tokens(list.inner@);
        let (cs, comma) = match Comma::parse(cur) {
            Ok(x) => x,
            Err(e) => {
                return Err(e);
            },
        };
        if cs.at_end() {
            proof {
                lemma_arg_pairs_equiv(list.inner@);
                crate::delimited::lemma_pairs_push_trailing(list.pairs(), comma);
            }
            list.push_trailing(comma);
            proof {
                lemma_arg_pairs_equiv(list.inner@);
                crate::cursor::lemma_advanced_le_trans(c, cur, cs, pre, comma.token_seq());
            }
            return Ok((cs, list));
        }
        let (cn, item) = match parse_bare_fn_arg(cs, d) {
            Ok(x) => x,
            Err(e) => {
                return Err(e);
            },
        };
        proof {
            lemma_arg_pairs_equiv(list.inner@);
            crate::delimited::lemma_pairs_push_next(list.pairs(), item, comma);
        }
        list.push_next(item, comma);
        proof {
            lemma_arg_pairs_equiv(list.inner@);
            crate::cursor::lemma_advanced_le_trans(c, cur, cs, pre, comma.token_seq());
            crate::cursor::lemma_advanced_le_trans(
                c,
                cs,
                cn,
                pre + comma.token_seq(),
                arg_tokens(item),
            );
            assert(pre + comma.token_seq() + arg_tokens(item) == arg_pairs_tokens(list.inner@));
        }
        cur = cn;
    }
    Ok((cur, list))
}

/// Parses one bare-function argument: an optional `name:` prefix, told
/// apart from a path by the colon's spacing, then a type.
fn parse_bare_fn_arg(c: Cursor<'_>, depth: u64) -> (r: PResult<'_, BareFnArg>)
    requires
        c.wf(),
    ensures
        match r {
            Ok((c2, v)) => {
                &&& advanced(c, c2, arg_tokens(v))
                &&& c2.wf()
                &&& arg_wf(v)
            },
            Err(e) => e.pos >= c.off,
        },
        (depth > 5 && c.pos + 1 == c.toks@.len() && ident_word(c.stream()[c.pos as int]))
            ==> (r matches Ok((c2, v)) && v.name is None && c2.pos == c.pos + 1),
    decreases depth,
{
    if depth == 0 {
        return Err(c.err(Some(Label::TooDeep)));
    }
    let d = depth - 1;
    match Ident::parse(c) {
        Ok((ci, id)) => {
            match Colon::parse(ci) {
                Ok((cc, col)) => {
                    if !col.joint {
                        let (c2, t) = ambig_ty(cc, true, d)?;
                        let v = BareFnArg { name: Some((id, col)), ty: t };
                        proof {
                            lemma_advanced_trans(
                                c,
                                ci,
                                cc,
                                v.name->Some_0.0.token_seq(),
                                col.token_seq(),
                            );
                            lemma_advanced_trans(
                                c,
                                cc,
                                c2,
                                v.name->Some_0.0.token_seq() + col.token_seq(),
                                ty_tokens(t),
                            );
                            assert(v.name->Some_0.0.token_seq() + col.token_seq() + ty_tokens(t)
                                =~= arg_tokens(v));
                        }
                        return Ok((c2, v));
                    }
                    let (c2, t) = ambig_ty(c, true, d)?;
                    let v = BareFnArg { name: None, ty: t };
                    proof {
                        assert(arg_tokens(v) =~= ty_tokens(t));
                    }
                    Ok((c2, v))
                },
                Err(_) => {
                    let (c2, t) = ambig_ty(c, true, d)?;
                    let v = BareFnArg { name: None, ty: t };
                    proof {
                        assert(arg_tokens(v) =~= ty_tokens(t));
                    }
                    Ok((c2, v))
                },
            }
        },
        Err(_) => {
            let (c2, t) = ambig_ty(c, true, d)?;
            let v = BareFnArg { name: None, ty: t };
            proof {
                assert(arg_tokens(v) =~= ty_tokens(t));
            }
            Ok((c2, v))
        },
    }
}

/// Parses an optional return arrow and type; the returned type is parsed
/// with "allow `+`" off, since a `+` after a return type belongs to the
/// surrounding bound list.
fn parse_ret(c: Cursor<'_>, depth: u64) -> (r: PResult<'_, Option<(RArrow, Box<Ty>)>>)
    requires
        c.wf(),
    ensures
        match r {
            Ok((c2, v)) => {
                &&& advanced_le(c, c2, ret_tokens(v))
                &&& c2.wf()
                &&& (match v {
                    Some((_ar, t)) => ty_wf(*t),
                    None => true,
                })
            },
            Err(e) => e.pos >= c.off,
        },
        (depth > 0 && c.pos == c.toks@.len()) ==> (r matches Ok((c2, v)) && v is None && c2
            == c),
        (depth > 5 && c.pos + 3 == c.toks@.len() && (c.stream()[c.pos as int]
            matches TokenView::Punct { ch, joint, .. } && ch == '-' && joint) && (c.stream()[
            c.pos as int + 1
        ] matches TokenView::Punct { ch, .. } && ch == '>') && ident_word(c.stream()[c.pos
            as int + 2])) ==> (r matches Ok((c2, v)) && v is Some && c2.pos == c.toks@.len()),
    decreases depth,
{
    if depth == 0 {
        return Err(c.err(Some(Label::TooDeep)));
    }
    let d = depth - 1;
    match RArrow::parse(c) {
        Err(_) => {
            proof {
                assert(c.stream().subrange(c.pos as int, c.pos as int)
                    =~= Seq::<TokenView>::empty());
                assert(ret_tokens(None::<(RArrow, Box<Ty>)>) =~= Seq::<TokenView>::empty());
            }
            Ok((c, None))
        },
        Ok((c1, ar)) => {
            let (c2, t) = ambig_ty(c1, false, d)?;
            let v = Some((ar, Box::new(t)));
            proof {
                lemma_advanced_trans(c, c1, c2, ar.token_seq(), ty_tokens(t));
                assert(ar.token_seq() + ty_tokens(t) =~= ret_tokens(v));
            }
            Ok((c2, v))
        },
    }
}

/// Parses `unsafe? fn ( args ) ret?` after an already consumed optional
/// binder, which becomes the node's `lifetimes` field.
fn parse_bare_fn(c: Cursor<'_>, binder: Option<BoundLifetimes>, depth: u64) -> (r: PResult<
    '_,
    TyBareFn,
>)
    requires
        c.wf(),
        match binder {
            Some(bl) => bl.wf(),
            None => true,
        },
    ensures
        match r {
            Ok((c2, v)) => {
                &&& advanced(c, c2, bare_fn_rest_tokens(v))
                &&& c2.wf()
                &&& ty_wf(Ty::BareFn(v))
                &&& v.lifetimes == binder
            },
            Err(e) => e.pos >= c.off,
        },
        (depth > 0 && !(c.pos < c.toks@.len() && (c.stream()[c.pos as int]
            matches TokenView::Word { text, .. } && (text == "fn"@ || text == "unsafe"@))))
            ==> (r matches Err(e) && e.pos == c.off),
        (depth > 7 && c.pos + 5 == c.toks@.len() && (c.stream()[c.pos as int]
            matches TokenView::Word { text, .. } && text == "fn"@) && (c.stream()[c.pos as int
            + 1] matches TokenView::Group { delim, tts, .. } && delim == Delim::Paren
            && tts.len() == 1 && ident_word(tts[0])) && (c.stream()[c.pos as int + 2]
            matches TokenView::Punct { ch, joint, .. } && ch == '-' && joint) && (c.stream()[
            c.pos as int + 3
        ] matches TokenView::Punct { ch, .. } && ch == '>') && ident_word(c.stream()[c.pos
            as int + 4])) ==> (r matches Ok((c2, v)) && v.unsafety is None
            && v.inputs.pairs().len() == 1 && (v.inputs.pairs()[0].0.name is None) && v.output
            is Some && c2.pos == c.toks@.len()),
    decreases depth,
{
    proof {
        assert("fn"@ != "unsafe"@) by {
            reveal_strlit("fn");
            reveal_strlit("unsafe");
            assert("fn"@.len() == 2);
            assert("unsafe"@.len() == 6);
        }
    }
    if depth == 0 {
        return Err(c.err(Some(Label::TooDeep)));
    }
    let d = depth - 1;
    let (c1, uns) = match Unsafe::parse(c) {
        Ok((cu, u)) => (cu, Some(u)),
        Err(_) => (c, None),
    };
    let (c2, ft) = Fn_::parse(c1)?;
    match c2.group(Delim::Paren) {
        None => Err(c2.err(Some(Label::Ty))),
        Some((inner, sp)) => {
            let (ie, args) = parse_fn_args_terminated(inner, d)?;
            let after = c2.after_group(ie.offset());
            let (c3, out) = parse_ret(after, d)?;
            let v = TyBareFn {
                lifetimes: binder,
                unsafety: uns,
                fn_token: ft,
                paren_token: Paren { span: sp },
                inputs: args,
                output: out,
            };
            proof {
                let gview = c2.stream()[c2.pos as int];
                assert(inner.stream().subrange(inner.pos as int, ie.pos as int)
                    =~= inner.stream());
                assert(gview == TokenView::Group {
                    delim: Delim::Paren,
                    tts: arg_pairs_tokens(v.inputs.inner@),
                    span: sp,
                });
                let su = opt_token_seq(v.unsafety);
                assert(c.stream().subrange(c.pos as int, c1.pos as int) =~= su);
                crate::cursor::lemma_advanced_le_trans(c, c1, c2, su, ft.token_seq());
                crate::cursor::lemma_advanced_le_trans(
                    c,
                    c2,
                    after,
                    su + ft.token_seq(),
                    seq![gview],
                );
                crate::cursor::lemma_advanced_le_trans(
                    c,
                    after,
                    c3,
                    su + ft.token_seq() + seq![gview],
                    ret_tokens(v.output),
                );
                assert(su + ft.token_seq() + seq![gview] + ret_tokens(v.output)
                    =~= bare_fn_rest_tokens(v));
            }
            Ok((c3, v))
        },
    }
}

/// Parses one bound: a lifetime region, or a trait reference with an
/// optional higher-rank binder.
fn parse_ty_param_bound(c: Cursor<'_>, depth: u64) -> (r: PResult<'_, TyParamBound>)
    requires
        c.wf(),
    ensures
        match r {
            Ok((c2, v)) => {
                &&& advanced(c, c2, bound_tokens(v))
                &&& c2.wf()
                &&& bound_wf(v)
            },
            Err(e) => e.pos >= c.off,
        },
        (depth > 0 && c.pos < c.toks@.len() && (c.stream()[c.pos as int]
            matches TokenView::Word { text, .. } && text.len() >= 2 && text[0] == '\''))
            ==> r is Ok,
        (depth > 3 && c.pos < c.toks@.len() && ident_word(c.stream()[c.pos as int])
            && !path_tail_opens(c.stream(), c.pos as int + 1)) ==> (r matches Ok((c2, _))
            && c2.pos == c.pos + 1),
    decreases depth,
{
    if depth == 0 {
        return Err(c.err(Some(Label::TooDeep)));
    }
    let d = depth - 1;
    if peek_lifetime(c) {
        let (c1, lf) = Lifetime::parse(c)?;
        let v = TyParamBound::Region(lf);
        proof {
            assert(bound_tokens(v) =~= v->Region_0.token_seq());
        }
        return Ok((c1, v));
    }
    let (c1, bl) = match BoundLifetimes::parse(c) {
        Ok((cb, bl)) => (cb, Some(bl)),
        Err(e) => {
            // The binder is optional only when its parser consumed nothing;
            // a failure past the starting offset is real progress lost and
            // propagates.
            if e.pos > c.offset() {
                return Err(e);
            }
            (c, None)
        },
    };
    let (c2, path) = parse_path(c1, d)?;
    let v = TyParamBound::Trait(PolyTraitRef { bound_lifetimes: bl, trait_ref: path });
    proof {
        if v->Trait_0.bound_lifetimes is None {
            assert(c.stream().subrange(c.pos as int, c.pos as int)
                =~= Seq::<TokenView>::empty());
        }
        crate::cursor::lemma_advanced_le_trans(
            c,
            c1,
            c2,
            opt_token_seq(v->Trait_0.bound_lifetimes),
            path_tokens(v->Trait_0.trait_ref),
        );
        assert(opt_token_seq(v->Trait_0.bound_lifetimes) + path_tokens(v->Trait_0.trait_ref)
            =~= bound_tokens(v));
    }
    Ok((c2, v))
}

/// Starting from one already parsed bound, keeps consuming `+ bound` pairs
/// while the flag allows it; an item that fails after a consumed `+` fails
/// the whole list.
fn more_bounds_obj(
    c: Cursor<'_>,
    first: TyParamBound,
    allow_plus: bool,
    depth: u64,
) -> (r: PResult<'_, Delimited<TyParamBound, Add>>)
    requires
        c.wf(),
        bound_wf(first),
    ensures
        match r {
            Ok((c2, v)) => {
                &&& c2.toks == c.toks
                &&& c.pos <= c2.pos <= c.toks@.len()
                &&& c2.off >= c.off
                &&& c2.wf()
                &&& bound_pairs_tokens(v.inner@) == bound_tokens(first) + c.stream().subrange(
                    c.pos as int,
                    c2.pos as int,
                )
                &&& v.wf_seps()
                &&& bound_pairs_wf(v.inner@)
                &&& !v.trailing_sep()
                &&& v.pairs().len() >= 1
                &&& v.pairs()[0].0 == first
                &&& (v.pairs().len() == 1 ==> c2.pos == c.pos)
                &&& (!allow_plus ==> v.pairs().len() == 1)
            },
            Err(e) => e.pos >= c.off,
        },
        (depth > 4 && allow_plus && c.pos < c.toks@.len() && (c.stream()[c.pos as int]
            matches TokenView::Punct { ch, .. } && ch == '+') && c.pos + 1 < c.toks@.len()
            && ident_word(c.stream()[c.pos as int + 1]) && c.pos + 2 == c.toks@.len()) ==> (
        r matches Ok((c2, v)) && v.pairs().len() == 2 && c2.pos == c.toks@.len()),
        (depth > 0 && !(c.pos < c.toks@.len() && (c.stream()[c.pos as int]
            matches TokenView::Punct { ch, .. } && ch == '+'))) ==> (r matches Ok((c2, v))
            && v.pairs().len() == 1 && c2.pos == c.pos),
    decreases depth,
{
    if depth == 0 {
        return Err(c.err(Some(Label::TooDeep)));
    }
    let d = depth - 1;
    let mut list: Delimited<TyParamBound, Add> = Delimited::new();
    let ghost gfirst = first;
    list.push_first(first);
    proof {
        crate::delimited::lemma_pairs_single::<TyParamBound, Add>(list.inner@[0].0);
        lemma_bound_pairs_equiv(list.inner@);
        assert(c.stream().subrange(c.pos as int, c.pos as int) =~= Seq::<TokenView>::empty());
        assert(bound_tokens(gfirst) + Seq::<TokenView>::empty() =~= bound_tokens(gfirst));
    }
    if !allow_plus {
        return Ok((c, list));
    }
    let mut cur = c;
    loop
        invariant
            d < depth,
            c.wf(),
            cur.wf(),
            cur.toks == c.toks,
            c.pos <= cur.pos <= c.toks@.len(),
            cur.off >= c.off,
            bound_pairs_tokens(list.inner@) == bound_tokens(gfirst) + c.stream().subrange(
                c.pos as int,
                cur.pos as int,
            ),
            list.wf_seps(),
            bound_pairs_wf(list.inner@),
            !list.trailing_sep(),
            list.pairs().len() >= 1,
            list.pairs()[0].0 == gfirst,
            gfirst == first,
            allow_plus,
            d + 1 == depth,
            list.pairs().len() == 1 ==> cur.pos == c.pos,
            (depth > 4 && c.pos < c.toks@.len() && (c.stream()[c.pos as int]
                matches TokenView::Punct { ch, .. } && ch == '+') && c.pos + 1 < c.toks@.len()
                && ident_word(c.stream()[c.pos as int + 1]) && c.pos + 2 == c.toks@.len()) ==> ((
            cur.pos == c.pos && list.pairs().len() == 1) || (cur.pos == c.toks@.len()
                && list.pairs().len() == 2)),
            !(c.pos < c.toks@.len() && (c.stream()[c.pos as int]
                matches TokenView::Punct { ch, .. } && ch == '+')) ==> (cur.pos == c.pos
                && list.pairs().len() == 1),
        decreases cur.toks@.len() - cur.pos,
    {
        let (cs, add) = match Add::parse(cur) {
            Ok(x) => x,
            Err(_) => {
                return Ok((cur, list));
            },
        };
        let (cn, b) = match parse_ty_param_bound(cs, d) {
            Ok(x) => x,
            Err(e) => {
                return Err(e);
            },
        };
        proof {
            lemma_bound_pairs_equiv(list.inner@);
            crate::delimited::lemma_pairs_push_next(list.pairs(), b, add);
        }
        list.push_next(b, add);
        proof {
            lemma_bound_pairs_equiv(list.inner@);
            crate::cursor::lemma_subrange_split(
                c.stream(),
                c.pos as int,
                cur.pos as int,
                cs.pos as int,
            );
            crate::cursor::lemma_subrange_split(
                c.stream(),
                c.pos as int,
                cs.pos as int,
                cn.pos as int,
            );
            assert(bound_pairs_tokens(list.inner@) =~= bound_tokens(gfirst) + c.stream().subrange(
                c.pos as int,
                cn.pos as int,
            ));
        }
        cur = cn;
    }
}

/// Parses one path segment.  When `head` is true the path-relative words
/// `self`, `Self`, `super` and `crate` are accepted besides identifiers;
/// generic arguments are disambiguated purely by the following token.
fn parse_segment(c: Cursor<'_>, head: bool, depth: u64) -> (r: PResult<'_, PathSegment>)
    requires
        c.wf(),
    ensures
        match r {
            Ok((c2, v)) => {
                &&& advanced(c, c2, seg_tokens(v))
                &&& c2.wf()
                &&& seg_wf(v)
                &&& (!head ==> !is_keyword(v.ident.sym@))
            },
            Err(e) => e.pos >= c.off,
        },
        (depth > 0 && !(c.pos < c.toks@.len() && c.stream()[c.pos as int] is Word)) ==> (
        r matches Err(e) && e.pos == c.off),
        (depth > 0 && c.pos < c.toks@.len() && ident_word(c.stream()[c.pos as int]) && !(c.pos
            + 1 < c.toks@.len() && (c.stream()[c.pos as int + 1]
            matches TokenView::Punct { ch, .. } && ch == '<')) && !(c.pos + 1 < c.toks@.len()
            && (c.stream()[c.pos as int + 1] matches TokenView::Group { delim, .. } && delim
            == Delim::Paren))) ==> (r matches Ok((c2, v)) && v.parameters is Plain && c2.pos
            == c.pos + 1 && (c.off < usize::MAX ==> c2.off == c.off + 1)),
    decreases depth,
{
    if depth == 0 {
        return Err(c.err(Some(Label::TooDeep)));
    }
    let d = depth - 1;
    if head {
        match crate::tokens::keyword(c, "self") {
            Some((c2, sp)) => {
                let v = PathSegment {
                    ident: Ident { sym: String::from_str("self"), span: sp },
                    parameters: PathParameters::Plain,
                };
                proof {
                    reveal_strlit("self");
                    assert(seg_tokens(v) =~= seq![
                        TokenView::Word { text: "self"@, span: sp },
                    ]);
                }
                return Ok((c2, v));
            },
            None => {},
        }
        match crate::tokens::keyword(c, "Self") {
            Some((c2, sp)) => {
                let v = PathSegment {
                    ident: Ident { sym: String::from_str("Self"), span: sp },
                    parameters: PathParameters::Plain,
                };
                proof {
                    reveal_strlit("Self");
                    assert(seg_tokens(v) =~= seq![
                        TokenView::Word { text: "Self"@, span: sp },
                    ]);
                }
                return Ok((c2, v));
            },
            None => {},
        }
        match crate::tokens::keyword(c, "super") {
            Some((c2, sp)) => {
                let v = PathSegment {
                    ident: Ident { sym: String::from_str("super"), span: sp },
                    parameters: PathParameters::Plain,
                };
                proof {
                    reveal_strlit("super");
                    assert(seg_tokens(v) =~= seq![
                        TokenView::Word { text: "super"@, span: sp },
                    ]);
                }
                return Ok((c2, v));
            },
            None => {},
        }
        match crate::tokens::keyword(c, "crate") {
            Some((c2, sp)) => {
                let v = PathSegment {
                    ident: Ident { sym: String::from_str("crate"), span: sp },
                    parameters: PathParameters::Plain,
                };
                proof {
                    reveal_strlit("crate");
                    assert(seg_tokens(v) =~= seq![
                        TokenView::Word { text: "crate"@, span: sp },
                    ]);
                }
                return Ok((c2, v));
            },
            None => {},
        }
    }
    let (c1, id) = Ident::parse(c)?;
    let angle_next = match c1.punct('<') {
        Some(_) => true,
        None => false,
    };
    if angle_next {
        let (c2, ab) = parse_angle(c1, d)?;
        let v = PathSegment { ident: id, parameters: PathParameters::AngleBracketed(ab) };
        proof {
            lemma_advanced_trans(
                c,
                c1,
                c2,
                v.ident.token_seq(),
                params_tokens(v.parameters),
            );
            assert(v.ident.token_seq() + params_tokens(v.parameters) =~= seg_tokens(v));
        }
        return Ok((c2, v));
    }
    let paren_next = match c1.group(Delim::Paren) {
        Some(_) => true,
        None => false,
    };
    if paren_next {
        let (c2, pd) = parse_paren_data(c1, d)?;
        let v = PathSegment { ident: id, parameters: PathParameters::Parenthesized(pd) };
        proof {
            lemma_advanced_trans(
                c,
                c1,
                c2,
                v.ident.token_seq(),
                params_tokens(v.parameters),
            );
            assert(v.ident.token_seq() + params_tokens(v.parameters) =~= seg_tokens(v));
        }
        return Ok((c2, v));
    }
    let v = PathSegment { ident: id, parameters: PathParameters::Plain };
    proof {
        assert(v.ident.token_seq() + params_tokens(v.parameters) =~= seg_tokens(v));
        assert(seg_tokens(v) =~= v.ident.token_seq());
    }
    Ok((c1, v))
}

/// Parses a nonempty `::`-separated segment list; a segment that fails
/// after a consumed `::` fails the whole list.
#[verifier::rlimit(100)]
fn parse_segments(c: Cursor<'_>, head: bool, depth: u64) -> (r: PResult<
    '_,
    Delimited<PathSegment, Colon2>,
>)
    requires
        c.wf(),
    ensures
        match r {
            Ok((c2, v)) => {
                &&& advanced(c, c2, seg_pairs_tokens(v.inner@))
                &&& c2.wf()
                &&& v.wf_seps()
                &&& seg_pairs_wf(v.inner@)
                &&& v.pairs().len() >= 1
                &&& !v.trailing_sep()
                &&& (forall|i: int| 1 <= i < v.pairs().len()
                    ==> !is_keyword((#[trigger] v.pairs()[i]).0.ident.sym@))
                &&& (!head ==> !is_keyword(v.pairs()[0].0.ident.sym@))
            },
            Err(e) => e.pos >= c.off,
        },
        (depth > 1 && !(c.pos < c.toks@.len() && c.stream()[c.pos as int] is Word)) ==> (
        r matches Err(e) && e.pos == c.off),
        (depth > 1 && c.pos < c.toks@.len() && ident_word(c.stream()[c.pos as int])
            && !path_tail_opens(c.stream(), c.pos as int + 1)) ==> (r matches Ok((c2, _))
            && c2.pos == c.pos + 1 && (c.off < usize::MAX ==> c2.off == c.off + 1)),
        (depth > 1 && c.pos + 7 == c.toks@.len() && ident_word(c.stream()[c.pos as int])
            && colon2_at(c.stream(), c.pos as int + 1) && ident_word(c.stream()[c.pos as int
            + 3]) && colon2_at(c.stream(), c.pos as int + 4) && ident_word(c.stream()[c.pos
            as int + 6])) ==> (r matches Ok((c2, v)) && v.pairs().len() == 3 && c2.pos
            == c.toks@.len() && (forall|i: int| 0 <= i < v.pairs().len()
            ==> (#[trigger] v.pairs()[i]).0.parameters is Plain)),
    decreases depth,
{
    if depth == 0 {
        return Err(c.err(Some(Label::TooDeep)));
    }
    let d = depth - 1;
    let (c1, s0) = parse_segment(c, head, d)?;
    let mut list: Delimited<PathSegment, Colon2> = Delimited::new();
    list.push_first(s0);
    proof {
        crate::delimited::lemma_pairs_single::<PathSegment, Colon2>(list.inner@[0].0);
        lemma_seg_pairs_equiv(list.inner@);
    }
    let mut cur = c1;
    loop
        invariant
            d < depth,
            c.wf(),
            cur.wf(),
            advanced(c, cur, seg_pairs_tokens(list.inner@)),
            list.wf_seps(),
            seg_pairs_wf(list.inner@),
            list.pairs().len() >= 1,
            !list.trailing_sep(),
            forall|i: int| 1 <= i < list.pairs().len()
                ==> !is_keyword((#[trigger] list.pairs()[i]).0.ident.sym@),
            !head ==> !is_keyword(list.pairs()[0].0.ident.sym@),
            d + 1 == depth,
            depth > 1 ==> (c.pos < c.toks@.len() && c.stream()[c.pos as int] is Word),
            (depth > 1 && c.pos < c.toks@.len() && ident_word(c.stream()[c.pos as int])
                && !path_tail_opens(c.stream(), c.pos as int + 1)) ==> (cur.pos == c.pos + 1 && (
            c.off < usize::MAX ==> cur.off == c.off + 1)),
            (depth > 1 && c.pos + 7 == c.toks@.len() && ident_word(c.stream()[c.pos as int])
                && colon2_at(c.stream(), c.pos as int + 1) && ident_word(c.stream()[c.pos as int
                + 3]) && colon2_at(c.stream(), c.pos as int + 4) && ident_word(c.stream()[c.pos
                as int + 6])) ==> (((cur.pos == c.pos + 1 && list.pairs().len() == 1) || (cur.pos
                == c.pos + 4 && list.pairs().len() == 2) || (cur.pos == c.toks@.len()
                && list.pairs().len() == 3)) && (forall|i: int| 0 <= i < list.pairs().len()
                ==> (#[trigger] list.pairs()[i]).0.parameters is Plain)),
        decreases cur.toks@.len() - cur.pos,
    {
        let ghost pre = seg_pairs_tokens(list.inner@);
        let (cs, c2tok) = match Colon2::parse(cur) {
            Ok(x) => x,
            Err(_) => {
                return Ok((cur, list));
            },
        };
        let (cn, sg) = match parse_segment(cs, false, d) {
            Ok(x) => x,
            Err(e) => {
                return Err(e);
            },
        };
        proof {
            lemma_seg_pairs_equiv(list.inner@);
            crate::delimited::lemma_pairs_push_next(list.pairs(), sg, c2tok);
        }
        list.push_next(sg, c2tok);
        proof {
            lemma_seg_pairs_equiv(list.inner@);
            crate::cursor::lemma_advanced_le_trans(c, cur, cs, pre, c2tok.token_seq());
            crate::cursor::lemma_advanced_le_trans(
                c,
                cs,
                cn,
                pre + c2tok.token_seq(),
                seg_tokens(sg),
            );
            assert(pre + c2tok.token_seq() + seg_tokens(sg) == seg_pairs_tokens(list.inner@));
        }
        cur = cn;
    }
}

/// Parses a path: an optional leading `::` and its segment list.
fn parse_path(c: Cursor<'_>, depth: u64) -> (r: PResult<'_, Path>)
    requires
        c.wf(),
    ensures
        match r {
            Ok((c2, v)) => {
                &&& advanced(c, c2, path_tokens(v))
                &&& c2.wf()
                &&& path_wf(v)
            },
            Err(e) => e.pos >= c.off,
        },
        (depth > 2 && !(c.pos < c.toks@.len() && c.stream()[c.pos as int] is Word)
            && !((c.pos < c.toks@.len() && (c.stream()[c.pos as int]
            matches TokenView::Punct { ch, joint, .. } && ch == ':' && joint)) && c.pos + 1
            < c.toks@.len() && (c.stream()[c.pos as int + 1]
            matches TokenView::Punct { ch: c1, .. } && c1 == ':'))) ==> (r matches Err(e)
            && e.pos == c.off),
        (depth > 2 && c.pos < c.toks@.len() && ident_word(c.stream()[c.pos as int])
            && !path_tail_opens(c.stream(), c.pos as int + 1)) ==> (r matches Ok((c2, _))
            && c2.pos == c.pos + 1 && (c.off < usize::MAX ==> c2.off == c.off + 1)),
        (depth > 2 && c.pos + 7 == c.toks@.len() && ident_word(c.stream()[c.pos as int])
            && colon2_at(c.stream(), c.pos as int + 1) && ident_word(c.stream()[c.pos as int
            + 3]) && colon2_at(c.stream(), c.pos as int + 4) && ident_word(c.stream()[c.pos
            as int + 6])) ==> (r matches Ok((c2, v)) && v.leading_colon is None
            && v.segments.pairs().len() == 3 && c2.pos == c.toks@.len() && (forall|i: int| 0
            <= i < v.segments.pairs().len() ==> (#[trigger] v.segments.pairs()[i]).0.parameters
            is Plain)),
    decreases depth,
{
    if depth == 0 {
        return Err(c.err(Some(Label::TooDeep)));
    }
    let d = depth - 1;
    match Colon2::parse(c) {
        Ok((c1, lead)) => {
            let (c2, segs) = parse_segments(c1, true, d)?;
            let v = Path { leading_colon: Some(lead), segments: segs };
            proof {
                lemma_advanced_trans(
                    c,
                    c1,
                    c2,
                    lead.token_seq(),
                    seg_pairs_tokens(v.segments.inner@),
                );
                assert(lead.token_seq() + seg_pairs_tokens(v.segments.inner@)
                    =~= path_tokens(v));
            }
            Ok((c2, v))
        },
        Err(_) => {
            let (c2, segs) = parse_segments(c, true, d)?;
            let v = Path { leading_colon: None, segments: segs };
            proof {
                assert(path_tokens(v) =~= seg_pairs_tokens(v.segments.inner@));
            }
            Ok((c2, v))
        },
    }
}

/// Parses the lifetime phase of an angle-bracketed argument list: a
/// possibly empty comma-separated lifetime run.  The returned flag says
/// whether a type list must follow: it is set when the next token opens
/// one, and in that case a parsed lifetime run ends in its trailing comma.
fn parse_angle_lifetimes(c: Cursor<'_>, depth: u64) -> (r: Result<
    (Cursor<'_>, Delimited<Lifetime, Comma>, bool),
    ParseError,
>)
    requires
        c.wf(),
    ensures
        match r {
            Ok((c2, v, types_expected)) => {
                &&& advanced_le(c, c2, pairs_token_seq(v.inner@))
                &&& c2.wf()
                &&& v.wf_seps()
                &&& v.items_wf()
                &&& (types_expected ==> (v.pairs().len() == 0 || v.trailing_sep()))
            },
            Err(e) => e.pos >= c.off,
        },
    decreases depth,
{
    if depth == 0 {
        return Err(c.err(Some(Label::TooDeep)));
    }
    if !peek_lifetime(c) {
        proof {
            assert(c.stream().subrange(c.pos as int, c.pos as int) =~= Seq::<TokenView>::empty());
            assert(pairs_token_seq(Seq::<(Lifetime, Option<Comma>)>::empty())
                =~= Seq::<TokenView>::empty());
        }
        return Ok((c, Delimited::new(), !peek_gt(c)));
    }
    let (c1, lf) = Lifetime::parse(c)?;
    let mut lifetimes: Delimited<Lifetime, Comma> = Delimited::new();
    lifetimes.push_first(lf);
    proof {
        crate::delimited::lemma_pairs_single::<Lifetime, Comma>(lifetimes.inner@[0].0);
    }
    let mut cur = c1;
    loop
        invariant
            c.wf(),
            cur.wf(),
            advanced(c, cur, pairs_token_seq(lifetimes.inner@)),
            lifetimes.wf_seps(),
            lifetimes.items_wf(),
            lifetimes.pairs().len() >= 1,
            !lifetimes.trailing_sep(),
        decreases cur.toks@.len() - cur.pos,
    {
        let ghost pre = pairs_token_seq(lifetimes.inner@);
        let (cs, comma) = match Comma::parse(cur) {
            Ok(x) => x,
            Err(_) => {
                return Ok((cur, lifetimes, false));
            },
        };
        if peek_lifetime(cs) {
            let (cn, lf2) = match Lifetime::parse(cs) {
                Ok(x) => x,
                Err(e) => {
                    return Err(e);
                },
            };
            proof {
                crate::delimited::lemma_pairs_push_next(lifetimes.pairs(), lf2, comma);
            }
            lifetimes.push_next(lf2, comma);
            proof {
                crate::cursor::lemma_advanced_le_trans(c, cur, cs, pre, comma.token_seq());
                crate::cursor::lemma_advanced_le_trans(
                    c,
                    cs,
                    cn,
                    pre + comma.token_seq(),
                    lf2.token_seq(),
                );
                assert(pre + comma.token_seq() + lf2.token_seq() == pairs_token_seq(
                    lifetimes.inner@,
                ));
            }
            cur = cn;
        } else {
            proof {
                crate::delimited::lemma_pairs_push_trailing(lifetimes.pairs(), comma);
            }
            lifetimes.push_trailing(comma);
            proof {
                crate::cursor::lemma_advanced_le_trans(c, cur, cs, pre, comma.token_seq());
            }
            return Ok((cs, lifetimes, !peek_gt(cs)));
        }
    }
}

/// Parses angle-bracketed generic arguments: `<`, lifetimes, then types,
/// then `>`, comma-separated with an optional trailing comma.
#[verifier::rlimit(60)]
fn parse_angle(c: Cursor<'_>, depth: u64) -> (r: PResult<'_, AngleBracketedParameterData>)
    requires
        c.wf(),
    ensures
        match r {
            Ok((c2, v)) => {
                &&& advanced(c, c2, params_tokens(PathParameters::AngleBracketed(v)))
                &&& c2.wf()
                &&& params_wf(PathParameters::AngleBracketed(v))
            },
            Err(e) => e.pos >= c.off,
        },
    decreases depth,
{
    if depth == 0 {
        return Err(c.err(Some(Label::TooDeep)));
    }
    let d = depth - 1;
    let (c1, lt) = Lt::parse(c)?;
    let (cmid, lifetimes, types_expected) = parse_angle_lifetimes(c1, d)?;
    let mut types: Delimited<Ty, Comma> = Delimited::new();
    let mut cur = cmid;
    if types_expected {
        let (ct, tys) = match parse_ty_gt_list(cmid, d) {
            Ok(x) => x,
            Err(e) => {
                return Err(e);
            },
        };
        types = tys;
        cur = ct;
    }
    let (cend, gt) = Gt::parse(cur)?;
    let v = AngleBracketedParameterData { lt_token: lt, lifetimes, types, gt_token: gt };
    proof {
        if v.types.inner@.len() == 0 {
            assert(ty_pairs_tokens(v.types.inner@) =~= Seq::<TokenView>::empty());
        }
        if !types_expected {
            assert(cmid.stream().subrange(cmid.pos as int, cur.pos as int)
                =~= Seq::<TokenView>::empty());
        }
        crate::cursor::lemma_advanced_le_trans(
            c1,
            cmid,
            cur,
            pairs_token_seq(v.lifetimes.inner@),
            ty_pairs_tokens(v.types.inner@),
        );
        crate::cursor::lemma_advanced_le_trans(
            c,
            c1,
            cur,
            lt.token_seq(),
            pairs_token_seq(v.lifetimes.inner@) + ty_pairs_tokens(v.types.inner@),
        );
        crate::cursor::lemma_advanced_le_trans(
            c,
            cur,
            cend,
            lt.token_seq() + (pairs_token_seq(v.lifetimes.inner@) + ty_pairs_tokens(
                v.types.inner@,
            )),
            gt.token_seq(),
        );
        assert(lt.token_seq() + (pairs_token_seq(v.lifetimes.inner@) + ty_pairs_tokens(
            v.types.inner@,
        )) + gt.token_seq() =~= params_tokens(PathParameters::AngleBracketed(v)));
    }
    Ok((cend, v))
}

/// Parses parenthesized call-style arguments: a parenthesized
/// comma-delimited type list, then an optional return arrow and type.
fn parse_paren_data(c: Cursor<'_>, depth: u64) -> (r: PResult<'_, ParenthesizedParameterData>)
    requires
        c.wf(),
    ensures
        match r {
            Ok((c2, v)) => {
                &&& advanced(c, c2, params_tokens(PathParameters::Parenthesized(v)))
                &&& c2.wf()
                &&& params_wf(PathParameters::Parenthesized(v))
            },
            Err(e) => e.pos >= c.off,
        },
        (depth > 1 && c.pos < c.toks@.len() && (c.stream()[c.pos as int]
            matches TokenView::Group { delim, tts, .. } && delim == Delim::Paren && tts.len()
            == 0) && c.pos + 1 == c.toks@.len()) ==> (r matches Ok((c2, v))
            && v.inputs.pairs().len() == 0 && v.output is None && c2.pos == c.toks@.len()),
        (depth > 0 && !(c.pos < c.toks@.len() && (c.stream()[c.pos as int]
            matches TokenView::Group { delim, .. } && delim == Delim::Paren))) ==> (r matches Err(
        e) && e.pos == c.off && e.label == Some(Label::Ty)),
        r matches Ok((_, v)) ==> (v.inputs.pairs().len() >= 1 ==> ((ty_pairs_tokens(
            v.inputs.inner@,
        ).last() matches TokenView::Punct { ch, .. } && ch == ',')
            <==> v.inputs.trailing_sep())),
    decreases depth,
{
    if depth == 0 {
        return Err(c.err(Some(Label::TooDeep)));
    }
    let d = depth - 1;
    match c.group(Delim::Paren) {
        None => Err(c.err(Some(Label::Ty))),
        Some((inner, sp)) => {
            let (ie, inputs) = parse_ty_terminated(inner, d)?;
            proof {
                if inputs.pairs().len() >= 1 {
                    lemma_ty_list_trailing_iff(inputs.inner@);
                }
            }
            let after = c.after_group(ie.offset());
            let (c2, out) = parse_ret(after, d)?;
            let v = ParenthesizedParameterData {
                paren_token: Paren { span: sp },
                inputs,
                output: out,
            };
            proof {
                let gview = c.stream()[c.pos as int];
                assert(inner.stream().subrange(inner.pos as int, ie.pos as int)
                    =~= inner.stream());
                assert(gview == TokenView::Group {
                    delim: Delim::Paren,
                    tts: ty_pairs_tokens(v.inputs.inner@),
                    span: sp,
                });
                crate::cursor::lemma_advanced_le_trans(
                    c,
                    after,
                    c2,
                    seq![gview],
                    ret_tokens(v.output),
                );
                assert(seq![gview] + ret_tokens(v.output) =~= params_tokens(
                    PathParameters::Parenthesized(v),
                ));
            }
            Ok((c2, v))
        },
    }
}

} // verus!

verus! {

/// The parenthesized branch: a tuple, or the transparent group wrapper
/// when the parentheses hold exactly one type and no comma.
fn parse_paren_ty(c: Cursor<'_>, depth: u64) -> (r: PResult<'_, Ty>)
    requires
        c.wf(),
    ensures
        match r {
            Ok((c2, v)) => {
                &&& advanced(c, c2, ty_tokens(v))
                &&& c2.wf()
                &&& ty_wf(v)
                &&& (v is Tup || v is Group)
            },
            Err(e) => e.pos >= c.off,
        },
        (depth > 0 && !(c.pos < c.toks@.len() && (c.stream()[c.pos as int]
            matches TokenView::Group { delim, .. } && delim == Delim::Paren))) ==> (r matches Err(
        e) && e.pos == c.off && e.label == Some(Label::Ty)),
        (depth > 1 && c.pos < c.toks@.len() && (c.stream()[c.pos as int]
            matches TokenView::Group { delim, tts, .. } && delim == Delim::Paren && tts.len()
            == 0)) ==> (r matches Ok((c2, v)) && (v matches Ty::Tup(t) && t.tys.pairs().len()
            == 0) && c2.pos == c.pos + 1),
        (depth > 6 && c.pos < c.toks@.len() && (c.stream()[c.pos as int]
            matches TokenView::Group { delim, tts, .. } && delim == Delim::Paren && tts.len()
            == 1 && ident_word(tts[0]))) ==> (r matches Ok((c2, v)) && v is Group && c2.pos
            == c.pos + 1),
        (depth > 6 && c.pos < c.toks@.len() && (c.stream()[c.pos as int]
            matches TokenView::Group { delim, tts, .. } && delim == Delim::Paren && tts.len()
            == 2 && ident_word(tts[0]) && (tts[1] matches TokenView::Punct { ch, .. } && ch
            == ','))) ==> (r matches Ok((c2, v)) && (v matches Ty::Tup(t)
            && t.tys.pairs().len() == 1 && t.tys.trailing_sep()) && c2.pos == c.pos + 1),
        (depth > 6 && c.pos < c.toks@.len() && (c.stream()[c.pos as int]
            matches TokenView::Group { delim, tts, .. } && delim == Delim::Paren && tts.len()
            == 4 && ident_word(tts[0]) && (tts[1] matches TokenView::Punct { ch, .. } && ch
            == ',') && ident_word(tts[2]) && (tts[3] matches TokenView::Punct { ch, .. } && ch
            == ','))) ==> (r matches Ok((c2, v)) && (v matches Ty::Tup(t)
            && t.tys.pairs().len() == 2 && t.tys.trailing_sep()) && c2.pos == c.pos + 1),
    decreases depth,
{
    if depth == 0 {
        return Err(c.err(Some(Label::TooDeep)));
    }
    let d = depth - 1;
    match c.group(Delim::Paren) {
        None => Err(c.err(Some(Label::Ty))),
        Some((inner, sp)) => {
            let (ie, list) = parse_ty_terminated(inner, d)?;
            let after = c.after_group(ie.offset());
            let ghost gview = c.stream()[c.pos as int];
            proof {
                assert(inner.stream().subrange(inner.pos as int, ie.pos as int)
                    =~= inner.stream());
                assert(gview == TokenView::Group {
                    delim: Delim::Paren,
                    tts: ty_pairs_tokens(list.inner@),
                    span: sp,
                });
            }
            let single = {
                let n = list.len();
                if n == 1 {
                    match list.pair(0).1 {
                        Some(_) => false,
                        None => true,
                    }
                } else {
                    false
                }
            };
            if single {
                let ghost gpairs = list.inner@;
                match list.into_single() {
                    Some(p) => {
                        let v = Ty::Group(
                            TyGroup { paren_token: Paren { span: sp }, ty: Box::new(p.0) },
                        );
                        proof {
                            assert(gpairs.last() == p);
                            assert(p.1 is None);
                            assert(gpairs.drop_last()
                                =~= Seq::<(Ty, Option<Comma>)>::empty());
                            assert(ty_pairs_tokens(Seq::<(Ty, Option<Comma>)>::empty())
                                =~= Seq::<TokenView>::empty());
                            assert(opt_token_seq(gpairs.last().1) =~= Seq::<TokenView>::empty());
                            assert(ty_pairs_tokens(gpairs) == ty_pairs_tokens(
                                gpairs.drop_last(),
                            ) + ty_tokens(gpairs.last().0) + opt_token_seq(gpairs.last().1));
                            assert(ty_pairs_tokens(gpairs) =~= ty_tokens(p.0));
                            assert(ty_wf(p.0));
                            assert(seq![gview] =~= ty_tokens(v));
                        }
                        Ok((after, v))
                    },
                    None => {
                        proof {
                            assert(false);
                        }
                        Err(c.err(None))
                    },
                }
            } else {
                let v = Ty::Tup(TyTup { paren_token: Paren { span: sp }, tys: list });
                proof {
                    assert(seq![gview] =~= ty_tokens(v));
                }
                Ok((after, v))
            }
        },
    }
}

/// The bare-function branch with no binder.
fn parse_bare_fn_ty(c: Cursor<'_>, depth: u64) -> (r: PResult<'_, Ty>)
    requires
        c.wf(),
    ensures
        match r {
            Ok((c2, v)) => {
                &&& advanced(c, c2, ty_tokens(v))
                &&& c2.wf()
                &&& ty_wf(v)
                &&& v is BareFn
            },
            Err(e) => e.pos >= c.off,
        },
        (depth > 1 && !(c.pos < c.toks@.len() && (c.stream()[c.pos as int]
            matches TokenView::Word { text, .. } && (text == "fn"@ || text == "unsafe"@))))
            ==> (r matches Err(e) && e.pos == c.off),
        (depth > 8 && c.pos + 5 == c.toks@.len() && (c.stream()[c.pos as int]
            matches TokenView::Word { text, .. } && text == "fn"@) && (c.stream()[c.pos as int
            + 1] matches TokenView::Group { delim, tts, .. } && delim == Delim::Paren
            && tts.len() == 1 && ident_word(tts[0])) && (c.stream()[c.pos as int + 2]
            matches TokenView::Punct { ch, joint, .. } && ch == '-' && joint) && (c.stream()[
            c.pos as int + 3
        ] matches TokenView::Punct { ch, .. } && ch == '>') && ident_word(c.stream()[c.pos
            as int + 4])) ==> (r matches Ok((c2, v)) && (v matches Ty::BareFn(f) && f.unsafety
            is None && f.lifetimes is None && f.inputs.pairs().len() == 1 && (
        f.inputs.pairs()[0].0.name is None) && f.output is Some) && c2.pos == c.toks@.len()),
    decreases depth,
{
    if depth == 0 {
        return Err(c.err(Some(Label::TooDeep)));
    }
    let d = depth - 1;
    let (c2, f) = parse_bare_fn(c, None, d)?;
    let v = Ty::BareFn(f);
    proof {
        assert(opt_token_seq(f.lifetimes) + bare_fn_rest_tokens(f) =~= bare_fn_rest_tokens(f));
        assert(ty_tokens(v) =~= bare_fn_rest_tokens(f));
    }
    Ok((c2, v))
}

/// The `for<...>` branch: a higher-rank binder followed by either a bare
/// function type or the first bound of a trait object.
fn parse_for_ty(c: Cursor<'_>, allow_plus: bool, depth: u64) -> (r: PResult<'_, Ty>)
    requires
        c.wf(),
    ensures
        match r {
            Ok((c2, v)) => {
                &&& advanced(c, c2, ty_tokens(v))
                &&& c2.wf()
                &&& ty_wf(v)
                &&& (!allow_plus ==> (v matches Ty::TraitObject(to)
                    ==> to.bounds.pairs().len() == 1))
            },
            Err(e) => e.pos >= c.off,
        },
        (depth > 0 && !(c.pos < c.toks@.len() && (c.stream()[c.pos as int]
            matches TokenView::Word { text, .. } && text == "for"@))) ==> (r matches Err(e)
            && e.pos == c.off),
    decreases depth,
{
    if depth == 0 {
        return Err(c.err(Some(Label::TooDeep)));
    }
    let d = depth - 1;
    let (c1, bl) = BoundLifetimes::parse(c)?;
    let fn_next = match crate::tokens::keyword(c1, "fn") {
        Some(_) => true,
        None => match crate::tokens::keyword(c1, "unsafe") {
            Some(_) => true,
            None => false,
        },
    };
    if fn_next {
        let ghost gbl = bl;
        let (c2, f) = parse_bare_fn(c1, Some(bl), d)?;
        let v = Ty::BareFn(f);
        proof {
            lemma_advanced_trans(c, c1, c2, gbl.token_seq(), bare_fn_rest_tokens(f));
            assert(gbl.token_seq() + bare_fn_rest_tokens(f) =~= ty_tokens(v));
        }
        return Ok((c2, v));
    }
    let ghost gbl = bl;
    let (c2, path) = parse_path(c1, d)?;
    let ghost gpath = path;
    let first = TyParamBound::Trait(PolyTraitRef { bound_lifetimes: Some(bl), trait_ref: path });
    let ghost gfirst = first;
    let (c3, bounds) = more_bounds_obj(c2, first, allow_plus, d)?;
    let v = Ty::TraitObject(TyTraitObject { bounds });
    proof {
        assert(bound_tokens(gfirst) =~= gbl.token_seq() + path_tokens(gpath));
        lemma_advanced_trans(c, c1, c2, gbl.token_seq(), path_tokens(gpath));
        crate::cursor::lemma_subrange_split(
            c.stream(),
            c.pos as int,
            c2.pos as int,
            c3.pos as int,
        );
        assert(ty_tokens(v) =~= c.stream().subrange(c.pos as int, c3.pos as int));
    }
    Ok((c3, v))
}

/// The lifetime branch: a trait object led by a lifetime bound.
fn parse_lifetime_ty(c: Cursor<'_>, allow_plus: bool, depth: u64) -> (r: PResult<'_, Ty>)
    requires
        c.wf(),
    ensures
        match r {
            Ok((c2, v)) => {
                &&& advanced(c, c2, ty_tokens(v))
                &&& c2.wf()
                &&& ty_wf(v)
                &&& (!allow_plus ==> (v matches Ty::TraitObject(to)
                    ==> to.bounds.pairs().len() == 1))
            },
            Err(e) => e.pos >= c.off,
        },
        (depth > 0 && !(c.pos < c.toks@.len() && (c.stream()[c.pos as int]
            matches TokenView::Word { text, .. } && text.len() >= 2 && text[0] == '\'')))
            ==> (r matches Err(e) && e.pos == c.off),
    decreases depth,
{
    if depth == 0 {
        return Err(c.err(Some(Label::TooDeep)));
    }
    let d = depth - 1;
    let (c1, lf) = Lifetime::parse(c)?;
    let ghost glf = lf;
    let first = TyParamBound::Region(lf);
    let ghost gfirst = first;
    let (c2, bounds) = more_bounds_obj(c1, first, allow_plus, d)?;
    let v = Ty::TraitObject(TyTraitObject { bounds });
    proof {
        assert(bound_tokens(gfirst) =~= glf.token_seq());
        crate::cursor::lemma_subrange_split(
            c.stream(),
            c.pos as int,
            c1.pos as int,
            c2.pos as int,
        );
        assert(ty_tokens(v) =~= c.stream().subrange(c.pos as int, c2.pos as int));
    }
    Ok((c2, v))
}

/// The qualified-path branch: `<Ty as Trait>::...` or `<Ty>::...`.
#[verifier::rlimit(60)]
fn parse_qself_ty(c: Cursor<'_>, depth: u64) -> (r: PResult<'_, Ty>)
    requires
        c.wf(),
    ensures
        match r {
            Ok((c2, v)) => {
                &&& advanced(c, c2, ty_tokens(v))
                &&& c2.wf()
                &&& ty_wf(v)
                &&& v is Path
            },
            Err(e) => e.pos >= c.off,
        },
        (depth > 0 && !(c.pos < c.toks@.len() && (c.stream()[c.pos as int]
            matches TokenView::Punct { ch, .. } && ch == '<'))) ==> (r matches Err(e) && e.pos
            == c.off),
    decreases depth,
{
    if depth == 0 {
        return Err(c.err(Some(Label::TooDeep)));
    }
    let d = depth - 1;
    let (c1, lt) = Lt::parse(c)?;
    let (c2, qty) = ambig_ty(c1, true, d)?;
    let (c3, asc) = match As::parse(c2) {
        Ok((ca, a)) => {
            let (cb, p) = parse_path(ca, d)?;
            proof {
                lemma_advanced_trans(c2, ca, cb, a.token_seq(), path_tokens(p));
            }
            (cb, Some((a, p)))
        },
        Err(_) => (c2, None),
    };
    let ghost gasc = asc;
    let (c4, gt) = Gt::parse(c3)?;
    let (c5, col2) = Colon2::parse(c4)?;
    let (c6, segs) = parse_segments(c5, false, d)?;
    let v = Ty::Path(
        TyPath {
            qself: Some(
                QSelf {
                    lt_token: lt,
                    ty: Box::new(qty),
                    as_clause: asc,
                    gt_token: gt,
                    colon2_token: col2,
                },
            ),
            path: Path { leading_colon: None, segments: segs },
        },
    );
    proof {
        let sasc = match gasc {
            Some((a, p)) => a.token_seq() + path_tokens(p),
            None => Seq::<TokenView>::empty(),
        };
        if gasc is None {
            assert(c2.stream().subrange(c2.pos as int, c3.pos as int) =~= sasc);
        }
        crate::cursor::lemma_advanced_le_trans(c, c1, c2, lt.token_seq(), ty_tokens(qty));
        crate::cursor::lemma_advanced_le_trans(c, c2, c3, lt.token_seq() + ty_tokens(qty), sasc);
        crate::cursor::lemma_advanced_le_trans(
            c,
            c3,
            c4,
            lt.token_seq() + ty_tokens(qty) + sasc,
            gt.token_seq(),
        );
        crate::cursor::lemma_advanced_le_trans(
            c,
            c4,
            c5,
            lt.token_seq() + ty_tokens(qty) + sasc + gt.token_seq(),
            col2.token_seq(),
        );
        crate::cursor::lemma_advanced_le_trans(
            c,
            c5,
            c6,
            lt.token_seq() + ty_tokens(qty) + sasc + gt.token_seq() + col2.token_seq(),
            seg_pairs_tokens(segs.inner@),
        );
        assert(path_tokens(Path { leading_colon: None, segments: segs }) =~= seg_pairs_tokens(
            segs.inner@,
        ));
        assert(path_wf(Path { leading_colon: None, segments: segs })) by {
            reveal_with_fuel(path_wf, 2);
        }
        assert(lt.token_seq() + ty_tokens(qty) + sasc + gt.token_seq() + col2.token_seq()
            + seg_pairs_tokens(segs.inner@) =~= ty_tokens(v));
    }
    Ok((c6, v))
}

/// The path branch: a plain path, or a trait object when the flag allows
/// and a `+` follows.
fn parse_path_ty(c: Cursor<'_>, allow_plus: bool, depth: u64) -> (r: PResult<'_, Ty>)
    requires
        c.wf(),
    ensures
        match r {
            Ok((c2, v)) => {
                &&& advanced(c, c2, ty_tokens(v))
                &&& c2.wf()
                &&& ty_wf(v)
                &&& (!allow_plus ==> v is Path)
                &&& (v matches Ty::TraitObject(to) ==> to.bounds.pairs().len() >= 2)
            },
            Err(e) => e.pos >= c.off,
        },
        (depth > 3 && !(c.pos < c.toks@.len() && c.stream()[c.pos as int] is Word)
            && !((c.pos < c.toks@.len() && (c.stream()[c.pos as int]
            matches TokenView::Punct { ch, joint, .. } && ch == ':' && joint)) && c.pos + 1
            < c.toks@.len() && (c.stream()[c.pos as int + 1]
            matches TokenView::Punct { ch: c1, .. } && c1 == ':'))) ==> (r matches Err(e)
            && e.pos == c.off),
        (depth > 3 && !allow_plus && c.pos < c.toks@.len() && ident_word(c.stream()[c.pos
            as int]) && !path_tail_opens(c.stream(), c.pos as int + 1)) ==> (r matches Ok(
            (c2, v),
        ) && v is Path && c2.pos == c.pos + 1 && (c.off < usize::MAX ==> c2.off == c.off + 1)),
        (depth > 5 && allow_plus && c.pos + 2 < c.toks@.len() && ident_word(c.stream()[c.pos
            as int]) && (c.stream()[c.pos as int + 1] matches TokenView::Punct { ch, .. } && ch
            == '+') && ident_word(c.stream()[c.pos as int + 2]) && c.pos + 3 == c.toks@.len())
            ==> (r matches Ok((c2, v)) && (v matches Ty::TraitObject(to)
            && to.bounds.pairs().len() == 2) && c2.pos == c.toks@.len()),
        (depth > 3 && c.pos < c.toks@.len() && ident_word(c.stream()[c.pos as int])
            && !path_tail_opens(c.stream(), c.pos as int + 1) && !(c.pos + 1 < c.toks@.len()
            && (c.stream()[c.pos as int + 1] matches TokenView::Punct { ch, .. } && ch == '+')))
            ==> (r matches Ok((c2, v)) && v is Path && c2.pos == c.pos + 1),
        (depth > 3 && c.pos + 7 == c.toks@.len() && ident_word(c.stream()[c.pos as int])
            && colon2_at(c.stream(), c.pos as int + 1) && ident_word(c.stream()[c.pos as int
            + 3]) && colon2_at(c.stream(), c.pos as int + 4) && ident_word(c.stream()[c.pos
            as int + 6])) ==> (r matches Ok((c2, v)) && (v matches Ty::Path(tp) && tp.qself
            is None && tp.path.leading_colon is None && tp.path.segments.pairs().len() == 3 && (
        forall|i: int| 0 <= i < tp.path.segments.pairs().len()
            ==> (#[trigger] tp.path.segments.pairs()[i]).0.parameters is Plain)) && c2.pos
            == c.toks@.len()),
    decreases depth,
{
    if depth == 0 {
        return Err(c.err(Some(Label::TooDeep)));
    }
    let d = depth - 1;
    let (c1, path) = parse_path(c, d)?;
    if !allow_plus {
        let v = Ty::Path(TyPath { qself: None, path });
        proof {
            assert(ty_tokens(v) =~= path_tokens(v->Path_0.path));
        }
        return Ok((c1, v));
    }
    let ghost gpath = path;
    let first = TyParamBound::Trait(PolyTraitRef { bound_lifetimes: None, trait_ref: path });
    let ghost gfirst = first;
    let (c2, bounds) = more_bounds_obj(c1, first, true, d)?;
    if bounds.len() == 1 {
        let ghost gpairs = bounds.pairs();
        match bounds.into_single() {
            Some(p) => {
                match p.0 {
                    TyParamBound::Trait(ptr) => {
                        let v = Ty::Path(TyPath { qself: None, path: ptr.trait_ref });
                        proof {
                            assert(gpairs[0].0 == gfirst);
                            assert(ptr.trait_ref == gpath);
                            assert(c2.pos == c1.pos);
                            assert(ty_tokens(v) =~= path_tokens(gpath));
                            assert(c.stream().subrange(c.pos as int, c2.pos as int)
                                =~= c.stream().subrange(c.pos as int, c1.pos as int));
                        }
                        Ok((c2, v))
                    },
                    TyParamBound::Region(_) => {
                        proof {
                            assert(false);
                        }
                        Err(c.err(None))
                    },
                }
            },
            None => {
                proof {
                    assert(false);
                }
                Err(c.err(None))
            },
        }
    } else {
        let v = Ty::TraitObject(TyTraitObject { bounds });
        proof {
            assert(bound_tokens(gfirst) =~= path_tokens(gpath));
            crate::cursor::lemma_subrange_split(
                c.stream(),
                c.pos as int,
                c1.pos as int,
                c2.pos as int,
            );
            assert(ty_tokens(v) =~= c.stream().subrange(c.pos as int, c2.pos as int));
        }
        Ok((c2, v))
    }
}

/// The ordered-alternative entry of the type grammar.  Branches are tried
/// in declaration order; the first success wins, and on total failure the
/// failure that progressed furthest into the input is reported, ties going
/// to the earlier branch.
///
/// `allow_plus` resolves the grammar's one ambiguity: whether a `+` after
/// a bound belongs to this type or to a surrounding list.  With the flag
/// off the result is never a `+`-joined list.
pub fn ambig_ty(c: Cursor<'_>, allow_plus: bool, depth: u64) -> (r: PResult<'_, Ty>)
    requires
        c.wf(),
    ensures
        match r {
            Ok((c2, v)) => {
                &&& advanced(c, c2, ty_tokens(v))
                &&& c2.wf()
                &&& ty_wf(v)
                &&& (!allow_plus ==> (v matches Ty::TraitObject(to)
                    ==> to.bounds.pairs().len() == 1))
            },
            Err(e) => e.pos >= c.off,
        },
        (depth > 0 && c.pos < c.toks@.len() && (c.stream()[c.pos as int]
            matches TokenView::Word { text, .. } && text == "_"@)) ==> r is Ok,
        depth == 0 ==> (r matches Err(e) && e.pos == c.off && e.label == Some(Label::TooDeep)),
        (depth > 2 && c.pos < c.toks@.len() && (c.stream()[c.pos as int]
            matches TokenView::Group { delim, tts, .. } && delim == Delim::Paren && tts.len()
            == 0)) ==> (r matches Ok((c2, v)) && (v matches Ty::Tup(t) && t.tys.pairs().len()
            == 0) && c2.pos == c.pos + 1),
        (depth > 4 && no_ty_head(c)) ==> (r matches Err(e) && e.pos == c.off && e.label
            == Some(Label::Ty)),
        (depth > 4 && !allow_plus && c.pos < c.toks@.len() && ident_word(c.stream()[c.pos
            as int]) && !path_tail_opens(c.stream(), c.pos as int + 1)) ==> (r matches Ok(
            (c2, v),
        ) && v is Path && c2.pos == c.pos + 1 && (c.off < usize::MAX ==> c2.off == c.off + 1)),
        (depth > 6 && allow_plus && c.pos + 2 < c.toks@.len() && ident_word(c.stream()[c.pos
            as int]) && (c.stream()[c.pos as int + 1] matches TokenView::Punct { ch, .. } && ch
            == '+') && ident_word(c.stream()[c.pos as int + 2]) && c.pos + 3 == c.toks@.len())
            ==> (r matches Ok((c2, v)) && (v matches Ty::TraitObject(to)
            && to.bounds.pairs().len() == 2) && c2.pos == c.toks@.len()),
        (depth > 4 && c.pos < c.toks@.len() && ident_word(c.stream()[c.pos as int])
            && !path_tail_opens(c.stream(), c.pos as int + 1) && !(c.pos + 1 < c.toks@.len()
            && (c.stream()[c.pos as int + 1] matches TokenView::Punct { ch, .. } && ch == '+')))
            ==> (r matches Ok((c2, v)) && v is Path && c2.pos == c.pos + 1),
        (depth > 7 && c.pos < c.toks@.len() && (c.stream()[c.pos as int]
            matches TokenView::Group { delim, tts, .. } && delim == Delim::Paren && tts.len()
            == 1 && ident_word(tts[0]))) ==> (r matches Ok((c2, v)) && v is Group && c2.pos
            == c.pos + 1),
        (depth > 7 && c.pos < c.toks@.len() && (c.stream()[c.pos as int]
            matches TokenView::Group { delim, tts, .. } && delim == Delim::Paren && tts.len()
            == 2 && ident_word(tts[0]) && (tts[1] matches TokenView::Punct { ch, .. } && ch
            == ','))) ==> (r matches Ok((c2, v)) && (v matches Ty::Tup(t)
            && t.tys.pairs().len() == 1 && t.tys.trailing_sep()) && c2.pos == c.pos + 1),
        (depth > 7 && c.pos < c.toks@.len() && (c.stream()[c.pos as int]
            matches TokenView::Group { delim, tts, .. } && delim == Delim::Paren && tts.len()
            == 4 && ident_word(tts[0]) && (tts[1] matches TokenView::Punct { ch, .. } && ch
            == ',') && ident_word(tts[2]) && (tts[3] matches TokenView::Punct { ch, .. } && ch
            == ','))) ==> (r matches Ok((c2, v)) && (v matches Ty::Tup(t)
            && t.tys.pairs().len() == 2 && t.tys.trailing_sep()) && c2.pos == c.pos + 1),
        (depth > 4 && c.pos + 7 == c.toks@.len() && ident_word(c.stream()[c.pos as int])
            && colon2_at(c.stream(), c.pos as int + 1) && ident_word(c.stream()[c.pos as int
            + 3]) && colon2_at(c.stream(), c.pos as int + 4) && ident_word(c.stream()[c.pos
            as int + 6])) ==> (r matches Ok((c2, v)) && (v matches Ty::Path(tp) && tp.qself
            is None && tp.path.leading_colon is None && tp.path.segments.pairs().len() == 3 && (
        forall|i: int| 0 <= i < tp.path.segments.pairs().len()
            ==> (#[trigger] tp.path.segments.pairs()[i]).0.parameters is Plain)) && c2.pos
            == c.toks@.len()),
        (depth > 9 && c.pos + 5 == c.toks@.len() && (c.stream()[c.pos as int]
            matches TokenView::Word { text, .. } && text == "fn"@) && (c.stream()[c.pos as int
            + 1] matches TokenView::Group { delim, tts, .. } && delim == Delim::Paren
            && tts.len() == 1 && ident_word(tts[0])) && (c.stream()[c.pos as int + 2]
            matches TokenView::Punct { ch, joint, .. } && ch == '-' && joint) && (c.stream()[
            c.pos as int + 3
        ] matches TokenView::Punct { ch, .. } && ch == '>') && ident_word(c.stream()[c.pos
            as int + 4])) ==> (r matches Ok((c2, v)) && (v matches Ty::BareFn(f) && f.unsafety
            is None && f.lifetimes is None && f.inputs.pairs().len() == 1 && (
        f.inputs.pairs()[0].0.name is None) && f.output is Some) && c2.pos == c.toks@.len()),
    decreases depth,
{
    proof {
        reveal_strlit("_");
    }
    if depth == 0 {
        return Err(c.err(Some(Label::TooDeep)));
    }
    let d = depth - 1;
    let e1 = match parse_paren_ty(c, d) {
        Ok(r) => {
            return Ok(r);
        },
        Err(e) => e,
    };
    let e2 = match parse_bare_fn_ty(c, d) {
        Ok(r) => {
            return Ok(r);
        },
        Err(e) => e,
    };
    let e3 = match parse_for_ty(c, allow_plus, d) {
        Ok(r) => {
            return Ok(r);
        },
        Err(e) => e,
    };
    let e4 = match crate::tokens::Underscore::parse(c) {
        Ok((c2, u)) => {
            let v = Ty::Infer(TyInfer { underscore_token: u });
            proof {
                assert(ty_tokens(v) =~= v->Infer_0.underscore_token.token_seq());
            }
            return Ok((c2, v));
        },
        Err(e) => e,
    };
    let e5 = match parse_lifetime_ty(c, allow_plus, d) {
        Ok(r) => {
            return Ok(r);
        },
        Err(e) => e,
    };
    let e6 = match parse_qself_ty(c, d) {
        Ok(r) => {
            return Ok(r);
        },
        Err(e) => e,
    };
    let e7 = match parse_path_ty(c, allow_plus, d) {
        Ok(r) => {
            return Ok(r);
        },
        Err(e) => e,
    };
    Err(
        err_further(
            err_further(
                err_further(err_further(err_further(err_further(e1, e2), e3), e4), e5),
                e6,
            ),
            e7,
        ),
    )
}

/// Parses a parenthesized group holding exactly one type.
fn parse_ty_group(c: Cursor<'_>, depth: u64) -> (r: PResult<'_, TyGroup>)
    requires
        c.wf(),
    ensures
        match r {
            Ok((c2, v)) => {
                &&& advanced(c, c2, v.token_seq())
                &&& c2.wf()
                &&& ty_wf(*v.ty)
            },
            Err(e) => e.pos >= c.off,
        },
        (depth > 0 && !(c.pos < c.toks@.len() && (c.stream()[c.pos as int]
            matches TokenView::Group { delim, .. } && delim == Delim::Paren))) ==> (r matches Err(
        e) && e.pos == c.off && e.label == Some(Label::Ty)),
        (depth > 5 && c.pos < c.toks@.len() && (c.stream()[c.pos as int]
            matches TokenView::Group { delim, tts, .. } && delim == Delim::Paren && tts.len()
            == 1 && ident_word(tts[0]))) ==> (r matches Ok((c2, v)) && (*v.ty) is Path
            && c2.pos == c.pos + 1),
        (depth > 1 && c.pos < c.toks@.len() && (c.stream()[c.pos as int]
            matches TokenView::Group { delim, tts, .. } && delim == Delim::Paren && tts.len()
            == 1 && (tts[0] matches TokenView::Word { text, .. } && text == "_"@))) ==> (
        r matches Ok((c2, _)) && c2.pos == c.pos + 1),
        (depth > 0 && c.off < usize::MAX && c.pos < c.toks@.len() && (c.stream()[c.pos
            as int] matches TokenView::Group { delim, .. } && delim == Delim::Paren)) ==> (
        match r {
            Err(e) => e.pos > c.off,
            Ok(_) => true,
        }),
    decreases depth,
{
    if depth == 0 {
        return Err(c.err(Some(Label::TooDeep)));
    }
    let d = depth - 1;
    match c.group(Delim::Paren) {
        None => Err(c.err(Some(Label::Ty))),
        Some((inner, sp)) => {
            let (ie, t) = ambig_ty(inner, true, d)?;
            if !ie.at_end() {
                return Err(ie.err(Some(Label::Leftover)));
            }
            let after = c.after_group(ie.offset());
            let v = TyGroup { paren_token: Paren { span: sp }, ty: Box::new(t) };
            proof {
                let gview = c.stream()[c.pos as int];
                assert(inner.stream().subrange(inner.pos as int, ie.pos as int)
                    =~= inner.stream());
                assert(gview == TokenView::Group {
                    delim: Delim::Paren,
                    tts: ty_tokens(*v.ty),
                    span: sp,
                });
                assert(seq![gview] =~= v.token_seq());
            }
            Ok((after, v))
        },
    }
}

impl Synom for Ty {
    /// See [`ty_wf`].
    open spec fn wf(&self) -> bool {
        ty_wf(*self)
    }

    fn parse(c: Cursor<'_>) -> (r: PResult<'_, Self>)
        ensures
            (c.pos < c.toks@.len() && (c.stream()[c.pos as int]
                matches TokenView::Word { text, .. } && text == "_"@)) ==> r is Ok,
            no_ty_head(c) ==> (r matches Err(e) && e.pos == c.off && e.label == Some(
                Label::Ty,
            )),
            (c.pos < c.toks@.len() && (c.stream()[c.pos as int]
                matches TokenView::Group { delim, tts, .. } && delim == Delim::Paren
                && tts.len() == 0)) ==> (r matches Ok((c2, v)) && (v matches Ty::Tup(t)
                && t.tys.pairs().len() == 0) && c2.pos == c.pos + 1),
            (c.pos + 2 < c.toks@.len() && ident_word(c.stream()[c.pos as int]) && (c.stream()[
                c.pos as int + 1
            ] matches TokenView::Punct { ch, .. } && ch == '+') && ident_word(c.stream()[c.pos
                as int + 2]) && c.pos + 3 == c.toks@.len()) ==> (r matches Ok((c2, v)) && (
            v matches Ty::TraitObject(to) && to.bounds.pairs().len() == 2) && c2.pos
                == c.toks@.len()),
            (c.pos < c.toks@.len() && (c.stream()[c.pos as int]
                matches TokenView::Group { delim, tts, .. } && delim == Delim::Paren
                && tts.len() == 1 && ident_word(tts[0]))) ==> (r matches Ok((c2, v)) && v
                is Group && c2.pos == c.pos + 1),
            (c.pos < c.toks@.len() && (c.stream()[c.pos as int]
                matches TokenView::Group { delim, tts, .. } && delim == Delim::Paren
                && tts.len() == 2 && ident_word(tts[0]) && (tts[1]
                matches TokenView::Punct { ch, .. } && ch == ','))) ==> (r matches Ok((c2, v))
                && (v matches Ty::Tup(t) && t.tys.pairs().len() == 1 && t.tys.trailing_sep())
                && c2.pos == c.pos + 1),
            (c.pos < c.toks@.len() && (c.stream()[c.pos as int]
                matches TokenView::Group { delim, tts, .. } && delim == Delim::Paren
                && tts.len() == 4 && ident_word(tts[0]) && (tts[1]
                matches TokenView::Punct { ch, .. } && ch == ',') && ident_word(tts[2]) && (
            tts[3] matches TokenView::Punct { ch, .. } && ch == ','))) ==> (r matches Ok(
                (c2, v),
            ) && (v matches Ty::Tup(t) && t.tys.pairs().len() == 2 && t.tys.trailing_sep())
                && c2.pos == c.pos + 1),
            (c.pos + 7 == c.toks@.len() && ident_word(c.stream()[c.pos as int]) && colon2_at(
                c.stream(),
                c.pos as int + 1,
            ) && ident_word(c.stream()[c.pos as int + 3]) && colon2_at(
                c.stream(),
                c.pos as int + 4,
            ) && ident_word(c.stream()[c.pos as int + 6])) ==> (r matches Ok((c2, v)) && (
            v matches Ty::Path(tp) && tp.qself is None && tp.path.leading_colon is None
                && tp.path.segments.pairs().len() == 3 && (forall|i: int| 0 <= i
                < tp.path.segments.pairs().len()
                ==> (#[trigger] tp.path.segments.pairs()[i]).0.parameters is Plain)) && c2.pos
                == c.toks@.len()),
            (c.pos + 5 == c.toks@.len() && (c.stream()[c.pos as int]
                matches TokenView::Word { text, .. } && text == "fn"@) && (c.stream()[c.pos
                as int + 1] matches TokenView::Group { delim, tts, .. } && delim == Delim::Paren
                && tts.len() == 1 && ident_word(tts[0])) && (c.stream()[c.pos as int + 2]
                matches TokenView::Punct { ch, joint, .. } && ch == '-' && joint) && (
            c.stream()[c.pos as int + 3] matches TokenView::Punct { ch, .. } && ch == '>')
                && ident_word(c.stream()[c.pos as int + 4])) ==> (r matches Ok((c2, v)) && (
            v matches Ty::BareFn(f) && f.unsafety is None && f.lifetimes is None
                && f.inputs.pairs().len() == 1 && (f.inputs.pairs()[0].0.name is None)
                && f.output is Some) && c2.pos == c.toks@.len()),
    {
        ambig_ty(c, true, DEPTH_LIMIT)
    }
}

impl Synom for TyGroup {
    open spec fn wf(&self) -> bool {
        ty_wf(*self.ty)
    }

    fn parse(c: Cursor<'_>) -> (r: PResult<'_, Self>)
        ensures
            !(c.pos < c.toks@.len() && (c.stream()[c.pos as int]
                matches TokenView::Group { delim, .. } && delim == Delim::Paren)) ==> (
            r matches Err(e) && e.pos == c.off && e.label == Some(Label::Ty)),
            (c.pos < c.toks@.len() && (c.stream()[c.pos as int]
                matches TokenView::Group { delim, tts, .. } && delim == Delim::Paren
                && tts.len() == 1 && ident_word(tts[0]))) ==> (r matches Ok((c2, v)) && (
            *v.ty) is Path && c2.pos == c.pos + 1),
            (c.pos < c.toks@.len() && (c.stream()[c.pos as int]
                matches TokenView::Group { delim, tts, .. } && delim == Delim::Paren
                && tts.len() == 1 && (tts[0] matches TokenView::Word { text, .. } && text
                == "_"@))) ==> (r matches Ok((c2, _)) && c2.pos == c.pos + 1),
            (c.off < usize::MAX && c.pos < c.toks@.len() && (c.stream()[c.pos as int]
                matches TokenView::Group { delim, .. } && delim == Delim::Paren)) ==> (
            match r {
                Err(e) => e.pos > c.off,
                Ok(_) => true,
            }),
    {
        parse_ty_group(c, DEPTH_LIMIT)
    }
}

impl Synom for TyParamBound {
    /// See [`bound_wf`].
    open spec fn wf(&self) -> bool {
        bound_wf(*self)
    }

    fn parse(c: Cursor<'_>) -> (r: PResult<'_, Self>)
        ensures
            (c.pos < c.toks@.len() && (c.stream()[c.pos as int]
                matches TokenView::Word { text, .. } && text.len() >= 2 && text[0] == '\''))
                ==> r is Ok,
    {
        parse_ty_param_bound(c, DEPTH_LIMIT)
    }
}

impl Synom for Path {
    /// See [`path_wf`].
    open spec fn wf(&self) -> bool {
        path_wf(*self)
    }

    fn parse(c: Cursor<'_>) -> (r: PResult<'_, Self>)
        ensures
            (c.pos < c.toks@.len() && ident_word(c.stream()[c.pos as int])
                && !path_tail_opens(c.stream(), c.pos as int + 1)) ==> (r matches Ok((c2, _))
                && c2.pos == c.pos + 1),
    {
        parse_path(c, DEPTH_LIMIT)
    }
}

impl Synom for ParenthesizedParameterData {
    open spec fn wf(&self) -> bool {
        params_wf(PathParameters::Parenthesized(*self))
    }

    fn parse(c: Cursor<'_>) -> (r: PResult<'_, Self>)
        ensures
            (c.pos < c.toks@.len() && (c.stream()[c.pos as int]
                matches TokenView::Group { delim, tts, .. } && delim == Delim::Paren
                && tts.len() == 0) && c.pos + 1 == c.toks@.len()) ==> (r matches Ok((_, v))
                && v.inputs.pairs().len() == 0 && v.output is None),
            !(c.pos < c.toks@.len() && (c.stream()[c.pos as int]
                matches TokenView::Group { delim, .. } && delim == Delim::Paren)) ==> (
            r matches Err(e) && e.pos == c.off && e.label == Some(Label::Ty)),
            r matches Ok((_, v)) ==> (v.inputs.pairs().len() >= 1 ==> ((ty_pairs_tokens(
                v.inputs.inner@,
            ).last() matches TokenView::Punct { ch, .. } && ch == ',')
                <==> v.inputs.trailing_sep())),
    {
        match parse_paren_data(c, DEPTH_LIMIT) {
            Ok((c2, v)) => {
                proof {
                    assert(params_tokens(PathParameters::Parenthesized(v)) =~= v.token_seq());
                }
                Ok((c2, v))
            },
            Err(e) => Err(e),
        }
    }
}

} // verus!

verus! {

/// The sequence is nonempty and its last token is not a comma.
pub open spec fn non_comma_end(s: Seq<TokenView>) -> bool {
    s.len() > 0 && !(s.last() matches TokenView::Punct { ch, .. } && ch == ',')
}

/// A nonempty right part decides the last token of a concatenation.
proof fn lemma_concat_last(a: Seq<TokenView>, b: Seq<TokenView>)
    requires
        b.len() > 0,
    ensures
        (a + b).len() > 0,
        (a + b).last() == b.last(),
{
    assert((a + b).last() == b[b.len() - 1]);
}

/// A well-formed type expression reproduces at least one token, and its
/// last token is never a comma.
pub proof fn lemma_ty_tokens_last(t: Ty)
    requires
        ty_wf(t),
    ensures
        non_comma_end(ty_tokens(t)),
    decreases t,
{
    match t {
        Ty::Tup(tup) => {
            let g = TokenView::Group {
                delim: Delim::Paren,
                tts: ty_pairs_tokens(tup.tys.inner@),
                span: tup.paren_token.span,
            };
            assert(ty_tokens(t) == seq![g]);
            assert(seq![g].last() == g);
            assert(non_comma_end(ty_tokens(t)));
        },
        Ty::TraitObject(to) => {
            let ps = to.bounds.inner@;
            assert(ty_tokens(t) == bound_pairs_tokens(ps));
            assert(bound_pairs_tokens(ps) == bound_pairs_tokens(ps.drop_last()) + bound_tokens(
                ps.last().0,
            ) + opt_token_seq(ps.last().1));
            assert(bound_pairs_wf(ps));
            assert(bound_wf(ps[ps.len() - 1].0));
            assert(ps.last() == ps[ps.len() - 1]);
            lemma_bound_tokens_last(ps.last().0);
            assert(opt_token_seq(ps.last().1) =~= Seq::<TokenView>::empty());
            assert(bound_pairs_tokens(ps.drop_last()) + bound_tokens(ps.last().0)
                + Seq::<TokenView>::empty() =~= bound_pairs_tokens(ps.drop_last())
                + bound_tokens(ps.last().0));
            lemma_concat_last(bound_pairs_tokens(ps.drop_last()), bound_tokens(ps.last().0));
            assert(non_comma_end(ty_tokens(t)));
        },
        Ty::Path(tp) => {
            lemma_path_tokens_last(tp.path);
            match tp.qself {
                None => {
                    assert(non_comma_end(ty_tokens(t)));
                },
                Some(q) => {
                    let prefix = q.lt_token.token_seq() + ty_tokens(*q.ty) + (match q.as_clause {
                        Some((a, p)) => a.token_seq() + path_tokens(p),
                        None => Seq::<TokenView>::empty(),
                    }) + q.gt_token.token_seq() + q.colon2_token.token_seq();
                    lemma_concat_last(prefix, path_tokens(tp.path));
                    assert(non_comma_end(ty_tokens(t)));
                },
            }
        },
        Ty::Group(g) => {
            assert(ty_tokens(t) =~= seq![
                TokenView::Group {
                    delim: Delim::Paren,
                    tts: ty_tokens(*g.ty),
                    span: g.paren_token.span,
                },
            ]);
            assert(non_comma_end(ty_tokens(t)));
        },
        Ty::Infer(i) => {
            assert(ty_tokens(t) =~= seq![
                TokenView::Word { text: "_"@, span: i.underscore_token.span },
            ]);
            assert(non_comma_end(ty_tokens(t)));
        },
        Ty::BareFn(f) => {
            let head = opt_token_seq(f.lifetimes) + opt_token_seq(f.unsafety)
                + f.fn_token.token_seq();
            let grp = seq![
                TokenView::Group {
                    delim: Delim::Paren,
                    tts: arg_pairs_tokens(f.inputs.inner@),
                    span: f.paren_token.span,
                },
            ];
            match f.output {
                None => {
                    assert(ret_tokens(f.output) =~= Seq::<TokenView>::empty());
                    assert(head + grp + Seq::<TokenView>::empty() =~= head + grp);
                    lemma_concat_last(head, grp);
                    assert(non_comma_end(ty_tokens(t)));
                },
                Some((ar, bt)) => {
                    lemma_ty_tokens_last(*bt);
                    assert(ret_tokens(f.output) =~= ar.token_seq() + ty_tokens(*bt));
                    lemma_concat_last(ar.token_seq(), ty_tokens(*bt));
                    lemma_concat_last(head + grp, ret_tokens(f.output));
                    assert(non_comma_end(ty_tokens(t)));
                },
            }
        },
    }
}

/// A well-formed bound's token sequence is nonempty and never ends in a
/// comma.
proof fn lemma_bound_tokens_last(b: TyParamBound)
    requires
        bound_wf(b),
    ensures
        non_comma_end(bound_tokens(b)),
    decreases b,
{
    match b {
        TyParamBound::Region(lt) => {
            assert(bound_tokens(b) =~= seq![
                TokenView::Word { text: lt.sym@, span: lt.span },
            ]);
        },
        TyParamBound::Trait(ptr) => {
            lemma_path_tokens_last(ptr.trait_ref);
            lemma_concat_last(opt_token_seq(ptr.bound_lifetimes), path_tokens(ptr.trait_ref));
        },
    }
}

/// A well-formed path's token sequence is nonempty and never ends in a
/// comma.
proof fn lemma_path_tokens_last(p: Path)
    requires
        path_wf(p),
    ensures
        non_comma_end(path_tokens(p)),
    decreases p,
{
    let ps = p.segments.inner@;
    assert(path_tokens(p) == opt_token_seq(p.leading_colon) + seg_pairs_tokens(ps));
    assert(seg_pairs_tokens(ps) == seg_pairs_tokens(ps.drop_last()) + seg_tokens(ps.last().0)
        + opt_token_seq(ps.last().1));
    assert(seg_pairs_wf(ps));
    assert(seg_wf(ps[ps.len() - 1].0));
    assert(ps.last() == ps[ps.len() - 1]);
    lemma_seg_tokens_last(ps.last().0);
    assert(opt_token_seq(ps.last().1) =~= Seq::<TokenView>::empty());
    assert(seg_pairs_tokens(ps.drop_last()) + seg_tokens(ps.last().0)
        + Seq::<TokenView>::empty() =~= seg_pairs_tokens(ps.drop_last()) + seg_tokens(
        ps.last().0,
    ));
    lemma_concat_last(seg_pairs_tokens(ps.drop_last()), seg_tokens(ps.last().0));
    lemma_concat_last(opt_token_seq(p.leading_colon), seg_pairs_tokens(ps));
}

/// A well-formed segment's token sequence is nonempty and never ends in a
/// comma.
proof fn lemma_seg_tokens_last(s: PathSegment)
    requires
        seg_wf(s),
    ensures
        non_comma_end(seg_tokens(s)),
    decreases s,
{
    match s.parameters {
        PathParameters::Plain => {
            assert(params_tokens(s.parameters) =~= Seq::<TokenView>::empty());
            assert(seg_tokens(s) =~= seq![
                TokenView::Word { text: s.ident.sym@, span: s.ident.span },
            ]);
        },
        PathParameters::AngleBracketed(ab) => {
            let gt = seq![
                TokenView::Punct { ch: '>', joint: ab.gt_token.joint, span: ab.gt_token.span },
            ];
            assert(params_tokens(s.parameters) =~= (ab.lt_token.token_seq() + pairs_token_seq(
                ab.lifetimes.inner@,
            ) + ty_pairs_tokens(ab.types.inner@)) + gt);
            lemma_concat_last(
                ab.lt_token.token_seq() + pairs_token_seq(ab.lifetimes.inner@)
                    + ty_pairs_tokens(ab.types.inner@),
                gt,
            );
            lemma_concat_last(s.ident.token_seq(), params_tokens(s.parameters));
        },
        PathParameters::Parenthesized(pd) => {
            let grp = seq![
                TokenView::Group {
                    delim: Delim::Paren,
                    tts: ty_pairs_tokens(pd.inputs.inner@),
                    span: pd.paren_token.span,
                },
            ];
            match pd.output {
                None => {
                    assert(ret_tokens(pd.output) =~= Seq::<TokenView>::empty());
                    assert(params_tokens(s.parameters) =~= grp);
                    lemma_concat_last(s.ident.token_seq(), grp);
                },
                Some((ar, bt)) => {
                    lemma_ty_tokens_last(*bt);
                    assert(ret_tokens(pd.output) =~= ar.token_seq() + ty_tokens(*bt));
                    lemma_concat_last(ar.token_seq(), ty_tokens(*bt));
                    lemma_concat_last(grp, ret_tokens(pd.output));
                    lemma_concat_last(s.ident.token_seq(), grp + ret_tokens(pd.output));
                    assert(seg_tokens(s) =~= s.ident.token_seq() + (grp + ret_tokens(
                        pd.output,
                    )));
                },
            }
        },
    }
}

/// Trailing-separator fidelity at the token level: the reconstructed
/// sequence of a well-formed nonempty comma-delimited type list ends in a
/// comma exactly when a trailing separator is recorded.  With the parsers'
/// exact token accounting this carries both directions: a comma standing
/// before the closing delimiter is recorded, and a recorded one stood in
/// the source.
pub proof fn lemma_ty_list_trailing_iff(ps: Seq<(Ty, Option<Comma>)>)
    requires
        ps.len() >= 1,
        ty_pairs_wf(ps),
    ensures
        ty_pairs_tokens(ps).len() > 0,
        ((ty_pairs_tokens(ps).last() matches TokenView::Punct { ch, .. } && ch == ',') <==> ps.last().1 is Some),
{
    assert(ty_pairs_wf(ps));
    assert(ty_wf(ps[ps.len() - 1].0));
    assert(ps.last() == ps[ps.len() - 1]);
    assert(ty_pairs_tokens(ps) == ty_pairs_tokens(ps.drop_last()) + ty_tokens(ps.last().0)
        + opt_token_seq(ps.last().1));
    lemma_ty_tokens_last(ps.last().0);
    match ps.last().1 {
        Some(comma) => {
            assert(opt_token_seq(ps.last().1) =~= seq![
                TokenView::Punct { ch: ',', joint: comma.joint, span: comma.span },
            ]);
            lemma_concat_last(
                ty_pairs_tokens(ps.drop_last()) + ty_tokens(ps.last().0),
                opt_token_seq(ps.last().1),
            );
        },
        None => {
            assert(opt_token_seq(ps.last().1) =~= Seq::<TokenView>::empty());
            assert(ty_pairs_tokens(ps.drop_last()) + ty_tokens(ps.last().0)
                + Seq::<TokenView>::empty() =~= ty_pairs_tokens(ps.drop_last()) + ty_tokens(
                ps.last().0,
            ));
            lemma_concat_last(ty_pairs_tokens(ps.drop_last()), ty_tokens(ps.last().0));
        },
    }
}

} // verus!
