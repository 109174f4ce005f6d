//! Lifetimes and type parameters attached to declarations, and the bound
//! forms the type grammar shares with them.

use vstd::prelude::*;

use crate::attr::{append_attrs, attrs_token_seq, Attribute};
use crate::cursor::{lemma_advanced_trans, Cursor, PResult, Synom};
use crate::delimited::{pairs_token_seq, Delimited};
use crate::lifetime::Lifetime;
use crate::token::TokenView;
use crate::tokens::{opt_token_seq, Add, Colon, Comma, For, Gt, Lt, ToTokens, Tokens};

verus! {

broadcast use crate::token::lemma_view_tokens_len, crate::token::lemma_view_tokens_index;

/// A lifetime definition, e.g. `'a: 'b + 'c`.
#[derive(Debug, PartialEq)]
pub struct LifetimeDef {
    pub attrs: Vec<Attribute>,
    pub lifetime: Lifetime,
    pub colon_token: Option<Colon>,
    pub bounds: Delimited<Lifetime, Add>,
}

impl LifetimeDef {
    /// A bare lifetime definition with no attributes and no bounds.
    pub fn new(lifetime: Lifetime) -> (r: LifetimeDef)
        ensures
            r.attrs@.len() == 0,
            r.lifetime == lifetime,
            r.colon_token is None,
            r.bounds.pairs().len() == 0,
    {
        LifetimeDef {
            attrs: Vec::new(),
            lifetime,
            colon_token: None,
            bounds: Delimited::new(),
        }
    }
}

impl ToTokens for LifetimeDef {
    open spec fn token_seq(&self) -> Seq<TokenView> {
        attrs_token_seq(self.attrs@) + self.lifetime.token_seq() + opt_token_seq(self.colon_token)
            + pairs_token_seq(self.bounds.inner@)
    }

    fn to_tokens(&self, tokens: &mut Tokens) {
        append_attrs(&self.attrs, tokens);
        self.lifetime.to_tokens(tokens);
        match &self.colon_token {
            Some(ct) => ct.to_tokens(tokens),
            None => {
                proof {
                    assert(tokens@ + opt_token_seq(self.colon_token) =~= tokens@);
                }
            },
        }
        self.bounds.to_tokens(tokens);
        proof {
            assert(tokens@ =~= old(tokens)@ + self.token_seq());
        }
    }
}

impl Synom for LifetimeDef {
    /// Bounds appear exactly behind a colon, carry separators between all
    /// items, and never record a trailing separator; parsing produces no
    /// attributes.
    open spec fn wf(&self) -> bool {
        &&& self.attrs@.len() == 0
        &&& self.lifetime.wf()
        &&& self.bounds.wf_seps()
        &&& self.bounds.items_wf()
        &&& !self.bounds.trailing_sep()
        &&& (self.colon_token is None <==> self.bounds.pairs().len() == 0)
    }

    fn parse(c: Cursor<'_>) -> (r: PResult<'_, Self>)
        ensures
            (c.pos + 1 == c.toks@.len() && (c.stream()[c.pos as int]
                matches TokenView::Word { text, .. } && text.len() >= 2 && text[0] == '\''))
                ==> r is Ok,
    {
        let (c1, lt) = Lifetime::parse(c)?;
        match Colon::parse(c1) {
            Ok((c2, colon)) => {
                let (c3, bounds) = Delimited::<Lifetime, Add>::parse_separated_nonempty(c2)?;
                let v = LifetimeDef {
                    attrs: Vec::new(),
                    lifetime: lt,
                    colon_token: Some(colon),
                    bounds,
                };
                proof {
                    lemma_advanced_trans(c, c1, c2, v.lifetime.token_seq(), colon.token_seq());
                    lemma_advanced_trans(
                        c,
                        c2,
                        c3,
                        v.lifetime.token_seq() + colon.token_seq(),
                        pairs_token_seq(v.bounds.inner@),
                    );
                    assert(attrs_token_seq(v.attrs@) =~= Seq::<TokenView>::empty());
                    assert(v.lifetime.token_seq() + colon.token_seq() + pairs_token_seq(
                        v.bounds.inner@,
                    ) =~= v.token_seq());
                }
                Ok((c3, v))
            },
            Err(_) => {
                let v = LifetimeDef {
                    attrs: Vec::new(),
                    lifetime: lt,
                    colon_token: None,
                    bounds: Delimited::new(),
                };
                proof {
                    assert(attrs_token_seq(v.attrs@) =~= Seq::<TokenView>::empty());
                    assert(pairs_token_seq(v.bounds.inner@) =~= Seq::<TokenView>::empty());
                    assert(v.lifetime.token_seq() =~= v.token_seq());
                }
                Ok((c1, v))
            },
        }
    }
}

/// A set of bound lifetimes, e.g. `for<'a, 'b, 'c>`.
#[derive(Debug, PartialEq)]
pub struct BoundLifetimes {
    pub for_token: For,
    pub lt_token: Lt,
    pub lifetimes: Delimited<LifetimeDef, Comma>,
    pub gt_token: Gt,
}

impl ToTokens for BoundLifetimes {
    open spec fn token_seq(&self) -> Seq<TokenView> {
        self.for_token.token_seq() + self.lt_token.token_seq() + pairs_token_seq(
            self.lifetimes.inner@,
        ) + self.gt_token.token_seq()
    }

    fn to_tokens(&self, tokens: &mut Tokens) {
        self.for_token.to_tokens(tokens);
        self.lt_token.to_tokens(tokens);
        self.lifetimes.to_tokens(tokens);
        self.gt_token.to_tokens(tokens);
        proof {
            assert(tokens@ =~= old(tokens)@ + self.token_seq());
        }
    }
}

impl Synom for BoundLifetimes {
    open spec fn wf(&self) -> bool {
        &&& self.lifetimes.wf_seps()
        &&& self.lifetimes.items_wf()
        &&& !self.lifetimes.trailing_sep()
    }

    fn parse(c: Cursor<'_>) -> (r: PResult<'_, Self>)
        ensures
            !(c.pos < c.toks@.len() && (c.stream()[c.pos as int]
                matches TokenView::Word { text, .. } && text == "for"@)) ==> (r matches Err(e)
                && e.pos == c.off),
            (c.pos + 2 < c.toks@.len() && (c.stream()[c.pos as int]
                matches TokenView::Word { text, .. } && text == "for"@) && (c.stream()[c.pos
                as int + 1] matches TokenView::Punct { ch: a1, .. } && a1 == '<') && (c.stream()[
                c.pos as int + 2
            ] matches TokenView::Punct { ch: a2, .. } && a2 == '>')) ==> r is Ok,
    {
        let (c1, f) = For::parse(c)?;
        let (c2, lt) = Lt::parse(c1)?;
        match Gt::parse(c2) {
            Ok((c3, gt)) => {
                let v = BoundLifetimes {
                    for_token: f,
                    lt_token: lt,
                    lifetimes: Delimited::new(),
                    gt_token: gt,
                };
                proof {
                    lemma_advanced_trans(c, c1, c2, f.token_seq(), lt.token_seq());
                    lemma_advanced_trans(
                        c,
                        c2,
                        c3,
                        f.token_seq() + lt.token_seq(),
                        gt.token_seq(),
                    );
                    assert(pairs_token_seq(v.lifetimes.inner@) =~= Seq::<TokenView>::empty());
                    assert(f.token_seq() + lt.token_seq() + gt.token_seq() =~= v.token_seq());
                }
                Ok((c3, v))
            },
            Err(_) => {
                let (c3, defs) = Delimited::<LifetimeDef, Comma>::parse_separated_nonempty(c2)?;
                let (c4, gt) = Gt::parse(c3)?;
                let v = BoundLifetimes {
                    for_token: f,
                    lt_token: lt,
                    lifetimes: defs,
                    gt_token: gt,
                };
                proof {
                    lemma_advanced_trans(c, c1, c2, f.token_seq(), lt.token_seq());
                    lemma_advanced_trans(
                        c,
                        c2,
                        c3,
                        f.token_seq() + lt.token_seq(),
                        pairs_token_seq(v.lifetimes.inner@),
                    );
                    lemma_advanced_trans(
                        c,
                        c3,
                        c4,
                        f.token_seq() + lt.token_seq() + pairs_token_seq(v.lifetimes.inner@),
                        gt.token_seq(),
                    );
                    assert(f.token_seq() + lt.token_seq() + pairs_token_seq(v.lifetimes.inner@)
                        + gt.token_seq() =~= v.token_seq());
                }
                Ok((c4, v))
            },
        }
    }
}

/// A bound on a type parameter or in a trait object: a trait reference, or
/// a lifetime region.
#[derive(Debug, PartialEq)]
pub enum TyParamBound {
    Trait(crate::ty::PolyTraitRef),
    Region(Lifetime),
}

} // verus!

verus! {

/// A generic type parameter, e.g. `T: Into<String>`.
#[derive(Debug, PartialEq)]
pub struct TyParam {
    pub attrs: Vec<Attribute>,
    pub ident: crate::ident::Ident,
    pub colon_token: Option<Colon>,
    pub bounds: Delimited<TyParamBound, Add>,
    pub eq_token: Option<crate::tokens::EqTok>,
    pub default: Option<crate::ty::Ty>,
}

impl TyParam {
    /// A bare type parameter with no attributes, bounds or default.
    pub fn from(ident: crate::ident::Ident) -> (r: TyParam)
        ensures
            r.attrs@.len() == 0,
            r.ident == ident,
            r.colon_token is None,
            r.bounds.pairs().len() == 0,
            r.eq_token is None,
            r.default is None,
    {
        TyParam {
            attrs: vec![],
            ident,
            colon_token: None,
            bounds: Delimited::new(),
            eq_token: None,
            default: None,
        }
    }
}

/// Lifetimes and type parameters attached to a declaration of a function,
/// enum, trait, or other item.  The two lists share the comma convention
/// of the angle-bracket grammar: a separator is attached to the item it
/// follows, so when type parameters follow lifetimes the last lifetime
/// carries the comma between the lists.
#[derive(Debug, PartialEq)]
pub struct Generics {
    pub lt_token: Option<Lt>,
    pub gt_token: Option<Gt>,
    pub lifetimes: Delimited<LifetimeDef, Comma>,
    pub ty_params: Delimited<TyParam, Comma>,
}

impl Default for Generics {
    fn default() -> (r: Generics)
        ensures
            r.lt_token is None,
            r.gt_token is None,
            r.lifetimes.pairs().len() == 0,
            r.ty_params.pairs().len() == 0,
    {
        Generics {
            lt_token: None,
            gt_token: None,
            lifetimes: Delimited::new(),
            ty_params: Delimited::new(),
        }
    }
}

impl Generics {
    /// The two reconstruction views of a declaration's generics.
    pub fn split_for_impl(&self) -> (r: (ImplGenerics<'_>, TyGenerics<'_>))
        ensures
            r.0.0 == self,
            r.1.0 == self,
    {
        (ImplGenerics(self), TyGenerics(self))
    }
}

/// Reconstruction view of generics as they stand on an `impl`: every
/// lifetime definition and every type parameter with its bounds, without
/// defaults.
#[derive(Clone, Copy)]
pub struct ImplGenerics<'a>(pub &'a Generics);

/// Reconstruction view of generics as they stand after a type's name:
/// just the lifetime and parameter names.
#[derive(Clone, Copy)]
pub struct TyGenerics<'a>(pub &'a Generics);

/// The opening angle bracket: the recorded token, or a zero-span
/// placeholder for generics built programmatically.
pub open spec fn angle_open_tokens(o: Option<Lt>) -> Seq<TokenView> {
    match o {
        Some(lt) => lt.token_seq(),
        None => seq![
            TokenView::Punct { ch: '<', joint: false, span: crate::span::Span(0u32) },
        ],
    }
}

/// The closing angle bracket, as [`angle_open_tokens`].
pub open spec fn angle_close_tokens(o: Option<Gt>) -> Seq<TokenView> {
    match o {
        Some(gt) => gt.token_seq(),
        None => seq![
            TokenView::Punct { ch: '>', joint: false, span: crate::span::Span(0u32) },
        ],
    }
}

/// One type parameter as printed on an `impl`: attributes, name, bounds;
/// no default.
pub open spec fn ty_param_impl_tokens(tp: TyParam) -> Seq<TokenView> {
    attrs_token_seq(tp.attrs@) + tp.ident.token_seq() + opt_token_seq(tp.colon_token)
        + pairs_token_seq(tp.bounds.inner@)
}

/// A type-parameter list as printed on an `impl`.
pub open spec fn ty_params_impl_tokens(ps: Seq<(TyParam, Option<Comma>)>) -> Seq<TokenView>
    decreases ps.len(),
{
    if ps.len() == 0 {
        Seq::empty()
    } else {
        ty_params_impl_tokens(ps.drop_last()) + ty_param_impl_tokens(ps.last().0)
            + opt_token_seq(ps.last().1)
    }
}

/// A lifetime-definition list reduced to the lifetime names.
pub open spec fn lifetime_names_tokens(ps: Seq<(LifetimeDef, Option<Comma>)>) -> Seq<TokenView>
    decreases ps.len(),
{
    if ps.len() == 0 {
        Seq::empty()
    } else {
        lifetime_names_tokens(ps.drop_last()) + ps.last().0.lifetime.token_seq()
            + opt_token_seq(ps.last().1)
    }
}

/// A type-parameter list reduced to the parameter names.
pub open spec fn ty_param_names_tokens(ps: Seq<(TyParam, Option<Comma>)>) -> Seq<TokenView>
    decreases ps.len(),
{
    if ps.len() == 0 {
        Seq::empty()
    } else {
        ty_param_names_tokens(ps.drop_last()) + ps.last().0.ident.token_seq()
            + opt_token_seq(ps.last().1)
    }
}

/// The whole `impl`-side reconstruction: nothing at all for empty
/// generics.
pub open spec fn impl_generics_tokens(g: Generics) -> Seq<TokenView> {
    if g.lifetimes.inner@.len() == 0 && g.ty_params.inner@.len() == 0 {
        Seq::empty()
    } else {
        angle_open_tokens(g.lt_token) + pairs_token_seq(g.lifetimes.inner@)
            + ty_params_impl_tokens(g.ty_params.inner@) + angle_close_tokens(g.gt_token)
    }
}

/// The whole name-side reconstruction: nothing at all for empty generics.
pub open spec fn ty_generics_tokens(g: Generics) -> Seq<TokenView> {
    if g.lifetimes.inner@.len() == 0 && g.ty_params.inner@.len() == 0 {
        Seq::empty()
    } else {
        angle_open_tokens(g.lt_token) + lifetime_names_tokens(g.lifetimes.inner@)
            + ty_param_names_tokens(g.ty_params.inner@) + angle_close_tokens(g.gt_token)
    }
}

/// Appends the recorded or placeholder `<`.
fn print_angle_open(o: &Option<Lt>, tokens: &mut Tokens)
    ensures
        final(tokens)@ == old(tokens)@ + angle_open_tokens(*o),
{
    match o {
        Some(lt) => lt.to_tokens(tokens),
        None => {
            proof {
                crate::tokens::lemma_push_one(
                    tokens@,
                    TokenView::Punct { ch: '<', joint: false, span: crate::span::Span(0u32) },
                );
            }
            tokens.append(
                crate::token::Token::Punct {
                    ch: '<',
                    joint: false,
                    span: crate::span::Span(0),
                },
            );
        },
    }
}

/// Appends the recorded or placeholder `>`.
fn print_angle_close(o: &Option<Gt>, tokens: &mut Tokens)
    ensures
        final(tokens)@ == old(tokens)@ + angle_close_tokens(*o),
{
    match o {
        Some(gt) => gt.to_tokens(tokens),
        None => {
            proof {
                crate::tokens::lemma_push_one(
                    tokens@,
                    TokenView::Punct { ch: '>', joint: false, span: crate::span::Span(0u32) },
                );
            }
            tokens.append(
                crate::token::Token::Punct {
                    ch: '>',
                    joint: false,
                    span: crate::span::Span(0),
                },
            );
        },
    }
}

impl<'a> ToTokens for ImplGenerics<'a> {
    open spec fn token_seq(&self) -> Seq<TokenView> {
        impl_generics_tokens(*self.0)
    }

    #[verifier::rlimit(60)]
    fn to_tokens(&self, tokens: &mut Tokens) {
        let empty = self.0.lifetimes.is_empty() && self.0.ty_params.is_empty();
        if empty {
            proof {
                assert(tokens@ + self.token_seq() =~= tokens@);
            }
            return;
        }
        print_angle_open(&self.0.lt_token, tokens);
        self.0.lifetimes.to_tokens(tokens);
        let ps = &self.0.ty_params.inner;
        let n = ps.len();
        let mut i: usize = 0;
        let ghost mid = tokens@;
        proof {
            assert(tokens@ =~= mid + ty_params_impl_tokens(ps@.take(0)));
        }
        while i < n
            invariant
                n == ps@.len(),
                i <= n,
                tokens@ == mid + ty_params_impl_tokens(ps@.take(i as int)),
            decreases n - i,
        {
            let p = &ps[i];
            append_attrs(&p.0.attrs, tokens);
            p.0.ident.to_tokens(tokens);
            match &p.0.colon_token {
                Some(col) => col.to_tokens(tokens),
                None => {},
            }
            p.0.bounds.to_tokens(tokens);
            match &p.1 {
                Some(comma) => comma.to_tokens(tokens),
                None => {},
            }
            proof {
                assert(ps@.take(i as int + 1).drop_last() =~= ps@.take(i as int));
                assert(ps@.take(i as int + 1).last() == ps@[i as int]);
                assert(tokens@ =~= mid + ty_params_impl_tokens(ps@.take(i as int + 1)));
            }
            i = i + 1;
        }
        print_angle_close(&self.0.gt_token, tokens);
        proof {
            assert(ps@.take(n as int) =~= ps@);
            assert(tokens@ =~= old(tokens)@ + self.token_seq());
        }
    }
}

impl<'a> ToTokens for TyGenerics<'a> {
    open spec fn token_seq(&self) -> Seq<TokenView> {
        ty_generics_tokens(*self.0)
    }

    fn to_tokens(&self, tokens: &mut Tokens) {
        let empty = self.0.lifetimes.is_empty() && self.0.ty_params.is_empty();
        if empty {
            proof {
                assert(tokens@ + self.token_seq() =~= tokens@);
            }
            return;
        }
        print_angle_open(&self.0.lt_token, tokens);
        let ls = &self.0.lifetimes.inner;
        let ln = ls.len();
        let mut i: usize = 0;
        let ghost mid = tokens@;
        proof {
            assert(tokens@ =~= mid + lifetime_names_tokens(ls@.take(0)));
        }
        while i < ln
            invariant
                ln == ls@.len(),
                i <= ln,
                tokens@ == mid + lifetime_names_tokens(ls@.take(i as int)),
            decreases ln - i,
        {
            let p = &ls[i];
            p.0.lifetime.to_tokens(tokens);
            match &p.1 {
                Some(comma) => comma.to_tokens(tokens),
                None => {},
            }
            proof {
                assert(ls@.take(i as int + 1).drop_last() =~= ls@.take(i as int));
                assert(ls@.take(i as int + 1).last() == ls@[i as int]);
                assert(tokens@ =~= mid + lifetime_names_tokens(ls@.take(i as int + 1)));
            }
            i = i + 1;
        }
        let ps = &self.0.ty_params.inner;
        let pn = ps.len();
        let mut j: usize = 0;
        let ghost mid2 = tokens@;
        proof {
            assert(ls@.take(ln as int) =~= ls@);
            assert(tokens@ =~= mid2 + ty_param_names_tokens(ps@.take(0)));
        }
        while j < pn
            invariant
                pn == ps@.len(),
                j <= pn,
                tokens@ == mid2 + ty_param_names_tokens(ps@.take(j as int)),
            decreases pn - j,
        {
            let p = &ps[j];
            p.0.ident.to_tokens(tokens);
            match &p.1 {
                Some(comma) => comma.to_tokens(tokens),
                None => {},
            }
            proof {
                assert(ps@.take(j as int + 1).drop_last() =~= ps@.take(j as int));
                assert(ps@.take(j as int + 1).last() == ps@[j as int]);
                assert(tokens@ =~= mid2 + ty_param_names_tokens(ps@.take(j as int + 1)));
            }
            j = j + 1;
        }
        print_angle_close(&self.0.gt_token, tokens);
        proof {
            assert(ps@.take(pn as int) =~= ps@);
            assert(tokens@ =~= old(tokens)@ + self.token_seq());
        }
    }
}

} // verus!
