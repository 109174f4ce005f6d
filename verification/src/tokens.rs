//! The output sink for reconstruction.
//!
//! A syntax-tree node can reproduce the token sequence it was parsed from by
//! appending tokens to a [`Tokens`] sink.  Every node type states, through
//! [`ToTokens::token_seq`], exactly which token sequence it stands for; the
//! reconstruction functions are proved to append exactly that sequence, spans
//! included, so reconstruction is lossless.

use vstd::prelude::*;

use crate::cursor::{advanced, Cursor, PResult, Synom};
use crate::span::Span;
use crate::token::{str_is, view_tokens, Token, TokenView};

verus! {

/// An ordered sink of tokens, viewed as the sequence of token views appended
/// so far.
pub struct Tokens {
    pub tts: Vec<Token>,
}

impl View for Tokens {
    type V = Seq<TokenView>;

    open spec fn view(&self) -> Seq<TokenView> {
        view_tokens(self.tts@)
    }
}

impl Tokens {
    /// An empty sink.
    pub fn new() -> (r: Tokens)
        ensures
            r@ == Seq::<TokenView>::empty(),
    {
        Tokens { tts: Vec::new() }
    }

    /// Appends one token.
    pub fn append(&mut self, t: Token)
        ensures
            final(self)@ == old(self)@.push(t@),
    {
        proof {
            let s = self.tts@;
            assert(s.push(t).drop_last() =~= s);
            assert(s.push(t).last() == t);
        }
        self.tts.push(t);
    }

    /// The number of tokens appended so far.
    pub fn len(&self) -> (n: usize)
        ensures
            n == self@.len(),
    {
        proof {
            crate::token::lemma_view_tokens_len(self.tts@);
        }
        self.tts.len()
    }

    /// Hands the appended tokens out as a token tree sequence.
    pub fn into_trees(self) -> (v: Vec<Token>)
        ensures
            view_tokens(v@) == self@,
    {
        self.tts
    }
}

/// The reconstruction capability: a node knows the token sequence it stands
/// for, and can append exactly that sequence to a sink.
pub trait ToTokens: Sized {
    /// The token sequence this node reproduces, spans included.
    spec fn token_seq(&self) -> Seq<TokenView>;

    /// Appends `self.token_seq()` to the sink.
    fn to_tokens(&self, tokens: &mut Tokens)
        ensures
            final(tokens)@ == old(tokens)@ + self.token_seq(),
    ;
}

/// The token sequence of an optional element: empty when absent.
pub open spec fn opt_token_seq<T: ToTokens>(o: Option<T>) -> Seq<TokenView> {
    match o {
        Some(t) => t.token_seq(),
        None => Seq::empty(),
    }
}

/// Appending one token to a sink appends a one-element sequence.
pub proof fn lemma_push_one(s: Seq<TokenView>, t: TokenView)
    ensures
        s.push(t) == s + seq![t],
{
    assert(s.push(t) =~= s + seq![t]);
}

/// The `,` separator token.
#[derive(Clone, Copy, Debug, PartialEq, Eq, Structural)]
pub struct Comma {
    pub span: Span,
    pub joint: bool,
}

impl ToTokens for Comma {
    open spec fn token_seq(&self) -> Seq<TokenView> {
        seq![TokenView::Punct { ch: ',', joint: self.joint, span: self.span }]
    }

    fn to_tokens(&self, tokens: &mut Tokens) {
        proof {
            lemma_push_one(tokens@, TokenView::Punct { ch: ',', joint: self.joint, span: self.span });
        }
        tokens.append(Token::Punct { ch: ',', joint: self.joint, span: self.span });
    }
}

impl Synom for Comma {
    open spec fn wf(&self) -> bool {
        true
    }

    fn parse(c: Cursor<'_>) -> (r: PResult<'_, Self>)
        ensures
            r is Ok <==> (c.pos < c.toks@.len() && (c.stream()[c.pos as int]
                matches TokenView::Punct { ch: c0, .. } && c0 == ',')),
            r matches Err(e) ==> e.pos == c.off,
            r matches Ok((c2, _)) ==> (c2.pos == c.pos + 1 && (c.off < usize::MAX ==> c2.off
                == c.off + 1)),
    {
        match c.punct(',') {
            Some((c2, joint, span)) => {
                let v = Comma { span, joint };
                proof {
                    assert(v.token_seq() =~= seq![
                        TokenView::Punct { ch: ',', joint, span },
                    ]);
                }
                Ok((c2, v))
            },
            None => Err(c.err(None)),
        }
    }
}

/// Matches the keyword `w` at the cursor.
pub fn keyword<'a>(c: Cursor<'a>, w: &str) -> (r: Option<(Cursor<'a>, Span)>)
    requires
        c.wf(),
    ensures
        r is Some <==> (c.pos < c.toks@.len() && (c.stream()[c.pos as int] matches TokenView::Word { text, .. } && text == w@)),
        match r {
            Some((c2, sp)) => {
                &&& advanced(c, c2, seq![TokenView::Word { text: w@, span: sp }])
                &&& c2.pos == c.pos + 1
                &&& (c.off < usize::MAX ==> c2.off == c.off + 1)
                &&& c2.wf()
                &&& c.stream()[c.pos as int] == TokenView::Word { text: w@, span: sp }
            },
            None => true,
        },
{
    match c.word() {
        Some((c2, span, s)) => {
            if str_is(s, w) {
                Some((c2, span))
            } else {
                None
            }
        },
        None => None,
    }
}

/// The `+` separator token.
#[derive(Clone, Copy, Debug, PartialEq, Eq, Structural)]
pub struct Add {
    pub span: Span,
    pub joint: bool,
}

impl ToTokens for Add {
    open spec fn token_seq(&self) -> Seq<TokenView> {
        seq![TokenView::Punct { ch: '+', joint: self.joint, span: self.span }]
    }

    fn to_tokens(&self, tokens: &mut Tokens) {
        proof {
            lemma_push_one(tokens@, TokenView::Punct { ch: '+', joint: self.joint, span: self.span });
        }
        tokens.append(Token::Punct { ch: '+', joint: self.joint, span: self.span });
    }
}

impl Synom for Add {
    open spec fn wf(&self) -> bool {
        true
    }

    fn parse(c: Cursor<'_>) -> (r: PResult<'_, Self>)
        ensures
            r is Ok <==> (c.pos < c.toks@.len() && (c.stream()[c.pos as int]
                matches TokenView::Punct { ch: c0, .. } && c0 == '+')),
            r matches Err(e) ==> e.pos == c.off,
            r matches Ok((c2, _)) ==> (c2.pos == c.pos + 1 && (c.off < usize::MAX ==> c2.off
                == c.off + 1)),
    {
        match c.punct('+') {
            Some((c2, joint, span)) => {
                let v = Add { span, joint };
                proof {
                    assert(v.token_seq() =~= seq![
                        TokenView::Punct { ch: '+', joint, span },
                    ]);
                }
                Ok((c2, v))
            },
            None => Err(c.err(None)),
        }
    }
}

/// The `:` token.
#[derive(Clone, Copy, Debug, PartialEq, Eq, Structural)]
pub struct Colon {
    pub span: Span,
    pub joint: bool,
}

impl ToTokens for Colon {
    open spec fn token_seq(&self) -> Seq<TokenView> {
        seq![TokenView::Punct { ch: ':', joint: self.joint, span: self.span }]
    }

    fn to_tokens(&self, tokens: &mut Tokens) {
        proof {
            lemma_push_one(tokens@, TokenView::Punct { ch: ':', joint: self.joint, span: self.span });
        }
        tokens.append(Token::Punct { ch: ':', joint: self.joint, span: self.span });
    }
}

impl Synom for Colon {
    open spec fn wf(&self) -> bool {
        true
    }

    fn parse(c: Cursor<'_>) -> (r: PResult<'_, Self>)
        ensures
            r is Ok <==> (c.pos < c.toks@.len() && (c.stream()[c.pos as int]
                matches TokenView::Punct { ch: c0, .. } && c0 == ':')),
            r matches Err(e) ==> e.pos == c.off,
            r matches Ok((c2, _)) ==> (c2.pos == c.pos + 1 && (c.off < usize::MAX ==> c2.off
                == c.off + 1)),
    {
        match c.punct(':') {
            Some((c2, joint, span)) => {
                let v = Colon { span, joint };
                proof {
                    assert(v.token_seq() =~= seq![
                        TokenView::Punct { ch: ':', joint, span },
                    ]);
                    assert(v.wf());
                }
                Ok((c2, v))
            },
            None => Err(c.err(None)),
        }
    }
}

/// The `<` token.
#[derive(Clone, Copy, Debug, PartialEq, Eq, Structural)]
pub struct Lt {
    pub span: Span,
    pub joint: bool,
}

impl ToTokens for Lt {
    open spec fn token_seq(&self) -> Seq<TokenView> {
        seq![TokenView::Punct { ch: '<', joint: self.joint, span: self.span }]
    }

    fn to_tokens(&self, tokens: &mut Tokens) {
        proof {
            lemma_push_one(tokens@, TokenView::Punct { ch: '<', joint: self.joint, span: self.span });
        }
        tokens.append(Token::Punct { ch: '<', joint: self.joint, span: self.span });
    }
}

impl Synom for Lt {
    open spec fn wf(&self) -> bool {
        true
    }

    fn parse(c: Cursor<'_>) -> (r: PResult<'_, Self>)
        ensures
            r is Ok <==> (c.pos < c.toks@.len() && (c.stream()[c.pos as int]
                matches TokenView::Punct { ch: c0, .. } && c0 == '<')),
            r matches Err(e) ==> e.pos == c.off,
            r matches Ok((c2, _)) ==> (c2.pos == c.pos + 1 && (c.off < usize::MAX ==> c2.off
                == c.off + 1)),
    {
        match c.punct('<') {
            Some((c2, joint, span)) => {
                let v = Lt { span, joint };
                proof {
                    assert(v.token_seq() =~= seq![
                        TokenView::Punct { ch: '<', joint, span },
                    ]);
                    assert(v.wf());
                }
                Ok((c2, v))
            },
            None => Err(c.err(None)),
        }
    }
}

/// The `>` token.  Within `>>` the first `>` is joint; a joint `>` still
/// closes an angle-bracketed list, which is how nested generic argument
/// lists are told apart from a shift operator.
#[derive(Clone, Copy, Debug, PartialEq, Eq, Structural)]
pub struct Gt {
    pub span: Span,
    pub joint: bool,
}

impl ToTokens for Gt {
    open spec fn token_seq(&self) -> Seq<TokenView> {
        seq![TokenView::Punct { ch: '>', joint: self.joint, span: self.span }]
    }

    fn to_tokens(&self, tokens: &mut Tokens) {
        proof {
            lemma_push_one(tokens@, TokenView::Punct { ch: '>', joint: self.joint, span: self.span });
        }
        tokens.append(Token::Punct { ch: '>', joint: self.joint, span: self.span });
    }
}

impl Synom for Gt {
    open spec fn wf(&self) -> bool {
        true
    }

    fn parse(c: Cursor<'_>) -> (r: PResult<'_, Self>)
        ensures
            r is Ok <==> (c.pos < c.toks@.len() && (c.stream()[c.pos as int]
                matches TokenView::Punct { ch: c0, .. } && c0 == '>')),
            r matches Err(e) ==> e.pos == c.off,
            r matches Ok((c2, _)) ==> (c2.pos == c.pos + 1 && (c.off < usize::MAX ==> c2.off
                == c.off + 1)),
    {
        match c.punct('>') {
            Some((c2, joint, span)) => {
                let v = Gt { span, joint };
                proof {
                    assert(v.token_seq() =~= seq![
                        TokenView::Punct { ch: '>', joint, span },
                    ]);
                    assert(v.wf());
                }
                Ok((c2, v))
            },
            None => Err(c.err(None)),
        }
    }
}

/// The `!` token.
#[derive(Clone, Copy, Debug, PartialEq, Eq, Structural)]
pub struct Bang {
    pub span: Span,
    pub joint: bool,
}

impl ToTokens for Bang {
    open spec fn token_seq(&self) -> Seq<TokenView> {
        seq![TokenView::Punct { ch: '!', joint: self.joint, span: self.span }]
    }

    fn to_tokens(&self, tokens: &mut Tokens) {
        proof {
            lemma_push_one(tokens@, TokenView::Punct { ch: '!', joint: self.joint, span: self.span });
        }
        tokens.append(Token::Punct { ch: '!', joint: self.joint, span: self.span });
    }
}

impl Synom for Bang {
    open spec fn wf(&self) -> bool {
        true
    }

    fn parse(c: Cursor<'_>) -> (r: PResult<'_, Self>)
        ensures
            r is Ok <==> (c.pos < c.toks@.len() && (c.stream()[c.pos as int]
                matches TokenView::Punct { ch: c0, .. } && c0 == '!')),
            r matches Err(e) ==> e.pos == c.off,
            r matches Ok((c2, _)) ==> (c2.pos == c.pos + 1 && (c.off < usize::MAX ==> c2.off
                == c.off + 1)),
    {
        match c.punct('!') {
            Some((c2, joint, span)) => {
                let v = Bang { span, joint };
                proof {
                    assert(v.token_seq() =~= seq![
                        TokenView::Punct { ch: '!', joint, span },
                    ]);
                }
                Ok((c2, v))
            },
            None => Err(c.err(None)),
        }
    }
}

/// The `=` token.
#[derive(Clone, Copy, Debug, PartialEq, Eq, Structural)]
pub struct EqTok {
    pub span: Span,
    pub joint: bool,
}

impl ToTokens for EqTok {
    open spec fn token_seq(&self) -> Seq<TokenView> {
        seq![TokenView::Punct { ch: '=', joint: self.joint, span: self.span }]
    }

    fn to_tokens(&self, tokens: &mut Tokens) {
        proof {
            lemma_push_one(tokens@, TokenView::Punct { ch: '=', joint: self.joint, span: self.span });
        }
        tokens.append(Token::Punct { ch: '=', joint: self.joint, span: self.span });
    }
}

impl Synom for EqTok {
    open spec fn wf(&self) -> bool {
        true
    }

    fn parse(c: Cursor<'_>) -> (r: PResult<'_, Self>)
        ensures
            r is Ok <==> (c.pos < c.toks@.len() && (c.stream()[c.pos as int]
                matches TokenView::Punct { ch: c0, .. } && c0 == '=')),
            r matches Err(e) ==> e.pos == c.off,
            r matches Ok((c2, _)) ==> (c2.pos == c.pos + 1 && (c.off < usize::MAX ==> c2.off
                == c.off + 1)),
    {
        match c.punct('=') {
            Some((c2, joint, span)) => {
                let v = EqTok { span, joint };
                proof {
                    assert(v.token_seq() =~= seq![
                        TokenView::Punct { ch: '=', joint, span },
                    ]);
                }
                Ok((c2, v))
            },
            None => Err(c.err(None)),
        }
    }
}

/// The `::` token: two colons, the first joint.
#[derive(Clone, Copy, Debug, PartialEq, Eq, Structural)]
pub struct Colon2 {
    pub span_a: Span,
    pub span_b: Span,
    pub joint: bool,
}

impl ToTokens for Colon2 {
    open spec fn token_seq(&self) -> Seq<TokenView> {
        seq![
            TokenView::Punct { ch: ':', joint: true, span: self.span_a },
            TokenView::Punct { ch: ':', joint: self.joint, span: self.span_b },
        ]
    }

    fn to_tokens(&self, tokens: &mut Tokens) {
        proof {
            assert(old(tokens)@.push(
                TokenView::Punct { ch: ':', joint: true, span: self.span_a },
            ).push(TokenView::Punct { ch: ':', joint: self.joint, span: self.span_b })
                =~= old(tokens)@ + self.token_seq());
        }
        tokens.append(Token::Punct { ch: ':', joint: true, span: self.span_a });
        tokens.append(Token::Punct { ch: ':', joint: self.joint, span: self.span_b });
    }
}

impl Synom for Colon2 {
    open spec fn wf(&self) -> bool {
        true
    }

    fn parse(c: Cursor<'_>) -> (r: PResult<'_, Self>)
        ensures
            r is Ok <==> (c.pos < c.toks@.len() && (c.stream()[c.pos as int]
                matches TokenView::Punct { ch: a0, joint: j0, .. } && a0 == ':' && j0) && c.pos
                + 1 < c.toks@.len() && (c.stream()[c.pos as int + 1]
                matches TokenView::Punct { ch: a1, .. } && a1 == ':')),
            r matches Err(e) ==> e.pos == c.off,
            r matches Ok((c2, _)) ==> (c2.pos == c.pos + 2 && (c.off + 1 < usize::MAX ==> c2.off
                == c.off + 2)),
    {
        match c.punct(':') {
            Some((c1, j1, sp1)) => {
                if j1 {
                    match c1.punct(':') {
                        Some((c2, j2, sp2)) => {
                            let v = Colon2 { span_a: sp1, span_b: sp2, joint: j2 };
                            proof {
                                crate::cursor::lemma_advanced_trans(
                                    c,
                                    c1,
                                    c2,
                                    seq![TokenView::Punct { ch: ':', joint: true, span: sp1 }],
                                    seq![TokenView::Punct { ch: ':', joint: j2, span: sp2 }],
                                );
                                assert(seq![TokenView::Punct { ch: ':', joint: true, span: sp1 }]
                                    + seq![TokenView::Punct { ch: ':', joint: j2, span: sp2 }]
                                    =~= v.token_seq());
                            }
                            Ok((c2, v))
                        },
                        None => Err(c.err(None)),
                    }
                } else {
                    Err(c.err(None))
                }
            },
            None => Err(c.err(None)),
        }
    }
}

/// The `->` token: a joint `-` followed by `>`.
#[derive(Clone, Copy, Debug, PartialEq, Eq, Structural)]
pub struct RArrow {
    pub span_a: Span,
    pub span_b: Span,
    pub joint: bool,
}

impl ToTokens for RArrow {
    open spec fn token_seq(&self) -> Seq<TokenView> {
        seq![
            TokenView::Punct { ch: '-', joint: true, span: self.span_a },
            TokenView::Punct { ch: '>', joint: self.joint, span: self.span_b },
        ]
    }

    fn to_tokens(&self, tokens: &mut Tokens) {
        proof {
            assert(old(tokens)@.push(
                TokenView::Punct { ch: '-', joint: true, span: self.span_a },
            ).push(TokenView::Punct { ch: '>', joint: self.joint, span: self.span_b })
                =~= old(tokens)@ + self.token_seq());
        }
        tokens.append(Token::Punct { ch: '-', joint: true, span: self.span_a });
        tokens.append(Token::Punct { ch: '>', joint: self.joint, span: self.span_b });
    }
}

impl Synom for RArrow {
    open spec fn wf(&self) -> bool {
        true
    }

    fn parse(c: Cursor<'_>) -> (r: PResult<'_, Self>)
        ensures
            r is Ok <==> (c.pos < c.toks@.len() && (c.stream()[c.pos as int]
                matches TokenView::Punct { ch: a0, joint: j0, .. } && a0 == '-' && j0) && c.pos
                + 1 < c.toks@.len() && (c.stream()[c.pos as int + 1]
                matches TokenView::Punct { ch: a1, .. } && a1 == '>')),
            r matches Err(e) ==> e.pos == c.off,
            r matches Ok((c2, _)) ==> (c2.pos == c.pos + 2 && (c.off + 1 < usize::MAX ==> c2.off
                == c.off + 2)),
    {
        match c.punct('-') {
            Some((c1, j1, sp1)) => {
                if j1 {
                    match c1.punct('>') {
                        Some((c2, j2, sp2)) => {
                            let v = RArrow { span_a: sp1, span_b: sp2, joint: j2 };
                            proof {
                                crate::cursor::lemma_advanced_trans(
                                    c,
                                    c1,
                                    c2,
                                    seq![TokenView::Punct { ch: '-', joint: true, span: sp1 }],
                                    seq![TokenView::Punct { ch: '>', joint: j2, span: sp2 }],
                                );
                                assert(seq![TokenView::Punct { ch: '-', joint: true, span: sp1 }]
                                    + seq![TokenView::Punct { ch: '>', joint: j2, span: sp2 }]
                                    =~= v.token_seq());
                            }
                            Ok((c2, v))
                        },
                        None => Err(c.err(None)),
                    }
                } else {
                    Err(c.err(None))
                }
            },
            None => Err(c.err(None)),
        }
    }
}

/// The `_` placeholder word.
#[derive(Clone, Copy, Debug, PartialEq, Eq, Structural)]
pub struct Underscore {
    pub span: Span,
}

impl ToTokens for Underscore {
    open spec fn token_seq(&self) -> Seq<TokenView> {
        seq![TokenView::Word { text: "_"@, span: self.span }]
    }

    fn to_tokens(&self, tokens: &mut Tokens) {
        proof {
            lemma_push_one(tokens@, TokenView::Word { text: "_"@, span: self.span });
        }
        tokens.append(Token::Word { text: String::from_str("_"), span: self.span });
    }
}

impl Synom for Underscore {
    open spec fn wf(&self) -> bool {
        true
    }

    fn parse(c: Cursor<'_>) -> (r: PResult<'_, Self>)
        ensures
            r is Ok <==> (c.pos < c.toks@.len() && (c.stream()[c.pos as int]
                matches TokenView::Word { text, .. } && text == "_"@)),
            r matches Err(e) ==> e.pos == c.off,
            r matches Ok((c2, _)) ==> (c2.pos == c.pos + 1 && (c.off < usize::MAX ==> c2.off
                == c.off + 1)),
    {
        match keyword(c, "_") {
            Some((c2, span)) => {
                let v = Underscore { span };
                proof {
                    assert(v.token_seq() =~= seq![TokenView::Word { text: "_"@, span }]);
                }
                Ok((c2, v))
            },
            None => Err(c.err(None)),
        }
    }
}

/// The `fn` keyword token.
#[derive(Clone, Copy, Debug, PartialEq, Eq, Structural)]
pub struct Fn_ {
    pub span: Span,
}

impl ToTokens for Fn_ {
    open spec fn token_seq(&self) -> Seq<TokenView> {
        seq![TokenView::Word { text: "fn"@, span: self.span }]
    }

    fn to_tokens(&self, tokens: &mut Tokens) {
        proof {
            lemma_push_one(tokens@, TokenView::Word { text: "fn"@, span: self.span });
        }
        tokens.append(Token::Word { text: String::from_str("fn"), span: self.span });
    }
}

impl Synom for Fn_ {
    open spec fn wf(&self) -> bool {
        true
    }

    fn parse(c: Cursor<'_>) -> (r: PResult<'_, Self>)
        ensures
            r is Ok <==> (c.pos < c.toks@.len() && (c.stream()[c.pos as int]
                matches TokenView::Word { text, .. } && text == "fn"@)),
            r matches Err(e) ==> e.pos == c.off,
            r matches Ok((c2, _)) ==> (c2.pos == c.pos + 1 && (c.off < usize::MAX ==> c2.off
                == c.off + 1)),
    {
        match keyword(c, "fn") {
            Some((c2, span)) => {
                let v = Fn_ { span };
                proof {
                    assert(v.token_seq() =~= seq![TokenView::Word { text: "fn"@, span }]);
                }
                Ok((c2, v))
            },
            None => Err(c.err(None)),
        }
    }
}

/// The `for` keyword token.
#[derive(Clone, Copy, Debug, PartialEq, Eq, Structural)]
pub struct For {
    pub span: Span,
}

impl ToTokens for For {
    open spec fn token_seq(&self) -> Seq<TokenView> {
        seq![TokenView::Word { text: "for"@, span: self.span }]
    }

    fn to_tokens(&self, tokens: &mut Tokens) {
        proof {
            lemma_push_one(tokens@, TokenView::Word { text: "for"@, span: self.span });
        }
        tokens.append(Token::Word { text: String::from_str("for"), span: self.span });
    }
}

impl Synom for For {
    open spec fn wf(&self) -> bool {
        true
    }

    fn parse(c: Cursor<'_>) -> (r: PResult<'_, Self>)
        ensures
            r is Ok <==> (c.pos < c.toks@.len() && (c.stream()[c.pos as int]
                matches TokenView::Word { text, .. } && text == "for"@)),
            r matches Err(e) ==> e.pos == c.off,
            r matches Ok((c2, _)) ==> (c2.pos == c.pos + 1 && (c.off < usize::MAX ==> c2.off
                == c.off + 1)),
    {
        match keyword(c, "for") {
            Some((c2, span)) => {
                let v = For { span };
                proof {
                    assert(v.token_seq() =~= seq![TokenView::Word { text: "for"@, span }]);
                    assert(v.wf());
                }
                Ok((c2, v))
            },
            None => Err(c.err(None)),
        }
    }
}

/// The `unsafe` keyword token.
#[derive(Clone, Copy, Debug, PartialEq, Eq, Structural)]
pub struct Unsafe {
    pub span: Span,
}

impl ToTokens for Unsafe {
    open spec fn token_seq(&self) -> Seq<TokenView> {
        seq![TokenView::Word { text: "unsafe"@, span: self.span }]
    }

    fn to_tokens(&self, tokens: &mut Tokens) {
        proof {
            lemma_push_one(tokens@, TokenView::Word { text: "unsafe"@, span: self.span });
        }
        tokens.append(Token::Word { text: String::from_str("unsafe"), span: self.span });
    }
}

impl Synom for Unsafe {
    open spec fn wf(&self) -> bool {
        true
    }

    fn parse(c: Cursor<'_>) -> (r: PResult<'_, Self>)
        ensures
            r is Ok <==> (c.pos < c.toks@.len() && (c.stream()[c.pos as int]
                matches TokenView::Word { text, .. } && text == "unsafe"@)),
            r matches Err(e) ==> e.pos == c.off,
            r matches Ok((c2, _)) ==> (c2.pos == c.pos + 1 && (c.off < usize::MAX ==> c2.off
                == c.off + 1)),
    {
        match keyword(c, "unsafe") {
            Some((c2, span)) => {
                let v = Unsafe { span };
                proof {
                    assert(v.token_seq() =~= seq![TokenView::Word { text: "unsafe"@, span }]);
                }
                Ok((c2, v))
            },
            None => Err(c.err(None)),
        }
    }
}

/// The span of a `( ... )` pair around a parsed sub-tree.
#[derive(Clone, Copy, Debug, PartialEq, Eq, Structural)]
pub struct Paren {
    pub span: Span,
}

/// The `as` keyword token.
#[derive(Clone, Copy, Debug, PartialEq, Eq, Structural)]
pub struct As {
    pub span: Span,
}

impl ToTokens for As {
    open spec fn token_seq(&self) -> Seq<TokenView> {
        seq![TokenView::Word { text: "as"@, span: self.span }]
    }

    fn to_tokens(&self, tokens: &mut Tokens) {
        proof {
            lemma_push_one(tokens@, TokenView::Word { text: "as"@, span: self.span });
        }
        tokens.append(Token::Word { text: String::from_str("as"), span: self.span });
    }
}

impl Synom for As {
    open spec fn wf(&self) -> bool {
        true
    }

    fn parse(c: Cursor<'_>) -> (r: PResult<'_, Self>)
        ensures
            r is Ok <==> (c.pos < c.toks@.len() && (c.stream()[c.pos as int]
                matches TokenView::Word { text, .. } && text == "as"@)),
            r matches Err(e) ==> e.pos == c.off,
            r matches Ok((c2, _)) ==> (c2.pos == c.pos + 1 && (c.off < usize::MAX ==> c2.off
                == c.off + 1)),
    {
        match c.word() {
            Some((c2, span, s)) => {
                if str_is(s, "as") {
                    let v = As { span };
                    proof {
                        assert(v.token_seq() =~= seq![TokenView::Word { text: "as"@, span }]);
                    }
                    Ok((c2, v))
                } else {
                    Err(c.err(None))
                }
            },
            None => Err(c.err(None)),
        }
    }
}

} // verus!
