//! Literals.
//!
//! A literal is carried as its source text; the boolean words `true` and
//! `false` are recognized specially, as the lexer hands them over as plain
//! words.

use vstd::prelude::*;

use crate::cursor::{Cursor, Label, PResult, Synom};
use crate::mac::TokenTree;
use crate::span::Span;
use crate::token::{str_is, Token, TokenView};
use crate::tokens::{lemma_push_one, ToTokens, Tokens};

verus! {

/// A literal value with its source position.
#[derive(Clone, Debug, PartialEq)]
pub struct Lit {
    pub value: LitKind,
    pub span: Span,
}

/// The kinds of literal: a boolean word, or any other literal as text.
#[derive(Clone, Debug, PartialEq)]
pub enum LitKind {
    Bool(bool),
    Other(String),
}

/// The single token a literal stands for.
pub open spec fn lit_view(l: Lit) -> TokenView {
    match l.value {
        LitKind::Bool(b) => if b {
            TokenView::Word { text: "true"@, span: l.span }
        } else {
            TokenView::Word { text: "false"@, span: l.span }
        },
        LitKind::Other(t) => TokenView::Literal { text: t@, span: l.span },
    }
}

impl Lit {
    /// Turns the literal into the raw token it stands for.
    pub fn into_token_tree(self) -> (r: TokenTree)
        ensures
            r.0@ == lit_view(self),
    {
        let span = self.span;
        let kind = match self.value {
            LitKind::Bool(b) => {
                if b {
                    Token::Word { text: String::from_str("true"), span }
                } else {
                    Token::Word { text: String::from_str("false"), span }
                }
            },
            LitKind::Other(l) => Token::Literal { text: l, span },
        };
        TokenTree(kind)
    }
}

impl ToTokens for Lit {
    open spec fn token_seq(&self) -> Seq<TokenView> {
        seq![lit_view(*self)]
    }

    fn to_tokens(&self, tokens: &mut Tokens) {
        proof {
            lemma_push_one(tokens@, lit_view(*self));
        }
        let t = self.clone_token();
        tokens.append(t);
    }
}

impl Lit {
    /// The raw token this literal stands for, leaving the literal in place.
    fn clone_token(&self) -> (t: Token)
        ensures
            t@ == lit_view(*self),
    {
        let span = self.span;
        match &self.value {
            LitKind::Bool(b) => {
                if *b {
                    Token::Word { text: String::from_str("true"), span }
                } else {
                    Token::Word { text: String::from_str("false"), span }
                }
            },
            LitKind::Other(l) => Token::Literal { text: l.clone(), span },
        }
    }
}

impl Synom for Lit {
    open spec fn wf(&self) -> bool {
        true
    }

    fn parse(c: Cursor<'_>) -> (r: PResult<'_, Self>)
        ensures
            r is Ok <==> (c.pos < c.toks@.len() && (c.stream()[c.pos as int] is Literal
                || (c.stream()[c.pos as int] matches TokenView::Word { text, .. } && (text
                    == "true"@ || text == "false"@)))),
            r matches Err(e) ==> e.pos == c.off,
    {
        match c.literal() {
            Some((c2, span, text)) => Ok(
                (c2, Lit { span, value: LitKind::Other(text.clone()) }),
            ),
            None => {
                match c.word() {
                    Some((c2, span, s)) => {
                        if str_is(s, "true") {
                            Ok((c2, Lit { span, value: LitKind::Bool(true) }))
                        } else if str_is(s, "false") {
                            Ok((c2, Lit { span, value: LitKind::Bool(false) }))
                        } else {
                            Err(c.err(Some(Label::Lit)))
                        }
                    },
                    None => Err(c.err(Some(Label::Lit))),
                }
            },
        }
    }
}

} // verus!
