//! Lifetimes.
//!
//! The lexer spells a lifetime as a single word whose text starts with `'`,
//! so a lifetime carries that full text, apostrophe included.

use vstd::prelude::*;

use crate::cursor::{Cursor, Label, PResult, Synom};
use crate::span::Span;
use crate::token::{Token, TokenView};
use crate::tokens::{lemma_push_one, ToTokens, Tokens};

verus! {

/// A lifetime such as `'a`, carried as its full word text.
#[derive(Clone, Debug, PartialEq)]
pub struct Lifetime {
    pub sym: String,
    pub span: Span,
}

impl ToTokens for Lifetime {
    open spec fn token_seq(&self) -> Seq<TokenView> {
        seq![TokenView::Word { text: self.sym@, span: self.span }]
    }

    fn to_tokens(&self, tokens: &mut Tokens) {
        proof {
            lemma_push_one(tokens@, TokenView::Word { text: self.sym@, span: self.span });
        }
        tokens.append(Token::Word { text: self.sym.clone(), span: self.span });
    }
}

impl Synom for Lifetime {
    /// A parsed lifetime is an apostrophe followed by at least one
    /// character.
    open spec fn wf(&self) -> bool {
        self.sym@.len() >= 2 && self.sym@[0] == '\''
    }

    fn parse(c: Cursor<'_>) -> (r: PResult<'_, Self>)
        ensures
            r is Ok <==> (c.pos < c.toks@.len() && (c.stream()[c.pos as int]
                matches TokenView::Word { text, .. } && text.len() >= 2 && text[0] == '\'')),
            r matches Err(e) ==> e.pos == c.off,
            r matches Ok((c2, _)) ==> (c2.pos == c.pos + 1 && (c.off < usize::MAX ==> c2.off
                == c.off + 1)),
    {
        match c.word() {
            Some((c2, span, s)) => {
                let n = s.as_str().unicode_len();
                if n < 2 {
                    return Err(c.err(Some(Label::Lifetime)));
                }
                if s.as_str().get_char(0) != '\'' {
                    return Err(c.err(Some(Label::Lifetime)));
                }
                Ok((c2, Lifetime { sym: s.clone(), span }))
            },
            None => Err(c.err(Some(Label::Lifetime))),
        }
    }
}

/// True when the next token is a lifetime word, consuming nothing: the
/// lookahead that picks the lifetime branch of a bound or type.
pub fn peek_lifetime(c: Cursor<'_>) -> (r: bool)
    requires
        c.wf(),
    ensures
        r == (c.pos < c.toks@.len() && (c.stream()[c.pos as int] matches TokenView::Word { text, .. }
            && text.len() >= 2 && text[0] == '\'')),
{
    match c.word() {
        Some((_c2, _span, s)) => {
            let n = s.as_str().unicode_len();
            n >= 2 && s.as_str().get_char(0) == '\''
        },
        None => false,
    }
}

} // verus!
