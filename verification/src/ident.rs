//! Identifiers.
//!
//! A word of code, such as a keyword or a variable name.  An identifier
//! consists of at least one character, the first of which has the XID start
//! property and the rest of which have the XID continue property; an
//! underscore may start an identifier as long as it is not the only
//! character.  The empty string, a lone underscore and a lifetime are not
//! identifiers.  An identifier built with [`Ident::try_new`] may be a
//! keyword, though [`Synom::parse`] rejects keywords.

use vstd::prelude::*;

use crate::cursor::{Cursor, Label, PResult, Synom};
use crate::span::Span;
use crate::token::{str_is, Token, TokenView};
use crate::tokens::{lemma_push_one, ToTokens, Tokens};

verus! {

/// Whether a character has the Unicode XID start property.
pub uninterp spec fn xid_start(c: char) -> bool;

/// Whether a character has the Unicode XID continue property.
pub uninterp spec fn xid_continue(c: char) -> bool;

/// Relies on `unicode_xid::UnicodeXID::is_xid_start`: a Unicode table
/// lookup, a function of the character alone.  Its source answers true for
/// ASCII letters and false for every other ASCII character.
#[verifier::external_body]
fn is_xid_start(c: char) -> (r: bool)
    ensures
        r == xid_start(c),
        (('a' <= c && c <= 'z') || ('A' <= c && c <= 'Z')) ==> r,
        (c <= '\x7f' && !('a' <= c && c <= 'z') && !('A' <= c && c <= 'Z')) ==> !r,
{
    unicode_xid::UnicodeXID::is_xid_start(c)
}

/// Relies on `unicode_xid::UnicodeXID::is_xid_continue`: a Unicode table
/// lookup, a function of the character alone.  Its source answers true for
/// ASCII letters, ASCII digits and `_`, and false for every other ASCII
/// character.
#[verifier::external_body]
fn is_xid_continue(c: char) -> (r: bool)
    ensures
        r == xid_continue(c),
        (('a' <= c && c <= 'z') || ('A' <= c && c <= 'Z') || ('0' <= c && c <= '9') || c == '_')
            ==> r,
        (c <= '\x7f' && !('a' <= c && c <= 'z') && !('A' <= c && c <= 'Z') && !('0' <= c && c
            <= '9') && c != '_') ==> !r,
{
    unicode_xid::UnicodeXID::is_xid_continue(c)
}

/// The character shape of a valid identifier: nonempty, starting with an
/// XID start character or an underscore, continuing with XID continue
/// characters, and not a lone underscore.
pub open spec fn ident_chars_valid(s: Seq<char>) -> bool {
    &&& s.len() > 0
    &&& (xid_start(s[0]) || s[0] == '_')
    &&& (forall|i: int| 1 <= i < s.len() ==> xid_continue(#[trigger] s[i]))
    &&& !(s.len() == 1 && s[0] == '_')
}

/// The words that [`Synom::parse`] refuses as identifiers.
pub open spec fn is_keyword(s: Seq<char>) -> bool {
    ||| s == "as"@
    ||| s == "crate"@
    ||| s == "fn"@
    ||| s == "for"@
    ||| s == "self"@
    ||| s == "Self"@
    ||| s == "super"@
    ||| s == "unsafe"@
    ||| s == "where"@
    ||| s == "true"@
    ||| s == "false"@
}

/// Whether the word is one of the refused keywords.
pub fn word_is_keyword(s: &String) -> (r: bool)
    ensures
        r == is_keyword(s@),
{
    str_is(s, "as") || str_is(s, "crate") || str_is(s, "fn") || str_is(s, "for") || str_is(
        s,
        "self",
    ) || str_is(s, "Self") || str_is(s, "super") || str_is(s, "unsafe") || str_is(s, "where")
        || str_is(s, "true") || str_is(s, "false")
}

/// A word of code, with its source position.
#[derive(Clone, Debug, PartialEq)]
pub struct Ident {
    pub sym: String,
    pub span: Span,
}

impl Ident {
    /// Builds an identifier after validating its characters; a keyword is
    /// accepted here.  Returns `None` exactly when the text is not a valid
    /// identifier shape.
    pub fn try_new(sym: String, span: Span) -> (r: Option<Ident>)
        ensures
            r is Some <==> ident_chars_valid(sym@),
            match r {
                Some(id) => id.sym@ == sym@ && id.span == span,
                None => true,
            },
    {
        let n = sym.as_str().unicode_len();
        if n == 0 {
            return None;
        }
        let first = sym.as_str().get_char(0);
        if !(is_xid_start(first) || first == '_') {
            return None;
        }
        if n == 1 && first == '_' {
            return None;
        }
        let mut i: usize = 1;
        while i < n
            invariant
                1 <= i <= n,
                n == sym@.len(),
                forall|j: int| 1 <= j < i ==> xid_continue(#[trigger] sym@[j]),
            decreases n - i,
        {
            if !is_xid_continue(sym.as_str().get_char(i)) {
                return None;
            }
            i = i + 1;
        }
        Some(Ident { sym, span })
    }
}

impl ToTokens for Ident {
    open spec fn token_seq(&self) -> Seq<TokenView> {
        seq![TokenView::Word { text: self.sym@, span: self.span }]
    }

    fn to_tokens(&self, tokens: &mut Tokens) {
        proof {
            lemma_push_one(tokens@, TokenView::Word { text: self.sym@, span: self.span });
        }
        tokens.append(Token::Word { text: self.sym.clone(), span: self.span });
    }
}

impl Synom for Ident {
    /// A parsed identifier is a nonempty word that is not a keyword, not a
    /// lone underscore, and not a lifetime.
    open spec fn wf(&self) -> bool {
        &&& self.sym@.len() > 0
        &&& !is_keyword(self.sym@)
        &&& !(self.sym@.len() == 1 && self.sym@[0] == '_')
        &&& self.sym@[0] != '\''
    }

    fn parse(c: Cursor<'_>) -> (r: PResult<'_, Self>)
        ensures
            r is Ok <==> (c.pos < c.toks@.len() && (c.stream()[c.pos as int]
                matches TokenView::Word { text, .. } && text.len() > 0 && text[0] != '\''
                && !is_keyword(text) && !(text.len() == 1 && text[0] == '_'))),
            r matches Err(e) ==> e.pos == c.off,
            r matches Ok((c2, _)) ==> (c2.pos == c.pos + 1 && (c.off < usize::MAX ==> c2.off
                == c.off + 1)),
    {
        match c.word() {
            Some((c2, span, s)) => {
                if word_is_keyword(s) {
                    return Err(c.err(Some(Label::Ident)));
                }
                if str_is(s, "_") {
                    proof {
                        reveal_strlit("_");
                    }
                    return Err(c.err(Some(Label::Ident)));
                }
                let n = s.as_str().unicode_len();
                if n == 0 {
                    return Err(c.err(Some(Label::Ident)));
                }
                if s.as_str().get_char(0) == '\'' {
                    return Err(c.err(Some(Label::Ident)));
                }
                proof {
                    assert(!(s@.len() == 1 && s@[0] == '_')) by {
                        reveal_strlit("_");
                        assert(s@ != "_"@);
                        if s@.len() == 1 && s@[0] == '_' {
                            assert(s@ =~= "_"@);
                        }
                    }
                }
                Ok((c2, Ident { sym: s.clone(), span }))
            },
            None => Err(c.err(Some(Label::Ident))),
        }
    }
}

} // verus!
