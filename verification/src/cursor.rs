//! The token cursor, the parse-result model, and the parsing capability.
//!
//! A [`Cursor`] is an immutable, cheaply copyable position within one level of
//! a token tree.  Parsing never mutates a tree: every successful step returns
//! a *new* cursor past the consumed tokens, and a failed step leaves the
//! original cursor untouched and reusable for the next alternative.
//!
//! A parse attempt returns either the advanced cursor together with the
//! parsed value, or a [`ParseError`] carrying the furthest offset reached and
//! an optional descriptive label.  Grammar rules compose the classic
//! combinator patterns over this model: sequencing threads the cursor
//! forward and fails atomically; ordered alternation tries branches in
//! declaration order and, on total failure, keeps the failure that progressed
//! furthest (ties go to the earlier branch, see [`err_further`]); an optional
//! element succeeds with `None` only when its parser failed without consuming
//! input; repetition drives the list parsers of the `delimited` module.

use vstd::prelude::*;

use crate::span::Span;
use crate::token::{view_tokens, Delim, Token, TokenView};
use crate::tokens::ToTokens;

verus! {

broadcast use crate::token::lemma_view_tokens_len, crate::token::lemma_view_tokens_index;

/// An immutable position within one nesting level of a token tree.
///
/// `toks` are the sibling tokens of the current level, `pos` the index of the
/// next unconsumed one.  `off` is a monotone progress offset: it grows with
/// every atomic token the parse walks over, across nesting levels, so that
/// the failure positions of different alternatives are comparable even when
/// one of them failed deep inside a group.
#[derive(Clone, Copy)]
pub struct Cursor<'a> {
    pub toks: &'a Vec<Token>,
    pub pos: usize,
    pub off: usize,
}

/// A structured parse failure: the progress offset reached, and an optional
/// label describing what was being parsed.
#[derive(Clone, Copy, Debug, PartialEq, Eq, Structural)]
pub struct ParseError {
    pub pos: usize,
    pub label: Option<Label>,
}

/// Descriptive labels for parse failures.
#[derive(Clone, Copy, Debug, PartialEq, Eq, Structural)]
pub enum Label {
    /// An identifier was expected.
    Ident,
    /// A lifetime was expected.
    Lifetime,
    /// A literal was expected.
    Lit,
    /// A path was expected.
    Path,
    /// A type expression was expected.
    Ty,
    /// A macro invocation was expected.
    Mac,
    /// The input nests deeper than the recursion budget allows.
    TooDeep,
    /// Parsing succeeded without consuming the whole input.
    Leftover,
}

/// The result of one parse attempt: the remaining cursor and the value, or a
/// structured failure.
pub type PResult<'a, T> = Result<(Cursor<'a>, T), ParseError>;

impl<'a> Cursor<'a> {
    /// The views of all sibling tokens at this nesting level.
    pub open spec fn stream(self) -> Seq<TokenView> {
        view_tokens(self.toks@)
    }

    /// The cursor position lies within its token list.
    pub open spec fn wf(self) -> bool {
        self.pos <= self.toks@.len()
    }

    /// A root cursor at the start of a token list.
    pub fn new(toks: &'a Vec<Token>) -> (c: Cursor<'a>)
        ensures
            c.wf(),
            c.pos == 0,
            c.off == 0,
            c.stream() == view_tokens(toks@),
            c.toks@.len() == toks@.len(),
    {
        Cursor { toks, pos: 0, off: 0 }
    }

    /// True when every token of this level has been consumed.
    pub fn at_end(self) -> (r: bool)
        requires
            self.wf(),
        ensures
            r == (self.pos == self.toks@.len()),
    {
        self.pos >= self.toks.len()
    }

    /// The progress offset, for building failure positions.
    pub fn offset(self) -> (r: usize)
        ensures
            r == self.off,
    {
        self.off
    }

    /// A failure at the current position.
    pub fn err(self, label: Option<Label>) -> (e: ParseError)
        ensures
            e.pos == self.off,
            e.label == label,
    {
        ParseError { pos: self.off, label }
    }

    /// The next atomic token and the cursor past it, or `None` when this
    /// level is exhausted.  A group counts as one token here; this never
    /// descends into a group, and never ascends past the end of one.
    pub fn advance(self) -> (r: Option<(Cursor<'a>, &'a Token)>)
        requires
            self.wf(),
        ensures
            r is Some <==> self.pos < self.toks@.len(),
            match r {
                Some((c2, t)) => {
                    &&& advanced(self, c2, seq![t@])
                    &&& c2.pos == self.pos + 1
                    &&& (self.off < usize::MAX ==> c2.off == self.off + 1)
                    &&& t@ == self.stream()[self.pos as int]
                },
                None => self.pos == self.toks@.len(),
            },
    {
        if self.pos < self.toks.len() {
            let t = &self.toks[self.pos];
            let c2 = Cursor { toks: self.toks, pos: self.pos + 1, off: bump(self.off) };
            proof {
                lemma_one_token(self, c2);
            }
            Some((c2, t))
        } else {
            None
        }
    }

    /// The next token if it is a word, with its span and text.
    pub fn word(self) -> (r: Option<(Cursor<'a>, Span, &'a String)>)
        requires
            self.wf(),
        ensures
            r is Some <==> (self.pos < self.toks@.len() && self.stream()[self.pos as int] is Word),
            match r {
                Some((c2, sp, s)) => {
                    &&& advanced(self, c2, seq![TokenView::Word { text: s@, span: sp }])
                    &&& c2.pos == self.pos + 1
                    &&& (self.off < usize::MAX ==> c2.off == self.off + 1)
                    &&& self.stream()[self.pos as int] == TokenView::Word { text: s@, span: sp }
                },
                None => true,
            },
    {
        if self.pos < self.toks.len() {
            match &self.toks[self.pos] {
                Token::Word { text, span } => {
                    let c2 = Cursor { toks: self.toks, pos: self.pos + 1, off: bump(self.off) };
                    proof {
                        lemma_one_token(self, c2);
                    }
                    Some((c2, *span, text))
                },
                _ => None,
            }
        } else {
            None
        }
    }

    /// The next token if it is a literal, with its span and text.
    pub fn literal(self) -> (r: Option<(Cursor<'a>, Span, &'a String)>)
        requires
            self.wf(),
        ensures
            r is Some <==> (self.pos < self.toks@.len() && self.stream()[self.pos as int] is Literal),
            match r {
                Some((c2, sp, s)) => {
                    &&& advanced(self, c2, seq![TokenView::Literal { text: s@, span: sp }])
                    &&& c2.pos == self.pos + 1
                    &&& (self.off < usize::MAX ==> c2.off == self.off + 1)
                    &&& self.stream()[self.pos as int] == TokenView::Literal { text: s@, span: sp }
                },
                None => true,
            },
    {
        if self.pos < self.toks.len() {
            match &self.toks[self.pos] {
                Token::Literal { text, span } => {
                    let c2 = Cursor { toks: self.toks, pos: self.pos + 1, off: bump(self.off) };
                    proof {
                        lemma_one_token(self, c2);
                    }
                    Some((c2, *span, text))
                },
                _ => None,
            }
        } else {
            None
        }
    }

    /// The next token if it is the punctuation character `ch`, with its
    /// spacing flag and span.
    pub fn punct(self, ch: char) -> (r: Option<(Cursor<'a>, bool, Span)>)
        requires
            self.wf(),
        ensures
            r is Some <==> (self.pos < self.toks@.len() && (self.stream()[self.pos as int] matches TokenView::Punct { ch: c0, .. } && c0 == ch)),
            match r {
                Some((c2, joint, sp)) => {
                    &&& advanced(self, c2, seq![TokenView::Punct { ch, joint, span: sp }])
                    &&& c2.pos == self.pos + 1
                    &&& (self.off < usize::MAX ==> c2.off == self.off + 1)
                    &&& self.stream()[self.pos as int] == TokenView::Punct { ch, joint, span: sp }
                },
                None => true,
            },
    {
        if self.pos < self.toks.len() {
            match &self.toks[self.pos] {
                Token::Punct { ch: c0, joint, span } => {
                    if *c0 == ch {
                        let c2 = Cursor { toks: self.toks, pos: self.pos + 1, off: bump(self.off) };
                        proof {
                            lemma_one_token(self, c2);
                        }
                        Some((c2, *joint, *span))
                    } else {
                        None
                    }
                },
                _ => None,
            }
        } else {
            None
        }
    }

    /// Validates that the next token is a group with the expected delimiter
    /// kind and yields an *inner* cursor scoped to just that group's
    /// contents, together with the group's span.  The cursor positioned after
    /// the group in the parent level is built separately by
    /// [`Cursor::after_group`] once the contents are parsed.
    pub fn group(self, delim: Delim) -> (r: Option<(Cursor<'a>, Span)>)
        requires
            self.wf(),
        ensures
            r is Some <==> (self.pos < self.toks@.len() && (self.stream()[self.pos as int] matches TokenView::Group { delim: d, .. } && d == delim)),
            match r {
                Some((inner, sp)) => {
                    &&& inner.wf()
                    &&& inner.pos == 0
                    &&& inner.off >= self.off
                    &&& (self.off < usize::MAX ==> inner.off == self.off + 1)
                    &&& self.stream()[self.pos as int] == TokenView::Group {
                        delim,
                        tts: inner.stream(),
                        span: sp,
                    }
                },
                None => true,
            },
    {
        if self.pos < self.toks.len() {
            match &self.toks[self.pos] {
                Token::Group { delim: d, tts, span } => {
                    if delim_eq(*d, delim) {
                        let inner = Cursor { toks: tts, pos: 0, off: bump(self.off) };
                        Some((inner, *span))
                    } else {
                        None
                    }
                },
                _ => None,
            }
        } else {
            None
        }
    }

    /// The cursor past a group, in the parent level.  `inner_off` is the
    /// progress offset reached while parsing the group's contents, so the
    /// resulting cursor's offset stays monotone across the nesting boundary.
    pub fn after_group(self, inner_off: usize) -> (c2: Cursor<'a>)
        requires
            self.wf(),
            self.pos < self.toks@.len(),
            inner_off >= self.off,
        ensures
            advanced(self, c2, seq![self.stream()[self.pos as int]]),
            c2.pos == self.pos + 1,
            c2.off >= inner_off,
    {
        let n = self.toks.len();
        proof {
            assert(self.pos < n);
        }
        let c2 = Cursor { toks: self.toks, pos: self.pos + 1, off: bump(inner_off) };
        proof {
            lemma_one_token(self, c2);
        }
        c2
    }
}

/// `c2` lies on the same token list as `c`, strictly further, and `consumed`
/// is exactly the token-view sequence between the two positions.
pub open spec fn advanced<'a>(c: Cursor<'a>, c2: Cursor<'a>, consumed: Seq<TokenView>) -> bool {
    &&& c2.toks == c.toks
    &&& c.pos < c2.pos <= c.toks@.len()
    &&& c2.off >= c.off
    &&& consumed == c.stream().subrange(c.pos as int, c2.pos as int)
}

/// Like [`advanced`], but also satisfied by a walk that consumed nothing.
pub open spec fn advanced_le<'a>(c: Cursor<'a>, c2: Cursor<'a>, consumed: Seq<TokenView>) -> bool {
    &&& c2.toks == c.toks
    &&& c.pos <= c2.pos <= c.toks@.len()
    &&& c2.off >= c.off
    &&& consumed == c.stream().subrange(c.pos as int, c2.pos as int)
}

/// Composition of two walks, either of which may be empty.
pub proof fn lemma_advanced_le_trans<'a>(
    c: Cursor<'a>,
    c2: Cursor<'a>,
    c3: Cursor<'a>,
    s1: Seq<TokenView>,
    s2: Seq<TokenView>,
)
    requires
        advanced_le(c, c2, s1),
        advanced_le(c2, c3, s2),
    ensures
        advanced_le(c, c3, s1 + s2),
        c.pos < c3.pos ==> advanced(c, c3, s1 + s2),
{
    assert(c.stream().subrange(c.pos as int, c3.pos as int) =~= c.stream().subrange(
        c.pos as int,
        c2.pos as int,
    ) + c.stream().subrange(c2.pos as int, c3.pos as int));
}

/// A single-token advance consumes exactly the view of the token at `c.pos`.
proof fn lemma_one_token<'a>(c: Cursor<'a>, c2: Cursor<'a>)
    requires
        c.wf(),
        c.pos < c.toks@.len(),
        c2.toks == c.toks,
        c2.pos == c.pos + 1,
        c2.off >= c.off,
    ensures
        advanced(c, c2, seq![c.stream()[c.pos as int]]),
{
    assert(c.stream().subrange(c.pos as int, c2.pos as int) =~= seq![c.stream()[c.pos as int]]);
}

/// Consecutive advances compose: what the first and the second step consumed
/// together is exactly what the whole walk consumed.
pub proof fn lemma_advanced_trans<'a>(
    c: Cursor<'a>,
    c2: Cursor<'a>,
    c3: Cursor<'a>,
    s1: Seq<TokenView>,
    s2: Seq<TokenView>,
)
    requires
        advanced(c, c2, s1),
        advanced(c2, c3, s2),
    ensures
        advanced(c, c3, s1 + s2),
{
    assert(c.stream().subrange(c.pos as int, c3.pos as int) =~= c.stream().subrange(
        c.pos as int,
        c2.pos as int,
    ) + c.stream().subrange(c2.pos as int, c3.pos as int));
}

/// The saturating progress increment.
fn bump(o: usize) -> (r: usize)
    ensures
        o < usize::MAX ==> r == o + 1,
        r >= o,
{
    if o < usize::MAX {
        o + 1
    } else {
        o
    }
}

/// Structural comparison of delimiter kinds.
fn delim_eq(a: Delim, b: Delim) -> (r: bool)
    ensures
        r == (a == b),
{
    match (a, b) {
        (Delim::Paren, Delim::Paren) => true,
        (Delim::Bracket, Delim::Bracket) => true,
        (Delim::Brace, Delim::Brace) => true,
        (Delim::Invisible, Delim::Invisible) => true,
        _ => false,
    }
}

/// Of two failures from alternatives tried in declaration order, keeps the
/// one that progressed furthest into the input; on a tie the failure of the
/// earlier-declared branch (`a`) wins.
pub fn err_further(a: ParseError, b: ParseError) -> (r: ParseError)
    ensures
        b.pos > a.pos ==> r == b,
        b.pos <= a.pos ==> r == a,
{
    if b.pos > a.pos {
        b
    } else {
        a
    }
}

/// The parsing capability: any syntax-tree node type that can be parsed
/// exposes `parse`, and every success consumes exactly the token sequence the
/// node reproduces (see [`ToTokens`]), so parsing and reconstruction are
/// inverse by construction.
pub trait Synom: ToTokens + Sized {
    /// Structural well-formedness of a parsed node.
    spec fn wf(&self) -> bool;

    /// Parses one node from the cursor.  A success advances the cursor by
    /// exactly the token sequence of the returned well-formed node; a failure
    /// lies at or past the starting offset.
    fn parse(c: Cursor<'_>) -> (r: PResult<'_, Self>)
        requires
            c.wf(),
        ensures
            match r {
                Ok((c2, v)) => advanced(c, c2, v.token_seq()) && c2.wf() && v.wf(),
                Err(e) => e.pos >= c.off,
            },
    ;
}

/// The contract every parse shares: a success advances the cursor by exactly
/// the token sequence of the returned well-formed node, and a failure lies at
/// or past the starting offset.
pub open spec fn parse_ok<'a, T: Synom>(c: Cursor<'a>, r: PResult<'a, T>) -> bool {
    match r {
        Ok((c2, v)) => {
            &&& advanced(c, c2, v.token_seq())
            &&& c2.wf()
            &&& v.wf()
        },
        Err(e) => e.pos >= c.off,
    }
}

/// Splitting a sequence at any midpoint recovers it by concatenation.
pub proof fn lemma_subrange_split<A>(s: Seq<A>, a: int, b: int, c: int)
    requires
        0 <= a <= b <= c <= s.len(),
    ensures
        s.subrange(a, c) == s.subrange(a, b) + s.subrange(b, c),
{
    assert(s.subrange(a, c) =~= s.subrange(a, b) + s.subrange(b, c));
}

} // verus!
