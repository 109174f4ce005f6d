//! The token-tree input representation.
//!
//! The external lexer hands the parser a tree of [`Token`]s: flat words,
//! literals and punctuation, plus recursively grouped sub-trees for each
//! bracket, parenthesis or brace pair.  Punctuation carries a spacing flag
//! (joint vs. isolated) so that `>>` can be told apart from `> >`.
//!
//! In specifications a token is abstracted as a [`TokenView`], the same shape
//! with mathematical sequences in place of `String` and `Vec`.

use vstd::prelude::*;

use crate::span::Span;

verus! {

/// The delimiter kind of a token group.
#[derive(Clone, Copy, Debug, PartialEq, Eq, Structural)]
pub enum Delim {
    /// `( ... )`
    Paren,
    /// `[ ... ]`
    Bracket,
    /// `{ ... }`
    Brace,
    /// An implicit group with no written delimiter, as produced by macro
    /// expansion.  Carried through token trees; the grammar never opens one.
    Invisible,
}

/// One node of a token tree.
#[derive(Debug, PartialEq)]
pub enum Token {
    /// An identifier-shaped word: a name, a keyword, or a lifetime such as
    /// `'a` (the lexer spells a lifetime as a word starting with `'`).
    Word { text: String, span: Span },
    /// A literal, carried as its source text.
    Literal { text: String, span: Span },
    /// A punctuation character.  `joint` is true when the lexer saw the next
    /// punctuation character immediately adjacent, so that `>>` is two `>`
    /// puncts whose first is joint.
    Punct { ch: char, joint: bool, span: Span },
    /// A delimited group of sub-tokens.
    Group { delim: Delim, tts: Vec<Token>, span: Span },
}

/// The mathematical shape of a [`Token`].
#[verifier::ext_equal]
pub enum TokenView {
    Word { text: Seq<char>, span: Span },
    Literal { text: Seq<char>, span: Span },
    Punct { ch: char, joint: bool, span: Span },
    Group { delim: Delim, tts: Seq<TokenView>, span: Span },
}

/// The view of one token.
pub open spec fn view_token(t: Token) -> TokenView
    decreases t,
{
    match t {
        Token::Word { text, span } => TokenView::Word { text: text@, span },
        Token::Literal { text, span } => TokenView::Literal { text: text@, span },
        Token::Punct { ch, joint, span } => TokenView::Punct { ch, joint, span },
        Token::Group { delim, tts, span } => {
            proof {
                broadcast use vstd::std_specs::vec::axiom_vec_decreases_to_view;
            }
            TokenView::Group { delim, tts: view_tokens(tts@), span }
        },
    }
}

/// The views of a sequence of tokens, in order.
pub open spec fn view_tokens(ts: Seq<Token>) -> Seq<TokenView>
    decreases ts,
{
    proof {
        broadcast use vstd::seq::axiom_seq_index_decreases;
        broadcast use vstd::seq::axiom_seq_subrange_decreases;
    }
    if ts.len() == 0 {
        Seq::empty()
    } else {
        view_tokens(ts.drop_last()).push(view_token(ts.last()))
    }
}

impl View for Token {
    type V = TokenView;

    open spec fn view(&self) -> TokenView {
        view_token(*self)
    }
}

impl Clone for Token {
    /// A clone has the same view as the original, spans included.
    fn clone(&self) -> (res: Token)
        ensures
            res@ == self@,
        decreases *self,
    {
        match self {
            Token::Word { text, span } => Token::Word { text: text.clone(), span: *span },
            Token::Literal { text, span } => Token::Literal { text: text.clone(), span: *span },
            Token::Punct { ch, joint, span } => Token::Punct {
                ch: *ch,
                joint: *joint,
                span: *span,
            },
            Token::Group { delim, tts, span } => {
                proof {
                    broadcast use vstd::std_specs::vec::axiom_vec_decreases_to_view;
                }
                let out = clone_tokens(tts);
                proof {
                    lemma_view_tokens_pointwise(out@, tts@);
                }
                Token::Group { delim: *delim, tts: out, span: *span }
            },
        }
    }
}

/// Clones every token of a sequence; each copy has the view of its original.
fn clone_tokens(ts: &Vec<Token>) -> (out: Vec<Token>)
    ensures
        out@.len() == ts@.len(),
        forall|j: int| 0 <= j < ts@.len() ==> view_token(#[trigger] out@[j]) == view_token(ts@[j]),
    decreases ts@,
{
    let mut out: Vec<Token> = Vec::new();
    let mut i: usize = 0;
    while i < ts.len()
        invariant
            i <= ts.len(),
            out@.len() == i,
            forall|j: int| 0 <= j < i ==> view_token(#[trigger] out@[j]) == view_token(ts@[j]),
        decreases ts@.len() - i,
    {
        proof {
            broadcast use vstd::seq::axiom_seq_index_decreases;
        }
        let t = ts[i].clone();
        out.push(t);
        i = i + 1;
    }
    out
}

/// True when the string holds exactly the characters of `w`.
pub fn str_is(s: &String, w: &str) -> (r: bool)
    ensures
        r == (s@ == w@),
{
    let t: String = w.to_owned();
    s.eq(&t)
}

/// Two token sequences whose members have equal views have equal views.
pub proof fn lemma_view_tokens_pointwise(a: Seq<Token>, b: Seq<Token>)
    requires
        a.len() == b.len(),
        forall|i: int| 0 <= i < a.len() ==> view_token(#[trigger] a[i]) == view_token(b[i]),
    ensures
        view_tokens(a) == view_tokens(b),
    decreases a.len(),
{
    if a.len() > 0 {
        lemma_view_tokens_pointwise(a.drop_last(), b.drop_last());
        assert(view_tokens(a) =~= view_tokens(b));
    }
}

/// `view_tokens` distributes over indexing.
pub broadcast proof fn lemma_view_tokens_index(ts: Seq<Token>, i: int)
    requires
        0 <= i < ts.len(),
    ensures
        (#[trigger] view_tokens(ts)[i]) == view_token(ts[i]),
    decreases ts.len(),
{
    broadcast use lemma_view_tokens_len;

    if ts.len() > 0 {
        if i < ts.len() - 1 {
            lemma_view_tokens_index(ts.drop_last(), i);
        }
    }
}

/// `view_tokens` preserves length.
pub broadcast proof fn lemma_view_tokens_len(ts: Seq<Token>)
    ensures
        (#[trigger] view_tokens(ts)).len() == ts.len(),
    decreases ts.len(),
{
    if ts.len() > 0 {
        lemma_view_tokens_len(ts.drop_last());
    }
}

} // verus!
