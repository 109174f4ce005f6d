//! Macro invocations and raw token trees.
//!
//! A [`TokenTree`] wraps one raw token — atomic or a whole group — carried
//! through the syntax tree unparsed, as the body of a macro invocation is.

use vstd::prelude::*;

use crate::cursor::{advanced, advanced_le, Cursor, Label, PResult, Synom};
use crate::token::{Delim, Token, TokenView};
use crate::tokens::{ToTokens, Tokens};

verus! {

broadcast use crate::token::lemma_view_tokens_len, crate::token::lemma_view_tokens_index;

/// One raw token tree, kept as the lexer produced it.
#[derive(Clone, Debug, PartialEq)]
pub struct TokenTree(pub Token);

/// The views of a sequence of raw token trees, in order.
pub open spec fn tts_token_seq(ts: Seq<TokenTree>) -> Seq<TokenView>
    decreases ts.len(),
{
    if ts.len() == 0 {
        Seq::empty()
    } else {
        tts_token_seq(ts.drop_last()).push(ts.last().0@)
    }
}

/// Extending a tree sequence extends its views by one.
pub proof fn lemma_tts_snoc(ts: Seq<TokenTree>, t: TokenTree)
    ensures
        tts_token_seq(ts.push(t)) == tts_token_seq(ts) + seq![t.0@],
{
    assert(ts.push(t).drop_last() =~= ts);
    assert(ts.push(t).last() == t);
    assert(tts_token_seq(ts).push(t.0@) =~= tts_token_seq(ts) + seq![t.0@]);
}

impl ToTokens for TokenTree {
    open spec fn token_seq(&self) -> Seq<TokenView> {
        seq![self.0@]
    }

    fn to_tokens(&self, tokens: &mut Tokens) {
        let t = self.0.clone();
        proof {
            crate::tokens::lemma_push_one(tokens@, t@);
        }
        tokens.append(t);
        proof {
            assert(tokens@ =~= old(tokens)@ + self.token_seq());
        }
    }
}

/// Appends every raw tree of a list to the sink.
pub fn append_tts(ts: &Vec<TokenTree>, tokens: &mut Tokens)
    ensures
        final(tokens)@ == old(tokens)@ + tts_token_seq(ts@),
{
    let n = ts.len();
    let mut i: usize = 0;
    proof {
        assert(tokens@ =~= old(tokens)@ + tts_token_seq(ts@.take(0)));
    }
    while i < n
        invariant
            n == ts@.len(),
            i <= n,
            tokens@ == old(tokens)@ + tts_token_seq(ts@.take(i as int)),
        decreases n - i,
    {
        ts[i].to_tokens(tokens);
        proof {
            assert(ts@.take(i as int).push(ts@[i as int]) =~= ts@.take(i as int + 1));
            lemma_tts_snoc(ts@.take(i as int), ts@[i as int]);
            assert(tokens@ =~= old(tokens)@ + tts_token_seq(ts@.take(i as int + 1)));
        }
        i = i + 1;
    }
    proof {
        assert(ts@.take(n as int) =~= ts@);
    }
}

impl TokenTree {
    /// Whether this tree is a brace-delimited group.
    pub fn is_braced(&self) -> (r: bool)
        ensures
            r == (self.0@ matches TokenView::Group { delim: Delim::Brace, .. }),
    {
        match &self.0 {
            Token::Group { delim: Delim::Brace, .. } => true,
            _ => false,
        }
    }

    /// Consumes every remaining token of this level as a raw tree list.
    pub fn parse_list(c: Cursor<'_>) -> (r: PResult<'_, Vec<TokenTree>>)
        requires
            c.wf(),
        ensures
            match r {
                Ok((c2, v)) => {
                    &&& advanced_le(c, c2, tts_token_seq(v@))
                    &&& c2.wf()
                    &&& c2.pos == c.toks@.len()
                },
                Err(e) => e.pos >= c.off,
            },
            r is Ok,
    {
        let mut out: Vec<TokenTree> = Vec::new();
        let mut cur = c;
        proof {
            assert(c.stream().subrange(c.pos as int, c.pos as int) =~= Seq::<TokenView>::empty());
        }
        while !cur.at_end()
            invariant
                c.wf(),
                cur.wf(),
                advanced_le(c, cur, tts_token_seq(out@)),
            decreases cur.toks@.len() - cur.pos,
        {
            let ghost pre = tts_token_seq(out@);
            match cur.advance() {
                Some((cn, t)) => {
                    let tt = TokenTree(t.clone());
                    let ghost gtt = tt;
                    let ghost old_out = out@;
                    out.push(tt);
                    proof {
                        lemma_tts_snoc(old_out, gtt);
                        assert(out@ == old_out.push(gtt));
                        crate::cursor::lemma_advanced_le_trans(
                            c,
                            cur,
                            cn,
                            pre,
                            seq![t@],
                        );
                        assert(tts_token_seq(out@) =~= pre + seq![t@]);
                    }
                    cur = cn;
                },
                None => {
                    proof {
                        assert(false);
                    }
                },
            }
        }
        Ok((cur, out))
    }

    /// Consumes the next token, which must be a group of any delimiter
    /// kind, whole and unopened.
    pub fn parse_delimited(c: Cursor<'_>) -> (r: PResult<'_, TokenTree>)
        requires
            c.wf(),
        ensures
            match r {
                Ok((c2, v)) => {
                    &&& advanced(c, c2, seq![v.0@])
                    &&& c2.wf()
                    &&& v.0@ is Group
                },
                Err(e) => e.pos >= c.off,
            },
            r is Ok <==> (c.pos < c.toks@.len() && c.stream()[c.pos as int] is Group),
    {
        match c.advance() {
            Some((c2, t)) => {
                match t {
                    Token::Group { .. } => Ok((c2, TokenTree(t.clone()))),
                    _ => Err(c.err(Some(Label::Mac))),
                }
            },
            None => Err(c.err(Some(Label::Mac))),
        }
    }
}

} // verus!

verus! {

/// A macro invocation: a path naming the macro, a `!`, and one raw
/// delimited group holding the unparsed invocation body.
#[derive(Debug, PartialEq)]
pub struct Mac {
    pub path: crate::ty::Path,
    pub bang_token: crate::tokens::Bang,
    /// The name in a macro definition; never produced by parsing.
    pub ident: Option<crate::ident::Ident>,
    pub tokens: Vec<TokenTree>,
}

impl Mac {
    /// Whether the invocation body's last tree is a brace-delimited group.
    pub fn is_braced(&self) -> (r: bool)
        ensures
            r == (self.tokens@.len() > 0 && (self.tokens@.last().0@ matches TokenView::Group {
                delim: Delim::Brace,
                ..
            })),
    {
        let n = self.tokens.len();
        if n > 0 {
            self.tokens[n - 1].is_braced()
        } else {
            false
        }
    }
}

impl ToTokens for Mac {
    open spec fn token_seq(&self) -> Seq<TokenView> {
        crate::ty::path_tokens(self.path) + self.bang_token.token_seq() + tts_token_seq(
            self.tokens@,
        )
    }

    fn to_tokens(&self, tokens: &mut Tokens) {
        self.path.to_tokens(tokens);
        self.bang_token.to_tokens(tokens);
        append_tts(&self.tokens, tokens);
        proof {
            assert(tokens@ =~= old(tokens)@ + self.token_seq());
        }
    }
}

impl Synom for Mac {
    /// A parsed invocation has a well-formed path, no definition name, and
    /// exactly one group as its body.
    open spec fn wf(&self) -> bool {
        &&& crate::ty::path_wf(self.path)
        &&& self.ident is None
        &&& self.tokens@.len() == 1
        &&& self.tokens@[0].0@ is Group
    }

    fn parse(c: Cursor<'_>) -> (r: PResult<'_, Self>)
        ensures
            (c.pos + 2 < c.toks@.len() && crate::ty::ident_word(c.stream()[c.pos as int]) && (
            c.stream()[c.pos as int + 1] matches TokenView::Punct { ch, .. } && ch == '!')
                && c.stream()[c.pos as int + 2] is Group) ==> r is Ok,
    {
        let (c1, what) = crate::ty::Path::parse(c)?;
        let (c2, bang) = crate::tokens::Bang::parse(c1)?;
        let (c3, body) = TokenTree::parse_delimited(c2)?;
        let ghost gbody = body;
        let v = Mac { path: what, bang_token: bang, ident: None, tokens: vec![body] };
        proof {
            assert(v.tokens@ =~= seq![gbody]);
            assert(seq![gbody].drop_last() =~= Seq::<TokenTree>::empty());
            assert(seq![gbody].last() == gbody);
            assert(tts_token_seq(Seq::<TokenTree>::empty()) =~= Seq::<TokenView>::empty());
            assert(tts_token_seq(seq![gbody]) == tts_token_seq(seq![gbody].drop_last()).push(
                gbody.0@,
            ));
            assert(tts_token_seq(seq![gbody]) =~= seq![gbody.0@]);
            crate::cursor::lemma_advanced_trans(
                c,
                c1,
                c2,
                crate::ty::path_tokens(v.path),
                v.bang_token.token_seq(),
            );
            crate::cursor::lemma_advanced_trans(
                c,
                c2,
                c3,
                crate::ty::path_tokens(v.path) + v.bang_token.token_seq(),
                seq![gbody.0@],
            );
            assert(crate::ty::path_tokens(v.path) + v.bang_token.token_seq() + seq![gbody.0@]
                =~= v.token_seq());
        }
        Ok((c3, v))
    }
}

} // verus!
