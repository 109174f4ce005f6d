//! Attributes.
//!
//! An attribute carries the raw tokens after its path, e.g. `( Copy )` in a
//! derive attribute.  The grammar here never produces attributes while
//! parsing; they exist for trees built programmatically, and reproduce their
//! raw tokens on reconstruction.

use vstd::prelude::*;

use crate::mac::{append_tts, tts_token_seq, TokenTree};
use crate::token::TokenView;
use crate::tokens::{ToTokens, Tokens};

verus! {

/// An attribute's raw token payload.
#[derive(Clone, Debug, PartialEq)]
pub struct Attribute {
    /// Any tokens after the path.
    pub tts: Vec<TokenTree>,
}

impl ToTokens for Attribute {
    open spec fn token_seq(&self) -> Seq<TokenView> {
        tts_token_seq(self.tts@)
    }

    fn to_tokens(&self, tokens: &mut Tokens) {
        append_tts(&self.tts, tokens);
    }
}

/// The token sequence of a list of attributes, in order.
pub open spec fn attrs_token_seq(attrs: Seq<Attribute>) -> Seq<TokenView>
    decreases attrs.len(),
{
    if attrs.len() == 0 {
        Seq::empty()
    } else {
        attrs_token_seq(attrs.drop_last()) + attrs.last().token_seq()
    }
}

/// Appends every attribute of a list to the sink.
pub fn append_attrs(attrs: &Vec<Attribute>, tokens: &mut Tokens)
    ensures
        final(tokens)@ == old(tokens)@ + attrs_token_seq(attrs@),
{
    let n = attrs.len();
    let mut i: usize = 0;
    proof {
        assert(tokens@ =~= old(tokens)@ + attrs_token_seq(attrs@.take(0)));
    }
    while i < n
        invariant
            n == attrs@.len(),
            i <= n,
            tokens@ == old(tokens)@ + attrs_token_seq(attrs@.take(i as int)),
        decreases n - i,
    {
        attrs[i].to_tokens(tokens);
        proof {
            assert(attrs@.take(i as int + 1).drop_last() =~= attrs@.take(i as int));
            assert(attrs@.take(i as int + 1).last() == attrs@[i as int]);
            assert(tokens@ =~= old(tokens)@ + attrs_token_seq(attrs@.take(i as int + 1)));
        }
        i = i + 1;
    }
    proof {
        assert(attrs@.take(n as int) =~= attrs@);
    }
}

} // verus!
