//! The separator-delimited list abstraction.
//!
//! A `Delimited<Item, Separator>` is an ordered sequence of pairs of an item
//! and the separator that *followed* it.  Every pair except possibly the last
//! carries a separator; the last pair carries one exactly when a trailing
//! separator was present in the source.  The empty list is a valid state of
//! its own, distinct from a failed parse.
//!
//! Lists are built by [`Delimited::push_first`] for the sole item with no
//! preceding separator, then [`Delimited::push_next`] for each subsequent
//! item; a left-to-right scan discovers each separator *between* two items,
//! and attaches it to the item it came after.
//!
//! Two parsing policies are provided here generically:
//! [`Delimited::parse_terminated`] consumes `Item (Sep Item)* Sep?` until the
//! enclosing level is exhausted and records a trailing separator, while
//! [`Delimited::parse_separated_nonempty`] requires at least one item and
//! stops as soon as no further separator-item pair follows.

use vstd::prelude::*;

use crate::cursor::{
    advanced, advanced_le, lemma_advanced_le_trans, Cursor, PResult, Synom,
};
use crate::token::TokenView;
use crate::tokens::{ToTokens, Tokens};

verus! {

broadcast use crate::token::lemma_view_tokens_len, crate::token::lemma_view_tokens_index;

/// An ordered sequence of items, each paired with the separator that
/// followed it, if any.
#[derive(Debug, PartialEq)]
pub struct Delimited<T, S> {
    pub inner: Vec<(T, Option<S>)>,
}

impl<T, S> Delimited<T, S> {
    /// The pair sequence.
    pub open spec fn pairs(self) -> Seq<(T, Option<S>)> {
        self.inner@
    }

    /// Every pair except possibly the last carries a separator.
    pub open spec fn wf_seps(self) -> bool {
        forall|i: int|
            0 <= i < self.inner@.len() - 1 ==> (#[trigger] self.inner@[i]).1 is Some
    }

    /// A trailing separator is recorded on the last item.
    pub open spec fn trailing_sep(self) -> bool {
        self.inner@.len() > 0 && self.inner@.last().1 is Some
    }

    /// An empty list.
    pub fn new() -> (r: Self)
        ensures
            r.pairs() == Seq::<(T, Option<S>)>::empty(),
            r.wf_seps(),
            !r.trailing_sep(),
    {
        Delimited { inner: Vec::new() }
    }

    /// The number of items.
    pub fn len(&self) -> (n: usize)
        ensures
            n == self.pairs().len(),
    {
        self.inner.len()
    }

    /// True when the list holds no item.
    pub fn is_empty(&self) -> (r: bool)
        ensures
            r == (self.pairs().len() == 0),
    {
        self.inner.len() == 0
    }

    /// The `i`-th item together with the separator that followed it.
    pub fn pair(&self, i: usize) -> (p: &(T, Option<S>))
        requires
            i < self.pairs().len(),
        ensures
            *p == self.pairs()[i as int],
    {
        &self.inner[i]
    }

    /// Takes the only item out of a one-element list.
    pub fn into_single(self) -> (p: Option<(T, Option<S>)>)
        ensures
            self.pairs().len() == 1 ==> p == Some(self.pairs()[0]),
            self.pairs().len() != 1 ==> p is None,
    {
        if self.inner.len() == 1 {
            let mut inner = self.inner;
            inner.pop()
        } else {
            None
        }
    }

    /// Appends the sole item that no separator precedes: the start of a
    /// list.  Appending anything else to a list whose shape does not allow
    /// it is a programming error, ruled out here by precondition rather than
    /// surfacing as a parse failure.
    pub fn push_first(&mut self, token: T)
        requires
            old(self).pairs().len() == 0,
        ensures
            final(self).pairs() == seq![(token, None::<S>)],
            final(self).wf_seps(),
            !final(self).trailing_sep(),
    {
        self.inner.push((token, None));
        proof {
            assert(self.inner@ =~= seq![(token, None::<S>)]);
        }
    }

    /// Appends a subsequent item: the separator discovered before it is
    /// attached to the item it followed.
    pub fn push_next(&mut self, item: T, sep: S)
        requires
            old(self).pairs().len() >= 1,
            old(self).pairs().last().1 is None,
        ensures
            final(self).pairs() == old(self).pairs().update(
                old(self).pairs().len() - 1,
                (old(self).pairs().last().0, Some(sep)),
            ).push((item, None)),
            final(self).pairs().len() == old(self).pairs().len() + 1,
            old(self).wf_seps() ==> final(self).wf_seps(),
            !final(self).trailing_sep(),
    {
        match self.inner.pop() {
            Some(prev) => {
                self.inner.push((prev.0, Some(sep)));
                self.inner.push((item, None));
            },
            None => {
                proof {
                    assert(false);
                }
            },
        }
        proof {
            let old_ps = old(self).pairs();
            assert(self.inner@ =~= old_ps.update(
                old_ps.len() - 1,
                (old_ps.last().0, Some(sep)),
            ).push((item, None)));
        }
    }

    /// Records a trailing separator after the last item.
    pub fn push_trailing(&mut self, sep: S)
        requires
            old(self).pairs().len() >= 1,
            old(self).pairs().last().1 is None,
        ensures
            final(self).pairs() == old(self).pairs().update(
                old(self).pairs().len() - 1,
                (old(self).pairs().last().0, Some(sep)),
            ),
            old(self).wf_seps() ==> final(self).wf_seps(),
            final(self).trailing_sep(),
    {
        match self.inner.pop() {
            Some(prev) => {
                self.inner.push((prev.0, Some(sep)));
            },
            None => {
                proof {
                    assert(false);
                }
            },
        }
        proof {
            let old_ps = old(self).pairs();
            assert(self.inner@ =~= old_ps.update(
                old_ps.len() - 1,
                (old_ps.last().0, Some(sep)),
            ));
        }
    }
}

/// The token sequence of one pair: the item's tokens, then the separator's
/// if one follows.
pub open spec fn pair_token_seq<T: ToTokens, S: ToTokens>(p: (T, Option<S>)) -> Seq<TokenView> {
    p.0.token_seq() + match p.1 {
        Some(s) => s.token_seq(),
        None => Seq::<TokenView>::empty(),
    }
}

/// The token sequence of a pair sequence, in order.
pub open spec fn pairs_token_seq<T: ToTokens, S: ToTokens>(
    ps: Seq<(T, Option<S>)>,
) -> Seq<TokenView>
    decreases ps.len(),
{
    if ps.len() == 0 {
        Seq::empty()
    } else {
        pairs_token_seq(ps.drop_last()) + pair_token_seq(ps.last())
    }
}

/// Extending a prefix by one pair extends its token sequence by that pair's.
pub proof fn lemma_pairs_take_snoc<T: ToTokens, S: ToTokens>(ps: Seq<(T, Option<S>)>, i: int)
    requires
        0 <= i < ps.len(),
    ensures
        pairs_token_seq(ps.take(i + 1)) == pairs_token_seq(ps.take(i)) + pair_token_seq(ps[i]),
{
    assert(ps.take(i + 1).drop_last() =~= ps.take(i));
    assert(ps.take(i + 1).last() == ps[i]);
}

/// A list taken whole is the list itself.
pub proof fn lemma_pairs_take_all<T: ToTokens, S: ToTokens>(ps: Seq<(T, Option<S>)>)
    ensures
        pairs_token_seq(ps.take(ps.len() as int)) == pairs_token_seq(ps),
{
    assert(ps.take(ps.len() as int) =~= ps);
}

/// The token sequence of a one-item list is the item's.
pub proof fn lemma_pairs_single<T: ToTokens, S: ToTokens>(item: T)
    ensures
        pairs_token_seq(seq![(item, None::<S>)]) == item.token_seq(),
{
    let ps = seq![(item, None::<S>)];
    assert(ps.drop_last() =~= Seq::<(T, Option<S>)>::empty());
    assert(pairs_token_seq(Seq::<(T, Option<S>)>::empty()) =~= Seq::<TokenView>::empty());
    assert(ps.last() == (item, None::<S>));
    assert(pairs_token_seq(ps) == pairs_token_seq(ps.drop_last()) + pair_token_seq(ps.last()));
    assert(pairs_token_seq(ps) =~= item.token_seq());
}

/// `push_next` extends the token sequence by the separator's tokens, then
/// the new item's.
pub proof fn lemma_pairs_push_next<T: ToTokens, S: ToTokens>(
    ps: Seq<(T, Option<S>)>,
    item: T,
    sep: S,
)
    requires
        ps.len() >= 1,
        ps.last().1 is None,
    ensures
        pairs_token_seq(ps.update(ps.len() - 1, (ps.last().0, Some(sep))).push((item, None)))
            == pairs_token_seq(ps) + sep.token_seq() + item.token_seq(),
{
    let upd = ps.update(ps.len() - 1, (ps.last().0, Some(sep)));
    let q = upd.push((item, None));
    assert(q.drop_last() =~= upd);
    assert(pairs_token_seq(q) == pairs_token_seq(upd) + pair_token_seq((item, None::<S>)));
    assert(upd.drop_last() =~= ps.drop_last());
    assert(upd.last() == (ps.last().0, Some(sep)));
    assert(pairs_token_seq(upd) == pairs_token_seq(ps.drop_last()) + (ps.last().0.token_seq()
        + sep.token_seq()));
    assert(pairs_token_seq(ps) == pairs_token_seq(ps.drop_last()) + (ps.last().0.token_seq()
        + Seq::<TokenView>::empty()));
    assert(ps.last().0.token_seq() + Seq::<TokenView>::empty() =~= ps.last().0.token_seq());
    assert(pairs_token_seq(q) =~= pairs_token_seq(ps) + sep.token_seq() + item.token_seq());
}

/// `push_trailing` extends the token sequence by the separator's tokens.
pub proof fn lemma_pairs_push_trailing<T: ToTokens, S: ToTokens>(ps: Seq<(T, Option<S>)>, sep: S)
    requires
        ps.len() >= 1,
        ps.last().1 is None,
    ensures
        pairs_token_seq(ps.update(ps.len() - 1, (ps.last().0, Some(sep)))) == pairs_token_seq(ps)
            + sep.token_seq(),
{
    let upd = ps.update(ps.len() - 1, (ps.last().0, Some(sep)));
    assert(upd.drop_last() =~= ps.drop_last());
    assert(upd.last() == (ps.last().0, Some(sep)));
    assert(ps.last().0.token_seq() + Seq::<TokenView>::empty() =~= ps.last().0.token_seq());
    assert(pairs_token_seq(upd) =~= pairs_token_seq(ps) + sep.token_seq());
}

impl<T: ToTokens, S: ToTokens> ToTokens for Delimited<T, S> {
    open spec fn token_seq(&self) -> Seq<TokenView> {
        pairs_token_seq(self.inner@)
    }

    fn to_tokens(&self, tokens: &mut Tokens) {
        let n = self.inner.len();
        let mut i: usize = 0;
        while i < n
            invariant
                n == self.inner@.len(),
                i <= n,
                tokens@ == old(tokens)@ + pairs_token_seq(self.inner@.take(i as int)),
            decreases n - i,
        {
            let p = &self.inner[i];
            p.0.to_tokens(tokens);
            match &p.1 {
                Some(s) => {
                    s.to_tokens(tokens);
                },
                None => {
                    proof {
                        assert(pair_token_seq(self.inner@[i as int]) =~= self.inner@[i as int].0.token_seq());
                    }
                },
            }
            proof {
                lemma_pairs_take_snoc(self.inner@, i as int);
                assert(tokens@ =~= old(tokens)@ + pairs_token_seq(self.inner@.take(i as int + 1)));
            }
            i = i + 1;
        }
        proof {
            lemma_pairs_take_all(self.inner@);
        }
    }
}

impl<T: Synom, S: Synom> Delimited<T, S> {
    /// Every item and every recorded separator is well-formed.
    pub open spec fn items_wf(self) -> bool {
        forall|i: int|
            0 <= i < self.inner@.len() ==> ((#[trigger] self.inner@[i]).0.wf() && match self.inner@[i].1 {
                Some(s) => s.wf(),
                None => true,
            })
    }

    /// Parses `Item (Sep Item)* Sep?` until this nesting level is exhausted.
    /// A trailing separator immediately before the level's end is permitted
    /// and recorded.  An item that fails after a consumed separator fails
    /// the whole list.
    pub fn parse_terminated(c: Cursor<'_>) -> (r: PResult<'_, Self>)
        requires
            c.wf(),
        ensures
            match r {
                Ok((c2, v)) => {
                    &&& advanced_le(c, c2, v.token_seq())
                    &&& c2.wf()
                    &&& c2.pos == c.toks@.len()
                    &&& v.wf_seps()
                    &&& v.items_wf()
                },
                Err(e) => e.pos >= c.off,
            },
            c.pos == c.toks@.len() ==> (r matches Ok((_, v)) && v.pairs().len() == 0),
    {
        let mut list: Delimited<T, S> = Delimited::new();
        if c.at_end() {
            proof {
                assert(c.stream().subrange(c.pos as int, c.pos as int)
                    =~= Seq::<TokenView>::empty());
                assert(advanced_le(c, c, list.token_seq()));
            }
            return Ok((c, list));
        }
        let (mut cur, first) = T::parse(c)?;
        list.push_first(first);
        proof {
            lemma_pairs_single::<T, S>(list.inner@[0].0);
            assert(list.token_seq() == list.inner@[0].0.token_seq());
        }
        while !cur.at_end()
            invariant
                c.wf(),
                cur.wf(),
                advanced(c, cur, list.token_seq()),
                list.wf_seps(),
                list.items_wf(),
                list.pairs().len() >= 1,
                !list.trailing_sep(),
            decreases cur.toks@.len() - cur.pos,
        {
            let ghost pre = list.token_seq();
            let (cs, sep) = match S::parse(cur) {
                Ok(x) => x,
                Err(e) => {
                    return Err(e);
                },
            };
            if cs.at_end() {
                proof {
                    lemma_pairs_push_trailing(list.pairs(), sep);
                }
                list.push_trailing(sep);
                proof {
                    lemma_advanced_le_trans(c, cur, cs, pre, sep.token_seq());
                }
                return Ok((cs, list));
            }
            let (cn, item) = match T::parse(cs) {
                Ok(x) => x,
                Err(e) => {
                    return Err(e);
                },
            };
            proof {
                lemma_pairs_push_next(list.pairs(), item, sep);
            }
            list.push_next(item, sep);
            proof {
                lemma_advanced_le_trans(c, cur, cs, pre, sep.token_seq());
                lemma_advanced_le_trans(c, cs, cn, pre + sep.token_seq(), item.token_seq());
                assert(pre + sep.token_seq() + item.token_seq() == list.token_seq());
            }
            cur = cn;
        }
        Ok((cur, list))
    }

    /// Parses `Item (Sep Item)*`: at least one item, stopping as soon as no
    /// further separator follows, and never recording a trailing separator.
    /// An item that fails after a consumed separator fails the whole list.
    pub fn parse_separated_nonempty(c: Cursor<'_>) -> (r: PResult<'_, Self>)
        requires
            c.wf(),
        ensures
            match r {
                Ok((c2, v)) => {
                    &&& advanced(c, c2, v.token_seq())
                    &&& c2.wf()
                    &&& v.pairs().len() >= 1
                    &&& v.wf_seps()
                    &&& v.items_wf()
                    &&& !v.trailing_sep()
                },
                Err(e) => e.pos >= c.off,
            },
    {
        let (mut cur, first) = T::parse(c)?;
        let mut list: Delimited<T, S> = Delimited::new();
        list.push_first(first);
        proof {
            lemma_pairs_single::<T, S>(list.inner@[0].0);
        }
        loop
            invariant
                c.wf(),
                cur.wf(),
                advanced(c, cur, list.token_seq()),
                list.wf_seps(),
                list.items_wf(),
                list.pairs().len() >= 1,
                !list.trailing_sep(),
            decreases cur.toks@.len() - cur.pos,
        {
            let ghost pre = list.token_seq();
            let (cs, sep) = match S::parse(cur) {
                Ok(x) => x,
                Err(_) => {
                    return Ok((cur, list));
                },
            };
            let (cn, item) = match T::parse(cs) {
                Ok(x) => x,
                Err(e) => {
                    return Err(e);
                },
            };
            proof {
                lemma_pairs_push_next(list.pairs(), item, sep);
            }
            list.push_next(item, sep);
            proof {
                lemma_advanced_le_trans(c, cur, cs, pre, sep.token_seq());
                lemma_advanced_le_trans(c, cs, cn, pre + sep.token_seq(), item.token_seq());
                assert(pre + sep.token_seq() + item.token_seq() == list.token_seq());
            }
            cur = cn;
        }
    }
}

} // verus!

verus! {

/// The delimited-list invariant: in a well-shaped nonempty list, every
/// element except possibly the last carries the separator that followed
/// it.
pub proof fn lemma_delimited_invariant<T, S>(d: Delimited<T, S>, i: int)
    requires
        d.wf_seps(),
        0 <= i < d.pairs().len() - 1,
    ensures
        d.pairs()[i].1 is Some,
{
}

/// A recorded trailing separator stands last in the reconstructed token
/// sequence: the list's tokens end with exactly that separator's tokens,
/// so the trailing flag matches whether the source had a separator
/// immediately before the level's end.
pub proof fn lemma_trailing_sep_last<T: ToTokens, S: ToTokens>(d: Delimited<T, S>)
    requires
        d.trailing_sep(),
    ensures
        (d.pairs().last().1 matches Some(s) && d.token_seq() == (pairs_token_seq(
            d.pairs().drop_last(),
        ) + d.pairs().last().0.token_seq()) + s.token_seq()),
{
}

} // verus!
