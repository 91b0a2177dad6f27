//! The reply table: pending one-shot callbacks keyed by correlation token.
//!
//! An outgoing call that expects a reply registers its callback here under
//! the token the transport assigned; a matching incoming reply consumes the
//! entry exactly once. Cancelling is removal without invocation.

use vstd::prelude::*;

verus! {

/// Whether some entry of `s` carries token `t`.
pub open spec fn has_reply_token<R>(s: Seq<(u64, R)>, t: u64) -> bool {
    exists|i: int| 0 <= i < s.len() && s[i].0 == t
}

/// The index of the entry carrying token `t` (meaningful when such an entry
/// exists and tokens are unique).
pub open spec fn reply_index_of<R>(s: Seq<(u64, R)>, t: u64) -> int {
    choose|i: int| 0 <= i < s.len() && s[i].0 == t
}

/// Tokens are pairwise distinct.
pub open spec fn reply_tokens_unique<R>(s: Seq<(u64, R)>) -> bool {
    forall|i: int, j: int| 0 <= i < j < s.len() ==> s[i].0 != s[j].0
}

/// At most one reply entry exists for a token at any time: in a table with
/// unique tokens, any two entries carrying the same token are the same entry.
pub proof fn lemma_reply_token_at_most_once<R>(s: Seq<(u64, R)>, i: int, j: int)
    requires
        reply_tokens_unique(s),
        0 <= i < s.len(),
        0 <= j < s.len(),
        s[i].0 == s[j].0,
    ensures
        i == j,
{
    if i < j {
        assert(s[i].0 != s[j].0);
    } else if j < i {
        assert(s[j].0 != s[i].0);
    }
}

/// Mapping from correlation token to the pending one-shot callback.
pub struct ReplyTable<R> {
    entries: Vec<(u64, R)>,
}

impl<R> View for ReplyTable<R> {
    type V = Seq<(u64, R)>;

    closed spec fn view(&self) -> Seq<(u64, R)> {
        self.entries@
    }
}

impl<R> ReplyTable<R> {
    /// No two entries share a token.
    pub open spec fn wf(&self) -> bool {
        reply_tokens_unique(self@)
    }

    /// An empty table.
    pub fn new() -> (t: Self)
        ensures
            t@ == Seq::<(u64, R)>::empty(),
            t.wf(),
    {
        ReplyTable { entries: Vec::new() }
    }

    /// How many replies are pending.
    pub fn len(&self) -> (n: usize)
        ensures
            n == self@.len(),
    {
        self.entries.len()
    }

    /// Whether a reply is pending under `token`.
    pub fn contains(&self, token: u64) -> (b: bool)
        ensures
            b == has_reply_token(self@, token),
    {
        let mut i: usize = 0;
        while i < self.entries.len()
            invariant
                0 <= i <= self@.len(),
                forall|j: int| 0 <= j < i ==> self@[j].0 != token,
            decreases self@.len() - i,
        {
            if self.entries[i].0 == token {
                return true;
            }
            i = i + 1;
        }
        false
    }

    /// Remove and return the entry pending under `token`, if any: exactly
    /// that entry leaves the table and every other entry stays, in order.
    pub fn remove(&mut self, token: u64) -> (r: Option<R>)
        requires
            old(self).wf(),
        ensures
            final(self).wf(),
            !has_reply_token(old(self)@, token) ==> r is None && final(self)@ == old(self)@,
            has_reply_token(old(self)@, token) ==> ({
                let i = reply_index_of(old(self)@, token);
                &&& r matches Some(cb) && cb == old(self)@[i].1
                &&& final(self)@ == old(self)@.remove(i)
            }),
            !has_reply_token(final(self)@, token),
            forall|t: u64|
                t != token ==> has_reply_token(final(self)@, t) == has_reply_token(
                    old(self)@,
                    t,
                ),
    {
        let ghost s0 = self@;
        let mut i: usize = 0;
        while i < self.entries.len()
            invariant
                self@ == s0,
                s0 == old(self)@,
                reply_tokens_unique(s0),
                0 <= i <= s0.len(),
                forall|j: int| 0 <= j < i ==> s0[j].0 != token,
            decreases s0.len() - i,
        {
            if self.entries[i].0 == token {
                let e = self.entries.remove(i);
                proof {
                    assert(has_reply_token(s0, token));
                    lemma_reply_token_at_most_once(s0, i as int, reply_index_of(s0, token));
                    assert forall|p: int, q: int|
                        0 <= p < q < self@.len() implies self@[p].0 != self@[q].0 by {
                        let pp = if p < i { p } else { p + 1 };
                        let qq = if q < i { q } else { q + 1 };
                        assert(self@[p] == s0[pp]);
                        assert(self@[q] == s0[qq]);
                    }
                    assert forall|j: int| 0 <= j < self@.len() implies self@[j].0 != token by {
                        let jj = if j < i { j } else { j + 1 };
                        assert(self@[j] == s0[jj]);
                        if jj < i as int {
                            assert(s0[jj].0 != s0[i as int].0);
                        } else {
                            assert(s0[i as int].0 != s0[jj].0);
                        }
                    }
                    assert forall|t: u64| t != token && has_reply_token(s0, t) implies
                        has_reply_token(self@, t) by {
                        let j = choose|j: int| 0 <= j < s0.len() && s0[j].0 == t;
                        if j < i {
                            assert(self@[j] == s0[j]);
                        } else {
                            assert(self@[j - 1] == s0[j]);
                        }
                    }
                    assert forall|t: u64| t != token && has_reply_token(self@, t) implies
                        has_reply_token(s0, t) by {
                        let j = choose|j: int| 0 <= j < self@.len() && self@[j].0 == t;
                        let jj = if j < i { j } else { j + 1 };
                        assert(self@[j] == s0[jj]);
                    }
                }
                return Some(e.1);
            }
            i = i + 1;
        }
        proof {
            assert forall|j: int| 0 <= j < s0.len() implies s0[j].0 != token by {}
        }
        None
    }

    /// Register `callback` under `token`, replacing any entry already pending
    /// under the same token.
    pub fn insert(&mut self, token: u64, callback: R)
        requires
            old(self).wf(),
        ensures
            final(self).wf(),
            !has_reply_token(old(self)@, token) ==> final(self)@ == old(self)@.push(
                (token, callback),
            ),
            has_reply_token(old(self)@, token) ==> final(self)@ == old(self)@.remove(
                reply_index_of(old(self)@, token),
            ).push((token, callback)),
            has_reply_token(final(self)@, token),
    {
        let _ = self.remove(token);
        let ghost s1 = self@;
        self.entries.push((token, callback));
        proof {
            assert forall|p: int, q: int|
                0 <= p < q < self@.len() implies self@[p].0 != self@[q].0 by {
                if q < s1.len() {
                    assert(self@[p] == s1[p]);
                    assert(self@[q] == s1[q]);
                } else {
                    assert(self@[p] == s1[p]);
                    assert(!has_reply_token(s1, token));
                }
            }
            assert(self@[self@.len() - 1].0 == token);
        }
    }
}

} // verus!
