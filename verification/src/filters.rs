//! The filter table: ordered (match rule, callback) pairs for unsolicited
//! messages.
//!
//! Entries are kept in insertion order, realised as strictly increasing
//! tokens. The dispatch engine removes the first entry whose rule matches a
//! message, invokes its callback, and re-inserts the entry — at its original
//! place in the order — exactly when the callback asks to stay registered.

use vstd::prelude::*;

use crate::msg::Message;
use crate::rules::MatchRule;
use crate::rules::rule_matches;

verus! {

/// One registered filter: its token, the rule that selects messages for it,
/// and its callback.
pub struct FilterEntry<F> {
    /// The token under which the entry was registered.
    pub token: u64,
    /// The rule selecting the messages the callback observes.
    pub rule: MatchRule,
    /// The callback fired on a matching message.
    pub callback: F,
}

/// Whether some entry of `s` carries token `t`.
pub open spec fn has_filter_token<F>(s: Seq<FilterEntry<F>>, t: u64) -> bool {
    exists|i: int| 0 <= i < s.len() && s[i].token == t
}

/// The index of the entry carrying token `t` (meaningful when such an entry
/// exists and the tokens are sorted).
pub open spec fn filter_index_of<F>(s: Seq<FilterEntry<F>>, t: u64) -> int {
    choose|i: int| 0 <= i < s.len() && s[i].token == t
}

/// The same entry with its callback replaced — what a surviving filter looks
/// like after an invocation that mutated the callback's own state.
pub open spec fn with_callback<F>(e: FilterEntry<F>, cb: F) -> FilterEntry<F> {
    FilterEntry { token: e.token, rule: e.rule, callback: cb }
}

/// A filter that is no longer registered can never fire again: every entry
/// the table hands out for dispatch is one of its entries, so once a token
/// is out of the table — a callback declined re-registration, or the entry
/// was removed by hand — no entry carrying it can be selected by any later
/// message.
pub proof fn lemma_absent_filter_cannot_fire<F>(s: Seq<FilterEntry<F>>, tok: u64, i: int)
    requires
        !has_filter_token(s, tok),
        0 <= i < s.len(),
    ensures
        s[i].token != tok,
{
}

/// The fate of a fired filter entry, for either verdict of its callback.
///
/// When the callback at `i` declines re-registration, the table becomes
/// `s.remove(i)` and the entry's token is out of it — by
/// [`lemma_absent_filter_cannot_fire`], no later message can select that
/// entry again. When the callback asks to stay, the table keeps an entry
/// with the same token and the same rule at the same place (only the
/// callback's own state `cb` may have advanced), so the filter remains
/// invocable for further matches.
pub proof fn lemma_fired_filter_fate<F>(s: Seq<FilterEntry<F>>, i: int, cb: F)
    requires
        filter_tokens_sorted(s),
        0 <= i < s.len(),
    ensures
        !has_filter_token(s.remove(i), s[i].token),
        s.update(i, with_callback(s[i], cb))[i].token == s[i].token,
        s.update(i, with_callback(s[i], cb))[i].rule == s[i].rule,
        has_filter_token(s.update(i, with_callback(s[i], cb)), s[i].token),
{
    let r = s.remove(i);
    assert forall|j: int| 0 <= j < r.len() implies r[j].token != s[i].token by {
        let jj = if j < i {
            j
        } else {
            j + 1
        };
        assert(r[j] == s[jj]);
        if jj < i {
            assert(s[jj].token < s[i].token);
        } else {
            assert(s[i].token < s[jj].token);
        }
    }
    let u = s.update(i, with_callback(s[i], cb));
    assert(u[i].token == s[i].token);
}

/// Tokens grow strictly along the sequence: the sequence order is the
/// insertion order, and no two entries share a token.
pub open spec fn filter_tokens_sorted<F>(s: Seq<FilterEntry<F>>) -> bool {
    forall|i: int, j: int| 0 <= i < j < s.len() ==> s[i].token < s[j].token
}

/// No rule of `s` matches `m`.
pub open spec fn no_filter_matches<F>(s: Seq<FilterEntry<F>>, m: Message) -> bool {
    forall|i: int| 0 <= i < s.len() ==> !rule_matches(s[i].rule, m)
}

/// The index of the first entry whose rule matches `m`; the length of `s`
/// when none does.
pub open spec fn first_match_at<F>(s: Seq<FilterEntry<F>>, m: Message) -> int
    decreases s.len(),
{
    if s.len() == 0 {
        0
    } else if rule_matches(s[0].rule, m) {
        0
    } else {
        1 + first_match_at(s.drop_first(), m)
    }
}

/// An index that matches, with no match before it, is the first-match index.
pub proof fn lemma_first_match_at<F>(s: Seq<FilterEntry<F>>, m: Message, i: int)
    requires
        0 <= i < s.len(),
        rule_matches(s[i].rule, m),
        forall|j: int| 0 <= j < i ==> !rule_matches(s[j].rule, m),
    ensures
        first_match_at(s, m) == i,
    decreases s.len(),
{
    if i > 0 {
        assert(!rule_matches(s[0].rule, m));
        let t = s.drop_first();
        assert(t[i - 1] == s[i]);
        assert forall|j: int| 0 <= j < i - 1 implies !rule_matches(t[j].rule, m) by {
            assert(t[j] == s[j + 1]);
        }
        lemma_first_match_at(t, m, i - 1);
    }
}

/// Ordered collection of filter entries, with fresh tokens drawn from a
/// counter that stays above every stored token.
pub struct FilterTable<F> {
    entries: Vec<FilterEntry<F>>,
    next_token: u64,
}

impl<F> View for FilterTable<F> {
    type V = Seq<FilterEntry<F>>;

    closed spec fn view(&self) -> Seq<FilterEntry<F>> {
        self.entries@
    }
}

impl<F> FilterTable<F> {
    /// The token the next added entry will receive.
    pub closed spec fn spec_next(&self) -> u64 {
        self.next_token
    }

    /// Entries are in insertion order with distinct tokens, all below the
    /// fresh-token counter.
    pub open spec fn wf(&self) -> bool {
        &&& filter_tokens_sorted(self@)
        &&& forall|i: int| 0 <= i < self@.len() ==> self@[i].token < self.spec_next()
    }

    /// Whether another entry can still receive a fresh token.
    pub open spec fn can_add(&self) -> bool {
        self.spec_next() < u64::MAX
    }

    /// An empty table.
    pub fn new() -> (t: Self)
        ensures
            t@ == Seq::<FilterEntry<F>>::empty(),
            t.wf(),
            t.spec_next() == 1,
    {
        FilterTable { entries: Vec::new(), next_token: 1 }
    }

    /// Whether another entry can still receive a fresh token, decided at
    /// run time.
    pub fn accepts_more(&self) -> (b: bool)
        ensures
            b == self.can_add(),
    {
        self.next_token < u64::MAX
    }

    /// How many filters are registered.
    pub fn len(&self) -> (n: usize)
        ensures
            n == self@.len(),
    {
        self.entries.len()
    }

    /// Whether an entry is registered under `token`.
    pub fn contains(&self, token: u64) -> (b: bool)
        ensures
            b == has_filter_token(self@, token),
    {
        let mut i: usize = 0;
        while i < self.entries.len()
            invariant
                0 <= i <= self@.len(),
                forall|j: int| 0 <= j < i ==> self@[j].token != token,
            decreases self@.len() - i,
        {
            if self.entries[i].token == token {
                return true;
            }
            i = i + 1;
        }
        false
    }

    /// Register a callback under a fresh token; the entry goes to the end of
    /// the order.
    pub fn add(&mut self, rule: MatchRule, callback: F) -> (t: u64)
        requires
            old(self).wf(),
            old(self).can_add(),
        ensures
            final(self).wf(),
            t == old(self).spec_next(),
            final(self).spec_next() == t + 1,
            final(self)@ == old(self)@.push(FilterEntry { token: t, rule, callback }),
    {
        let ghost s0 = self@;
        let t = self.next_token;
        self.next_token = t + 1;
        self.entries.push(FilterEntry { token: t, rule, callback });
        proof {
            assert forall|p: int, q: int|
                0 <= p < q < self@.len() implies self@[p].token < self@[q].token by {
                if q < s0.len() {
                    assert(self@[p] == s0[p]);
                    assert(self@[q] == s0[q]);
                } else {
                    assert(self@[p] == s0[p]);
                }
            }
        }
        t
    }

    /// Remove and return the entry registered under `token`, if any: exactly
    /// that entry leaves the table and every other entry stays, in order.
    pub fn remove(&mut self, token: u64) -> (r: Option<(MatchRule, F)>)
        requires
            old(self).wf(),
        ensures
            final(self).wf(),
            final(self).spec_next() == old(self).spec_next(),
            !has_filter_token(old(self)@, token) ==> r is None && final(self)@ == old(self)@,
            has_filter_token(old(self)@, token) ==> ({
                let i = filter_index_of(old(self)@, token);
                &&& r matches Some(rc) && rc.0 == old(self)@[i].rule
                    && rc.1 == old(self)@[i].callback
                &&& final(self)@ == old(self)@.remove(i)
            }),
            !has_filter_token(final(self)@, token),
    {
        let ghost s0 = self@;
        let mut i: usize = 0;
        while i < self.entries.len()
            invariant
                self@ == s0,
                s0 == old(self)@,
                self.spec_next() == old(self).spec_next(),
                old(self).wf(),
                0 <= i <= s0.len(),
                forall|j: int| 0 <= j < i ==> s0[j].token != token,
            decreases s0.len() - i,
        {
            if self.entries[i].token == token {
                let e = self.entries.remove(i);
                proof {
                    assert(has_filter_token(s0, token));
                    let k = filter_index_of(s0, token);
                    if k < i as int {
                        assert(s0[k].token < s0[i as int].token);
                    } else if k > i as int {
                        assert(s0[i as int].token < s0[k].token);
                    }
                    assert(k == i as int);
                    assert forall|p: int, q: int|
                        0 <= p < q < self@.len() implies self@[p].token < self@[q].token by {
                        let pp = if p < i { p } else { p + 1 };
                        let qq = if q < i { q } else { q + 1 };
                        assert(self@[p] == s0[pp]);
                        assert(self@[q] == s0[qq]);
                    }
                    assert forall|j: int| 0 <= j < self@.len() implies self@[j].token != token by {
                        let jj = if j < i { j } else { j + 1 };
                        assert(self@[j] == s0[jj]);
                        if jj < i as int {
                            assert(s0[jj].token < s0[i as int].token);
                        } else {
                            assert(s0[i as int].token < s0[jj].token);
                        }
                    }
                    assert forall|j: int| 0 <= j < self@.len() implies self@[j].token < old(
                        self,
                    ).spec_next() by {
                        let jj = if j < i { j } else { j + 1 };
                        assert(self@[j] == s0[jj]);
                    }
                }
                return Some((e.rule, e.callback));
            }
            i = i + 1;
        }
        None
    }

    /// Remove and return the first entry whose rule matches `m`, in
    /// insertion order, or none if no entry matches.
    pub fn remove_matching(&mut self, m: &Message) -> (r: Option<FilterEntry<F>>)
        requires
            old(self).wf(),
        ensures
            final(self).wf(),
            final(self).spec_next() == old(self).spec_next(),
            no_filter_matches(old(self)@, *m) ==> r is None && final(self)@ == old(self)@,
            !no_filter_matches(old(self)@, *m) ==> r is Some,
            r matches Some(e) ==> exists|i: int|
                {
                    &&& 0 <= i < old(self)@.len()
                    &&& e == old(self)@[i]
                    &&& rule_matches(e.rule, *m)
                    &&& (forall|j: int| 0 <= j < i ==> !rule_matches(old(self)@[j].rule, *m))
                    &&& final(self)@ == old(self)@.remove(i)
                },
            r matches Some(e) ==> !has_filter_token(final(self)@, e.token)
                && e.token < old(self).spec_next(),
    {
        let ghost s0 = self@;
        let mut i: usize = 0;
        while i < self.entries.len()
            invariant
                self@ == s0,
                s0 == old(self)@,
                self.spec_next() == old(self).spec_next(),
                old(self).wf(),
                0 <= i <= s0.len(),
                forall|j: int| 0 <= j < i ==> !rule_matches(s0[j].rule, *m),
            decreases s0.len() - i,
        {
            if self.entries[i].rule.is_match(m) {
                let e = self.entries.remove(i);
                proof {
                    assert forall|p: int, q: int|
                        0 <= p < q < self@.len() implies self@[p].token < self@[q].token by {
                        let pp = if p < i { p } else { p + 1 };
                        let qq = if q < i { q } else { q + 1 };
                        assert(self@[p] == s0[pp]);
                        assert(self@[q] == s0[qq]);
                    }
                    assert forall|j: int| 0 <= j < self@.len() implies self@[j].token != e.token
                    by {
                        let jj = if j < i { j } else { j + 1 };
                        assert(self@[j] == s0[jj]);
                        if jj < i as int {
                            assert(s0[jj].token < s0[i as int].token);
                        } else {
                            assert(s0[i as int].token < s0[jj].token);
                        }
                    }
                    assert forall|j: int| 0 <= j < self@.len() implies self@[j].token < old(
                        self,
                    ).spec_next() by {
                        let jj = if j < i { j } else { j + 1 };
                        assert(self@[j] == s0[jj]);
                    }
                }
                return Some(e);
            }
            i = i + 1;
        }
        None
    }

    /// Put back an entry that was removed, at its place in the token order,
    /// so that the insertion order of the table is restored.
    pub fn reinsert(&mut self, e: FilterEntry<F>)
        requires
            old(self).wf(),
            !has_filter_token(old(self)@, e.token),
            e.token < old(self).spec_next(),
        ensures
            final(self).wf(),
            final(self).spec_next() == old(self).spec_next(),
            exists|k: int|
                {
                    &&& 0 <= k <= old(self)@.len()
                    &&& final(self)@ == old(self)@.insert(k, e)
                    &&& (forall|j: int| 0 <= j < k ==> old(self)@[j].token < e.token)
                    &&& (forall|j: int| k <= j < old(self)@.len() ==> old(self)@[j].token > e.token)
                },
    {
        let ghost s0 = self@;
        let mut i: usize = 0;
        while i < self.entries.len() && self.entries[i].token < e.token
            invariant
                self@ == s0,
                s0 == old(self)@,
                old(self).wf(),
                !has_filter_token(s0, e.token),
                0 <= i <= s0.len(),
                forall|j: int| 0 <= j < i ==> s0[j].token < e.token,
            decreases s0.len() - i,
        {
            i = i + 1;
        }
        proof {
            assert forall|j: int| i <= j < s0.len() implies s0[j].token > e.token by {
                if s0[i as int].token == e.token {
                    assert(has_filter_token(s0, e.token));
                }
                if j > i {
                    assert(s0[i as int].token < s0[j].token);
                }
                if s0[j].token == e.token {
                    assert(has_filter_token(s0, e.token));
                }
            }
        }
        self.entries.insert(i, e);
        proof {
            assert forall|p: int, q: int|
                0 <= p < q < self@.len() implies self@[p].token < self@[q].token by {
                let pp = if p < i { p } else { p - 1 };
                let qq = if q < i { q } else { q - 1 };
                if p < i {
                    assert(self@[p] == s0[p]);
                } else if p > i {
                    assert(self@[p] == s0[p - 1]);
                }
                if q < i {
                    assert(self@[q] == s0[q]);
                } else if q > i {
                    assert(self@[q] == s0[q - 1]);
                }
            }
        
            assert forall|j: int| 0 <= j < self@.len() implies self@[j].token < old(
                self,
            ).spec_next() by {
                if j < i {
                    assert(self@[j] == s0[j]);
                } else if j > i {
                    assert(self@[j] == s0[j - 1]);
                }
            }
        }
    }
}

} // verus!
