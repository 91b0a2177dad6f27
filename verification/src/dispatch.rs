//! The dispatch engine: a connection that drains incoming messages and
//! routes each one to the pending reply entry or the first matching filter,
//! answering unhandled calls with a default error reply.
//!
//! The connection owns the transport handle, the filter table and the reply
//! table. Callbacks are values of the embedder's types, invoked through the
//! [`FilterHandler`] and [`ReplyHandler`] traits; a callback must not call
//! back into the same connection's dispatch or table operations.

use vstd::prelude::*;

use crate::filters::FilterEntry;
use crate::filters::FilterTable;
use crate::filters::filter_index_of;
use crate::filters::filter_tokens_sorted;
use crate::filters::first_match_at;
use crate::filters::lemma_first_match_at;
use crate::filters::has_filter_token;
use crate::filters::with_callback;
use crate::filters::no_filter_matches;
use crate::msg::Message;
use crate::msg::default_reply;
use crate::replies::ReplyTable;
use crate::replies::has_reply_token;
use crate::replies::reply_tokens_unique;
use crate::replies::reply_index_of;
use crate::rules::MatchRule;
use crate::rules::rule_matches;

verus! {

/// The transport collaborator: sends outgoing messages and surrenders
/// pending incoming ones, without blocking. The serial returned by a
/// successful send is the correlation token of the eventual reply.
pub trait Transport {
    /// Hand one message to the transport; on success, return the serial it
    /// assigned.
    fn send_msg(&mut self, m: Message) -> Result<u32, ()>;

    /// Take the next pending incoming message; absence means "nothing ready
    /// now", not an error.
    fn pop_message(&mut self) -> Option<Message>;

    /// The endpoint's own bus-assigned name, once the bus has assigned one.
    fn unique_name(&self) -> Option<String>;
}

/// A filter callback: observes one matching message per invocation, and
/// decides with its result whether it stays registered.
pub trait FilterHandler {
    /// Handle one matching message; return whether the filter survives.
    fn handle(&mut self, m: &Message) -> bool;
}

/// A one-shot reply callback: consumed by the single correlated reply.
pub trait ReplyHandler {
    /// Deliver the correlated reply.
    fn complete(self, m: Message);
}

/// Whether a message is a reply that a pending entry is waiting for.
pub open spec fn routes_to_reply<R>(replies: Seq<(u64, R)>, m: Message) -> bool {
    m.reply_serial matches Some(s) && has_reply_token(replies, s)
}

/// The two tables after one message is dispatched: a live reply correlation
/// consumes exactly its entry and no filter sees the message; otherwise the
/// first matching filter fires, surviving with callback state `cb` exactly
/// when its verdict `keep` says so; a message nothing handles leaves both
/// tables alone (its default error reply goes to the transport, not the
/// tables). `keep` and `cb` are meaningful only when a filter fires.
pub open spec fn spec_dispatch_step<F, R>(
    filters: Seq<FilterEntry<F>>,
    replies: Seq<(u64, R)>,
    m: Message,
    keep: bool,
    cb: F,
) -> (Seq<FilterEntry<F>>, Seq<(u64, R)>) {
    if routes_to_reply(replies, m) {
        (filters, replies.remove(reply_index_of(replies, m.reply_serial.unwrap())))
    } else if no_filter_matches(filters, m) {
        (filters, replies)
    } else {
        let i = first_match_at(filters, m);
        if keep {
            (filters.update(i, with_callback(filters[i], cb)), replies)
        } else {
            (filters.remove(i), replies)
        }
    }
}

/// The tables after a whole batch, dispatched message by message in order,
/// with `verdicts[k]` the verdict and post-invocation state of the filter
/// fired by message `k` (unused for messages that fire no filter).
pub open spec fn spec_dispatch_run<F, R>(
    filters: Seq<FilterEntry<F>>,
    replies: Seq<(u64, R)>,
    msgs: Seq<Message>,
    verdicts: Seq<(bool, F)>,
) -> (Seq<FilterEntry<F>>, Seq<(u64, R)>)
    decreases msgs.len(),
{
    if msgs.len() <= 0 {
        (filters, replies)
    } else {
        let stepped = spec_dispatch_step(filters, replies, msgs[0], verdicts[0].0, verdicts[0].1);
        spec_dispatch_run(stepped.0, stepped.1, msgs.drop_first(), verdicts.drop_first())
    }
}

/// Dispatching one more message after a batch is the batch's run followed
/// by that message's step.
pub proof fn lemma_dispatch_run_snoc<F, R>(
    filters: Seq<FilterEntry<F>>,
    replies: Seq<(u64, R)>,
    msgs: Seq<Message>,
    verdicts: Seq<(bool, F)>,
    m: Message,
    v: (bool, F),
)
    requires
        verdicts.len() == msgs.len(),
    ensures
        spec_dispatch_run(filters, replies, msgs.push(m), verdicts.push(v)) == ({
            let run = spec_dispatch_run(filters, replies, msgs, verdicts);
            spec_dispatch_step(run.0, run.1, m, v.0, v.1)
        }),
    decreases msgs.len(),
{
    reveal_with_fuel(spec_dispatch_run, 3);
    if msgs.len() == 0 {
        assert(msgs.push(m)[0] == m);
        assert(verdicts.push(v)[0] == v);
        assert(msgs.push(m).drop_first() =~= Seq::<Message>::empty());
    } else {
        assert(msgs.push(m)[0] == msgs[0]);
        assert(verdicts.push(v)[0] == verdicts[0]);
        let stepped = spec_dispatch_step(filters, replies, msgs[0], verdicts[0].0, verdicts[0].1);
        assert(msgs.push(m).drop_first() =~= msgs.drop_first().push(m));
        assert(verdicts.push(v).drop_first() =~= verdicts.drop_first().push(v));
        lemma_dispatch_run_snoc(
            stepped.0,
            stepped.1,
            msgs.drop_first(),
            verdicts.drop_first(),
            m,
            v,
        );
    }
}

/// A connection: the transport handle, the two dispatch tables, and whether
/// a timer source was installed for bounded-wait calls.
pub struct Connection<T, F, R> {
    transport: T,
    filters: FilterTable<F>,
    replies: ReplyTable<R>,
    timer_source: bool,
}

impl<T: Transport, F: FilterHandler, R: ReplyHandler> Connection<T, F, R> {
    /// The registered filters, in insertion order.
    pub closed spec fn spec_filters(&self) -> Seq<FilterEntry<F>> {
        self.filters@
    }

    /// The pending reply entries.
    pub closed spec fn spec_replies(&self) -> Seq<(u64, R)> {
        self.replies@
    }

    /// The token the next added filter will receive.
    pub closed spec fn spec_filters_next(&self) -> u64 {
        self.filters.spec_next()
    }

    /// Whether a timer source is installed.
    pub closed spec fn spec_timer_source(&self) -> bool {
        self.timer_source
    }

    /// Both tables are well-formed: filter entries in insertion order below
    /// the fresh-token counter, reply tokens unique.
    pub open spec fn wf(&self) -> bool {
        &&& filter_tokens_sorted(self.spec_filters())
        &&& (forall|i: int|
            0 <= i < self.spec_filters().len() ==> self.spec_filters()[i].token < self.spec_filters_next())
        &&& reply_tokens_unique(self.spec_replies())
    }

    /// Whether another filter can still receive a fresh token.
    pub open spec fn can_add_filter(&self) -> bool {
        self.spec_filters_next() < u64::MAX
    }

    /// Wrap a transport into a fresh connection: no filters, no pending
    /// replies, no timer source.
    pub fn new(transport: T) -> (c: Self)
        ensures
            c.wf(),
            c.spec_filters() == Seq::<FilterEntry<F>>::empty(),
            c.spec_replies() == Seq::<(u64, R)>::empty(),
            c.spec_filters_next() == 1,
            !c.spec_timer_source(),
    {
        Connection {
            transport,
            filters: FilterTable::new(),
            replies: ReplyTable::new(),
            timer_source: false,
        }
    }

    /// Install or remove the timer source; returns whether one was
    /// installed before.
    pub fn set_timer_source(&mut self, on: bool) -> (was: bool)
        ensures
            was == old(self).spec_timer_source(),
            final(self).spec_timer_source() == on,
            final(self).spec_filters() == old(self).spec_filters(),
            final(self).spec_replies() == old(self).spec_replies(),
            final(self).spec_filters_next() == old(self).spec_filters_next(),
            old(self).wf() ==> final(self).wf(),
    {
        let was = self.timer_source;
        self.timer_source = on;
        was
    }

    /// Whether a timer source is installed.
    pub fn timer_source(&self) -> (b: bool)
        ensures
            b == self.spec_timer_source(),
    {
        self.timer_source
    }

    /// How many filters are registered.
    pub fn filter_count(&self) -> (n: usize)
        ensures
            n == self.spec_filters().len(),
    {
        self.filters.len()
    }

    /// How many replies are pending.
    pub fn reply_count(&self) -> (n: usize)
        ensures
            n == self.spec_replies().len(),
    {
        self.replies.len()
    }

    /// Whether another filter can still receive a fresh token, decided at
    /// run time; callers check this before registering a filter.
    pub fn accepts_more_filters(&self) -> (b: bool)
        ensures
            b == self.can_add_filter(),
    {
        self.filters.accepts_more()
    }

    /// Whether a reply is pending under `token`.
    pub fn has_pending_reply(&self, token: u64) -> (b: bool)
        ensures
            b == has_reply_token(self.spec_replies(), token),
    {
        self.replies.contains(token)
    }

    /// Send a message that expects no correlated reply; the tables are
    /// untouched.
    pub fn send(&mut self, m: Message) -> (r: Result<u32, ()>)
        ensures
            final(self).spec_filters() == old(self).spec_filters(),
            final(self).spec_replies() == old(self).spec_replies(),
            final(self).spec_filters_next() == old(self).spec_filters_next(),
            final(self).spec_timer_source() == old(self).spec_timer_source(),
            old(self).wf() ==> final(self).wf(),
    {
        self.transport.send_msg(m)
    }

    /// Take the next pending incoming message from the transport; the
    /// tables are untouched.
    pub fn pop_message(&mut self) -> (r: Option<Message>)
        ensures
            final(self).spec_filters() == old(self).spec_filters(),
            final(self).spec_replies() == old(self).spec_replies(),
            final(self).spec_filters_next() == old(self).spec_filters_next(),
            final(self).spec_timer_source() == old(self).spec_timer_source(),
            old(self).wf() ==> final(self).wf(),
    {
        self.transport.pop_message()
    }

    /// The connection's own bus-assigned name, once the bus has assigned
    /// one; it is usually something like ":1.54".
    pub fn unique_name(&self) -> Option<String> {
        self.transport.unique_name()
    }

    /// Register a filter callback for the messages selected by `rule`; the
    /// returned token is fresh, and the entry goes to the end of the order.
    pub fn start_receive(&mut self, rule: MatchRule, callback: F) -> (t: u64)
        requires
            old(self).wf(),
            old(self).can_add_filter(),
        ensures
            final(self).wf(),
            t == old(self).spec_filters_next(),
            final(self).spec_filters_next() == t + 1,
            final(self).spec_filters() == old(self).spec_filters().push(
                FilterEntry { token: t, rule, callback },
            ),
            final(self).spec_replies() == old(self).spec_replies(),
            final(self).spec_timer_source() == old(self).spec_timer_source(),
    {
        self.filters.add(rule, callback)
    }

    /// Remove the filter registered under `token` without invoking it.
    pub fn stop_receive(&mut self, token: u64) -> (r: Option<(MatchRule, F)>)
        requires
            old(self).wf(),
        ensures
            final(self).wf(),
            final(self).spec_filters_next() == old(self).spec_filters_next(),
            final(self).spec_replies() == old(self).spec_replies(),
            final(self).spec_timer_source() == old(self).spec_timer_source(),
            !has_filter_token(old(self).spec_filters(), token) ==> r is None && final(self).spec_filters() == old(self).spec_filters(),
            has_filter_token(old(self).spec_filters(), token) ==> ({
                let i = filter_index_of(old(self).spec_filters(), token);
                &&& r matches Some(rc) && rc.0 == old(self).spec_filters()[i].rule
                    && rc.1 == old(self).spec_filters()[i].callback
                &&& final(self).spec_filters() == old(self).spec_filters().remove(i)
            }),
            !has_filter_token(final(self).spec_filters(), token),
    {
        self.filters.remove(token)
    }

    /// Send a method call and register `callback` for its reply. On success
    /// the entry is pending under the serial the transport assigned, which
    /// is returned as the correlation token; on failure nothing is
    /// registered and the callback is dropped without running.
    pub fn send_with_reply(&mut self, m: Message, callback: R) -> (r: Result<u64, ()>)
        requires
            old(self).wf(),
        ensures
            final(self).wf(),
            final(self).spec_filters() == old(self).spec_filters(),
            final(self).spec_filters_next() == old(self).spec_filters_next(),
            final(self).spec_timer_source() == old(self).spec_timer_source(),
            r matches Ok(t) ==> {
                &&& has_reply_token(final(self).spec_replies(), t)
                &&& !has_reply_token(old(self).spec_replies(), t) ==> final(self).spec_replies()
                    == old(self).spec_replies().push((t, callback))
                &&& has_reply_token(old(self).spec_replies(), t) ==> final(self).spec_replies()
                    == old(self).spec_replies().remove(
                    reply_index_of(old(self).spec_replies(), t),
                ).push((t, callback))
            },
            r is Err ==> final(self).spec_replies() == old(self).spec_replies(),
    {
        match self.transport.send_msg(m) {
            Ok(serial) => {
                let t = serial as u64;
                self.replies.insert(t, callback);
                Ok(t)
            },
            Err(_) => Err(()),
        }
    }

    /// Cancel a pending reply: remove its entry without ever running the
    /// callback, and hand the callback back if it was still pending.
    pub fn cancel_reply(&mut self, token: u64) -> (r: Option<R>)
        requires
            old(self).wf(),
        ensures
            final(self).wf(),
            final(self).spec_filters() == old(self).spec_filters(),
            final(self).spec_filters_next() == old(self).spec_filters_next(),
            final(self).spec_timer_source() == old(self).spec_timer_source(),
            !has_reply_token(old(self).spec_replies(), token) ==> r is None && final(self).spec_replies() == old(self).spec_replies(),
            has_reply_token(old(self).spec_replies(), token) ==> ({
                let i = reply_index_of(old(self).spec_replies(), token);
                &&& r matches Some(cb) && cb == old(self).spec_replies()[i].1
                &&& final(self).spec_replies() == old(self).spec_replies().remove(i)
            }),
            !has_reply_token(final(self).spec_replies(), token),
    {
        self.replies.remove(token)
    }

    /// Dispatch one message.
    ///
    /// Reply delivery takes strict priority: a message whose correlation
    /// serial points at a live reply entry consumes exactly that entry and
    /// is handed to its callback, and no filter observes it. Otherwise the
    /// first filter whose rule matches fires and survives exactly when its
    /// callback asks to; and a call that demands a reply and went unhandled
    /// is answered with a default error reply, whose own send failure is
    /// swallowed.
    #[verifier::spinoff_prover]
    #[verifier::rlimit(100)]
    pub fn process_one(&mut self, m: Message)
        requires
            old(self).wf(),
        ensures
            final(self).wf(),
            final(self).spec_filters_next() == old(self).spec_filters_next(),
            final(self).spec_timer_source() == old(self).spec_timer_source(),
            // reply delivery takes precedence over filter matching
            routes_to_reply(old(self).spec_replies(), m) ==> {
                &&& final(self).spec_filters() == old(self).spec_filters()
                &&& final(self).spec_replies() == old(self).spec_replies().remove(
                    reply_index_of(old(self).spec_replies(), m.reply_serial.unwrap()),
                )
                &&& !has_reply_token(final(self).spec_replies(), m.reply_serial.unwrap())
            },
            !routes_to_reply(old(self).spec_replies(), m) ==> final(self).spec_replies() == old(self).spec_replies(),
            !routes_to_reply(old(self).spec_replies(), m) && no_filter_matches(
                old(self).spec_filters(),
                m,
            ) ==> final(self).spec_filters() == old(self).spec_filters(),
            !routes_to_reply(old(self).spec_replies(), m) && !no_filter_matches(
                old(self).spec_filters(),
                m,
            ) ==> ({
                let i = first_match_at(old(self).spec_filters(), m);
                &&& 0 <= i < old(self).spec_filters().len()
                &&& rule_matches(old(self).spec_filters()[i].rule, m)
                &&& (final(self).spec_filters() == old(self).spec_filters().remove(i)
                    || exists|cb: F|
                    final(self).spec_filters() == old(self).spec_filters().update(
                        i,
                        with_callback(old(self).spec_filters()[i], cb),
                    ))
            }),
            // entries never appear out of nowhere
            forall|t: u64|
                has_reply_token(final(self).spec_replies(), t) ==> has_reply_token(
                    old(self).spec_replies(),
                    t,
                ),
            forall|t: u64|
                has_filter_token(final(self).spec_filters(), t) ==> has_filter_token(
                    old(self).spec_filters(),
                    t,
                ),
    {
        let ghost f0 = self.filters@;
        if let Some(serial) = m.reply_serial {
            let cb = self.replies.remove(serial);
            if let Some(h) = cb {
                h.complete(m);
                return ;
            }
        }
        let fired = self.filters.remove_matching(&m);
        if let Some(mut e) = fired {
            let ghost f1 = self.filters@;
            let ghost e1 = e;
            let ghost i = choose|i: int|
                {
                    &&& 0 <= i < f0.len()
                    &&& e1 == f0[i]
                    &&& rule_matches(e1.rule, m)
                    &&& (forall|j: int| 0 <= j < i ==> !rule_matches(f0[j].rule, m))
                    &&& f1 == f0.remove(i)
                };
            proof {
                lemma_first_match_at(f0, m, i);
            }
            let keep = e.callback.handle(&m);
            let ghost e2 = e;
            if keep {
                self.filters.reinsert(e);
                proof {
                    assert(e2.token == e1.token);
                    let k = choose|k: int|
                        {
                            &&& 0 <= k <= f1.len()
                            &&& self.filters@ == f1.insert(k, e2)
                            &&& (forall|j: int| 0 <= j < k ==> f1[j].token < e2.token)
                            &&& (forall|j: int| k <= j < f1.len() ==> f1[j].token > e2.token)
                        };
                    assert forall|j: int| 0 <= j < i implies f1[j].token < e2.token by {
                        assert(f1[j] == f0[j]);
                        assert(f0[j].token < f0[i].token);
                    }
                    assert forall|j: int| i <= j < f1.len() implies f1[j].token > e2.token by {
                        assert(f1[j] == f0[j + 1]);
                        assert(f0[i].token < f0[j + 1].token);
                    }
                    if k < i {
                        assert(f1[k].token > e2.token);
                        assert(f1[k].token < e2.token);
                    } else if k > i {
                        assert(f1[i].token < e2.token);
                        assert(f1[i].token > e2.token);
                    }
                    f1.insert_ensures(i, e2);
                    let fu = f0.update(i, with_callback(f0[i], e2.callback));
                    assert forall|j: int| 0 <= j < self.filters@.len() implies self.filters@[j]
                        == fu[j] by {
                        if j < i {
                            assert(self.filters@[j] == f1[j]);
                            assert(f1[j] == f0[j]);
                        } else if j == i {
                            assert(self.filters@[j] == e2);
                            assert(fu[j] == with_callback(f0[i], e2.callback));
                        } else {
                            assert(self.filters@[j] == f1[j - 1]);
                            assert(f1[j - 1] == f0[j]);
                        }
                    }
                    assert(self.filters@ =~= fu);
                    assert forall|t: u64|
                        has_filter_token(self.filters@, t) implies has_filter_token(f0, t) by {
                        let j = choose|j: int| 0 <= j < fu.len() && fu[j].token == t;
                        if j == i {
                            assert(fu[j].token == f0[i].token);
                        } else {
                            assert(fu[j] == f0[j]);
                        }
                    }
                }
            } else {
                proof {
                    assert forall|t: u64|
                        has_filter_token(self.filters@, t) implies has_filter_token(f0, t) by {
                        let j = choose|j: int| 0 <= j < f1.len() && f1[j].token == t;
                        if j < i {
                            assert(f1[j] == f0[j]);
                        } else {
                            assert(f1[j] == f0[j + 1]);
                        }
                    }
                }
            }
        } else {
            if let Some(rep) = default_reply(&m) {
                let _ = self.transport.send_msg(rep);
            }
        }
    }

    /// Dispatch a batch of drained messages, each one exactly once, in pop
    /// order: the final tables are the step-by-step run of
    /// [`spec_dispatch_step`] over the batch, for some sequence of filter
    /// verdicts (the verdicts belong to the embedder's callbacks). In
    /// particular a reply correlation that was pending and appears in the
    /// batch is consumed by it; a batch of zero messages performs no table
    /// mutation and leaves the connection as it was; and dispatching never
    /// conjures up reply or filter entries.
    #[verifier::spinoff_prover]
    #[verifier::rlimit(100)]
    pub fn process_batch(&mut self, msgs: Vec<Message>)
        requires
            old(self).wf(),
        ensures
            final(self).wf(),
            final(self).spec_filters_next() == old(self).spec_filters_next(),
            final(self).spec_timer_source() == old(self).spec_timer_source(),
            exists|verdicts: Seq<(bool, F)>|
                verdicts.len() == msgs@.len() && (
                final(self).spec_filters(),
                final(self).spec_replies(),
                ) == spec_dispatch_run(
                    old(self).spec_filters(),
                    old(self).spec_replies(),
                    msgs@,
                    verdicts,
                ),
            forall|t: u64|
                has_reply_token(old(self).spec_replies(), t) && (exists|i: int|
                    0 <= i < msgs@.len() && (#[trigger] msgs@[i]).reply_serial == Some(t))
                    ==> !has_reply_token(final(self).spec_replies(), t),
            msgs@.len() == 0 ==> *final(self) == *old(self),
            forall|t: u64|
                has_reply_token(final(self).spec_replies(), t) ==> has_reply_token(
                    old(self).spec_replies(),
                    t,
                ),
            forall|t: u64|
                has_filter_token(final(self).spec_filters(), t) ==> has_filter_token(
                    old(self).spec_filters(),
                    t,
                ),
    {
        let mut rest = msgs;
        let ghost all = rest@;
        let ghost n0 = all.len();
        let ghost f0 = self.filters@;
        let ghost r0 = self.replies@;
        let ghost mut vdone: Seq<(bool, F)> = Seq::empty();
        proof {
            assert(all.take(0) =~= Seq::<Message>::empty());
        }
        while rest.len() > 0
            invariant
                self.wf(),
                n0 == all.len(),
                rest@.len() <= n0,
                rest@ == all.skip(n0 - rest@.len()),
                f0 == old(self).spec_filters(),
                r0 == old(self).spec_replies(),
                vdone.len() == n0 - rest@.len(),
                (self.spec_filters(), self.spec_replies()) == spec_dispatch_run(
                    f0,
                    r0,
                    all.take(n0 - rest@.len()),
                    vdone,
                ),
                self.spec_filters_next() == old(self).spec_filters_next(),
                self.spec_timer_source() == old(self).spec_timer_source(),
                rest@.len() == n0 ==> *self == *old(self),
                forall|t: u64|
                    has_reply_token(r0, t) && (exists|i: int|
                        0 <= i < n0 - rest@.len() && (#[trigger] all[i]).reply_serial == Some(t))
                        ==> !has_reply_token(self.spec_replies(), t),
                forall|t: u64|
                    has_reply_token(self.spec_replies(), t) ==> has_reply_token(r0, t),
                forall|t: u64|
                    has_filter_token(self.spec_filters(), t) ==> has_filter_token(f0, t),
            decreases rest@.len(),
        {
            let ghost k = n0 - rest@.len();
            let m = rest.remove(0);
            proof {
                assert(m == all[k]);
                assert(rest@ =~= all.skip(k + 1));
            }
            let ghost fprev = self.filters@;
            let ghost rprev = self.replies@;
            self.process_one(m);
            proof {
                let v: (bool, F) = if !routes_to_reply(rprev, m) && !no_filter_matches(
                    fprev,
                    m,
                ) {
                    let i = first_match_at(fprev, m);
                    if self.filters@ == fprev.remove(i) {
                        (false, arbitrary())
                    } else {
                        (
                            true,
                            choose|cb: F|
                                self.filters@ == fprev.update(i, with_callback(fprev[i], cb)),
                        )
                    }
                } else {
                    (arbitrary(), arbitrary())
                };
                assert((self.filters@, self.replies@) == spec_dispatch_step(
                    fprev,
                    rprev,
                    m,
                    v.0,
                    v.1,
                ));
                lemma_dispatch_run_snoc(f0, r0, all.take(k), vdone, m, v);
                assert(all.take(k + 1) =~= all.take(k).push(m));
                vdone = vdone.push(v);
                assert forall|t: u64|
                    has_reply_token(r0, t) && (exists|i: int|
                        0 <= i < k + 1 && (#[trigger] all[i]).reply_serial == Some(t))
                        implies !has_reply_token(self.replies@, t) by {
                    let i = choose|i: int| 0 <= i < k + 1 && all[i].reply_serial == Some(t);
                    if i < k {
                        assert(!has_reply_token(rprev, t));
                    } else {
                        assert(m.reply_serial == Some(t));
                        if has_reply_token(rprev, t) {
                            assert(routes_to_reply(rprev, m));
                        }
                    }
                }
            }
        }
        proof {
            assert(all.take(n0 - rest@.len()) =~= msgs@);
        }
    }
}

} // verus!
