//! Session state and subscription fan-out.
//!
//! The session is owned by the event loop, which is its only mutator.  It
//! holds the terminal geometry, the child pid, the emulator's cursor-key
//! mode, and one entry per subscriber.  Every event a subscriber is ever
//! handed goes through `emit` here, which filters by the subscriber's
//! subscription before enqueueing; the full per-subscriber delivery log
//! (already-taken events plus the queue) satisfies the invariants stated
//! by `Subscriber::wf` for the session's whole lifetime.

use vstd::prelude::*;

use crate::events::Event;
use crate::events::EventKind;
use crate::events::Subscription;

verus! {

/// One connected subscriber: its subscription, the events enqueued for it
/// that its transport has not yet taken, and the ghost record of the
/// events already taken.  `open` is cleared when the transport's queue is
/// full or closed; a closed subscriber receives nothing further.
pub struct Subscriber {
    pub subscription: Subscription,
    pub queue: Vec<Event>,
    pub taken: Ghost<Seq<Event>>,
    pub open: bool,
}

impl Subscriber {
    /// Every event ever delivered to this subscriber, in delivery order.
    pub open spec fn log(self) -> Seq<Event> {
        self.taken@ + self.queue@
    }

    /// No `Exit` event has been delivered yet.
    pub open spec fn no_exit(self) -> bool {
        forall|i: int|
            0 <= i < self.log().len() ==> !((#[trigger] self.log()[i]).kind() is Exit)
    }

    /// The delivery-log invariants: every delivered event's kind is in the
    /// subscription; an `Init` event can only stand first; an `Exit` event
    /// can only stand last.
    pub open spec fn wf(self) -> bool {
        &&& forall|i: int|
            0 <= i < self.log().len() ==> self.subscription.spec_allows(
                (#[trigger] self.log()[i]).kind(),
            )
        &&& forall|i: int|
            0 <= i < self.log().len() && (#[trigger] self.log()[i]).kind() is Init ==> i == 0
        &&& forall|i: int|
            0 <= i < self.log().len() && (#[trigger] self.log()[i]).kind() is Exit ==> i
                == self.log().len() - 1
    }
}

/// How one subscriber entry changes when the session fans out `e`: open
/// subscribers whose subscription admits `e`'s kind get it appended to
/// their queue; everyone else is untouched.
pub open spec fn emit_rel(pre: Subscriber, post: Subscriber, e: Event) -> bool {
    &&& post.subscription == pre.subscription
    &&& post.open == pre.open
    &&& post.taken@ == pre.taken@
    &&& if pre.open && pre.subscription.spec_allows(e.kind()) {
        post.queue@ == pre.queue@.push(e)
    } else {
        post.queue@ == pre.queue@
    }
}

/// Fanning out a non-`Init` event preserves the delivery-log invariants,
/// and preserves `no_exit` unless the event is itself an `Exit`.
pub proof fn lemma_emit_preserves_wf(pre: Subscriber, post: Subscriber, e: Event)
    requires
        pre.wf(),
        pre.no_exit(),
        !(e.kind() is Init),
        emit_rel(pre, post, e),
    ensures
        post.wf(),
        !(e.kind() is Exit) ==> post.no_exit(),
{
    if pre.open && pre.subscription.spec_allows(e.kind()) {
        assert(post.log() =~= pre.log().push(e));
        assert forall|i: int|
            0 <= i < post.log().len() implies post.subscription.spec_allows(
            (#[trigger] post.log()[i]).kind(),
        ) by {
            if i < pre.log().len() {
                assert(post.log()[i] == pre.log()[i]);
            }
        }
    } else {
        assert(post.log() =~= pre.log());
    }
}

/// The session: terminal geometry, child pid, the emulator's cursor-key
/// application mode as of all output consumed so far, the subscriber
/// table, and whether the terminal `exit` event has been recorded.
pub struct Session {
    pub cols: usize,
    pub rows: usize,
    pub pid: i32,
    pub cursor_key_app_mode: bool,
    pub subs: Vec<Subscriber>,
    pub closed: bool,
}

/// The bootstrap events a new subscriber starts with: its `init` event,
/// then an immediate snapshot of the current screen, each only if its
/// subscription asks for that kind.
pub open spec fn spec_bootstrap(
    subscription: Subscription,
    cols: usize,
    rows: usize,
    pid: i32,
    dump: String,
) -> Seq<Event> {
    (if subscription.init {
        seq![Event::Init { cols, rows, pid }]
    } else {
        Seq::empty()
    }) + (if subscription.snapshot {
        seq![Event::Snapshot { data: dump }]
    } else {
        Seq::empty()
    })
}

impl Session {
    /// The terminal has at least one column and one row, every
    /// subscriber's delivery log satisfies its invariants, and while the
    /// session is not closed no subscriber has seen an `Exit` event.
    pub open spec fn wf(self) -> bool {
        &&& self.cols >= 1 && self.rows >= 1
        &&& forall|i: int| 0 <= i < self.subs@.len() ==> (#[trigger] self.subs@[i]).wf()
        &&& !self.closed ==> forall|i: int|
            0 <= i < self.subs@.len() ==> (#[trigger] self.subs@[i]).no_exit()
    }

    /// A fresh session for a child of pid `pid` in a terminal of the given
    /// geometry: no subscribers, cursor-key mode off, not closed.
    pub fn new(cols: usize, rows: usize, pid: i32) -> (r: Session)
        requires
            cols >= 1,
            rows >= 1,
        ensures
            r.cols == cols && r.rows == rows && r.pid == pid,
            !r.cursor_key_app_mode,
            !r.closed,
            r.subs@.len() == 0,
            r.wf(),
    {
        Session { cols, rows, pid, cursor_key_app_mode: false, subs: Vec::new(), closed: false }
    }

    /// The current terminal geometry as (cols, rows).
    pub fn size(&self) -> (r: (usize, usize))
        ensures
            r.0 == self.cols && r.1 == self.rows,
    {
        (self.cols, self.rows)
    }

    /// Whether the emulator is in cursor-key application mode.
    pub fn cursor_key_app_mode(&self) -> (r: bool)
        ensures
            r == self.cursor_key_app_mode,
    {
        self.cursor_key_app_mode
    }

    /// Fan `e` out to every open subscriber whose subscription admits its
    /// kind.  Internal: the public mutators below wrap it.
    fn emit(&mut self, e: &Event)
        ensures
            final(self).cols == old(self).cols,
            final(self).rows == old(self).rows,
            final(self).pid == old(self).pid,
            final(self).cursor_key_app_mode == old(self).cursor_key_app_mode,
            final(self).closed == old(self).closed,
            final(self).subs@.len() == old(self).subs@.len(),
            forall|i: int|
                0 <= i < old(self).subs@.len() ==> emit_rel(
                    old(self).subs@[i],
                    #[trigger] final(self).subs@[i],
                    *e,
                ),
    {
        let n = self.subs.len();
        let mut i: usize = 0;
        while i < n
            invariant
                n == self.subs@.len(),
                n == old(self).subs@.len(),
                i <= n,
                self.cols == old(self).cols,
                self.rows == old(self).rows,
                self.pid == old(self).pid,
                self.cursor_key_app_mode == old(self).cursor_key_app_mode,
                self.closed == old(self).closed,
                forall|j: int|
                    0 <= j < i ==> emit_rel(old(self).subs@[j], #[trigger] self.subs@[j], *e),
                forall|j: int| i <= j < n ==> self.subs@[j] == old(self).subs@[j],
            decreases n - i,
        {
            let ghost prev = self.subs@;
            let mut s = self.subs.remove(i);
            let ghost pre = old(self).subs@[i as int];
            if s.open && s.subscription.allows(e.get_kind()) {
                s.queue.push(e.duplicate());
            }
            let ghost snew = s;
            assert(emit_rel(pre, snew, *e));
            self.subs.insert(i, s);
            proof {
                assert(self.subs@ =~= prev.update(i as int, snew));
            }
            i = i + 1;
        }
    }

    /// Consume a chunk of child output: record the emulator's reported
    /// cursor-key-mode transition, if any, and fan out an `output` event
    /// carrying the chunk.
    pub fn output(&mut self, data: String, mode_transition: Option<bool>)
        requires
            old(self).wf(),
            !old(self).closed,
        ensures
            final(self).wf(),
            !final(self).closed,
            final(self).cols == old(self).cols,
            final(self).rows == old(self).rows,
            final(self).pid == old(self).pid,
            final(self).cursor_key_app_mode == (match mode_transition {
                Some(m) => m,
                None => old(self).cursor_key_app_mode,
            }),
            final(self).subs@.len() == old(self).subs@.len(),
            forall|i: int|
                0 <= i < old(self).subs@.len() ==> emit_rel(
                    old(self).subs@[i],
                    #[trigger] final(self).subs@[i],
                    Event::Output { seq: data },
                ),
    {
        let e = Event::Output { seq: data };
        self.emit(&e);
        if let Some(m) = mode_transition {
            self.cursor_key_app_mode = m;
        }
        proof {
            self.lemma_after_emit(*old(self), e);
        }
    }

    /// Apply a new terminal geometry and fan out a `resize` event carrying
    /// it.  The event is emitted even when the geometry is unchanged, and
    /// nothing besides the geometry (and the subscriber queues) changes.
    pub fn resize(&mut self, cols: usize, rows: usize)
        requires
            old(self).wf(),
            !old(self).closed,
            cols >= 1,
            rows >= 1,
        ensures
            final(self).wf(),
            !final(self).closed,
            final(self).cols == cols,
            final(self).rows == rows,
            final(self).pid == old(self).pid,
            final(self).cursor_key_app_mode == old(self).cursor_key_app_mode,
            final(self).subs@.len() == old(self).subs@.len(),
            forall|i: int|
                0 <= i < old(self).subs@.len() ==> emit_rel(
                    old(self).subs@[i],
                    #[trigger] final(self).subs@[i],
                    Event::Resize { cols, rows },
                ),
    {
        let e = Event::Resize { cols, rows };
        self.emit(&e);
        self.cols = cols;
        self.rows = rows;
        proof {
            self.lemma_after_emit(*old(self), e);
        }
    }

    /// Fan out a `snapshot` event carrying the given screen dump.  Each
    /// call appends exactly one event to each open subscriber that asked
    /// for snapshots: consecutive snapshots are never collapsed.
    pub fn snapshot(&mut self, dump: String)
        requires
            old(self).wf(),
            !old(self).closed,
        ensures
            final(self).wf(),
            !final(self).closed,
            final(self).cols == old(self).cols,
            final(self).rows == old(self).rows,
            final(self).pid == old(self).pid,
            final(self).cursor_key_app_mode == old(self).cursor_key_app_mode,
            final(self).subs@.len() == old(self).subs@.len(),
            forall|i: int|
                0 <= i < old(self).subs@.len() ==> emit_rel(
                    old(self).subs@[i],
                    #[trigger] final(self).subs@[i],
                    Event::Snapshot { data: dump },
                ),
    {
        let e = Event::Snapshot { data: dump };
        self.emit(&e);
        proof {
            self.lemma_after_emit(*old(self), e);
        }
    }

    /// Record the child's exit: fan out the terminal `exit` event and
    /// close the session.  No event can follow it.
    pub fn exit(&mut self, code: i32, signal: Option<i32>)
        requires
            old(self).wf(),
            !old(self).closed,
        ensures
            final(self).wf(),
            final(self).closed,
            final(self).cols == old(self).cols,
            final(self).rows == old(self).rows,
            final(self).pid == old(self).pid,
            final(self).cursor_key_app_mode == old(self).cursor_key_app_mode,
            final(self).subs@.len() == old(self).subs@.len(),
            forall|i: int|
                0 <= i < old(self).subs@.len() ==> emit_rel(
                    old(self).subs@[i],
                    #[trigger] final(self).subs@[i],
                    Event::Exit { code, signal },
                ),
    {
        let e = Event::Exit { code, signal };
        self.emit(&e);
        self.closed = true;
        proof {
            let pre_session = *old(self);
            assert forall|i: int| 0 <= i < self.subs@.len() implies (
            #[trigger] self.subs@[i]).wf() by {
                lemma_emit_preserves_wf(pre_session.subs@[i], self.subs@[i], e);
            }
        }
    }

    /// Common wf-preservation argument for the non-`init`, non-`exit`
    /// mutators.
    proof fn lemma_after_emit(&self, pre: Session, e: Event)
        requires
            pre.wf(),
            !pre.closed,
            !self.closed,
            self.cols >= 1,
            self.rows >= 1,
            !(e.kind() is Init),
            !(e.kind() is Exit),
            self.subs@.len() == pre.subs@.len(),
            forall|i: int|
                0 <= i < pre.subs@.len() ==> emit_rel(
                    pre.subs@[i],
                    #[trigger] self.subs@[i],
                    e,
                ),
        ensures
            self.wf(),
    {
        assert forall|i: int| 0 <= i < self.subs@.len() implies (#[trigger] self.subs@[i]).wf()
            && self.subs@[i].no_exit() by {
            lemma_emit_preserves_wf(pre.subs@[i], self.subs@[i], e);
        }
    }

    /// Attach a new subscriber.  Its delivery log starts with the
    /// bootstrap: an `init` event describing the session as of this
    /// instant, then an immediate snapshot of the given screen dump, each
    /// filtered by the subscription.  Returns the subscriber's index.
    pub fn subscribe(&mut self, subscription: Subscription, dump: String) -> (idx: usize)
        requires
            old(self).wf(),
            !old(self).closed,
        ensures
            final(self).wf(),
            !final(self).closed,
            final(self).cols == old(self).cols,
            final(self).rows == old(self).rows,
            final(self).pid == old(self).pid,
            final(self).cursor_key_app_mode == old(self).cursor_key_app_mode,
            idx == old(self).subs@.len(),
            final(self).subs@.len() == old(self).subs@.len() + 1,
            forall|i: int|
                0 <= i < old(self).subs@.len() ==> final(self).subs@[i] == old(self).subs@[i],
            final(self).subs@[idx as int].subscription == subscription,
            final(self).subs@[idx as int].open,
            final(self).subs@[idx as int].taken@ == Seq::<Event>::empty(),
            final(self).subs@[idx as int].queue@ == spec_bootstrap(
                subscription,
                old(self).cols,
                old(self).rows,
                old(self).pid,
                dump,
            ),
    {
        let mut queue: Vec<Event> = Vec::new();
        if subscription.init {
            queue.push(Event::Init { cols: self.cols, rows: self.rows, pid: self.pid });
        }
        if subscription.snapshot {
            queue.push(Event::Snapshot { data: dump });
        }
        proof {
            assert(queue@ =~= spec_bootstrap(
                subscription,
                self.cols,
                self.rows,
                self.pid,
                dump,
            ));
        }
        let s = Subscriber { subscription, queue, taken: Ghost(Seq::empty()), open: true };
        let ghost snew = s;
        let idx = self.subs.len();
        self.subs.push(s);
        proof {
            assert(snew.log() =~= snew.queue@);
            assert forall|i: int| 0 <= i < self.subs@.len() implies (#[trigger] self.subs@[i]).wf()
                && self.subs@[i].no_exit() by {
                if i < idx {
                    assert(self.subs@[i] == old(self).subs@[i]);
                } else {
                    assert(self.subs@[i] == snew);
                }
            }
        }
        idx
    }

    /// Hand the transport everything queued for subscriber `i` and record
    /// it as taken.  The delivery log is unchanged.
    pub fn take_pending(&mut self, i: usize) -> (r: Vec<Event>)
        requires
            old(self).wf(),
            i < old(self).subs@.len(),
        ensures
            final(self).wf(),
            final(self).closed == old(self).closed,
            final(self).cols == old(self).cols,
            final(self).rows == old(self).rows,
            final(self).pid == old(self).pid,
            final(self).cursor_key_app_mode == old(self).cursor_key_app_mode,
            final(self).subs@.len() == old(self).subs@.len(),
            forall|j: int|
                0 <= j < old(self).subs@.len() && j != i ==> final(self).subs@[j] == old(
                    self,
                ).subs@[j],
            r@ == old(self).subs@[i as int].queue@,
            final(self).subs@[i as int].queue@ == Seq::<Event>::empty(),
            final(self).subs@[i as int].log() == old(self).subs@[i as int].log(),
            final(self).subs@[i as int].subscription == old(self).subs@[i as int].subscription,
            final(self).subs@[i as int].open == old(self).subs@[i as int].open,
    {
        let mut s = self.subs.remove(i);
        let ghost pre = old(self).subs@[i as int];
        let r = s.queue.split_off(0);
        proof {
            assert(r@ =~= pre.queue@);
            assert(s.queue@ =~= Seq::<Event>::empty());
        }
        s.taken = Ghost(s.taken@ + r@);
        let ghost snew = s;
        proof {
            assert(snew.log() =~= pre.log());
        }
        self.subs.insert(i, s);
        proof {
            assert(self.subs@ =~= old(self).subs@.update(i as int, snew));
            assert forall|j: int| 0 <= j < self.subs@.len() implies (
            #[trigger] self.subs@[j]).wf() by {
                if j != i {
                    assert(self.subs@[j] == old(self).subs@[j]);
                }
            }
            if !self.closed {
                assert forall|j: int| 0 <= j < self.subs@.len() implies (
                #[trigger] self.subs@[j]).no_exit() by {
                    if j != i {
                        assert(self.subs@[j] == old(self).subs@[j]);
                    }
                }
            }
        }
        r
    }

    /// Drop subscriber `i` from further delivery: its transport queue
    /// overflowed or closed.  Its delivery log is unchanged and nothing
    /// more is ever appended to it.
    pub fn drop_subscriber(&mut self, i: usize)
        requires
            old(self).wf(),
            i < old(self).subs@.len(),
        ensures
            final(self).wf(),
            final(self).closed == old(self).closed,
            final(self).cols == old(self).cols,
            final(self).rows == old(self).rows,
            final(self).pid == old(self).pid,
            final(self).cursor_key_app_mode == old(self).cursor_key_app_mode,
            final(self).subs@.len() == old(self).subs@.len(),
            forall|j: int|
                0 <= j < old(self).subs@.len() && j != i ==> final(self).subs@[j] == old(
                    self,
                ).subs@[j],
            !final(self).subs@[i as int].open,
            final(self).subs@[i as int].log() == old(self).subs@[i as int].log(),
            final(self).subs@[i as int].subscription == old(self).subs@[i as int].subscription,
    {
        let mut s = self.subs.remove(i);
        let ghost pre = old(self).subs@[i as int];
        s.open = false;
        let ghost snew = s;
        proof {
            assert(snew.log() =~= pre.log());
        }
        self.subs.insert(i, s);
        proof {
            assert(self.subs@ =~= old(self).subs@.update(i as int, snew));
            assert forall|j: int| 0 <= j < self.subs@.len() implies (
            #[trigger] self.subs@[j]).wf() by {
                if j != i {
                    assert(self.subs@[j] == old(self).subs@[j]);
                }
            }
            if !self.closed {
                assert forall|j: int| 0 <= j < self.subs@.len() implies (
                #[trigger] self.subs@[j]).no_exit() by {
                    if j != i {
                        assert(self.subs@[j] == old(self).subs@[j]);
                    }
                }
            }
        }
    }

    /// How many subscribers the session holds (open or dropped).
    pub fn subscriber_count(&self) -> (r: usize)
        ensures
            r == self.subs@.len(),
    {
        self.subs.len()
    }
}

/// How a whole session changes when one event is fanned out: exactly what
/// `output`, `resize`, `snapshot` and `exit` ensure of the subscriber
/// table.
pub open spec fn fan_out_rel(pre: Session, post: Session, e: Event) -> bool {
    &&& post.subs@.len() == pre.subs@.len()
    &&& forall|i: int|
        0 <= i < pre.subs@.len() ==> emit_rel(pre.subs@[i], #[trigger] post.subs@[i], e)
}

/// Fanning out a run of events appends exactly that run, in order, to an
/// open subscriber whose subscription admits each of them: over `events`
/// successive mutations (`chain[k]` to `chain[k + 1]` delivering
/// `events[k]`), the subscriber's delivery log grows by `events` itself —
/// one entry per mutation, none collapsed, none reordered.  With a run of
/// snapshot events this is the law that sending `Snapshot` N times yields
/// N snapshot events; with a run of output events it is the law that
/// chunks are delivered once each, in arrival order.
pub proof fn lemma_fan_out_chain(chain: Seq<Session>, events: Seq<Event>, i: int)
    requires
        chain.len() == events.len() + 1,
        forall|k: int|
            0 <= k < events.len() ==> fan_out_rel(chain[k], chain[k + 1], #[trigger] events[k]),
        0 <= i < chain[0].subs@.len(),
        chain[0].subs@[i].open,
        forall|k: int|
            0 <= k < events.len() ==> chain[0].subs@[i].subscription.spec_allows(
                (#[trigger] events[k]).kind(),
            ),
    ensures
        chain.last().subs@[i].log() == chain[0].subs@[i].log() + events,
    decreases events.len(),
{
    if events.len() == 0 {
        assert(chain.last() == chain[0]);
        assert(chain[0].subs@[i].log() + events =~= chain[0].subs@[i].log());
    } else {
        let rest_chain = chain.skip(1);
        let rest = events.skip(1);
        assert(fan_out_rel(chain[0], chain[1], events[0]));
        assert(chain[1].subs@[i].queue@ == chain[0].subs@[i].queue@.push(events[0]));
        assert(chain[1].subs@[i].log() =~= chain[0].subs@[i].log().push(events[0]));
        assert(rest_chain.len() == rest.len() + 1);
        assert(rest_chain[0] == chain[1]);
        assert forall|k: int|
            0 <= k < rest.len() implies fan_out_rel(
            rest_chain[k],
            rest_chain[k + 1],
            #[trigger] rest[k],
        ) by {
            assert(rest[k] == events[k + 1]);
            assert(rest_chain[k] == chain[k + 1]);
            assert(rest_chain[k + 1] == chain[k + 2]);
        }
        assert forall|k: int|
            0 <= k < rest.len() implies rest_chain[0].subs@[i].subscription.spec_allows(
            (#[trigger] rest[k]).kind(),
        ) by {
            assert(rest[k] == events[k + 1]);
        }
        lemma_fan_out_chain(rest_chain, rest, i);
        assert(rest_chain.last() == chain.last());
        assert(chain.last().subs@[i].log() == chain[1].subs@[i].log() + rest);
        assert(chain[0].subs@[i].log().push(events[0]) + rest =~= chain[0].subs@[i].log()
            + events);
    }
}

/// A subscriber that asked for `init` events starts with exactly its
/// `init` event describing the session at attachment time; one that did
/// not is never handed an `init` event at all.
pub proof fn lemma_bootstrap_init(
    subscription: Subscription,
    cols: usize,
    rows: usize,
    pid: i32,
    dump: String,
)
    ensures
        subscription.init ==> spec_bootstrap(subscription, cols, rows, pid, dump)[0]
            == (Event::Init { cols, rows, pid }),
        forall|i: int|
            0 < i < spec_bootstrap(subscription, cols, rows, pid, dump).len() ==> !(
            #[trigger] spec_bootstrap(subscription, cols, rows, pid, dump)[i].kind() is Init),
        !subscription.init ==> forall|i: int|
            0 <= i < spec_bootstrap(subscription, cols, rows, pid, dump).len() ==> !(
            #[trigger] spec_bootstrap(subscription, cols, rows, pid, dump)[i].kind() is Init),
{
}

/// A subscriber under the delivery-log invariants never holds an event
/// whose kind its subscription does not admit.
pub proof fn lemma_no_unsubscribed_delivery(s: Subscriber, i: int)
    requires
        s.wf(),
        0 <= i < s.log().len(),
    ensures
        s.subscription.spec_allows(s.log()[i].kind()),
{
}

/// A subscriber under the delivery-log invariants sees at most one `init`
/// event, and only as its very first event.
pub proof fn lemma_init_first(s: Subscriber, i: int, j: int)
    requires
        s.wf(),
        0 <= i < s.log().len(),
        0 <= j < s.log().len(),
        s.log()[i].kind() is Init,
        s.log()[j].kind() is Init,
    ensures
        i == 0,
        i == j,
{
}

/// A subscriber under the delivery-log invariants sees at most one `exit`
/// event, and if one is present it is the last event delivered.
pub proof fn lemma_exit_last(s: Subscriber, i: int, j: int)
    requires
        s.wf(),
        0 <= i < s.log().len(),
        0 <= j < s.log().len(),
        s.log()[i].kind() is Exit,
        s.log()[j].kind() is Exit,
    ensures
        i == s.log().len() - 1,
        i == j,
{
}

} // verus!
