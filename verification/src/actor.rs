//! The actor loop's decision core and its obligations: every store
//! operation the loop performs is decided here, one event at a time; the
//! queue is served strictly in arrival order; and the store is closed
//! exactly once however the two shutdown triggers race.

use vstd::prelude::*;

use crate::request::{DBRequest, OpOutcome, OutcomeView};
use crate::store::{
    spec_close, spec_create, spec_delete, spec_read, spec_read_page, spec_update, MemStore,
    StoreView,
};

verus! {

/// One wake-up of the actor loop: the next envelope from the inbound
/// channel, the out-of-band shutdown signal, or the inbound channel gone.
#[derive(Debug)]
pub enum Event {
    Inbound(DBRequest),
    OobShutdown,
    InboundClosed,
}

/// What the loop must do with the event it was woken for.
#[derive(Debug)]
pub enum Action {
    /// Run this (non-shutdown) operation against the store and send the
    /// outcome on the envelope's reply channel.
    Perform(DBRequest),
    /// Close the store — this is the only action that may do so — and
    /// leave the loop.
    CloseAndStop,
    /// Leave the loop without touching the store.
    StopOnly,
}

/// The event carries a shutdown trigger: the explicit shutdown envelope
/// or the out-of-band signal.
pub open spec fn is_shutdown_trigger(ev: Event) -> bool {
    match ev {
        Event::Inbound(r) => r is Shutdown,
        Event::OobShutdown => true,
        Event::InboundClosed => false,
    }
}

/// The transition of the actor loop: whether it keeps running, and the
/// action the event demands. A loop that has stopped sees no further
/// events, so none demands an action.
pub open spec fn core_step(running: bool, ev: Event) -> (bool, Option<Action>) {
    if !running {
        (false, None)
    } else {
        match ev {
            Event::Inbound(r) => if r is Shutdown {
                (false, Some(Action::CloseAndStop))
            } else {
                (true, Some(Action::Perform(r)))
            },
            Event::OobShutdown => (false, Some(Action::CloseAndStop)),
            Event::InboundClosed => (false, Some(Action::StopOnly)),
        }
    }
}

/// The actions a run over a whole event sequence emits, in order.
pub open spec fn run_events(running: bool, evs: Seq<Event>) -> Seq<Action>
    decreases evs.len(),
{
    if evs.len() == 0 {
        Seq::empty()
    } else {
        let step = core_step(running, evs[0]);
        let rest = run_events(step.0, evs.drop_first());
        match step.1 {
            Some(a) => seq![a] + rest,
            None => rest,
        }
    }
}

/// How many of the actions close the store.
pub open spec fn count_closes(acts: Seq<Action>) -> nat
    decreases acts.len(),
{
    if acts.len() == 0 {
        0
    } else {
        (if acts[0] is CloseAndStop {
            1nat
        } else {
            0nat
        }) + count_closes(acts.drop_first())
    }
}

/// Some event of the sequence carries a shutdown trigger.
pub open spec fn has_trigger(evs: Seq<Event>) -> bool
    decreases evs.len(),
{
    if evs.len() == 0 {
        false
    } else {
        is_shutdown_trigger(evs[0]) || has_trigger(evs.drop_first())
    }
}

/// A stopped loop emits no action at all, whatever arrives.
pub proof fn lemma_stopped_emits_nothing(evs: Seq<Event>)
    ensures
        run_events(false, evs) == Seq::<Action>::empty(),
    decreases evs.len(),
{
    if evs.len() > 0 {
        lemma_stopped_emits_nothing(evs.drop_first());
    }
}

/// However many shutdown triggers fire, and in whatever order they are
/// interleaved with other events, at most one close ever reaches the
/// store.
pub proof fn lemma_close_at_most_once(running: bool, evs: Seq<Event>)
    ensures
        count_closes(run_events(running, evs)) <= 1,
        !running ==> count_closes(run_events(running, evs)) == 0,
    decreases evs.len(),
{
    if evs.len() == 0 {
    } else if !running {
        lemma_stopped_emits_nothing(evs);
    } else {
        let step = core_step(running, evs[0]);
        lemma_close_at_most_once(step.0, evs.drop_first());
        let rest = run_events(step.0, evs.drop_first());
        if step.1 is Some {
            let a = step.1->0;
            assert((seq![a] + rest)[0] == a);
            assert((seq![a] + rest).drop_first() =~= rest);
        }
    }
}

/// As long as the inbound channel stays open, a run that sees at least
/// one shutdown trigger closes the store exactly once — never zero
/// times, never twice.
pub proof fn lemma_trigger_closes_exactly_once(evs: Seq<Event>)
    requires
        has_trigger(evs),
        forall|i: int| 0 <= i < evs.len() ==> !((#[trigger] evs[i]) is InboundClosed),
    ensures
        count_closes(run_events(true, evs)) == 1,
    decreases evs.len(),
{
    let step = core_step(true, evs[0]);
    let rest = run_events(step.0, evs.drop_first());
    assert(evs.len() > 0);
    if is_shutdown_trigger(evs[0]) {
        assert(step == (false, Some(Action::CloseAndStop)));
        lemma_stopped_emits_nothing(evs.drop_first());
        assert(rest == Seq::<Action>::empty());
        assert(run_events(true, evs) == seq![Action::CloseAndStop] + rest);
        assert((seq![Action::CloseAndStop] + rest)[0] == Action::CloseAndStop);
        assert((seq![Action::CloseAndStop] + rest).drop_first() =~= rest);
        assert(count_closes(seq![Action::CloseAndStop] + rest) == 1 + count_closes(rest));
    } else {
        assert(!(evs[0] is InboundClosed));
        assert forall|i: int| 0 <= i < evs.drop_first().len() implies !((
        #[trigger] evs.drop_first()[i]) is InboundClosed) by {
            assert(evs.drop_first()[i] == evs[i + 1]);
        }
        lemma_trigger_closes_exactly_once(evs.drop_first());
        if step.1 is Some {
            let a = step.1->0;
            assert((seq![a] + rest)[0] == a);
            assert((seq![a] + rest).drop_first() =~= rest);
        }
    }
}

/// The serialization core of the actor loop: it alone decides, per
/// event, what the surrounding runtime does to the store.
pub struct ActorCore {
    running: bool,
}

impl ActorCore {
    /// The loop is still accepting events.
    pub closed spec fn is_running(&self) -> bool {
        self.running
    }

    pub fn new() -> (c: Self)
        ensures
            c.is_running(),
    {
        ActorCore { running: true }
    }

    pub fn running(&self) -> (b: bool)
        ensures
            b == self.is_running(),
    {
        self.running
    }

    /// Decides the action for one event, exactly as [`core_step`] says.
    pub fn handle_event(&mut self, ev: Event) -> (a: Option<Action>)
        ensures
            final(self).is_running() == core_step(old(self).is_running(), ev).0,
            a == core_step(old(self).is_running(), ev).1,
    {
        if !self.running {
            return None;
        }
        match ev {
            Event::Inbound(r) => match r {
                DBRequest::Shutdown => {
                    self.running = false;
                    Some(Action::CloseAndStop)
                },
                req => Some(Action::Perform(req)),
            },
            Event::OobShutdown => {
                self.running = false;
                Some(Action::CloseAndStop)
            },
            Event::InboundClosed => {
                self.running = false;
                Some(Action::StopOnly)
            },
        }
    }
}

/// What one non-shutdown request does to the store, and what its reply
/// carries.
pub open spec fn apply_request(s: StoreView, r: DBRequest) -> (StoreView, OutcomeView)
    recommends
        !(r is Shutdown),
{
    match r {
        DBRequest::CreateEntry { content, pinned } => spec_create(s, content@, pinned),
        DBRequest::ReadEntry { id } => (s, spec_read(s, id as int)),
        DBRequest::ReadEntries { page, per_page, sort, pinned, substring } => (
            s,
            spec_read_page(s, page, per_page, sort, pinned, substring.deep_view()),
        ),
        DBRequest::UpdateEntry { id, content, pinned } => spec_update(
            s,
            id as int,
            content.deep_view(),
            pinned,
        ),
        DBRequest::DeleteEntry { id } => spec_delete(s, id as int),
        DBRequest::DumpEntries => (s, OutcomeView::Done),
        DBRequest::Shutdown => (s, OutcomeView::Done),
    }
}

/// The whole inbound queue, served front to back: every request before
/// the first shutdown envelope is applied to the store in queue order
/// and answered; the first shutdown envelope closes the store; nothing
/// after it is processed or answered.
pub open spec fn run_spec(s: StoreView, q: Seq<DBRequest>) -> (StoreView, Seq<OutcomeView>)
    decreases q.len(),
{
    if q.len() == 0 {
        (s, Seq::empty())
    } else if q[0] is Shutdown {
        (spec_close(s), Seq::empty())
    } else {
        let head = apply_request(s, q[0]);
        let rest = run_spec(head.0, q.drop_first());
        (rest.0, seq![head.1] + rest.1)
    }
}

/// How many envelopes of the queue the actor accepts: those before the
/// first shutdown envelope.
pub open spec fn accepted_count(q: Seq<DBRequest>) -> nat
    decreases q.len(),
{
    if q.len() == 0 {
        0
    } else if q[0] is Shutdown {
        0
    } else {
        1 + accepted_count(q.drop_first())
    }
}

/// The queue holds a shutdown envelope.
pub open spec fn has_shutdown(q: Seq<DBRequest>) -> bool
    decreases q.len(),
{
    if q.len() == 0 {
        false
    } else {
        q[0] is Shutdown || has_shutdown(q.drop_first())
    }
}

/// A run answers exactly the accepted envelopes — one reply each, store
/// failures included — and leaves the store closed exactly when the
/// queue held a shutdown envelope.
pub proof fn lemma_run_spec_props(s: StoreView, q: Seq<DBRequest>)
    ensures
        run_spec(s, q).1.len() == accepted_count(q),
        run_spec(s, q).0.closed == (s.closed || has_shutdown(q)),
    decreases q.len(),
{
    if q.len() == 0 {
    } else if q[0] is Shutdown {
    } else {
        let head = apply_request(s, q[0]);
        assert(head.0.closed == s.closed);
        lemma_run_spec_props(head.0, q.drop_first());
    }
}

/// An envelope queued at or behind the first shutdown envelope is never
/// answered: the run's replies end strictly before its position, so its
/// caller settles an absent reply — the distinct no-response failure —
/// rather than hanging or silently succeeding.
pub proof fn lemma_enqueued_after_shutdown_unanswered(q: Seq<DBRequest>, j: int, i: int)
    requires
        0 <= j <= i < q.len(),
        q[j] is Shutdown,
    ensures
        accepted_count(q) <= i,
    decreases q.len(),
{
    if q[0] is Shutdown {
    } else {
        assert(q.drop_first()[j - 1] == q[j]);
        lemma_enqueued_after_shutdown_unanswered(q.drop_first(), j - 1, i - 1);
    }
}

/// Runs one accepted request against the store and builds its reply.
pub fn perform(store: &mut MemStore, req: DBRequest) -> (out: OpOutcome)
    requires
        old(store).wf(),
        !old(store)@.closed,
        !(req is Shutdown),
    ensures
        final(store).wf(),
        !final(store)@.closed,
        (final(store)@, out@) == apply_request(old(store)@, req),
{
    match req {
        DBRequest::CreateEntry { content, pinned } => {
            match store.create_entry(content, pinned) {
                Ok(e) => OpOutcome::Entry(e),
                Err(m) => OpOutcome::Failure(m),
            }
        },
        DBRequest::ReadEntry { id } => {
            match store.read_entry(id) {
                Ok(e) => OpOutcome::Entry(e),
                Err(m) => OpOutcome::Failure(m),
            }
        },
        DBRequest::ReadEntries { page, per_page, sort, pinned, substring } => {
            match store.read_page(page, per_page, sort, pinned, substring) {
                Ok(p) => OpOutcome::Page(p),
                Err(m) => OpOutcome::Failure(m),
            }
        },
        DBRequest::UpdateEntry { id, content, pinned } => {
            match store.update_entry(id, content, pinned) {
                Ok(e) => OpOutcome::Entry(e),
                Err(m) => OpOutcome::Failure(m),
            }
        },
        DBRequest::DeleteEntry { id } => {
            match store.delete_entry(id) {
                Ok(_) => OpOutcome::Done,
                Err(m) => OpOutcome::Failure(m),
            }
        },
        DBRequest::DumpEntries => {
            match store.dump_entries() {
                Ok(_) => OpOutcome::Done,
                Err(m) => OpOutcome::Failure(m),
            }
        },
        DBRequest::Shutdown => vstd::pervasive::unreached(),
    }
}

/// Serves an inbound queue exactly as the actor loop does: requests are
/// applied to the store strictly in queue order, each accepted envelope
/// gets exactly one reply even when its operation fails, the first
/// shutdown envelope closes the store and stops the loop, and whatever
/// is queued behind it is never processed and never answered.
pub fn run_queue(store: &mut MemStore, queue: Vec<DBRequest>) -> (replies: Vec<OpOutcome>)
    requires
        old(store).wf(),
        !old(store)@.closed,
    ensures
        final(store).wf(),
        (final(store)@, replies.deep_view()) == run_spec(old(store)@, queue@),
        replies.deep_view().len() == accepted_count(queue@),
        final(store)@.closed == has_shutdown(queue@),
{
    let ghost s0 = old(store)@;
    let ghost q0 = queue@;
    let mut queue = queue;
    let mut core = ActorCore::new();
    let mut replies: Vec<OpOutcome> = Vec::new();
    proof {
        assert(replies.deep_view() + run_spec(store@, queue@).1 =~= run_spec(store@, queue@).1);
    }
    while queue.len() > 0 && core.running()
        invariant
            core.is_running() ==> store.wf() && !store@.closed,
            core.is_running() ==> run_spec(s0, q0).0 == run_spec(store@, queue@).0,
            core.is_running() ==> run_spec(s0, q0).1 == replies.deep_view() + run_spec(
                store@,
                queue@,
            ).1,
            !core.is_running() ==> store.wf() && store@ == run_spec(s0, q0).0
                && replies.deep_view() == run_spec(s0, q0).1,
        decreases queue.len(),
    {
        let ghost s_pre = store@;
        let ghost q_pre = queue@;
        let ghost r_pre = replies.deep_view();
        let req = queue.remove(0);
        proof {
            assert(queue@ =~= q_pre.drop_first());
        }
        let a = core.handle_event(Event::Inbound(req));
        match a {
            Some(Action::Perform(op)) => {
                let out = perform(store, op);
                let ghost out_v = out@;
                replies.push(out);
                proof {
                    assert(replies.deep_view() =~= r_pre.push(out_v));
                    assert((r_pre + (seq![out_v] + run_spec(store@, queue@).1)) =~= (
                    replies.deep_view() + run_spec(store@, queue@).1));
                }
            },
            Some(Action::CloseAndStop) => {
                store.close();
                proof {
                    assert(r_pre + Seq::<OutcomeView>::empty() =~= r_pre);
                }
            },
            Some(Action::StopOnly) => {
                proof {
                    assert(false);
                }
            },
            None => {
                proof {
                    assert(false);
                }
            },
        }
    }
    proof {
        if core.is_running() {
            assert(queue@.len() == 0);
            assert(replies.deep_view() + Seq::<OutcomeView>::empty() =~= replies.deep_view());
        }
        lemma_run_spec_props(s0, q0);
    }
    replies
}

} // verus!
