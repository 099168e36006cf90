//! The synchronous-domain state machine tying the bridge together.
//!
//! A `Bridge` owns every object the two scheduling domains share: the one-shot
//! handoff slots, the event, error and action queues, and the lifecycle flags.
//! The owning context calls the `deliver`/`complete`/`fail` entry points when
//! a background task finishes a step, and runs the tick routines — install,
//! subscription setup, drains, dispatch — in declared order on every tick.
//! No routine here blocks or suspends.

use vstd::prelude::*;

use crate::action::ActionRequest;
use crate::action::ErrorRecord;
use crate::action::InitError;
use crate::queue::EventQueue;
use crate::slot::OneShotSlot;

verus! {

/// The abstract state of a [`Bridge`]: what each shared cell, queue and flag
/// holds.
#[verifier::ext_equal]
pub struct BridgeView<C, S, E> {
    /// A connection delivered by the init task, not yet installed.
    pub pending_connection: Option<C>,
    /// The installed service connection; readiness means it is present.
    pub connection: Option<C>,
    /// The recorded init failure, if the init task failed.
    pub init_error: Option<InitError>,
    /// Whether the event-subscription task has been spawned.
    pub subscription_started: bool,
    /// A stream-consumer end delivered by the subscription task, not yet
    /// handed to the poll loop.
    pub pending_source: Option<S>,
    /// Whether the poll loop has taken the stream-consumer end.
    pub source_installed: bool,
    /// Whether the event stream's producer reported that no more events will
    /// come. Distinguishes a closed stream from one that is merely idle.
    pub stream_closed: bool,
    /// Service events awaiting the next drain, in arrival order.
    pub events: Seq<E>,
    /// Failure records awaiting the next drain, in arrival order.
    pub errors: Seq<ErrorRecord>,
    /// Actions submitted by synchronous-domain logic, awaiting dispatch.
    pub pending_actions: Seq<ActionRequest>,
}

/// The bridge between the background domain (which performs the bus I/O) and
/// the synchronous tick loop (which must never block). Type parameters: `C`
/// is the service-connection handle, `S` the stream-consumer end returned by
/// the subscription call, `E` the service event.
pub struct Bridge<C, S, E> {
    init_slot: OneShotSlot<C>,
    source_slot: OneShotSlot<S>,
    conn: Option<C>,
    init_err: Option<InitError>,
    sub_started: bool,
    src_installed: bool,
    stream_done: bool,
    event_q: EventQueue<E>,
    error_q: EventQueue<ErrorRecord>,
    action_q: EventQueue<ActionRequest>,
}

impl<C, S, E> View for Bridge<C, S, E> {
    type V = BridgeView<C, S, E>;

    closed spec fn view(&self) -> BridgeView<C, S, E> {
        BridgeView {
            pending_connection: self.init_slot@,
            connection: self.conn,
            init_error: self.init_err,
            subscription_started: self.sub_started,
            pending_source: self.source_slot@,
            source_installed: self.src_installed,
            stream_closed: self.stream_done,
            events: self.event_q@,
            errors: self.error_q@,
            pending_actions: self.action_q@,
        }
    }
}

/// Whether a run of the subscription-setup routine spawns the subscription
/// task, given the readiness gate and the started flag at that tick.
pub open spec fn subscription_spawns(ready: bool, started: bool) -> bool {
    ready && !started
}

impl<C, S, E> Bridge<C, S, E> {
    /// The readiness flag: true once the service connection is installed.
    /// It transitions false to true at most once per process lifetime.
    pub open spec fn ready(&self) -> bool {
        self@.connection is Some
    }

    /// A fresh bridge: nothing delivered, nothing installed, all queues
    /// empty, all flags down.
    pub fn new() -> (b: Self)
        ensures
            b@.pending_connection is None,
            b@.connection is None,
            b@.init_error is None,
            !b@.subscription_started,
            b@.pending_source is None,
            !b@.source_installed,
            !b@.stream_closed,
            b@.events == Seq::<E>::empty(),
            b@.errors == Seq::<ErrorRecord>::empty(),
            b@.pending_actions == Seq::<ActionRequest>::empty(),
    {
        Bridge {
            init_slot: OneShotSlot::empty(),
            source_slot: OneShotSlot::empty(),
            conn: None,
            init_err: None,
            sub_started: false,
            src_installed: false,
            stream_done: false,
            event_q: EventQueue::new(),
            error_q: EventQueue::new(),
            action_q: EventQueue::new(),
        }
    }

    /// Background entry point: the init task produced a connection. Fills the
    /// one-shot handoff slot; called once per process lifetime.
    pub fn complete_init(&mut self, c: C)
        ensures
            final(self)@ == (BridgeView { pending_connection: Some(c), ..old(self)@ }),
    {
        self.init_slot.write(c);
    }

    /// Background entry point: the init task failed. Records the error; the
    /// readiness flag then stays false forever, since nothing will ever fill
    /// the handoff slot.
    pub fn fail_init(&mut self, e: InitError)
        ensures
            final(self)@ == (BridgeView { init_error: Some(e), ..old(self)@ }),
    {
        self.init_err = Some(e);
    }

    /// Tick routine: install the connection if the init task has delivered
    /// one. Readiness is monotonic: once true, it never reverts.
    pub fn install_connection(&mut self)
        ensures
            final(self)@ == (BridgeView {
                pending_connection: None,
                connection: if old(self)@.pending_connection is Some {
                    old(self)@.pending_connection
                } else {
                    old(self)@.connection
                },
                ..old(self)@
            }),
            old(self).ready() ==> final(self).ready(),
    {
        match self.init_slot.take() {
            Some(c) => {
                self.conn = Some(c);
            },
            None => {},
        }
    }

    /// The readiness gate: a pure, non-blocking check whether the service
    /// connection is established. Routines that need a live connection are
    /// skipped entirely while this is false; not-ready is expected startup
    /// latency, not an error.
    pub fn is_ready(&self) -> (r: bool)
        ensures
            r == self.ready(),
    {
        self.conn.is_some()
    }

    /// A shared handle to the installed connection, for the owning context to
    /// clone into background tasks. `None` until readiness.
    pub fn connection(&self) -> (r: Option<&C>)
        ensures
            r is Some <==> self.ready(),
            r is Some ==> *r->Some_0 == self@.connection->Some_0,
    {
        self.conn.as_ref()
    }

    /// The recorded init failure, if any.
    pub fn init_error(&self) -> (r: Option<&InitError>)
        ensures
            r is Some <==> self@.init_error is Some,
            r is Some ==> *r->Some_0 == self@.init_error->Some_0,
    {
        self.init_err.as_ref()
    }

    /// Tick routine: decide whether to spawn the event-subscription task.
    /// Returns true — and raises the started flag — exactly when readiness
    /// holds and the flag was still down, so across the whole process lifetime
    /// at most one call returns true (see
    /// [`lemma_subscription_at_most_once`]).
    pub fn setup_subscription(&mut self) -> (spawn: bool)
        ensures
            spawn == subscription_spawns(old(self).ready(), old(self)@.subscription_started),
            final(self)@ == (BridgeView {
                subscription_started: old(self)@.subscription_started || spawn,
                ..old(self)@
            }),
    {
        if self.conn.is_some() && !self.sub_started {
            self.sub_started = true;
            true
        } else {
            false
        }
    }

    /// Background entry point: the subscription task delivered the
    /// stream-consumer end into its one-shot handoff slot.
    pub fn deliver_source(&mut self, s: S)
        ensures
            final(self)@ == (BridgeView { pending_source: Some(s), ..old(self)@ }),
    {
        self.source_slot.write(s);
    }

    /// Tick routine: take the delivered stream-consumer end, for the poll
    /// loop to install as the live event source. Hands it out at most once
    /// per delivery; later calls return `None` until the next delivery.
    pub fn install_source(&mut self) -> (r: Option<S>)
        ensures
            r == old(self)@.pending_source,
            final(self)@ == (BridgeView {
                pending_source: None,
                source_installed: old(self)@.source_installed || r is Some,
                ..old(self)@
            }),
    {
        let r = self.source_slot.take();
        if r.is_some() {
            self.src_installed = true;
        }
        r
    }

    /// Background entry point: the stream task observed the end of the event
    /// stream. From then on an empty drain means closed, not merely idle.
    pub fn note_stream_closed(&mut self)
        ensures
            final(self)@ == (BridgeView { stream_closed: true, ..old(self)@ }),
    {
        self.stream_done = true;
    }

    /// Whether the event stream's producer reported it has ended. Already
    /// delivered events still drain normally; no new ones will arrive.
    pub fn stream_closed(&self) -> (r: bool)
        ensures
            r == self@.stream_closed,
    {
        self.stream_done
    }

    /// Background entry point: the stream task relays one service event.
    /// Events arrive in stream order and are kept in that order.
    pub fn deliver_event(&mut self, e: E)
        ensures
            final(self)@ == (BridgeView { events: old(self)@.events.push(e), ..old(self)@ }),
    {
        self.event_q.push(e);
    }

    /// Tick routine: drain every currently available service event, in
    /// arrival order, leaving the queue empty. Zero events is not an error.
    pub fn drain_events(&mut self) -> (r: Vec<E>)
        ensures
            r@ == old(self)@.events,
            final(self)@ == (BridgeView { events: Seq::<E>::empty(), ..old(self)@ }),
    {
        self.event_q.drain()
    }

    /// Synchronous-domain entry point: queue an outbound action for dispatch
    /// on this or a later tick.
    pub fn submit_action(&mut self, a: ActionRequest)
        ensures
            final(self)@ == (BridgeView {
                pending_actions: old(self)@.pending_actions.push(a),
                ..old(self)@
            }),
    {
        self.action_q.push(a);
    }

    /// Tick routine: hand the queued actions to the background domain — the
    /// owning context spawns one task per returned request, in the returned
    /// order, though completion order is not guaranteed. While the readiness
    /// gate is closed the requests are silently dropped: no task runs, no
    /// error record appears, and the queue is still emptied.
    pub fn dispatch_actions(&mut self) -> (r: Vec<ActionRequest>)
        ensures
            final(self)@ == (BridgeView {
                pending_actions: Seq::<ActionRequest>::empty(),
                ..old(self)@
            }),
            old(self).ready() ==> r@ == old(self)@.pending_actions,
            !old(self).ready() ==> r@ == Seq::<ActionRequest>::empty(),
    {
        let drained = self.action_q.drain();
        if self.conn.is_some() {
            drained
        } else {
            Vec::new()
        }
    }

    /// Background entry point: an action task failed; relay the record. On
    /// success nothing is delivered — only failures are surfaced.
    pub fn deliver_error(&mut self, rec: ErrorRecord)
        ensures
            final(self)@ == (BridgeView { errors: old(self)@.errors.push(rec), ..old(self)@ }),
    {
        self.error_q.push(rec);
    }

    /// Tick routine: drain every pending failure record, in arrival order,
    /// leaving the error queue empty.
    pub fn drain_errors(&mut self) -> (r: Vec<ErrorRecord>)
        ensures
            r@ == old(self)@.errors,
            final(self)@ == (BridgeView { errors: Seq::<ErrorRecord>::empty(), ..old(self)@ }),
    {
        self.error_q.drain()
    }
}

/// One step of the bridge: the state change that any single entry point or
/// tick routine may make, as its contract states it. The first two disjuncts
/// are the init task's completions, then the install, subscription-setup,
/// source, event, action and error routines, in the order they stand above.
pub open spec fn bridge_step<C, S, E>(pre: BridgeView<C, S, E>, post: BridgeView<C, S, E>) -> bool {
    ||| (exists|c: C| post == (BridgeView { pending_connection: Some(c), ..pre }))
    ||| (exists|e: InitError| post == (BridgeView { init_error: Some(e), ..pre }))
    ||| post == (BridgeView {
        pending_connection: None,
        connection: if pre.pending_connection is Some {
            pre.pending_connection
        } else {
            pre.connection
        },
        ..pre
    })
    ||| post == (BridgeView {
        subscription_started: pre.subscription_started || subscription_spawns(
            pre.connection is Some,
            pre.subscription_started,
        ),
        ..pre
    })
    ||| (exists|s: S| post == (BridgeView { pending_source: Some(s), ..pre }))
    ||| post == (BridgeView {
        pending_source: None,
        source_installed: pre.source_installed || pre.pending_source is Some,
        ..pre
    })
    ||| post == (BridgeView { stream_closed: true, ..pre })
    ||| (exists|e: E| post == (BridgeView { events: pre.events.push(e), ..pre }))
    ||| post == (BridgeView { events: Seq::<E>::empty(), ..pre })
    ||| (exists|a: ActionRequest| post == (BridgeView {
        pending_actions: pre.pending_actions.push(a),
        ..pre
    }))
    ||| post == (BridgeView { pending_actions: Seq::<ActionRequest>::empty(), ..pre })
    ||| (exists|r: ErrorRecord| post == (BridgeView { errors: pre.errors.push(r), ..pre }))
    ||| post == (BridgeView { errors: Seq::<ErrorRecord>::empty(), ..pre })
}

/// Readiness is monotonic: along any run of bridge steps, once the connection
/// is installed it stays installed, so the readiness flag transitions false
/// to true at most once per lifetime and never reverts.
pub proof fn lemma_readiness_monotonic<C, S, E>(trace: Seq<BridgeView<C, S, E>>, i: int, j: int)
    requires
        forall|k: int| 0 <= k < trace.len() - 1 ==> #[trigger] bridge_step(trace[k], trace[k + 1]),
        0 <= i <= j < trace.len(),
        trace[i].connection is Some,
    ensures
        trace[j].connection is Some,
    decreases j - i,
{
    if i < j {
        assert(bridge_step(trace[i], trace[i + 1]));
        assert(trace[i + 1].connection is Some);
        lemma_readiness_monotonic(trace, i + 1, j);
    }
}

/// The subscription-started flag after one setup call per tick, given the
/// readiness gate value at each tick and the flag at the start. Mirrors the
/// contract of [`Bridge::setup_subscription`].
pub open spec fn started_after(readys: Seq<bool>, started0: bool) -> bool
    decreases readys.len(),
{
    if readys.len() == 0 {
        started0
    } else {
        let prev = started_after(readys.drop_last(), started0);
        prev || subscription_spawns(readys.last(), prev)
    }
}

/// How many of those setup calls spawned the subscription task.
pub open spec fn spawn_count(readys: Seq<bool>, started0: bool) -> int
    decreases readys.len(),
{
    if readys.len() == 0 {
        0int
    } else {
        spawn_count(readys.drop_last(), started0) + if subscription_spawns(
            readys.last(),
            started_after(readys.drop_last(), started0),
        ) {
            1int
        } else {
            0int
        }
    }
}

/// Idempotence of subscription setup: across any run of ticks, at most one
/// setup call spawns the subscription task, and once the started flag is up
/// no call ever spawns another — however readiness evolves.
pub proof fn lemma_subscription_at_most_once(readys: Seq<bool>)
    ensures
        spawn_count(readys, true) == 0,
        started_after(readys, true),
        0 <= spawn_count(readys, false) <= 1,
        started_after(readys, false) == (spawn_count(readys, false) == 1),
    decreases readys.len(),
{
    if readys.len() > 0 {
        lemma_subscription_at_most_once(readys.drop_last());
    }
}

} // verus!
