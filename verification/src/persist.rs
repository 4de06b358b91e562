//! Debounced persistence of the widget catalog: requests to persist are
//! coalesced, and the catalog is written once no request has come for the
//! debounce period.

use vstd::prelude::*;

verus! {

/// The debounce period, in milliseconds.
pub const PERSIST_DEBOUNCE_MS: u64 = 500;

/// What the persist worker observes.
#[derive(Clone, Copy, Debug, PartialEq, Eq, Structural)]
pub enum PersistEvent {
    /// A request to persist arrived.
    Notified,
    /// The debounce timer expired.
    Deadline,
    /// The request channel was closed.
    Closed,
}

/// What the persist worker does in response.
#[derive(Clone, Copy, Debug, PartialEq, Eq, Structural)]
pub enum PersistAction {
    /// Restart the debounce timer for a full period.
    ResetTimer,
    /// Write the catalog to disk.
    Persist,
    /// Stop the worker.
    Stop,
    /// Nothing to do.
    Nothing,
}

/// One step of the worker: whether a write is pending afterwards, and the
/// action. The timer only counts while a write is pending.
pub open spec fn persist_step(pending: bool, e: PersistEvent) -> (bool, PersistAction) {
    match e {
        PersistEvent::Notified => (true, PersistAction::ResetTimer),
        PersistEvent::Deadline => if pending {
            (false, PersistAction::Persist)
        } else {
            (false, PersistAction::Nothing)
        },
        PersistEvent::Closed => (pending, PersistAction::Stop),
    }
}

/// The state of the persist worker.
#[derive(Debug)]
pub struct PersistWorker {
    /// A write was requested and has not happened yet.
    pub pending: bool,
}

impl PersistWorker {
    /// A worker with nothing pending.
    pub fn new() -> (w: Self)
        ensures
            !w.pending,
    {
        PersistWorker { pending: false }
    }

    /// Whether the debounce timer is to be awaited.
    pub fn deadline_armed(&self) -> (b: bool)
        ensures
            b == self.pending,
    {
        self.pending
    }

    /// A request to persist arrived: a write becomes pending and the timer
    /// restarts.
    pub fn handle_task(&mut self) -> (a: PersistAction)
        ensures
            final(self).pending,
            a == PersistAction::ResetTimer,
    {
        self.pending = true;
        PersistAction::ResetTimer
    }

    /// The timer expired while a write was pending: write now.
    pub fn on_deadline(&mut self) -> (a: PersistAction)
        ensures
            !final(self).pending,
            a == PersistAction::Persist,
    {
        self.pending = false;
        PersistAction::Persist
    }

    /// Take an event and say what to do.
    pub fn step(&mut self, event: PersistEvent) -> (a: PersistAction)
        ensures
            (final(self).pending, a) == persist_step(old(self).pending, event),
    {
        match event {
            PersistEvent::Notified => self.handle_task(),
            PersistEvent::Deadline => {
                if self.pending {
                    self.on_deadline()
                } else {
                    PersistAction::Nothing
                }
            },
            PersistEvent::Closed => PersistAction::Stop,
        }
    }
}

/// The number of writes over a sequence of events, from a pending state.
pub open spec fn persists_over(pending: bool, es: Seq<PersistEvent>) -> nat
    decreases es.len(),
{
    if es.len() == 0 {
        0
    } else {
        let (p1, a) = persist_step(pending, es[0]);
        persists_over(p1, es.drop_first()) + if a == PersistAction::Persist {
            1nat
        } else {
            0nat
        }
    }
}

/// The number of requests in a sequence of events.
pub open spec fn requests_in(es: Seq<PersistEvent>) -> nat
    decreases es.len(),
{
    if es.len() == 0 {
        0
    } else {
        requests_in(es.drop_first()) + if es[0] == PersistEvent::Notified {
            1nat
        } else {
            0nat
        }
    }
}

/// No write happens without a request: the writes never outnumber the
/// requests (plus the one already pending).
pub proof fn lemma_no_spurious_persist(pending: bool, es: Seq<PersistEvent>)
    ensures
        persists_over(pending, es) <= requests_in(es) + if pending {
            1nat
        } else {
            0nat
        },
    decreases es.len(),
{
    if es.len() > 0 {
        let (p1, a) = persist_step(pending, es[0]);
        lemma_no_spurious_persist(p1, es.drop_first());
    }
}

/// `k` requests in a row.
pub open spec fn burst(k: nat) -> Seq<PersistEvent> {
    Seq::new(k, |i: int| PersistEvent::Notified)
}

/// Requests in a row leave one write pending and write nothing yet.
proof fn lemma_burst_pending(pending: bool, k: nat)
    requires
        pending || k > 0,
    ensures
        persists_over(pending, burst(k)) == 0,
        forall|tail: Seq<PersistEvent>| #[trigger] persists_over(pending, burst(k) + tail) == persists_over(true, tail),
    decreases k,
{
    if k > 0 {
        assert(burst(k).drop_first() =~= burst((k - 1) as nat));
        lemma_burst_pending(true, (k - 1) as nat);
        assert forall|tail: Seq<PersistEvent>| #[trigger] persists_over(pending, burst(k) + tail) == persists_over(
            true,
            tail,
        ) by {
            let es = burst(k) + tail;
            assert(es[0] == PersistEvent::Notified);
            assert(es.drop_first() =~= burst((k - 1) as nat) + tail);
            assert(persists_over(true, burst((k - 1) as nat) + tail) == persists_over(true, tail));
        }
    }
}

/// Requests are coalesced: any burst of requests followed by the timer
/// expiring gives exactly one write.
pub proof fn lemma_burst_coalesces(k: nat)
    requires
        k > 0,
    ensures
        persists_over(false, burst(k).push(PersistEvent::Deadline)) == 1,
{
    let d = seq![PersistEvent::Deadline];
    assert(burst(k).push(PersistEvent::Deadline) =~= burst(k) + d);
    lemma_burst_pending(false, k);
    assert(persists_over(false, burst(k) + d) == persists_over(true, d));
    assert(d.drop_first() =~= Seq::<PersistEvent>::empty());
    assert(persists_over(false, d.drop_first()) == 0);
}

} // verus!
