//! One-shot handoff cells between the background and synchronous domains.

use vstd::prelude::*;

verus! {

/// A single-writer, single-reader-then-cleared handoff cell. The owning
/// background task fills it at most once per lifecycle epoch; the synchronous
/// poll loop empties it with a destructive, non-blocking `take`, so the value
/// crosses into the synchronous domain exactly once.
pub struct OneShotSlot<T> {
    value: Option<T>,
}

impl<T> View for OneShotSlot<T> {
    type V = Option<T>;

    closed spec fn view(&self) -> Option<T> {
        self.value
    }
}

impl<T> OneShotSlot<T> {
    /// A fresh, empty slot.
    pub fn empty() -> (s: Self)
        ensures
            s@ is None,
    {
        OneShotSlot { value: None }
    }

    /// Whether a value is waiting to be taken.
    pub fn is_filled(&self) -> (r: bool)
        ensures
            r == (self@ is Some),
    {
        self.value.is_some()
    }

    /// Fill the slot. Called only by the owning background task; a second
    /// write before a take overwrites the first (last write wins — the design
    /// relies on call-once discipline, not slot-level enforcement).
    pub fn write(&mut self, v: T)
        ensures
            final(self)@ == Some(v),
    {
        self.value = Some(v);
    }

    /// Destructive read by the synchronous domain: returns the pending value
    /// and leaves the slot empty, so a second take before the next write
    /// returns `None`. Never blocks.
    pub fn take(&mut self) -> (r: Option<T>)
        ensures
            r == old(self)@,
            final(self)@ is None,
    {
        self.value.take()
    }
}

/// One operation applied to a [`OneShotSlot`]: a `Write` fills the slot with
/// a value, a `Take` empties it, yielding whatever it held.
pub enum SlotOp<T> {
    Write(T),
    Take,
}

/// The slot contents after running `ops` against an initially empty slot,
/// paired with the index of the `Write` that produced the pending value.
/// This mirrors the contracts of [`OneShotSlot::write`] (fills the slot) and
/// [`OneShotSlot::take`] (leaves it empty).
pub open spec fn slot_after<T>(ops: Seq<SlotOp<T>>) -> Option<(int, T)>
    decreases ops.len(),
{
    if ops.len() == 0 {
        None
    } else {
        match ops.last() {
            SlotOp::Write(v) => Some((ops.len() - 1, v)),
            SlotOp::Take => None,
        }
    }
}

/// The successful takes observed while running `ops` against an initially
/// empty slot: one entry `(t, w, v)` per `Take` that returned a value, where
/// `t` is the position of the take, `w` the position of the `Write` it
/// consumed, and `v` the value handed across.
pub open spec fn takes_of<T>(ops: Seq<SlotOp<T>>) -> Seq<(int, int, T)>
    decreases ops.len(),
{
    if ops.len() == 0 {
        Seq::empty()
    } else {
        match ops.last() {
            SlotOp::Write(_) => takes_of(ops.drop_last()),
            SlotOp::Take => match slot_after(ops.drop_last()) {
                Some(p) => takes_of(ops.drop_last()).push((ops.len() - 1, p.0, p.1)),
                None => takes_of(ops.drop_last()),
            },
        }
    }
}

/// Exactly-once handoff: for every sequence of writes interleaved with takes,
/// each successful take returns the value of one `Write` that happened before
/// it, and no two takes consume the same write (the consumed write positions
/// are strictly increasing take by take).
pub proof fn lemma_one_shot_handoff<T>(ops: Seq<SlotOp<T>>)
    ensures
        forall|i: int|
            0 <= i < takes_of(ops).len() ==> {
                let e = #[trigger] takes_of(ops)[i];
                &&& 0 <= e.1 < e.0 < ops.len()
                &&& ops[e.1] == SlotOp::Write(e.2)
                &&& ops[e.0] == SlotOp::<T>::Take
            },
        forall|i: int, j: int|
            0 <= i < j < takes_of(ops).len()
                ==> #[trigger] takes_of(ops)[i].1 < #[trigger] takes_of(ops)[j].1,
        slot_after(ops) is Some ==> {
            let p = slot_after(ops)->Some_0;
            &&& 0 <= p.0 < ops.len()
            &&& ops[p.0] == SlotOp::Write(p.1)
            &&& forall|i: int|
                0 <= i < takes_of(ops).len() ==> #[trigger] takes_of(ops)[i].0 < p.0
        },
    decreases ops.len(),
{
    if ops.len() > 0 {
        let prefix = ops.drop_last();
        lemma_one_shot_handoff(prefix);
        assert(forall|k: int| 0 <= k < prefix.len() ==> prefix[k] == ops[k]);
        match ops.last() {
            SlotOp::Write(_) => {
                assert(takes_of(ops) == takes_of(prefix));
            },
            SlotOp::Take => {
                match slot_after(prefix) {
                    Some(p) => {
                        assert(takes_of(ops) == takes_of(prefix).push(
                            (ops.len() - 1, p.0, p.1),
                        ));
                    },
                    None => {
                        assert(takes_of(ops) == takes_of(prefix));
                    },
                }
            },
        }
    }
}

} // verus!
