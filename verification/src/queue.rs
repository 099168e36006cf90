//! FIFO event queues crossing from the background domain into the poll loop.

use vstd::prelude::*;

verus! {

/// An ordered FIFO queue with one producer (a background task) and one
/// consumer (the poll loop). Arrival order is preserved: a drain returns
/// exactly the pushed elements, oldest first, with no reordering and no
/// duplication.
pub struct EventQueue<T> {
    items: Vec<T>,
}

impl<T> View for EventQueue<T> {
    type V = Seq<T>;

    closed spec fn view(&self) -> Seq<T> {
        self.items@
    }
}

impl<T> EventQueue<T> {
    /// A fresh, empty queue.
    pub fn new() -> (q: Self)
        ensures
            q@ == Seq::<T>::empty(),
    {
        EventQueue { items: Vec::new() }
    }

    /// How many events are waiting.
    pub fn len(&self) -> (n: usize)
        ensures
            n == self@.len(),
    {
        self.items.len()
    }

    /// Whether no event is waiting. An empty poll is expected startup or idle
    /// behavior, not an error.
    pub fn is_empty(&self) -> (r: bool)
        ensures
            r == (self@.len() == 0),
    {
        self.items.len() == 0
    }

    /// Append one event at the back. Called by the producing background task.
    pub fn push(&mut self, v: T)
        ensures
            final(self)@ == old(self)@.push(v),
    {
        self.items.push(v);
    }

    /// Non-blocking drain by the poll loop: returns every currently available
    /// event, in push order, and leaves the queue empty.
    pub fn drain(&mut self) -> (r: Vec<T>)
        ensures
            r@ == old(self)@,
            final(self)@ == Seq::<T>::empty(),
    {
        let mut out: Vec<T> = Vec::new();
        core::mem::swap(&mut out, &mut self.items);
        out
    }
}

/// The queue contents after pushing each element of `es`, in order, onto a
/// queue that held `init`. Mirrors the contract of [`EventQueue::push`],
/// which appends exactly one element at the back.
pub open spec fn queue_after_pushes<T>(init: Seq<T>, es: Seq<T>) -> Seq<T>
    decreases es.len(),
{
    if es.len() == 0 {
        init
    } else {
        queue_after_pushes(init, es.drop_last()).push(es.last())
    }
}

/// Order preservation: after pushing N events onto an empty queue, the queue
/// holds exactly those N events in push order — so by the contract of
/// [`EventQueue::drain`], a single drain then returns exactly them, in order.
pub proof fn lemma_drain_after_pushes<T>(es: Seq<T>)
    ensures
        queue_after_pushes(Seq::<T>::empty(), es) == es,
{
    lemma_queue_after_pushes_appends(Seq::<T>::empty(), es);
    assert(Seq::<T>::empty() + es =~= es);
}

/// Pushing a sequence of events appends it: the queue holds the old contents
/// followed by the pushed events, whatever it held before.
pub proof fn lemma_queue_after_pushes_appends<T>(init: Seq<T>, es: Seq<T>)
    ensures
        queue_after_pushes(init, es) == init + es,
    decreases es.len(),
{
    if es.len() == 0 {
        assert(init + es =~= init);
    } else {
        lemma_queue_after_pushes_appends(init, es.drop_last());
        assert(init + es =~= (init + es.drop_last()).push(es.last()));
    }
}

} // verus!
