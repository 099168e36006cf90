//! A bridge between an asynchronous system-bus service and a synchronous,
//! tick-driven poll loop.
//!
//! The synchronous domain runs a fixed, ordered set of routines on every tick
//! and must never block. The background domain performs the actual bus I/O:
//! connecting to the service, subscribing to its event stream, executing
//! outbound actions, and publishing periodic signals. This crate holds the
//! verified half of that split: the handoff cells, queues and state machines
//! that carry values between the two domains, together with the payload codec
//! for the periodic color signal.

use vstd::prelude::*;

pub mod action;
pub mod bridge;
pub mod payload;
pub mod publisher;
pub mod queue;
pub mod slot;

verus! {

/// A notification delivered over the bus by the periodic publisher.
/// The `color` payload has the shape `RGB(r, g, b)`, three decimal fractions
/// in `[0, 1)`; this crate renders each with exactly three digits.
pub struct AddNotificationEvent {
    pub color: String,
}

/// The publisher's side of the bus interface: the one service it offers
/// besides the periodic notification signal.
pub struct AddService;

impl AddService {
    /// The `addNumber` method of the bus interface: plain addition of two
    /// signed bytes. Callers keep the sum inside the `i8` range.
    pub fn add_number(a: i8, b: i8) -> (r: i8)
        requires
            i8::MIN <= a + b <= i8::MAX,
        ensures
            r == a + b,
    {
        a + b
    }
}

} // verus!
