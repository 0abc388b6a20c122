//! Trusted boundary to the in-process message channel.
//!
//! Each connection's outbound sink is the sending half of an unbounded
//! first-in-first-out channel; a single writer task per connection drains the
//! receiving half onto the wire, so writes to one connection are serialized.
//! Delivery through a sink is best effort: it fails exactly when the
//! receiving half is gone, and a failure must never disturb other sinks.

use vstd::prelude::*;
use crate::frame::Frame;

verus! {

/// Outside type: the sending half of `futures_channel`'s unbounded channel.
/// Opaque here; values of it are only stored, cloned and sent through.
#[verifier::external_type_specification]
#[verifier::external_body]
#[verifier::reject_recursive_types(T)]
pub struct ExUnboundedSender<T>(futures_channel::mpsc::UnboundedSender<T>);

/// Relies on `UnboundedSender::clone`: the clone sends into the same channel
/// as the original. Nothing is assumed of the returned value itself.
#[verifier::external_body]
pub(crate) fn clone_sender(
    tx: &futures_channel::mpsc::UnboundedSender<Frame>,
) -> futures_channel::mpsc::UnboundedSender<Frame> {
    tx.clone()
}

/// Relies on `UnboundedSender::unbounded_send`: enqueues the message for the
/// channel's receiver, preserving per-sender send order, and returns `Err`
/// exactly when the receiving half has been closed or dropped. Whether it
/// succeeds depends on the receiver's state, so nothing is assumed of the
/// returned flag.
#[verifier::external_body]
pub(crate) fn sink_send(
    tx: &futures_channel::mpsc::UnboundedSender<Frame>,
    f: Frame,
) -> bool {
    tx.unbounded_send(f).is_ok()
}

} // verus!
