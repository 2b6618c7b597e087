use vstd::prelude::*;
use crate::backend::event::Entry;

verus! {

/// `bus::Bus`: the sending end of a bounded broadcast channel with one
/// sender and any number of readers. What was sent is told through the
/// name below.
#[verifier::external_type_specification]
#[verifier::external_body]
#[verifier::reject_recursive_types(T)]
pub struct ExBus<T>(::bus::Bus<T>);

/// Every entry that was handed to the bus, in the order in which each
/// reader receives them.
pub uninterp spec fn broadcast_log(bus: ::bus::Bus<Entry>) -> Seq<Entry>;

/// `Bus::broadcast`: hands the entry to every reader, after all that were
/// handed over before. Waits while the slowest reader is a whole ring behind.
#[verifier::external_body]
pub(crate) fn broadcast(bus: &mut ::bus::Bus<Entry>, entry: Entry)
    ensures
        broadcast_log(*final(bus)) == broadcast_log(*old(bus)).push(entry),
{
    bus.broadcast(entry)
}

} // verus!
