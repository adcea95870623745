//! The one consumer of the pipeline queue. Every frame record feeds the
//! totals and goes on to the duplicate counter of this process or to the
//! relay; a pulse brings out the report of the totals and starts them anew.

use vstd::prelude::*;

use crate::capture::Payload;
use crate::hcor::{
    add_packet_hash, count_in, duplicate_line, observed, DuplicateCounter, Observation,
};
use crate::messaging::{forward, relayed, ForwardOutcome, ZMQChannelPayload};
use crate::queue::{one_more, BoundedQueue};
use crate::stats::{gather, reports, tallies, StatsReport, TrafficStats};

verus! {

/// What came of a record that was consumed on the spot.
#[derive(Clone, Debug, PartialEq, Eq)]
pub struct Consumed {
    /// For a frame record, the sighting of its fingerprint.
    pub observation: Option<Observation>,
    /// For a pulse, the totals.
    pub report: Option<StatsReport>,
}

/// What came of a record that was consumed on the way to the relay.
#[derive(Clone, Debug, PartialEq, Eq)]
pub struct Relayed {
    /// Whether the record went on to the relay.
    pub outcome: ForwardOutcome,
    /// For a pulse, the totals.
    pub report: Option<StatsReport>,
}

/// Whether `consume_local` can take `payload`: whether no count that the
/// record would raise has reached the largest number that fits.
pub open spec fn fits(counts: Map<Seq<u8>, nat>, stats: TrafficStats, payload: Payload) -> bool {
    &&& stats.has_room(payload)
    &&& payload matches Payload::Packet { packet, .. } ==> count_in(counts, packet@) < u64::MAX
}

/// Tells whether `consume_local` can take `payload`.
pub fn ready_for(counter: &DuplicateCounter, stats: &TrafficStats, payload: &Payload) -> (ready:
    bool)
    ensures
        ready == fits(counter@, *stats, *payload),
{
    if !stats.can_count(payload) {
        return false;
    }
    match payload {
        Payload::Packet { packet, .. } => counter.count(packet) < u64::MAX,
        Payload::Pulse(_) => true,
    }
}

/// Consumes one record in a process that counts on the spot. A frame record
/// is added to the totals and its fingerprint is counted: the sighting says
/// how often it has been seen and carries the line to log for a duplicate. A
/// pulse brings out the totals counted since the pulse before and starts
/// them anew; it leaves the duplicate counter as it is.
pub fn consume_local(counter: &mut DuplicateCounter, stats: &mut TrafficStats, payload: &Payload) -> (done:
    Consumed)
    requires
        fits(old(counter)@, *old(stats), *payload),
    ensures
        tallies(*old(stats), *payload, *final(stats)),
        reports(*old(stats), *payload, done.report),
        (match *payload {
            Payload::Packet { packet, .. } => {
                &&& final(counter)@ == observed(old(counter)@, packet@)
                &&& final(counter)@.dom().finite()
                &&& done.observation matches Some(seen) && seen.count == count_in(
                    old(counter)@,
                    packet@,
                ) + 1 && (seen.report.is_some() <==> seen.count >= 2) && (seen.report matches Some(
                    line,
                ) ==> line@ == duplicate_line(packet@))
            },
            Payload::Pulse(_) => final(counter)@ == old(counter)@ && done.observation.is_none(),
        }),
{
    let report = gather(stats, payload);
    let observation = match payload {
        Payload::Packet { packet, .. } => Some(add_packet_hash(counter, packet)),
        Payload::Pulse(_) => None,
    };
    Consumed { observation, report }
}

/// Consumes one record in a process that relays. A frame record is added to
/// the totals and offered to the outbound queue without waiting; where the
/// queue is full it is dropped. A pulse brings out the totals counted since
/// the pulse before and starts them anew; it leaves the queue as it is.
pub fn consume_relay(
    outbound: &mut BoundedQueue<ZMQChannelPayload>,
    stats: &mut TrafficStats,
    payload: &Payload,
) -> (done: Relayed)
    requires
        old(stats).has_room(*payload),
    ensures
        tallies(*old(stats), *payload, *final(stats)),
        reports(*old(stats), *payload, done.report),
        final(outbound).spec_capacity() == old(outbound).spec_capacity(),
        (match *payload {
            Payload::Pulse(_) => {
                &&& done.outcome == ForwardOutcome::Ignored
                &&& final(outbound)@ == old(outbound)@
                &&& final(outbound).spec_dropped() == old(outbound).spec_dropped()
            },
            Payload::Packet { packet, .. } => if old(outbound)@.len() < old(
                outbound,
            ).spec_capacity() {
                &&& done.outcome == ForwardOutcome::Queued
                &&& final(outbound)@.len() == old(outbound)@.len() + 1
                &&& final(outbound)@.drop_last() == old(outbound)@
                &&& final(outbound)@.last()@ == Some(relayed(packet))
                &&& final(outbound).spec_dropped() == old(outbound).spec_dropped()
            } else {
                &&& done.outcome == ForwardOutcome::Dropped
                &&& final(outbound)@ == old(outbound)@
                &&& final(outbound).spec_dropped() == one_more(old(outbound).spec_dropped())
            },
        }),
{
    let report = gather(stats, payload);
    let outcome = forward(payload, outbound);
    Relayed { outcome, report }
}

} // verus!
