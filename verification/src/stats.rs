//! The consumer's totals: how many admitted frames each source, each
//! destination and each type tag accounts for. Every pulse reports them and
//! starts them anew, so that a report covers what came since the pulse before.

use vstd::prelude::*;

use crate::capture::{EtherType, MacAddr, Payload};
use crate::tally::{count_for, distinct_keys, tallied, CountTable, TallyKey};

verus! {

impl TallyKey for MacAddr {
    /// The six bytes of the address as one number, the first byte on top.
    open spec fn code(self) -> u64 {
        (((((self.0 as int * 256 + self.1 as int) * 256 + self.2 as int) * 256 + self.3 as int)
            * 256 + self.4 as int) * 256 + self.5 as int) as u64
    }

    fn to_code(&self) -> (code: u64) {
        let mut code: u64 = self.0 as u64;
        code = code * 256 + self.1 as u64;
        code = code * 256 + self.2 as u64;
        code = code * 256 + self.3 as u64;
        code = code * 256 + self.4 as u64;
        code = code * 256 + self.5 as u64;
        code
    }

    proof fn lemma_code_injective(a: Self, b: Self) {
        let high = |m: MacAddr|
            (((m.0 as int * 256 + m.1 as int) * 256 + m.2 as int) * 256 + m.3 as int) * 256
                + m.4 as int;
        assert(a.code() == high(a) * 256 + a.5 as int);
        assert(b.code() == high(b) * 256 + b.5 as int);
        assert(high(a) == high(b) && a.5 == b.5);
        let upper = |m: MacAddr|
            ((m.0 as int * 256 + m.1 as int) * 256 + m.2 as int) * 256 + m.3 as int;
        assert(high(a) == upper(a) * 256 + a.4 as int);
        assert(high(b) == upper(b) * 256 + b.4 as int);
        assert(upper(a) == upper(b) && a.4 == b.4);
    }
}

impl TallyKey for EtherType {
    /// The type tag itself.
    open spec fn code(self) -> u64 {
        self.0 as u64
    }

    fn to_code(&self) -> (code: u64) {
        self.0 as u64
    }

    proof fn lemma_code_injective(a: Self, b: Self) {
    }
}

/// The totals of the admitted frames seen since the last pulse, or since the
/// start where there was none.
pub struct TrafficStats {
    /// Frames by the link-layer address they came from.
    pub sources: CountTable<MacAddr>,
    /// Frames by the link-layer address they went to.
    pub destinations: CountTable<MacAddr>,
    /// Frames by type tag.
    pub ethertypes: CountTable<EtherType>,
}

/// The totals at the time of a pulse: what was counted since the pulse
/// before, each list in order of first sighting.
#[derive(Clone, Debug, PartialEq, Eq)]
pub struct StatsReport {
    /// Frames by source.
    pub sources: Vec<(MacAddr, u64)>,
    /// Frames by destination.
    pub destinations: Vec<(MacAddr, u64)>,
    /// Frames by type tag.
    pub ethertypes: Vec<(EtherType, u64)>,
}

impl TrafficStats {
    /// Whether the totals that `payload` would raise can still be raised.
    pub open spec fn has_room(&self, payload: Payload) -> bool {
        match payload {
            Payload::Packet { source, destination, kind, .. } => {
                &&& count_for(self.sources@, source) < u64::MAX
                &&& count_for(self.destinations@, destination) < u64::MAX
                &&& count_for(self.ethertypes@, kind) < u64::MAX
            },
            Payload::Pulse(_) => true,
        }
    }

    /// Totals with nothing counted.
    pub fn new() -> (stats: Self)
        ensures
            stats.sources@ == Seq::<(MacAddr, u64)>::empty(),
            stats.destinations@ == Seq::<(MacAddr, u64)>::empty(),
            stats.ethertypes@ == Seq::<(EtherType, u64)>::empty(),
    {
        TrafficStats {
            sources: CountTable::new(),
            destinations: CountTable::new(),
            ethertypes: CountTable::new(),
        }
    }

    /// Tells whether `gather` can take `payload`: whether none of the totals
    /// it would raise has reached the largest number that fits.
    pub fn can_count(&self, payload: &Payload) -> (room: bool)
        ensures
            room == self.has_room(*payload),
    {
        match payload {
            Payload::Packet { source, destination, kind, .. } => {
                self.sources.count(*source) < u64::MAX && self.destinations.count(*destination)
                    < u64::MAX && self.ethertypes.count(*kind) < u64::MAX
            },
            Payload::Pulse(_) => true,
        }
    }
}

/// Whether the totals `after` follow from `before` by the record `payload`: a
/// frame record raises the totals of its source, its destination and its
/// type tag by one each, a pulse leaves nothing counted.
pub open spec fn tallies(before: TrafficStats, payload: Payload, after: TrafficStats) -> bool {
    match payload {
        Payload::Packet { source, destination, kind, .. } => {
            &&& after.sources@ == tallied(before.sources@, source)
            &&& after.destinations@ == tallied(before.destinations@, destination)
            &&& after.ethertypes@ == tallied(before.ethertypes@, kind)
        },
        Payload::Pulse(_) => {
            &&& after.sources@ == Seq::<(MacAddr, u64)>::empty()
            &&& after.destinations@ == Seq::<(MacAddr, u64)>::empty()
            &&& after.ethertypes@ == Seq::<(EtherType, u64)>::empty()
        },
    }
}

/// Whether `report` is what `payload` brings out of the totals `stats`: for a
/// pulse the totals as they stood when it came, nothing for a frame record.
pub open spec fn reports(stats: TrafficStats, payload: Payload, report: Option<StatsReport>) -> bool {
    match payload {
        Payload::Packet { .. } => report.is_none(),
        Payload::Pulse(_) => report matches Some(totals) && totals.sources@ == stats.sources@
            && totals.destinations@ == stats.destinations@ && totals.ethertypes@
            == stats.ethertypes@,
    }
}

/// A report covers one interval: a pulse that follows a pulse, with no frame
/// record between them, reports nothing.
pub proof fn lemma_pulse_after_pulse(
    before: TrafficStats,
    first: u64,
    between: TrafficStats,
    second: u64,
    report: Option<StatsReport>,
)
    requires
        tallies(before, Payload::Pulse(first), between),
        reports(between, Payload::Pulse(second), report),
    ensures
        report matches Some(totals) && totals.sources@.len() == 0 && totals.destinations@.len()
            == 0 && totals.ethertypes@.len() == 0,
{
}

/// Takes one record off the pipeline. A frame record raises the totals of its
/// source, its destination and its type tag by one each. A pulse yields the
/// report of the totals as they stand and starts them anew: the next report
/// covers what comes after this pulse. No key ever has two entries in a table
/// of totals.
pub fn gather(stats: &mut TrafficStats, payload: &Payload) -> (report: Option<StatsReport>)
    requires
        old(stats).has_room(*payload),
    ensures
        tallies(*old(stats), *payload, *final(stats)),
        reports(*old(stats), *payload, report),
        distinct_keys(final(stats).sources@),
        distinct_keys(final(stats).destinations@),
        distinct_keys(final(stats).ethertypes@),
{
    match payload {
        Payload::Packet { source, destination, kind, .. } => {
            stats.destinations.add(*destination);
            stats.sources.add(*source);
            stats.ethertypes.add(*kind);
            None
        },
        Payload::Pulse(_) => {
            Some(
                StatsReport {
                    sources: stats.sources.take(),
                    destinations: stats.destinations.take(),
                    ethertypes: stats.ethertypes.take(),
                },
            )
        },
    }
}

} // verus!
