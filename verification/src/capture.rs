//! The capture side of the pipeline: frames as the capture source hands them
//! over, the filter that admits them, and the two producers that feed the
//! pipeline queue.

use vstd::prelude::*;

use crate::hcor::{calc_hash, md5_digest};
use crate::hex::{hex_of, push_hex};
use crate::queue::{one_more, BoundedQueue};

verus! {

/// The upper-layer type tag of IPv4.
pub const ETHERTYPE_IPV4: u16 = 0x0800;

/// A link-layer address.
#[derive(Clone, Copy, Debug, PartialEq, Eq, Structural, Hash)]
pub struct MacAddr(pub u8, pub u8, pub u8, pub u8, pub u8, pub u8);

/// The upper-layer type tag of a frame.
#[derive(Clone, Copy, Debug, PartialEq, Eq, Structural, Hash)]
pub struct EtherType(pub u16);

impl EtherType {
    /// The two bytes of the type tag, the high byte first.
    pub open spec fn octets(self) -> Seq<u8> {
        seq![(self.0 / 256) as u8, (self.0 % 256) as u8]
    }

    /// The type tag as four lower-case hexadecimal digits.
    pub fn to_lower_hex(&self) -> (text: String)
        ensures
            text@ == hex_of(self.octets(), false),
    {
        let octets: [u8; 2] = [(self.0 / 256) as u8, (self.0 % 256) as u8];
        assert(octets@ =~= self.octets());
        let mut text = String::new();
        push_hex(&mut text, octets.as_slice(), false);
        assert(text@ =~= hex_of(self.octets(), false));
        text
    }
}

/// A network-layer address of four bytes.
#[derive(Clone, Copy, Debug, PartialEq, Eq, Structural, Hash)]
pub struct Ipv4Address(pub u8, pub u8, pub u8, pub u8);

/// The link-layer header of a frame.
#[derive(Clone, Copy, Debug, PartialEq, Eq, Structural)]
pub struct LinkHeader {
    /// The link-layer address the frame came from.
    pub source: MacAddr,
    /// The link-layer address the frame goes to.
    pub destination: MacAddr,
    /// The upper-layer type tag.
    pub kind: EtherType,
}

/// The addresses read where the network-layer header of an IPv4 frame stands.
#[derive(Clone, Copy, Debug, PartialEq, Eq, Structural)]
pub struct NetworkHeader {
    /// The network-layer address the frame came from.
    pub source: Ipv4Address,
    /// The network-layer address the frame goes to.
    pub destination: Ipv4Address,
}

/// A frame as the capture source exposes it: the raw bytes and the header
/// fields read from them. A header is absent where the frame is too short to
/// hold it.
#[derive(Clone, Copy, Debug, PartialEq, Eq)]
pub struct Frame<'a> {
    /// The link-layer header.
    pub link: Option<LinkHeader>,
    /// The network-layer addresses, meaningful where the type tag is IPv4.
    pub network: Option<NetworkHeader>,
    /// The whole frame.
    pub bytes: &'a [u8],
}

/// What travels through the pipeline queue.
#[derive(Clone, Copy, Debug, PartialEq, Eq)]
pub enum Payload {
    /// An admitted frame: where it came from, where it goes, its type tag and
    /// its fingerprint.
    Packet { source: MacAddr, destination: MacAddr, kind: EtherType, packet: [u8; 16] },
    /// A pulse of the timer, with its sequence number.
    Pulse(u64),
}

/// Admits the IPv4 frames that neither come from nor go to one address. A
/// frame that lacks a header is not admitted.
#[derive(Clone, Copy, Debug, PartialEq, Eq, Structural)]
pub struct AdmissionFilter {
    /// The address whose own traffic is left out.
    pub local: Ipv4Address,
}

impl AdmissionFilter {
    /// Whether the filter admits `frame`.
    pub open spec fn admits(self, frame: Frame) -> bool {
        &&& frame.link matches Some(link) && link.kind.0 == ETHERTYPE_IPV4
        &&& frame.network matches Some(network) && network.destination != self.local
            && network.source != self.local
    }

    /// The filter of this installation: it leaves out the traffic of
    /// 172.21.0.24.
    pub fn standard() -> (filter: Self)
        ensures
            filter.local == Ipv4Address(172, 21, 0, 24),
    {
        AdmissionFilter { local: Ipv4Address(172, 21, 0, 24) }
    }

    /// A filter that leaves out the traffic of `local`.
    pub fn new(local: Ipv4Address) -> (filter: Self)
        ensures
            filter.local == local,
    {
        AdmissionFilter { local }
    }

    /// Decides whether `frame` enters the pipeline.
    pub fn check(&self, frame: &Frame) -> (admitted: bool)
        ensures
            admitted == self.admits(*frame),
    {
        match (frame.link, frame.network) {
            (Some(link), Some(network)) => link.kind.0 == ETHERTYPE_IPV4 && network.destination
                != self.local && network.source != self.local,
            _ => false,
        }
    }
}

/// The record that an admitted frame with the link-layer header `link` and
/// the fingerprint `digest` puts on the queue.
pub open spec fn frame_record(link: LinkHeader, digest: [u8; 16]) -> Payload {
    Payload::Packet {
        source: link.source,
        destination: link.destination,
        kind: link.kind,
        packet: digest,
    }
}

/// What became of a frame.
#[derive(Clone, Copy, Debug, PartialEq, Eq)]
pub enum FrameOutcome {
    /// The filter did not admit it.
    Filtered,
    /// Its record, with this fingerprint, is on the queue.
    Queued([u8; 16]),
    /// It was admitted, but the queue was full and its record was dropped.
    Dropped([u8; 16]),
}

/// Puts the record of an admitted frame on the queue without waiting. A full
/// queue stays as it is and the record is dropped.
pub fn record_frame(link: &LinkHeader, digest: [u8; 16], queue: &mut BoundedQueue<Payload>) -> (outcome:
    FrameOutcome)
    ensures
        final(queue).spec_capacity() == old(queue).spec_capacity(),
        old(queue)@.len() < old(queue).spec_capacity() ==> outcome == FrameOutcome::Queued(digest)
            && final(queue)@ == old(queue)@.push(frame_record(*link, digest))
            && final(queue).spec_dropped() == old(queue).spec_dropped(),
        old(queue)@.len() >= old(queue).spec_capacity() ==> outcome == FrameOutcome::Dropped(digest)
            && final(queue)@ == old(queue)@
            && final(queue).spec_dropped() == one_more(old(queue).spec_dropped()),
{
    let record = Payload::Packet {
        source: link.source,
        destination: link.destination,
        kind: link.kind,
        packet: digest,
    };
    match queue.try_send(record) {
        Ok(_) => FrameOutcome::Queued(digest),
        Err(_) => FrameOutcome::Dropped(digest),
    }
}

/// Handles one captured frame: a frame that the filter admits is fingerprinted
/// and its record offered to the queue; any other frame, one too short for
/// its headers among them, changes nothing.
pub fn watch_frame(filter: &AdmissionFilter, frame: &Frame, queue: &mut BoundedQueue<Payload>) -> (outcome:
    FrameOutcome)
    ensures
        final(queue).spec_capacity() == old(queue).spec_capacity(),
        !filter.admits(*frame) ==> outcome == FrameOutcome::Filtered && final(queue)@ == old(queue)@
            && final(queue).spec_dropped() == old(queue).spec_dropped(),
        filter.admits(*frame) && old(queue)@.len() < old(queue).spec_capacity() ==> (outcome matches FrameOutcome::Queued(
            digest,
        ) && digest@ == md5_digest(frame.bytes@) && final(queue)@ == old(queue)@.push(
            frame_record(frame.link->0, digest),
        )) && final(queue).spec_dropped() == old(queue).spec_dropped(),
        filter.admits(*frame) && old(queue)@.len() >= old(queue).spec_capacity() ==> (outcome matches FrameOutcome::Dropped(
            digest,
        ) && digest@ == md5_digest(frame.bytes@)) && final(queue)@ == old(queue)@
            && final(queue).spec_dropped() == one_more(old(queue).spec_dropped()),
{
    if !filter.check(frame) {
        return FrameOutcome::Filtered;
    }
    match frame.link {
        Some(link) => {
            let digest = calc_hash(frame.bytes);
            record_frame(&link, digest, queue)
        },
        None => FrameOutcome::Filtered,
    }
}

/// The timer's side of the pipeline: numbers the pulses it emits.
pub struct PulseTimer {
    pulses: u64,
}

impl PulseTimer {
    /// The sequence number of the next pulse.
    pub closed spec fn spec_sequence(&self) -> u64 {
        self.pulses
    }

    /// A timer whose first pulse has the number zero.
    pub fn new() -> (timer: Self)
        ensures
            timer.spec_sequence() == 0,
    {
        PulseTimer { pulses: 0 }
    }

    /// The sequence number of the next pulse.
    #[verifier::when_used_as_spec(spec_sequence)]
    pub fn sequence(&self) -> (sequence: u64)
        ensures
            sequence == self.spec_sequence(),
    {
        self.pulses
    }

    /// Emits the pulse that is due: offers it to the queue without waiting and
    /// moves on to the next number, whether or not the queue took it.
    pub fn tick(&mut self, queue: &mut BoundedQueue<Payload>) -> (sent: bool)
        requires
            old(self).spec_sequence() < u64::MAX,
        ensures
            final(self).spec_sequence() == old(self).spec_sequence() + 1,
            final(queue).spec_capacity() == old(queue).spec_capacity(),
            sent == (old(queue)@.len() < old(queue).spec_capacity()),
            sent ==> final(queue)@ == old(queue)@.push(Payload::Pulse(old(self).spec_sequence()))
                && final(queue).spec_dropped() == old(queue).spec_dropped(),
            !sent ==> final(queue)@ == old(queue)@ && final(queue).spec_dropped() == one_more(
                old(queue).spec_dropped(),
            ),
    {
        let sent = queue.try_send(Payload::Pulse(self.pulses)).is_ok();
        self.pulses = self.pulses + 1;
        sent
    }
}

} // verus!
