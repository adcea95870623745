//! The relay between a remote producer and the central collector: the records
//! that travel, and the decisions of both ends of the request/reply exchange.
//! Sockets and the wire encoding of a record are the caller's part.

use vstd::prelude::*;

use crate::capture::Payload;
use crate::hcor::{calc_hash, count_in, lemma_returned_count, md5_digest, returned};
use crate::queue::{one_more, BoundedQueue};

verus! {

/// A frame record as it travels to the collector.
#[derive(Clone, Debug, PartialEq, Eq)]
pub struct BasicZMQMessage {
    /// The time of observation in seconds, as the bit pattern of a
    /// double-precision number.
    pub timestamp_bits: u64,
    /// The fingerprint of the frame, or the bytes of the frame itself.
    pub packet: Vec<u8>,
}

/// What a `BasicZMQMessage` holds.
pub struct MessageView {
    pub timestamp_bits: u64,
    pub packet: Seq<u8>,
}

impl View for BasicZMQMessage {
    type V = MessageView;

    open spec fn view(&self) -> MessageView {
        MessageView { timestamp_bits: self.timestamp_bits, packet: self.packet@ }
    }
}

/// What travels through the producer's outbound queue.
#[derive(Clone, Debug, PartialEq, Eq)]
pub enum ZMQChannelPayload {
    /// A record to send.
    BasicMsg(BasicZMQMessage),
    /// Nothing to send.
    Nothing,
}

impl View for ZMQChannelPayload {
    type V = Option<MessageView>;

    open spec fn view(&self) -> Option<MessageView> {
        match self {
            ZMQChannelPayload::BasicMsg(message) => Some(message@),
            ZMQChannelPayload::Nothing => None,
        }
    }
}

/// The fingerprint that the collector counts for a record: sixteen carried
/// bytes are the fingerprint itself, anything else is fingerprinted anew.
pub open spec fn fingerprint_of(packet: Seq<u8>) -> Seq<u8> {
    if packet.len() == 16 {
        packet
    } else {
        md5_digest(packet)
    }
}

/// Reads `packet` as a fingerprint: the sixteen bytes themselves, and nothing
/// where `packet` has another length.
pub fn as_fingerprint(packet: &[u8]) -> (fingerprint: Option<[u8; 16]>)
    ensures
        fingerprint.is_some() <==> packet@.len() == 16,
        fingerprint matches Some(bytes) ==> bytes@ == packet@,
{
    if packet.len() != 16 {
        return None;
    }
    let mut bytes = [0u8; 16];
    let mut i: usize = 0;
    while i < 16
        invariant
            i <= 16,
            packet@.len() == 16,
            forall|j: int| 0 <= j < i ==> bytes@[j] == packet@[j],
        decreases 16 - i,
    {
        bytes[i] = packet[i];
        i += 1;
    }
    assert(bytes@ =~= packet@);
    Some(bytes)
}

/// Derives the fingerprint that is counted for a record that carries `packet`.
pub fn derive_fingerprint(packet: &[u8]) -> (fingerprint: [u8; 16])
    ensures
        fingerprint@ == fingerprint_of(packet@),
{
    match as_fingerprint(packet) {
        Some(bytes) => bytes,
        None => calc_hash(packet),
    }
}

/// The record that stands for a frame record of the pipeline on the way to
/// the collector: its fingerprint, at time zero.
pub open spec fn relayed(packet: [u8; 16]) -> MessageView {
    MessageView { timestamp_bits: 0, packet: packet@ }
}

/// What the pipeline's consumer did with a record in producer mode.
#[derive(Clone, Copy, Debug, PartialEq, Eq, Structural)]
pub enum ForwardOutcome {
    /// A pulse: nothing to forward.
    Ignored,
    /// The record is on the outbound queue.
    Queued,
    /// The outbound queue was full and the record was dropped.
    Dropped,
}

/// Hands a record of the pipeline to the relay: a frame record is offered to
/// the outbound queue without waiting, a pulse is passed over.
pub fn forward(payload: &Payload, outbound: &mut BoundedQueue<ZMQChannelPayload>) -> (outcome:
    ForwardOutcome)
    ensures
        final(outbound).spec_capacity() == old(outbound).spec_capacity(),
        (match *payload {
            Payload::Pulse(_) => {
                &&& outcome == ForwardOutcome::Ignored
                &&& final(outbound)@ == old(outbound)@
                &&& final(outbound).spec_dropped() == old(outbound).spec_dropped()
            },
            Payload::Packet { packet, .. } => if old(outbound)@.len() < old(
                outbound,
            ).spec_capacity() {
                &&& outcome == ForwardOutcome::Queued
                &&& final(outbound)@.len() == old(outbound)@.len() + 1
                &&& final(outbound)@.drop_last() == old(outbound)@
                &&& final(outbound)@.last()@ == Some(relayed(packet))
                &&& final(outbound).spec_dropped() == old(outbound).spec_dropped()
            } else {
                &&& outcome == ForwardOutcome::Dropped
                &&& final(outbound)@ == old(outbound)@
                &&& final(outbound).spec_dropped() == one_more(old(outbound).spec_dropped())
            },
        }),
{
    match payload {
        Payload::Pulse(_) => ForwardOutcome::Ignored,
        Payload::Packet { packet, .. } => {
            let mut carried: Vec<u8> = Vec::new();
            let mut i: usize = 0;
            while i < 16
                invariant
                    i <= 16,
                    carried@ == packet@.take(i as int),
                decreases 16 - i,
            {
                carried.push(packet[i]);
                assert(packet@.take(i + 1) =~= packet@.take(i as int).push(packet@[i as int]));
                i += 1;
            }
            assert(packet@.take(16) =~= packet@);
            let message = BasicZMQMessage { timestamp_bits: 0, packet: carried };
            match outbound.try_send(ZMQChannelPayload::BasicMsg(message)) {
                Ok(_) => {
                    assert(outbound@.drop_last() =~= old(outbound)@);
                    ForwardOutcome::Queued
                },
                Err(_) => ForwardOutcome::Dropped,
            }
        },
    }
}

/// One of the three parts of the reply that closes every exchange.
#[derive(Clone, Copy, Debug, PartialEq, Eq, Structural)]
pub enum ReplyFrame {
    /// The routing token of the producer.
    Identity,
    /// The empty part that ends the envelope.
    Delimiter,
    /// The body of the reply, which is empty.
    Body,
}

/// The bytes `test_client`: the routing token of the producer.
pub open spec fn client_identity() -> Seq<u8> {
    seq![0x74u8, 0x65u8, 0x73u8, 0x74u8, 0x5fu8, 0x63u8, 0x6cu8, 0x69u8, 0x65u8, 0x6eu8, 0x74u8]
}

impl ReplyFrame {
    /// The bytes of this part: the routing token for the first, nothing for
    /// the other two.
    pub open spec fn spec_bytes(self) -> Seq<u8> {
        match self {
            ReplyFrame::Identity => client_identity(),
            ReplyFrame::Delimiter => Seq::empty(),
            ReplyFrame::Body => Seq::empty(),
        }
    }

    /// Whether another part follows this one.
    pub open spec fn spec_more(self) -> bool {
        self != ReplyFrame::Body
    }

    /// The part that follows this one, if any.
    pub open spec fn spec_next(self) -> Option<ReplyFrame> {
        match self {
            ReplyFrame::Identity => Some(ReplyFrame::Delimiter),
            ReplyFrame::Delimiter => Some(ReplyFrame::Body),
            ReplyFrame::Body => None,
        }
    }

    /// The bytes to send for this part.
    pub fn bytes(self) -> (bytes: Vec<u8>)
        ensures
            bytes@ == self.spec_bytes(),
    {
        match self {
            ReplyFrame::Identity => {
                let bytes = vec![
                    0x74u8,
                    0x65u8,
                    0x73u8,
                    0x74u8,
                    0x5fu8,
                    0x63u8,
                    0x6cu8,
                    0x69u8,
                    0x65u8,
                    0x6eu8,
                    0x74u8,
                ];
                assert(bytes@ =~= client_identity());
                bytes
            },
            _ => Vec::new(),
        }
    }

    /// Whether this part is sent with the mark that another part follows.
    #[verifier::when_used_as_spec(spec_more)]
    pub fn more(self) -> (more: bool)
        ensures
            more == self.spec_more(),
    {
        match self {
            ReplyFrame::Body => false,
            _ => true,
        }
    }
}

/// Where the collector stands in an exchange.
#[derive(Clone, Debug, PartialEq, Eq)]
pub enum CollectorState {
    /// Between exchanges: the next part opens a request.
    Idle,
    /// A request has begun. `identity` is its routing token; `delimited`
    /// tells whether the empty part after it has arrived as well.
    AwaitingFrames { identity: Vec<u8>, delimited: bool },
    /// The body of the request is being decoded.
    Decoding,
    /// The fingerprint of the decoded record is being counted.
    Observing,
    /// The reply is under way: this part of it is being sent.
    Replying(ReplyFrame),
}

/// What a `CollectorState` holds.
pub enum CollectorStateView {
    Idle,
    AwaitingFrames { identity: Seq<u8>, delimited: bool },
    Decoding,
    Observing,
    Replying(ReplyFrame),
}

impl View for CollectorState {
    type V = CollectorStateView;

    open spec fn view(&self) -> CollectorStateView {
        match self {
            CollectorState::Idle => CollectorStateView::Idle,
            CollectorState::AwaitingFrames { identity, delimited } => {
                CollectorStateView::AwaitingFrames { identity: identity@, delimited: *delimited }
            },
            CollectorState::Decoding => CollectorStateView::Decoding,
            CollectorState::Observing => CollectorStateView::Observing,
            CollectorState::Replying(frame) => CollectorStateView::Replying(*frame),
        }
    }
}

/// What the caller reports to the collector.
#[derive(Clone, Debug, PartialEq, Eq)]
pub enum CollectorEvent {
    /// A part of a message has arrived.
    Part(Vec<u8>),
    /// The body has been decoded: to this record, or to none where it holds
    /// no record.
    Decoded(Option<BasicZMQMessage>),
    /// What the collector last asked for, counting or sending, is done.
    Done,
}

/// What a `CollectorEvent` holds.
pub enum CollectorEventView {
    Part(Seq<u8>),
    Decoded(Option<MessageView>),
    Done,
}

impl View for CollectorEvent {
    type V = CollectorEventView;

    open spec fn view(&self) -> CollectorEventView {
        match self {
            CollectorEvent::Part(bytes) => CollectorEventView::Part(bytes@),
            CollectorEvent::Decoded(Some(message)) => CollectorEventView::Decoded(Some(message@)),
            CollectorEvent::Decoded(None) => CollectorEventView::Decoded(None),
            CollectorEvent::Done => CollectorEventView::Done,
        }
    }
}

/// What the collector asks of the caller.
#[derive(Clone, Debug, PartialEq, Eq)]
pub enum CollectorAction {
    /// Wait for the next part of a message.
    Receive,
    /// Decode this body.
    Decode(Vec<u8>),
    /// Count one sighting of this fingerprint.
    Observe([u8; 16]),
    /// Send this part of the reply.
    Send(ReplyFrame),
}

/// What a `CollectorAction` holds.
pub enum CollectorActionView {
    Receive,
    Decode(Seq<u8>),
    Observe(Seq<u8>),
    Send(ReplyFrame),
}

impl View for CollectorAction {
    type V = CollectorActionView;

    open spec fn view(&self) -> CollectorActionView {
        match self {
            CollectorAction::Receive => CollectorActionView::Receive,
            CollectorAction::Decode(body) => CollectorActionView::Decode(body@),
            CollectorAction::Observe(fingerprint) => CollectorActionView::Observe(fingerprint@),
            CollectorAction::Send(frame) => CollectorActionView::Send(*frame),
        }
    }
}

/// The collector's rule: the state and the request that follow from a state
/// and an event, or nothing where the event has no place in the state.
///
/// A request is three parts: the routing token, an empty part, the body. Only
/// the body is looked at. A body that decodes to a record has the record's
/// fingerprint counted; one that does not is passed over. Either way the
/// three parts of the reply follow, and the collector is idle again.
pub open spec fn collector_next(state: CollectorStateView, event: CollectorEventView) -> Option<
    (CollectorStateView, CollectorActionView),
> {
    match (state, event) {
        (CollectorStateView::Idle, CollectorEventView::Part(identity)) => Some(
            (
                CollectorStateView::AwaitingFrames { identity, delimited: false },
                CollectorActionView::Receive,
            ),
        ),
        (
            CollectorStateView::AwaitingFrames { identity, delimited: false },
            CollectorEventView::Part(_),
        ) => Some(
            (
                CollectorStateView::AwaitingFrames { identity, delimited: true },
                CollectorActionView::Receive,
            ),
        ),
        (
            CollectorStateView::AwaitingFrames { identity, delimited: true },
            CollectorEventView::Part(body),
        ) => Some((CollectorStateView::Decoding, CollectorActionView::Decode(body))),
        (CollectorStateView::Decoding, CollectorEventView::Decoded(Some(message))) => Some(
            (
                CollectorStateView::Observing,
                CollectorActionView::Observe(fingerprint_of(message.packet)),
            ),
        ),
        (CollectorStateView::Decoding, CollectorEventView::Decoded(None)) => Some(
            (
                CollectorStateView::Replying(ReplyFrame::Identity),
                CollectorActionView::Send(ReplyFrame::Identity),
            ),
        ),
        (CollectorStateView::Observing, CollectorEventView::Done) => Some(
            (
                CollectorStateView::Replying(ReplyFrame::Identity),
                CollectorActionView::Send(ReplyFrame::Identity),
            ),
        ),
        (CollectorStateView::Replying(frame), CollectorEventView::Done) => match frame.spec_next() {
            Some(next) => Some(
                (CollectorStateView::Replying(next), CollectorActionView::Send(next)),
            ),
            None => Some((CollectorStateView::Idle, CollectorActionView::Receive)),
        },
        _ => None,
    }
}

/// Takes the collector one step on: from `state` and `event` to the state
/// that follows and the request to the caller. An event that has no place in
/// the state leaves the state as it was and asks for nothing.
pub fn collector_step(state: CollectorState, event: CollectorEvent) -> (next: (
    CollectorState,
    Option<CollectorAction>,
))
    ensures
        (match collector_next(state@, event@) {
            Some((follows, asks)) => next.0@ == follows && (next.1 matches Some(action) && action@
                == asks),
            None => next.0@ == state@ && next.1.is_none(),
        }),
{
    match (state, event) {
        (CollectorState::Idle, CollectorEvent::Part(identity)) => (
            CollectorState::AwaitingFrames { identity, delimited: false },
            Some(CollectorAction::Receive),
        ),
        (CollectorState::AwaitingFrames { identity, delimited: false }, CollectorEvent::Part(_)) => (
            CollectorState::AwaitingFrames { identity, delimited: true },
            Some(CollectorAction::Receive),
        ),
        (CollectorState::AwaitingFrames { identity, delimited: true }, CollectorEvent::Part(body)) => (
            CollectorState::Decoding,
            Some(CollectorAction::Decode(body)),
        ),
        (CollectorState::Decoding, CollectorEvent::Decoded(Some(message))) => (
            CollectorState::Observing,
            Some(CollectorAction::Observe(derive_fingerprint(message.packet.as_slice()))),
        ),
        (CollectorState::Decoding, CollectorEvent::Decoded(None)) => (
            CollectorState::Replying(ReplyFrame::Identity),
            Some(CollectorAction::Send(ReplyFrame::Identity)),
        ),
        (CollectorState::Observing, CollectorEvent::Done) => (
            CollectorState::Replying(ReplyFrame::Identity),
            Some(CollectorAction::Send(ReplyFrame::Identity)),
        ),
        (CollectorState::Replying(ReplyFrame::Identity), CollectorEvent::Done) => (
            CollectorState::Replying(ReplyFrame::Delimiter),
            Some(CollectorAction::Send(ReplyFrame::Delimiter)),
        ),
        (CollectorState::Replying(ReplyFrame::Delimiter), CollectorEvent::Done) => (
            CollectorState::Replying(ReplyFrame::Body),
            Some(CollectorAction::Send(ReplyFrame::Body)),
        ),
        (CollectorState::Replying(ReplyFrame::Body), CollectorEvent::Done) => (
            CollectorState::Idle,
            Some(CollectorAction::Receive),
        ),
        (state, _) => (state, None),
    }
}

/// Where a run of events takes the collector from `state`, and what it asks
/// for on the way, one request per event. Nothing where one of the events has
/// no place in the state it meets.
pub open spec fn collector_run(state: CollectorStateView, events: Seq<CollectorEventView>) -> Option<
    (CollectorStateView, Seq<CollectorActionView>),
>
    decreases events.len(),
{
    if events.len() == 0 {
        Some((state, Seq::empty()))
    } else {
        match collector_next(state, events.first()) {
            Some((follows, asks)) => match collector_run(follows, events.drop_first()) {
                Some((last, rest)) => Some((last, seq![asks] + rest)),
                None => None,
            },
            None => None,
        }
    }
}

/// What the caller reports in the course of one exchange: the three parts of
/// the request, what the body decoded to, that the fingerprint was counted
/// where there was a record, and that each part of the reply was sent.
pub open spec fn exchange_events(
    identity: Seq<u8>,
    delimiter: Seq<u8>,
    body: Seq<u8>,
    decoded: Option<MessageView>,
) -> Seq<CollectorEventView> {
    seq![
        CollectorEventView::Part(identity),
        CollectorEventView::Part(delimiter),
        CollectorEventView::Part(body),
        CollectorEventView::Decoded(decoded),
    ] + (if decoded is Some {
        seq![CollectorEventView::Done]
    } else {
        Seq::empty()
    }) + seq![CollectorEventView::Done, CollectorEventView::Done, CollectorEventView::Done]
}

/// What the collector asks for in the course of one exchange.
pub open spec fn exchange_actions(body: Seq<u8>, decoded: Option<MessageView>) -> Seq<
    CollectorActionView,
> {
    seq![
        CollectorActionView::Receive,
        CollectorActionView::Receive,
        CollectorActionView::Decode(body),
    ] + (match decoded {
        Some(message) => seq![CollectorActionView::Observe(fingerprint_of(message.packet))],
        None => Seq::empty(),
    }) + seq![
        CollectorActionView::Send(ReplyFrame::Identity),
        CollectorActionView::Send(ReplyFrame::Delimiter),
        CollectorActionView::Send(ReplyFrame::Body),
        CollectorActionView::Receive,
    ]
}

/// Every exchange runs the same course, whatever the request holds. The
/// collector takes three parts and has the third decoded. A record has its
/// fingerprint counted, once; a body without a record is not counted. Then
/// the three parts of the reply go out, and the collector is idle again and
/// waits for the next request.
pub proof fn lemma_exchange(
    identity: Seq<u8>,
    delimiter: Seq<u8>,
    body: Seq<u8>,
    decoded: Option<MessageView>,
)
    ensures
        collector_run(
            CollectorStateView::Idle,
            exchange_events(identity, delimiter, body, decoded),
        ) == Some((CollectorStateView::Idle, exchange_actions(body, decoded))),
{
    let done = CollectorEventView::Done;
    let e8 = Seq::<CollectorEventView>::empty();
    let e7 = seq![done];
    let e6 = seq![done, done];
    let e5 = seq![done, done, done];
    let e4 = if decoded is Some {
        seq![done, done, done, done]
    } else {
        e5
    };
    let e3 = seq![CollectorEventView::Decoded(decoded)] + e4;
    let e2 = seq![CollectorEventView::Part(body)] + e3;
    let e1 = seq![CollectorEventView::Part(delimiter)] + e2;
    let e0 = seq![CollectorEventView::Part(identity)] + e1;
    assert(e0 =~= exchange_events(identity, delimiter, body, decoded));
    assert(e7.drop_first() =~= e8);
    assert(e6.drop_first() =~= e7);
    assert(e5.drop_first() =~= e6);
    assert(e3.drop_first() =~= e4);
    assert(e2.drop_first() =~= e3);
    assert(e1.drop_first() =~= e2);
    assert(e0.drop_first() =~= e1);

    let idle = CollectorStateView::Idle;
    let a8 = Seq::<CollectorActionView>::empty();
    assert(collector_run(idle, e8) == Some((idle, a8)));
    let a7 = seq![CollectorActionView::Receive] + a8;
    assert(collector_run(CollectorStateView::Replying(ReplyFrame::Body), e7) == Some((idle, a7)));
    let a6 = seq![CollectorActionView::Send(ReplyFrame::Body)] + a7;
    assert(collector_run(CollectorStateView::Replying(ReplyFrame::Delimiter), e6) == Some(
        (idle, a6),
    ));
    let a5 = seq![CollectorActionView::Send(ReplyFrame::Delimiter)] + a6;
    assert(collector_run(CollectorStateView::Replying(ReplyFrame::Identity), e5) == Some(
        (idle, a5),
    ));
    let a4 = seq![CollectorActionView::Send(ReplyFrame::Identity)] + a5;
    let a3 = match decoded {
        Some(message) => {
            assert(e4.drop_first() =~= e5);
            assert(collector_run(CollectorStateView::Observing, e4) == Some((idle, a4)));
            seq![CollectorActionView::Observe(fingerprint_of(message.packet))] + a4
        },
        None => a4,
    };
    assert(collector_run(CollectorStateView::Decoding, e3) == Some((idle, a3)));
    let a2 = seq![CollectorActionView::Decode(body)] + a3;
    assert(collector_run(CollectorStateView::AwaitingFrames { identity, delimited: true }, e2)
        == Some((idle, a2)));
    let a1 = seq![CollectorActionView::Receive] + a2;
    assert(collector_run(CollectorStateView::AwaitingFrames { identity, delimited: false }, e1)
        == Some((idle, a1)));
    let a0 = seq![CollectorActionView::Receive] + a1;
    assert(collector_run(idle, e0) == Some((idle, a0)));
    assert(a0 =~= exchange_actions(body, decoded));
}

/// One request as it reaches the collector: its three parts, and what its body
/// decodes to.
pub struct Request {
    /// The routing token of the producer.
    pub identity: Seq<u8>,
    /// The part that ends the envelope.
    pub delimiter: Seq<u8>,
    /// The body: the text of a record, or anything else.
    pub body: Seq<u8>,
    /// The record that the body holds, if it holds one.
    pub decoded: Option<MessageView>,
}

/// What the caller reports in the course of a run of requests, each answered
/// before the next arrives.
pub open spec fn session_events(requests: Seq<Request>) -> Seq<CollectorEventView>
    decreases requests.len(),
{
    if requests.len() == 0 {
        Seq::empty()
    } else {
        let first = requests.first();
        exchange_events(first.identity, first.delimiter, first.body, first.decoded)
            + session_events(requests.drop_first())
    }
}

/// What the collector asks for in the course of a run of requests.
pub open spec fn session_actions(requests: Seq<Request>) -> Seq<CollectorActionView>
    decreases requests.len(),
{
    if requests.len() == 0 {
        Seq::empty()
    } else {
        let first = requests.first();
        exchange_actions(first.body, first.decoded) + session_actions(requests.drop_first())
    }
}

/// The fingerprint that one request hands on to the counter: that of its
/// record, and none where its body holds no record.
pub open spec fn hands_on(request: Request) -> Seq<Seq<u8>> {
    match request.decoded {
        Some(message) => seq![fingerprint_of(message.packet)],
        None => Seq::empty(),
    }
}

/// The fingerprints that a run of requests hands on to the counter, in the
/// order of the requests.
pub open spec fn handed_on(requests: Seq<Request>) -> Seq<Seq<u8>>
    decreases requests.len(),
{
    if requests.len() == 0 {
        Seq::empty()
    } else {
        hands_on(requests.first()) + handed_on(requests.drop_first())
    }
}

/// The fingerprints that a run of the collector's requests asks to count, in
/// order.
pub open spec fn observations(actions: Seq<CollectorActionView>) -> Seq<Seq<u8>>
    decreases actions.len(),
{
    if actions.len() == 0 {
        Seq::empty()
    } else {
        (match actions.first() {
            CollectorActionView::Observe(fingerprint) => seq![fingerprint],
            _ => Seq::empty(),
        }) + observations(actions.drop_first())
    }
}

/// A run of events in two parts takes the collector where the second part
/// takes it from the end of the first, and asks for what both ask for.
pub proof fn lemma_run_in_parts(
    state: CollectorStateView,
    head: Seq<CollectorEventView>,
    tail: Seq<CollectorEventView>,
)
    ensures
        collector_run(state, head + tail) == (match collector_run(state, head) {
            Some((middle, asked)) => match collector_run(middle, tail) {
                Some((last, more)) => Some((last, asked + more)),
                None => None,
            },
            None => None,
        }),
    decreases head.len(),
{
    if head.len() == 0 {
        assert(head + tail =~= tail);
        match collector_run(state, tail) {
            Some((last, more)) => {
                assert(Seq::<CollectorActionView>::empty() + more =~= more);
            },
            None => {},
        }
    } else {
        assert((head + tail).first() == head.first());
        assert((head + tail).drop_first() =~= head.drop_first() + tail);
        match collector_next(state, head.first()) {
            Some((follows, asks)) => {
                lemma_run_in_parts(follows, head.drop_first(), tail);
                match collector_run(follows, head.drop_first()) {
                    Some((middle, asked)) => match collector_run(middle, tail) {
                        Some((last, more)) => {
                            assert(seq![asks] + (asked + more) =~= (seq![asks] + asked) + more);
                        },
                        None => {},
                    },
                    None => {},
                }
            },
            None => {},
        }
    }
}

/// Any number of requests, each answered before the next arrives, run the
/// course of one exchange after the other: the collector never stalls and is
/// idle again after the last.
pub proof fn lemma_session(requests: Seq<Request>)
    ensures
        collector_run(CollectorStateView::Idle, session_events(requests)) == Some(
            (CollectorStateView::Idle, session_actions(requests)),
        ),
    decreases requests.len(),
{
    if requests.len() > 0 {
        let first = requests.first();
        let head = exchange_events(first.identity, first.delimiter, first.body, first.decoded);
        lemma_exchange(first.identity, first.delimiter, first.body, first.decoded);
        lemma_session(requests.drop_first());
        lemma_run_in_parts(CollectorStateView::Idle, head, session_events(requests.drop_first()));
    }
}

/// What two runs of requests ask to count is what the first asks to count,
/// then what the second asks to count.
pub proof fn lemma_observations_in_parts(
    head: Seq<CollectorActionView>,
    tail: Seq<CollectorActionView>,
)
    ensures
        observations(head + tail) == observations(head) + observations(tail),
    decreases head.len(),
{
    if head.len() == 0 {
        assert(head + tail =~= tail);
        assert(observations(head) + observations(tail) =~= observations(tail));
    } else {
        assert((head + tail).first() == head.first());
        assert((head + tail).drop_first() =~= head.drop_first() + tail);
        lemma_observations_in_parts(head.drop_first(), tail);
        let one = match head.first() {
            CollectorActionView::Observe(fingerprint) => seq![fingerprint],
            _ => Seq::<Seq<u8>>::empty(),
        };
        assert(one + (observations(head.drop_first()) + observations(tail)) =~= (one
            + observations(head.drop_first())) + observations(tail));
    }
}

/// In one exchange the collector asks to count the fingerprint of the record
/// that the request holds, once, and nothing else.
pub proof fn lemma_exchange_hands_on(request: Request)
    ensures
        observations(exchange_actions(request.body, request.decoded)) == hands_on(request),
{
    let opening = seq![
        CollectorActionView::Receive,
        CollectorActionView::Receive,
        CollectorActionView::Decode(request.body),
    ];
    let counting = match request.decoded {
        Some(message) => seq![CollectorActionView::Observe(fingerprint_of(message.packet))],
        None => Seq::<CollectorActionView>::empty(),
    };
    let reply = seq![
        CollectorActionView::Send(ReplyFrame::Identity),
        CollectorActionView::Send(ReplyFrame::Delimiter),
        CollectorActionView::Send(ReplyFrame::Body),
        CollectorActionView::Receive,
    ];
    assert(exchange_actions(request.body, request.decoded) =~= opening + counting + reply);
    lemma_observations_in_parts(opening + counting, reply);
    lemma_observations_in_parts(opening, counting);
    reveal_with_fuel(observations, 5);
    assert(observations(opening) =~= Seq::<Seq<u8>>::empty());
    assert(observations(reply) =~= Seq::<Seq<u8>>::empty());
    assert(observations(counting) =~= hands_on(request));
    assert(observations(opening) + observations(counting) + observations(reply) =~= hands_on(
        request,
    ));
}

/// Over any number of requests the collector asks to count exactly the
/// fingerprints of the records that the requests hold, in the order of the
/// requests: none is lost, none is counted twice, none changes place.
pub proof fn lemma_session_hands_on(requests: Seq<Request>)
    ensures
        observations(session_actions(requests)) == handed_on(requests),
    decreases requests.len(),
{
    if requests.len() > 0 {
        let first = requests.first();
        lemma_exchange_hands_on(first);
        lemma_session_hands_on(requests.drop_first());
        lemma_observations_in_parts(
            exchange_actions(first.body, first.decoded),
            session_actions(requests.drop_first()),
        );
    }
}

/// Where every request holds a record, as many fingerprints are handed on as
/// there are requests, and the one in place `i` is that of the record of
/// request `i`.
pub proof fn lemma_every_record_is_handed_on(requests: Seq<Request>)
    requires
        forall|i: int| 0 <= i < requests.len() ==> (#[trigger] requests[i]).decoded is Some,
    ensures
        handed_on(requests).len() == requests.len(),
        forall|i: int|
            0 <= i < requests.len() ==> #[trigger] handed_on(requests)[i] == fingerprint_of(
                requests[i].decoded->0.packet,
            ),
    decreases requests.len(),
{
    if requests.len() > 0 {
        let rest = requests.drop_first();
        assert(requests.first() == requests[0]);
        assert forall|i: int| 0 <= i < rest.len() implies (#[trigger] rest[i]).decoded is Some by {
            assert(rest[i] == requests[i + 1]);
        }
        lemma_every_record_is_handed_on(rest);
        assert forall|i: int| 0 <= i < requests.len() implies #[trigger] handed_on(requests)[i]
            == fingerprint_of(requests[i].decoded->0.packet) by {
            if i > 0 {
                assert(handed_on(requests)[i] == handed_on(rest)[i - 1]);
                assert(rest[i - 1] == requests[i]);
            }
        }
    }
}

/// Two requests with the same record, sent one after the other to a collector
/// whose counter has not seen the record's fingerprint: the first sighting
/// returns one and the second returns two, so the duplicate is reported for
/// the second request and for that one only.
pub proof fn lemma_sent_twice_reported_once(
    counts: Map<Seq<u8>, nat>,
    first: Request,
    second: Request,
)
    requires
        first.decoded is Some,
        second.decoded == first.decoded,
        count_in(counts, fingerprint_of(first.decoded->0.packet)) == 0,
    ensures
        handed_on(seq![first, second]) == seq![
            fingerprint_of(first.decoded->0.packet),
            fingerprint_of(first.decoded->0.packet),
        ],
        returned(counts, handed_on(seq![first, second]), 0) == 1,
        returned(counts, handed_on(seq![first, second]), 1) == 2,
{
    let requests = seq![first, second];
    let fingerprint = fingerprint_of(first.decoded->0.packet);
    lemma_every_record_is_handed_on(requests);
    let sent = handed_on(requests);
    assert(sent[0] == fingerprint);
    assert(sent[1] == fingerprint);
    assert(sent =~= seq![fingerprint, fingerprint]);
    lemma_returned_count(counts, sent, 0);
    lemma_returned_count(counts, sent, 1);
    reveal_with_fuel(crate::hcor::sightings, 3);
    assert(sent.take(1) =~= seq![fingerprint]);
    assert(sent.take(2) =~= sent);
    assert(sent.take(1).drop_last() =~= Seq::<Seq<u8>>::empty());
    assert(sent.drop_last() =~= seq![fingerprint]);
}

/// Where the producer stands.
#[derive(Clone, Copy, Debug, PartialEq, Eq, Structural)]
pub enum ProducerState {
    /// Free to take the next record off the outbound queue.
    Idle,
    /// A request is out; nothing else is sent before its reply is in.
    AwaitingReply,
}

/// What the caller reports to the producer.
#[derive(Clone, Debug, PartialEq, Eq)]
pub enum ProducerEvent {
    /// The outbound queue handed over its oldest record.
    Dequeued(ZMQChannelPayload),
    /// The reply to the request has arrived.
    Replied,
}

/// What a `ProducerEvent` holds.
pub enum ProducerEventView {
    Dequeued(Option<MessageView>),
    Replied,
}

impl View for ProducerEvent {
    type V = ProducerEventView;

    open spec fn view(&self) -> ProducerEventView {
        match self {
            ProducerEvent::Dequeued(payload) => ProducerEventView::Dequeued(payload@),
            ProducerEvent::Replied => ProducerEventView::Replied,
        }
    }
}

/// What the producer asks of the caller.
#[derive(Clone, Debug, PartialEq, Eq)]
pub enum ProducerAction {
    /// Wait for the next record of the outbound queue.
    Dequeue,
    /// Encode this record, send it as one request and wait for the reply.
    Request(BasicZMQMessage),
}

/// What a `ProducerAction` holds.
pub enum ProducerActionView {
    Dequeue,
    Request(MessageView),
}

impl View for ProducerAction {
    type V = ProducerActionView;

    open spec fn view(&self) -> ProducerActionView {
        match self {
            ProducerAction::Dequeue => ProducerActionView::Dequeue,
            ProducerAction::Request(message) => ProducerActionView::Request(message@),
        }
    }
}

/// The producer's rule: records leave one at a time, each as one request, and
/// the next record is taken only when the reply to the last one is in. An
/// event that has no place in the state yields nothing.
pub open spec fn producer_next(state: ProducerState, event: ProducerEventView) -> Option<
    (ProducerState, ProducerActionView),
> {
    match (state, event) {
        (ProducerState::Idle, ProducerEventView::Dequeued(Some(message))) => Some(
            (ProducerState::AwaitingReply, ProducerActionView::Request(message)),
        ),
        (ProducerState::Idle, ProducerEventView::Dequeued(None)) => Some(
            (ProducerState::Idle, ProducerActionView::Dequeue),
        ),
        (ProducerState::AwaitingReply, ProducerEventView::Replied) => Some(
            (ProducerState::Idle, ProducerActionView::Dequeue),
        ),
        _ => None,
    }
}

/// One request at a time: while a reply is awaited the producer sends
/// nothing, whatever it is told, and only the reply sets it free.
pub proof fn lemma_one_request_at_a_time(event: ProducerEventView)
    ensures
        (match producer_next(ProducerState::AwaitingReply, event) {
            Some((follows, asks)) => event == ProducerEventView::Replied && follows
                == ProducerState::Idle && asks == ProducerActionView::Dequeue,
            None => event != ProducerEventView::Replied,
        }),
{
}

/// Every record that the outbound queue hands over goes out as it is, in one
/// request of its own.
pub proof fn lemma_every_record_is_sent(message: MessageView)
    ensures
        producer_next(ProducerState::Idle, ProducerEventView::Dequeued(Some(message))) == Some(
            (ProducerState::AwaitingReply, ProducerActionView::Request(message)),
        ),
{
}

/// Takes the producer one step on: from `state` and `event` to the state that
/// follows and the request to the caller. An event that has no place in the
/// state leaves the state as it was and asks for nothing.
pub fn producer_step(state: ProducerState, event: ProducerEvent) -> (next: (
    ProducerState,
    Option<ProducerAction>,
))
    ensures
        (match producer_next(state, event@) {
            Some((follows, asks)) => next.0 == follows && (next.1 matches Some(action) && action@
                == asks),
            None => next.0 == state && next.1.is_none(),
        }),
{
    match (state, event) {
        (ProducerState::Idle, ProducerEvent::Dequeued(ZMQChannelPayload::BasicMsg(message))) => (
            ProducerState::AwaitingReply,
            Some(ProducerAction::Request(message)),
        ),
        (ProducerState::Idle, ProducerEvent::Dequeued(ZMQChannelPayload::Nothing)) => (
            ProducerState::Idle,
            Some(ProducerAction::Dequeue),
        ),
        (ProducerState::AwaitingReply, ProducerEvent::Replied) => (
            ProducerState::Idle,
            Some(ProducerAction::Dequeue),
        ),
        (state, _) => (state, None),
    }
}

} // verus!
