//! The discoverer: it browses for the service type and reports every
//! resolved peer on a channel.
//!
//! Like the advertiser it is a machine whose driver touches the network:
//! the driver starts the daemon, asks it to browse, waits for events and
//! hands each to a step.

use vstd::prelude::*;
use vstd::string::*;
use std::sync::mpsc::Sender;
use crate::event::DiscoveryEvent;
use crate::fault::Fault;

verus! {

/// `std::sync::mpsc::Sender`, the sending half of a channel. Nothing is
/// known of what the channel holds.
#[verifier::external_type_specification]
#[verifier::external_body]
#[verifier::reject_recursive_types(T)]
pub struct ExSender<T>(std::sync::mpsc::Sender<T>);

/// Where the discoverer stands.
#[derive(Clone, Copy, Debug, PartialEq, Eq, Structural)]
pub enum DiscovererState {
    /// The daemon is being started.
    AwaitingDaemon,
    /// The browse request has been handed to the daemon.
    AwaitingBrowse,
    /// Events are awaited.
    Listening,
    /// The stream of events has ended.
    Stopped,
    /// The discoverer has given up.
    Failed(Fault),
}

/// What the driver reports to a step.
#[derive(Clone, Debug)]
pub enum DiscovererInput {
    /// The action that the last step handed out was carried out.
    Succeeded,
    /// That action could not be carried out.
    Failed,
    /// The browse delivered an event.
    Event(DiscoveryEvent),
    /// The browse will deliver no more events.
    StreamEnded,
}

/// What the driver is to do next.
#[derive(Clone, Copy, Debug, PartialEq, Eq, Structural)]
pub enum DiscovererAction {
    /// Start the transport daemon.
    CreateDaemon,
    /// Ask the daemon to browse for the service type.
    Browse,
    /// Wait for the next event.
    Listen,
    /// End the task; there is nothing left to wait for.
    Stop,
    /// End the task with this fault.
    Abort(Fault),
}

/// What became of one input.
#[derive(Clone, Debug)]
pub enum Relay {
    /// The input announced no peer; nothing was sent.
    Ignored,
    /// This peer was sent and the channel took it.
    Delivered(String),
    /// This peer was sent, but nobody receives any more.
    Undelivered(String),
}

/// The state that follows `state` on `input`.
///
/// Starting up, only the answer to the pending action moves the machine.
/// While it listens, nothing but the end of the stream ends the
/// listening: no event does, and so no failed delivery. A stop and a
/// fault are final.
pub open spec fn discoverer_next(state: DiscovererState, input: DiscovererInput) -> DiscovererState {
    match state {
        DiscovererState::AwaitingDaemon => match input {
            DiscovererInput::Succeeded => DiscovererState::AwaitingBrowse,
            DiscovererInput::Failed => DiscovererState::Failed(Fault::TransportInit),
            _ => state,
        },
        DiscovererState::AwaitingBrowse => match input {
            DiscovererInput::Succeeded => DiscovererState::Listening,
            DiscovererInput::Failed => DiscovererState::Failed(Fault::BrowseRequest),
            _ => state,
        },
        DiscovererState::Listening => match input {
            DiscovererInput::StreamEnded => DiscovererState::Stopped,
            _ => state,
        },
        DiscovererState::Stopped => state,
        DiscovererState::Failed(_) => state,
    }
}

/// The action that a driver owes in `state`.
pub open spec fn discoverer_action(state: DiscovererState) -> DiscovererAction {
    match state {
        DiscovererState::AwaitingDaemon => DiscovererAction::CreateDaemon,
        DiscovererState::AwaitingBrowse => DiscovererAction::Browse,
        DiscovererState::Listening => DiscovererAction::Listen,
        DiscovererState::Stopped => DiscovererAction::Stop,
        DiscovererState::Failed(fault) => DiscovererAction::Abort(fault),
    }
}

/// The peer that is offered to the channel for `input` in `state`: the
/// one that an event announces while the discoverer listens, else none.
pub open spec fn offered(state: DiscovererState, input: DiscovererInput) -> Option<Seq<char>> {
    match (state, input) {
        (DiscovererState::Listening, DiscovererInput::Event(event)) => event.spec_announcement(),
        _ => None,
    }
}

impl Relay {
    /// The peer that was offered to the channel, if one was.
    pub open spec fn spec_peer(self) -> Option<Seq<char>> {
        match self {
            Relay::Ignored => None,
            Relay::Delivered(peer) => Some(peer@),
            Relay::Undelivered(peer) => Some(peer@),
        }
    }
}

/// `std::sync::mpsc::Sender::send`. Whether the value is taken depends on
/// the receiver alone: the answer is `false` once it has been dropped.
/// Nothing is claimed of the answer; the call neither blocks nor panics.
#[verifier::external_body]
fn send_peer(found: &Sender<String>, peer: String) -> (taken: bool) {
    found.send(peer).is_ok()
}

/// Reports the peer that `event` announces on `found`, if it announces
/// one. A peer that cannot be delivered is dropped; that is no error.
pub fn relay(found: &Sender<String>, event: &DiscoveryEvent) -> (outcome: Relay)
    ensures
        outcome.spec_peer() == event.spec_announcement(),
{
    match event.announcement() {
        None => Relay::Ignored,
        Some(peer) => {
            let offered = peer.clone();
            if send_peer(found, offered) {
                Relay::Delivered(peer)
            } else {
                Relay::Undelivered(peer)
            }
        },
    }
}

/// The state in which the discoverer begins, and its first action.
pub fn discoverer_start() -> (first: (DiscovererState, DiscovererAction))
    ensures
        first.0 == DiscovererState::AwaitingDaemon,
        first.1 == DiscovererAction::CreateDaemon,
{
    (DiscovererState::AwaitingDaemon, DiscovererAction::CreateDaemon)
}

/// One step of the discoverer: the state that follows `state` on `input`,
/// the action that the driver owes in it, and what was reported on
/// `found`. Only an event that arrives while the discoverer listens is
/// reported.
pub fn discoverer_step(
    state: DiscovererState,
    input: &DiscovererInput,
    found: &Sender<String>,
) -> (next: (DiscovererState, DiscovererAction, Relay))
    ensures
        next.0 == discoverer_next(state, *input),
        next.1 == discoverer_action(next.0),
        next.2.spec_peer() == offered(state, *input),
{
    match state {
        DiscovererState::AwaitingDaemon => match input {
            DiscovererInput::Succeeded => (
                DiscovererState::AwaitingBrowse,
                DiscovererAction::Browse,
                Relay::Ignored,
            ),
            DiscovererInput::Failed => (
                DiscovererState::Failed(Fault::TransportInit),
                DiscovererAction::Abort(Fault::TransportInit),
                Relay::Ignored,
            ),
            _ => (state, DiscovererAction::CreateDaemon, Relay::Ignored),
        },
        DiscovererState::AwaitingBrowse => match input {
            DiscovererInput::Succeeded => (
                DiscovererState::Listening,
                DiscovererAction::Listen,
                Relay::Ignored,
            ),
            DiscovererInput::Failed => (
                DiscovererState::Failed(Fault::BrowseRequest),
                DiscovererAction::Abort(Fault::BrowseRequest),
                Relay::Ignored,
            ),
            _ => (state, DiscovererAction::Browse, Relay::Ignored),
        },
        DiscovererState::Listening => match input {
            DiscovererInput::StreamEnded => (
                DiscovererState::Stopped,
                DiscovererAction::Stop,
                Relay::Ignored,
            ),
            DiscovererInput::Event(event) => (state, DiscovererAction::Listen, relay(found, event)),
            _ => (state, DiscovererAction::Listen, Relay::Ignored),
        },
        DiscovererState::Stopped => (state, DiscovererAction::Stop, Relay::Ignored),
        DiscovererState::Failed(fault) => (state, DiscovererAction::Abort(fault), Relay::Ignored),
    }
}

/// While the discoverer listens, no input but the end of the stream ends
/// the listening: not an event of any kind, and so not a peer that the
/// channel did not take.
pub proof fn lemma_listening_outlasts_events(input: DiscovererInput)
    requires
        !(input is StreamEnded),
    ensures
        discoverer_next(DiscovererState::Listening, input) == DiscovererState::Listening,
{
}

/// An event that is no resolution is never offered to the channel, in
/// whatever state it arrives, and no peer is offered unless the
/// discoverer listens.
pub proof fn lemma_only_resolutions_offered(state: DiscovererState, input: DiscovererInput)
    requires
        offered(state, input) is Some,
    ensures
        state is Listening,
        input matches DiscovererInput::Event(DiscoveryEvent::ServiceResolved(record))
            && record.addresses@.len() > 0 && offered(state, input) == record.spec_peer(),
{
}

/// The event announces a peer.
pub open spec fn announces(event: DiscoveryEvent) -> bool {
    event.spec_announcement() is Some
}

/// The events that announce a peer, in their order.
pub open spec fn announcing(events: Seq<DiscoveryEvent>) -> Seq<DiscoveryEvent> {
    events.filter(|event: DiscoveryEvent| announces(event))
}

/// What a consumer observes of `events`: the peer of each event that
/// announces one, in the order of the events.
pub open spec fn peer_stream(events: Seq<DiscoveryEvent>) -> Seq<Seq<char>> {
    announcing(events).map_values(|event: DiscoveryEvent| event.spec_announcement()->0)
}

/// The texts of the strings, in their order.
pub open spec fn texts(strings: Seq<String>) -> Seq<Seq<char>> {
    strings.map_values(|string: String| string@)
}

/// What a consumer observes of `events`.
pub fn announcements(events: &Vec<DiscoveryEvent>) -> (peers: Vec<String>)
    ensures
        texts(peers@) == peer_stream(events@),
{
    let mut peers: Vec<String> = Vec::new();
    let mut i: usize = 0;
    assert(events@.subrange(0, 0) =~= Seq::<DiscoveryEvent>::empty());
    proof {
        lemma_peer_stream_empty();
    }
    while i < events.len()
        invariant
            i <= events.len(),
            texts(peers@) == peer_stream(events@.subrange(0, i as int)),
        decreases events.len() - i,
    {
        let ghost done = events@.subrange(0, i as int);
        let ghost next = events@.subrange(0, i + 1);
        proof {
            assert(next =~= done.push(events@[i as int]));
            lemma_peer_stream_push(done, events@[i as int]);
        }
        match events[i].announcement() {
            Some(peer) => {
                let ghost before = peers@;
                peers.push(peer);
                assert(texts(peers@) =~= texts(before).push(peer@));
            },
            None => {},
        }
        i += 1;
    }
    assert(events@.subrange(0, events.len() as int) =~= events@);
    peers
}

/// Of no events nothing is observed.
pub proof fn lemma_peer_stream_empty()
    ensures
        peer_stream(Seq::<DiscoveryEvent>::empty()) == Seq::<Seq<char>>::empty(),
{
    reveal(Seq::filter);
    assert(announcing(Seq::<DiscoveryEvent>::empty()) =~= Seq::<DiscoveryEvent>::empty());
    assert(peer_stream(Seq::<DiscoveryEvent>::empty()) =~= Seq::<Seq<char>>::empty());
}

/// One more event adds its peer at the end of what is observed, or
/// nothing where it announces none.
pub proof fn lemma_peer_stream_push(events: Seq<DiscoveryEvent>, event: DiscoveryEvent)
    ensures
        peer_stream(events.push(event)) == match event.spec_announcement() {
            Some(peer) => peer_stream(events).push(peer),
            None => peer_stream(events),
        },
{
    reveal(Seq::filter);
    let longer = events.push(event);
    assert(longer.drop_last() =~= events);
    assert(longer.last() == event);
    if announces(event) {
        assert(announcing(longer) =~= announcing(events).push(event));
        assert(peer_stream(longer) =~= peer_stream(events).push(event.spec_announcement()->0));
    } else {
        assert(announcing(longer) =~= announcing(events));
    }
}

/// What is observed of two runs of events, one after the other, is what
/// is observed of the first followed by what is observed of the second:
/// peers are observed in the order of their events.
pub proof fn lemma_peer_stream_concat(first: Seq<DiscoveryEvent>, second: Seq<DiscoveryEvent>)
    ensures
        peer_stream(first + second) == peer_stream(first) + peer_stream(second),
    decreases second.len(),
{
    if second.len() == 0 {
        lemma_peer_stream_empty();
        assert(first + second =~= first);
        assert(peer_stream(first) + peer_stream(second) =~= peer_stream(first));
    } else {
        let shorter = second.drop_last();
        let event = second.last();
        lemma_peer_stream_concat(first, shorter);
        lemma_peer_stream_push(first + shorter, event);
        lemma_peer_stream_push(shorter, event);
        assert(first + second =~= (first + shorter).push(event));
        assert(second =~= shorter.push(event));
        match event.spec_announcement() {
            Some(peer) => {
                assert((peer_stream(first) + peer_stream(shorter)).push(peer) =~= peer_stream(first)
                    + peer_stream(shorter).push(peer));
            },
            None => {},
        }
    }
}

/// Where every event is a resolution with at least one address, as many
/// peers are observed as there are events, and the peer at each place is
/// the one that the event at that place announces.
pub proof fn lemma_every_resolution_observed(events: Seq<DiscoveryEvent>)
    requires
        forall|i: int|
            0 <= i < events.len() ==> (#[trigger] events[i] matches DiscoveryEvent::ServiceResolved(
                record,
            ) && record.addresses@.len() > 0),
    ensures
        peer_stream(events).len() == events.len(),
        forall|i: int|
            0 <= i < events.len() ==> Some(#[trigger] peer_stream(events)[i])
                == events[i].spec_announcement(),
    decreases events.len(),
{
    if events.len() == 0 {
        lemma_peer_stream_empty();
        assert(events =~= Seq::<DiscoveryEvent>::empty());
    } else {
        let shorter = events.drop_last();
        let event = events.last();
        assert forall|i: int| 0 <= i < shorter.len() implies (#[trigger] shorter[i] matches DiscoveryEvent::ServiceResolved(
            record,
        ) && record.addresses@.len() > 0) by {
            assert(shorter[i] == events[i]);
        }
        lemma_every_resolution_observed(shorter);
        lemma_peer_stream_push(shorter, event);
        assert(events =~= shorter.push(event));
        assert(events[events.len() - 1] == event);
        assert forall|i: int| 0 <= i < events.len() implies Some(#[trigger] peer_stream(events)[i])
            == events[i].spec_announcement() by {
            if i < shorter.len() {
                assert(peer_stream(events)[i] == peer_stream(shorter)[i]);
                assert(events[i] == shorter[i]);
            }
        }
    }
}

/// An event that is no resolution, or a resolution without an address,
/// leaves no trace: what is observed is the same as without it.
pub proof fn lemma_silent_event_unobserved(events: Seq<DiscoveryEvent>, at: int)
    requires
        0 <= at < events.len(),
        !(events[at] matches DiscoveryEvent::ServiceResolved(record) && record.addresses@.len()
            > 0),
    ensures
        peer_stream(events) == peer_stream(events.remove(at)),
{
    let before = events.subrange(0, at);
    let after = events.subrange(at + 1, events.len() as int);
    let event = events[at];
    assert(events =~= before.push(event) + after);
    assert(events.remove(at) =~= before + after);
    lemma_peer_stream_push(before, event);
    lemma_peer_stream_concat(before.push(event), after);
    lemma_peer_stream_concat(before, after);
}

} // verus!
