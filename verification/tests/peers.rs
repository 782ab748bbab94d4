use openwboard::address::IpAddress;
use openwboard::discoverer::{
    announcements, discoverer_start, discoverer_step, relay, DiscovererAction, DiscovererInput,
    DiscovererState, Relay,
};
use openwboard::event::{peer_address, DiscoveryEvent, ResolvedRecord};
use openwboard::fault::Fault;
use std::sync::mpsc::channel;

fn resolved(addresses: Vec<IpAddress>, port: u16) -> DiscoveryEvent {
    DiscoveryEvent::ServiceResolved(ResolvedRecord { addresses, port })
}

fn silent_events() -> Vec<DiscoveryEvent> {
    vec![
        DiscoveryEvent::SearchStarted,
        DiscoveryEvent::ServiceFound,
        DiscoveryEvent::ServiceRemoved,
        DiscoveryEvent::SearchStopped,
    ]
}

#[test]
fn peer_address_joins_address_and_port() {
    assert_eq!(peer_address(&IpAddress::V4([192, 0, 2, 5]), 42424), "192.0.2.5:42424");
    assert_eq!(peer_address(&IpAddress::V4([10, 0, 0, 1]), 0), "10.0.0.1:0");
    assert_eq!(
        peer_address(&IpAddress::V6([0x2001, 0xdb8, 0, 0, 0, 0, 0, 1]), 9999),
        "2001:db8::1:9999"
    );
}

#[test]
fn resolved_ipv4_peer_is_formatted_exactly() {
    let event = resolved(vec![IpAddress::V4([192, 0, 2, 5])], 42424);
    assert_eq!(event.announcement(), Some(String::from("192.0.2.5:42424")));
}

#[test]
fn first_address_in_list_order_is_used() {
    let event = resolved(
        vec![IpAddress::V6([0x2001, 0xdb8, 0, 0, 0, 0, 0, 1]), IpAddress::V4([198, 51, 100, 7])],
        9999,
    );
    assert_eq!(event.announcement(), Some(String::from("2001:db8::1:9999")));
    let swapped = resolved(
        vec![IpAddress::V4([198, 51, 100, 7]), IpAddress::V6([0x2001, 0xdb8, 0, 0, 0, 0, 0, 1])],
        9999,
    );
    assert_eq!(swapped.announcement(), Some(String::from("198.51.100.7:9999")));
}

#[test]
fn record_without_address_announces_nothing() {
    let record = ResolvedRecord { addresses: Vec::new(), port: 42424 };
    assert_eq!(record.peer(), None);
    assert_eq!(DiscoveryEvent::ServiceResolved(record).announcement(), None);
}

#[test]
fn other_kinds_of_event_announce_nothing() {
    for event in silent_events() {
        assert_eq!(event.announcement(), None);
    }
}

#[test]
fn every_resolution_is_observed_in_order() {
    let events: Vec<DiscoveryEvent> =
        (1u8..=20).map(|n| resolved(vec![IpAddress::V4([10, 0, 0, n])], 4000 + n as u16)).collect();
    let peers = announcements(&events);
    assert_eq!(peers.len(), 20);
    for (i, peer) in peers.iter().enumerate() {
        assert_eq!(*peer, format!("10.0.0.{}:{}", i + 1, 4001 + i));
    }
}

#[test]
fn repeated_resolutions_are_not_merged() {
    let events = vec![
        resolved(vec![IpAddress::V4([10, 0, 0, 1])], 1),
        resolved(vec![IpAddress::V4([10, 0, 0, 1])], 1),
    ];
    assert_eq!(announcements(&events), vec!["10.0.0.1:1", "10.0.0.1:1"]);
}

#[test]
fn silent_events_are_left_out_of_the_stream() {
    let events = vec![
        DiscoveryEvent::SearchStarted,
        DiscoveryEvent::ServiceFound,
        resolved(vec![IpAddress::V4([10, 0, 0, 1])], 1),
        resolved(Vec::new(), 2),
        DiscoveryEvent::ServiceRemoved,
        resolved(vec![IpAddress::V4([10, 0, 0, 3])], 3),
        DiscoveryEvent::SearchStopped,
    ];
    assert_eq!(announcements(&events), vec!["10.0.0.1:1", "10.0.0.3:3"]);
    assert_eq!(announcements(&silent_events()), Vec::<String>::new());
    assert_eq!(announcements(&Vec::new()), Vec::<String>::new());
}

#[test]
fn relay_sends_the_peer_on_the_channel() {
    let (found, peers) = channel::<String>();
    let outcome = relay(&found, &resolved(vec![IpAddress::V4([192, 0, 2, 5])], 42424));
    assert!(matches!(outcome, Relay::Delivered(ref peer) if peer == "192.0.2.5:42424"));
    assert_eq!(peers.try_recv().ok(), Some(String::from("192.0.2.5:42424")));
    assert!(peers.try_recv().is_err());
}

#[test]
fn relay_sends_nothing_for_silent_events() {
    let (found, peers) = channel::<String>();
    for event in silent_events() {
        assert!(matches!(relay(&found, &event), Relay::Ignored));
    }
    assert!(matches!(relay(&found, &resolved(Vec::new(), 1)), Relay::Ignored));
    assert!(peers.try_recv().is_err());
}

#[test]
fn relay_swallows_a_dropped_receiver() {
    let (found, peers) = channel::<String>();
    drop(peers);
    let outcome = relay(&found, &resolved(vec![IpAddress::V4([192, 0, 2, 5])], 42424));
    assert!(matches!(outcome, Relay::Undelivered(ref peer) if peer == "192.0.2.5:42424"));
    let again = relay(&found, &resolved(vec![IpAddress::V4([192, 0, 2, 6])], 42424));
    assert!(matches!(again, Relay::Undelivered(ref peer) if peer == "192.0.2.6:42424"));
}

#[test]
fn consumer_observes_the_channel_in_event_order() {
    let (found, peers) = channel::<String>();
    let mut state = DiscovererState::Listening;
    let events = vec![
        DiscoveryEvent::SearchStarted,
        resolved(vec![IpAddress::V4([10, 0, 0, 1])], 1),
        DiscoveryEvent::ServiceFound,
        resolved(Vec::new(), 2),
        resolved(vec![IpAddress::V6([0xfe80, 0, 0, 0, 0, 0, 0, 9]), IpAddress::V4([10, 0, 0, 3])], 3),
        DiscoveryEvent::ServiceRemoved,
    ];
    let expected = announcements(&events);
    for event in events {
        let next = discoverer_step(state, &DiscovererInput::Event(event), &found);
        assert_eq!(next.0, DiscovererState::Listening);
        assert_eq!(next.1, DiscovererAction::Listen);
        state = next.0;
    }
    drop(found);
    let observed: Vec<String> = peers.iter().collect();
    assert_eq!(observed, vec!["10.0.0.1:1", "fe80::9:3"]);
    assert_eq!(observed, expected);
}

#[test]
fn discoverer_starts_up_and_listens() {
    let (found, peers) = channel::<String>();
    let (state, action) = discoverer_start();
    assert_eq!(state, DiscovererState::AwaitingDaemon);
    assert_eq!(action, DiscovererAction::CreateDaemon);
    let next = discoverer_step(state, &DiscovererInput::Succeeded, &found);
    assert_eq!((next.0, next.1), (DiscovererState::AwaitingBrowse, DiscovererAction::Browse));
    let next = discoverer_step(next.0, &DiscovererInput::Succeeded, &found);
    assert_eq!((next.0, next.1), (DiscovererState::Listening, DiscovererAction::Listen));
    let next = discoverer_step(next.0, &DiscovererInput::StreamEnded, &found);
    assert_eq!((next.0, next.1), (DiscovererState::Stopped, DiscovererAction::Stop));
    let next = discoverer_step(
        next.0,
        &DiscovererInput::Event(resolved(vec![IpAddress::V4([10, 0, 0, 1])], 1)),
        &found,
    );
    assert_eq!((next.0, next.1), (DiscovererState::Stopped, DiscovererAction::Stop));
    assert!(matches!(next.2, Relay::Ignored));
    assert!(peers.try_recv().is_err());
}

#[test]
fn discoverer_reports_nothing_before_it_listens() {
    let (found, peers) = channel::<String>();
    let event = DiscovererInput::Event(resolved(vec![IpAddress::V4([10, 0, 0, 1])], 1));
    for state in [DiscovererState::AwaitingDaemon, DiscovererState::AwaitingBrowse] {
        let next = discoverer_step(state, &event, &found);
        assert_eq!(next.0, state);
        assert!(matches!(next.2, Relay::Ignored));
    }
    assert!(peers.try_recv().is_err());
}

#[test]
fn discoverer_faults_are_final() {
    let (found, _peers) = channel::<String>();
    let next = discoverer_step(DiscovererState::AwaitingDaemon, &DiscovererInput::Failed, &found);
    assert_eq!(next.0, DiscovererState::Failed(Fault::TransportInit));
    assert_eq!(next.1, DiscovererAction::Abort(Fault::TransportInit));
    let next = discoverer_step(DiscovererState::AwaitingBrowse, &DiscovererInput::Failed, &found);
    assert_eq!(next.0, DiscovererState::Failed(Fault::BrowseRequest));
    assert_eq!(next.1, DiscovererAction::Abort(Fault::BrowseRequest));
    for input in [DiscovererInput::Succeeded, DiscovererInput::Failed, DiscovererInput::StreamEnded] {
        let after = discoverer_step(next.0, &input, &found);
        assert_eq!(after.0, DiscovererState::Failed(Fault::BrowseRequest));
        assert_eq!(after.1, DiscovererAction::Abort(Fault::BrowseRequest));
    }
}

#[test]
fn discoverer_keeps_listening_when_nobody_receives() {
    let (found, peers) = channel::<String>();
    drop(peers);
    let mut state = DiscovererState::Listening;
    for n in 1u8..=5 {
        let input = DiscovererInput::Event(resolved(vec![IpAddress::V4([10, 0, 0, n])], 7));
        let next = discoverer_step(state, &input, &found);
        assert_eq!(next.0, DiscovererState::Listening);
        assert_eq!(next.1, DiscovererAction::Listen);
        assert!(matches!(next.2, Relay::Undelivered(_)));
        state = next.0;
    }
    for input in [DiscovererInput::Succeeded, DiscovererInput::Failed] {
        let next = discoverer_step(state, &input, &found);
        assert_eq!(next.0, DiscovererState::Listening);
    }
}
