use upstream::peer_events::{log_daemon_peer_event, PeerEvent, PeerLog, PutResult};

fn fetched(result: PutResult) -> PeerEvent {
    PeerEvent::GossipFetched {
        provider_id: "hyb".to_string(),
        provider_seen_addrs: "[127.0.0.1:1]".to_string(),
        urn: "rad:git:hn".to_string(),
        rev: "None".to_string(),
        origin: "Some(hyb)".to_string(),
        result,
    }
}

#[test]
fn waiting_room_transitions_are_logged() {
    let event = PeerEvent::WaitingRoomTransition { event: "Created".to_string() };
    let record = log_daemon_peer_event(event).unwrap();
    assert_eq!(record.message(), "waiting room transition");
    assert!(matches!(record, PeerLog::WaitingRoomTransition { event } if event == "Created"));
}

fn logged_result(result: PutResult) -> String {
    match log_daemon_peer_event(fetched(result)) {
        Some(PeerLog::StoragePut { result, .. }) => result,
        record => panic!("{:?}", record),
    }
}

#[test]
fn fetched_gossip_is_logged() {
    let record = log_daemon_peer_event(fetched(PutResult::Applied)).unwrap();
    assert_eq!(record.message(), "storage put");
    match record {
        PeerLog::StoragePut { provider_id, provider_seen_addrs, urn, rev, origin, result } => {
            assert_eq!(provider_id, "hyb");
            assert_eq!(provider_seen_addrs, "[127.0.0.1:1]");
            assert_eq!(urn, "rad:git:hn");
            assert_eq!(rev, "None");
            assert_eq!(origin, "Some(hyb)");
            assert_eq!(result, "Applied");
        },
        record => panic!("{:?}", record),
    }
}

#[test]
fn applied_gossip_is_logged_without_details() {
    assert_eq!(logged_result(PutResult::Applied), "Applied");
    let stale = PutResult::Other { description: "Stale(..)".to_string() };
    assert_eq!(logged_result(stale), "Stale(..)");
}

#[test]
fn other_events_are_not_logged() {
    assert!(log_daemon_peer_event(PeerEvent::Other).is_none());
}
