use upstream::handle::{HandleParts, PatchHandle};

const PEER: &str = "hyb5to4rshftx4apgmu9s6wnsp4ddmp1mz6ijh4qqey7fb8wrpawxa";

#[test]
fn handle_is_split_at_the_first_slash() {
    let parts = HandleParts::from_str("peer/feature/x").unwrap();
    assert_eq!(parts.peer_id, "peer");
    assert_eq!(parts.name, "feature/x");
}

#[test]
fn handle_parts_may_be_empty() {
    let parts = HandleParts::from_str("/").unwrap();
    assert_eq!(parts.peer_id, "");
    assert_eq!(parts.name, "");
}

#[test]
fn handle_parts_may_hold_any_character() {
    let parts = HandleParts::from_str("pärson/größe").unwrap();
    assert_eq!(parts.peer_id, "pärson");
    assert_eq!(parts.name, "größe");
}

#[test]
fn handle_without_slash_is_refused() {
    assert_eq!(HandleParts::from_str("feature").unwrap_err(), "missing `/` separator");
    assert_eq!(HandleParts::from_str("").unwrap_err(), "missing `/` separator");
}

#[test]
fn handle_with_invalid_peer_id_is_refused() {
    let parts = HandleParts::from_str("no-peer/feature").unwrap();
    let refused = PatchHandle::from_parts(parts, Err("unknown base".to_string()));
    assert_eq!(refused.unwrap_err(), "invalid peer ID: unknown base");
}

#[test]
fn handle_is_read_back_from_its_text() {
    let text = format!("{}/{}", PEER, "feature");
    let parts = HandleParts::from_str(&text).unwrap();
    assert_eq!(parts.peer_id, PEER);
    let handle = PatchHandle::from_parts(parts, Ok(PEER.to_string())).unwrap();
    assert_eq!(handle.peer_id, PEER);
    assert_eq!(handle.name, "feature");
}

#[test]
fn handle_keeps_the_decoded_peer_id() {
    let parts = HandleParts::from_str("other-encoding/feature").unwrap();
    let handle = PatchHandle::from_parts(parts, Ok(PEER.to_string())).unwrap();
    assert_eq!(handle.peer_id, PEER);
}
