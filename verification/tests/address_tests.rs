use libp2p::identity::Keypair;
use libp2p::{Multiaddr, PeerId};
use p2p_chat::address::{parse_bootstrap_peer, plan_bootstrap, relay_listen_address, with_circuit, BootstrapError};

fn some_peer() -> PeerId {
    Keypair::generate_ed25519().public().to_peer_id()
}

fn bytes_of(text: &str) -> Vec<u8> {
    text.parse::<Multiaddr>().unwrap().to_vec()
}

#[test]
fn bootstrap_entry_with_peer_is_accepted() {
    let peer = some_peer();
    let entry = format!("/ip4/127.0.0.1/tcp/4001/p2p/{}", peer);
    let parsed = parse_bootstrap_peer(&entry).unwrap();
    assert_eq!(parsed.address, bytes_of(&entry));
    assert_eq!(parsed.peer, peer.to_bytes());
}

#[test]
fn bootstrap_entry_without_peer_is_refused() {
    match parse_bootstrap_peer("/ip4/127.0.0.1/tcp/4001") {
        Err(BootstrapError::MissingPeerId { entry }) => assert_eq!(entry, "/ip4/127.0.0.1/tcp/4001"),
        other => panic!("unexpected {:?}", other),
    }
}

#[test]
fn bootstrap_entry_that_is_no_address_is_refused() {
    match parse_bootstrap_peer("localhost:4001") {
        Err(BootstrapError::InvalidAddress { entry, .. }) => assert_eq!(entry, "localhost:4001"),
        other => panic!("unexpected {:?}", other),
    }
}

#[test]
fn empty_bootstrap_entry_names_no_peer() {
    match parse_bootstrap_peer("") {
        Err(BootstrapError::MissingPeerId { entry }) => assert_eq!(entry, ""),
        other => panic!("unexpected {:?}", other),
    }
}

#[test]
fn bootstrap_list_stops_at_first_refused_entry() {
    let a = some_peer();
    let b = some_peer();
    let list = format!("/ip4/10.0.0.1/tcp/1/p2p/{},/ip4/10.0.0.2/tcp/2,/ip4/10.0.0.3/tcp/3/p2p/{}", a, b);
    let (peers, error) = plan_bootstrap(&list);
    assert_eq!(peers.len(), 1);
    assert_eq!(peers[0].peer, a.to_bytes());
    match error {
        Some(BootstrapError::MissingPeerId { entry }) => assert_eq!(entry, "/ip4/10.0.0.2/tcp/2"),
        other => panic!("unexpected {:?}", other),
    }
}

#[test]
fn bootstrap_list_all_accepted() {
    let a = some_peer();
    let b = some_peer();
    let list = format!("/ip4/10.0.0.1/tcp/1/p2p/{},/dns4/example.org/tcp/2/p2p/{}", a, b);
    let (peers, error) = plan_bootstrap(&list);
    assert!(error.is_none());
    assert_eq!(peers.len(), 2);
    assert_eq!(peers[1].peer, b.to_bytes());
    assert_eq!(peers[1].address, bytes_of(&format!("/dns4/example.org/tcp/2/p2p/{}", b)));
}

#[test]
fn circuit_component_matches_multiaddr() {
    let base = bytes_of("/ip4/1.2.3.4/tcp/5");
    assert_eq!(with_circuit(&base), bytes_of("/ip4/1.2.3.4/tcp/5/p2p-circuit"));
}

#[test]
fn relay_listen_address_appends_peer_and_circuit() {
    let relay = some_peer();
    let address = bytes_of("/ip4/1.2.3.4/tcp/5");
    let listen = relay_listen_address(&address, &relay.to_bytes()).unwrap();
    assert_eq!(listen, bytes_of(&format!("/ip4/1.2.3.4/tcp/5/p2p/{}/p2p-circuit", relay)));
}

#[test]
fn relay_listen_address_keeps_same_peer() {
    let relay = some_peer();
    let address = bytes_of(&format!("/ip4/1.2.3.4/tcp/5/p2p/{}", relay));
    let listen = relay_listen_address(&address, &relay.to_bytes()).unwrap();
    assert_eq!(listen, bytes_of(&format!("/ip4/1.2.3.4/tcp/5/p2p/{}/p2p-circuit", relay)));
}

#[test]
fn relay_listen_address_refuses_other_peer() {
    let relay = some_peer();
    let other = some_peer();
    let address = bytes_of(&format!("/ip4/1.2.3.4/tcp/5/p2p/{}", other));
    assert_eq!(relay_listen_address(&address, &relay.to_bytes()), None);
}
