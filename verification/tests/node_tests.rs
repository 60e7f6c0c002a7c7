use libp2p::identity::Keypair;
use libp2p::Multiaddr;
use p2p_chat::message::{MessageRequest, MessageResponse};
use p2p_chat::node::{compose_line, is_relay, same_bytes, Action, ChatNode, NodeEvent};

fn peer() -> Vec<u8> {
    Keypair::generate_ed25519().public().to_peer_id().to_bytes()
}

fn addr(text: &str) -> Vec<u8> {
    text.parse::<Multiaddr>().unwrap().to_vec()
}

fn request(id: u128, text: &str) -> MessageRequest {
    MessageRequest { id, message: text.to_string() }
}

fn ack() -> Action {
    Action::Acknowledge { response: MessageResponse { ack: true } }
}

#[test]
fn new_message_is_shown_forwarded_and_acknowledged() {
    let (a, b, c) = (peer(), peer(), peer());
    let mut node = ChatNode::new();
    let connected = vec![a.clone(), b.clone(), c.clone()];
    let actions = node.on_request(&b, request(7, "hi"), &connected);
    assert_eq!(
        actions,
        vec![
            Action::Deliver { from: b.clone(), text: "hi".to_string() },
            Action::SendRequest { to: a.clone(), request: request(7, "hi") },
            Action::SendRequest { to: c.clone(), request: request(7, "hi") },
            ack(),
        ]
    );
}

#[test]
fn seen_message_is_only_acknowledged() {
    let (a, b) = (peer(), peer());
    let mut node = ChatNode::new();
    let connected = vec![a.clone(), b.clone()];
    node.on_request(&a, request(9, "once"), &connected);
    assert_eq!(node.on_request(&b, request(9, "once"), &connected), vec![ack()]);
    assert_eq!(node.on_request(&a, request(9, "other text"), &connected), vec![ack()]);
}

#[test]
fn message_from_lone_peer_goes_nowhere_else() {
    let a = peer();
    let mut node = ChatNode::new();
    let actions = node.on_request(&a, request(1, "x"), &vec![a.clone()]);
    assert_eq!(actions, vec![Action::Deliver { from: a.clone(), text: "x".to_string() }, ack()]);
}

#[test]
fn different_ids_are_both_delivered() {
    let (a, b) = (peer(), peer());
    let mut node = ChatNode::new();
    let connected = vec![a.clone(), b.clone()];
    assert_eq!(node.on_request(&a, request(1, "x"), &connected).len(), 3);
    assert_eq!(node.on_request(&a, request(2, "x"), &connected).len(), 3);
}

#[test]
fn blank_line_sends_nothing() {
    let node = ChatNode::new();
    assert!(node.on_line(&"   ".to_string(), &vec![peer()]).is_empty());
    assert!(node.on_line(&String::new(), &vec![]).is_empty());
}

#[test]
fn line_without_peers_reports_so() {
    let node = ChatNode::new();
    assert_eq!(node.on_line(&"hello".to_string(), &vec![]), vec![Action::NoPeers]);
}

#[test]
fn line_goes_to_each_peer_with_fresh_ids() {
    let (a, b) = (peer(), peer());
    let node = ChatNode::new();
    let actions = node.on_line(&"hello".to_string(), &vec![a.clone(), b.clone()]);
    assert_eq!(actions.len(), 3);
    assert_eq!(actions[0], Action::Announce { text: "hello".to_string(), recipients: 2 });
    let mut ids = Vec::new();
    for (k, to_peer) in [a, b].iter().enumerate() {
        match &actions[k + 1] {
            Action::SendRequest { to, request } => {
                assert_eq!(to, to_peer);
                assert_eq!(request.message, "hello");
                let id = uuid::Uuid::from_u128(request.id);
                assert_eq!(id.get_version_num(), 4);
                assert_eq!(id.get_variant(), uuid::Variant::RFC4122);
                ids.push(request.id);
            }
            other => panic!("unexpected {:?}", other),
        }
    }
    assert_ne!(ids[0], ids[1]);
}

#[test]
fn composed_line_uses_given_ids() {
    let (a, b) = (peer(), peer());
    let actions = compose_line(&" hi ".to_string(), &vec![a.clone(), b.clone()], &vec![10, 20]);
    assert_eq!(
        actions,
        vec![
            Action::Announce { text: " hi ".to_string(), recipients: 2 },
            Action::SendRequest { to: a, request: request(10, " hi ") },
            Action::SendRequest { to: b, request: request(20, " hi ") },
        ]
    );
}

#[test]
fn mdns_discovery_records_and_dials() {
    let (a, b) = (peer(), peer());
    let (x, y) = (addr("/ip4/192.168.1.2/tcp/1"), addr("/ip4/192.168.1.3/tcp/2"));
    let mut node = ChatNode::new();
    let actions = node.handle(NodeEvent::MdnsDiscovered { found: vec![(a.clone(), x.clone()), (b.clone(), y.clone())] }, &vec![]);
    assert_eq!(
        actions,
        vec![
            Action::Discovered { peer: a.clone(), address: x.clone() },
            Action::AddAddress { peer: a.clone(), address: x.clone() },
            Action::AddExplicitPeer { peer: a.clone() },
            Action::Dial { peer: a.clone(), address: x.clone() },
            Action::Discovered { peer: b.clone(), address: y.clone() },
            Action::AddAddress { peer: b.clone(), address: y.clone() },
            Action::AddExplicitPeer { peer: b.clone() },
            Action::Dial { peer: b, address: y },
        ]
    );
}

#[test]
fn relay_protocol_is_recognised() {
    assert!(is_relay(&vec!["/ipfs/id/1.0.0".to_string(), "/libp2p/circuit/relay/0.2.0/hop".to_string()]));
    assert!(!is_relay(&vec!["/libp2p/circuit/relay/0.2.0/stop".to_string()]));
    assert!(!is_relay(&vec![]));
}

#[test]
fn identify_of_plain_peer_records_addresses() {
    let p = peer();
    let (x, y) = (addr("/ip4/1.1.1.1/tcp/1"), addr("/ip4/2.2.2.2/tcp/2"));
    let mut node = ChatNode::new();
    let actions = node.handle(
        NodeEvent::Identified { peer: p.clone(), protocols: vec!["/ipfs/ping/1.0.0".to_string()], listen_addrs: vec![x.clone(), y.clone()] },
        &vec![],
    );
    assert_eq!(
        actions,
        vec![
            Action::AddAddress { peer: p.clone(), address: x },
            Action::AddExplicitPeer { peer: p.clone() },
            Action::AddAddress { peer: p.clone(), address: y },
            Action::AddExplicitPeer { peer: p },
        ]
    );
}

#[test]
fn identify_of_relay_listens_through_it() {
    let key = Keypair::generate_ed25519().public().to_peer_id();
    let p = key.to_bytes();
    let x = addr("/ip4/1.1.1.1/tcp/1");
    let mut node = ChatNode::new();
    let actions = node.handle(
        NodeEvent::Identified { peer: p.clone(), protocols: vec!["/libp2p/circuit/relay/0.2.0/hop".to_string()], listen_addrs: vec![x.clone()] },
        &vec![],
    );
    assert_eq!(
        actions,
        vec![
            Action::AddAddress { peer: p.clone(), address: x },
            Action::AddExplicitPeer { peer: p },
            Action::ListenOn { address: addr(&format!("/ip4/1.1.1.1/tcp/1/p2p/{}/p2p-circuit", key)) },
        ]
    );
}

#[test]
fn identify_of_relay_stops_at_foreign_address() {
    let p = peer();
    let other = Keypair::generate_ed25519().public().to_peer_id();
    let foreign = addr(&format!("/ip4/3.3.3.3/tcp/3/p2p/{}", other));
    let later = addr("/ip4/4.4.4.4/tcp/4");
    let mut node = ChatNode::new();
    let actions = node.handle(
        NodeEvent::Identified { peer: p.clone(), protocols: vec!["/libp2p/circuit/relay/0.2.0/hop".to_string()], listen_addrs: vec![foreign.clone(), later] },
        &vec![],
    );
    assert_eq!(
        actions,
        vec![
            Action::AddAddress { peer: p.clone(), address: foreign.clone() },
            Action::AddExplicitPeer { peer: p.clone() },
            Action::RelayAddressRefused { address: foreign, peer: p },
        ]
    );
}

#[test]
fn routing_update_of_new_peer_records_addresses() {
    let p = peer();
    let (x, y) = (addr("/ip4/5.5.5.5/tcp/5"), addr("/ip6/::1/tcp/6"));
    let mut node = ChatNode::new();
    let actions = node.handle(NodeEvent::RoutingUpdated { peer: p.clone(), is_new_peer: true, addresses: vec![x.clone(), y.clone()] }, &vec![]);
    assert_eq!(
        actions,
        vec![
            Action::ReportNewRoute { peer: p.clone() },
            Action::AddAddress { peer: p.clone(), address: x },
            Action::AddAddress { peer: p, address: y },
        ]
    );
}

#[test]
fn routing_update_of_known_peer_does_nothing() {
    let p = peer();
    let mut node = ChatNode::new();
    let actions = node.handle(NodeEvent::RoutingUpdated { peer: p, is_new_peer: false, addresses: vec![addr("/ip4/5.5.5.5/tcp/5")] }, &vec![]);
    assert!(actions.is_empty());
}

#[test]
fn handle_request_remembers_id() {
    let (a, b) = (peer(), peer());
    let mut node = ChatNode::new();
    let connected = vec![a.clone(), b.clone()];
    let first = node.handle(NodeEvent::Request { from: a.clone(), request: request(5, "m") }, &connected);
    assert_eq!(first.len(), 3);
    let second = node.handle(NodeEvent::Request { from: b.clone(), request: request(5, "m") }, &connected);
    assert_eq!(second, vec![ack()]);
}

#[test]
fn byte_strings_compare() {
    assert!(same_bytes(&vec![1, 2, 3], &vec![1, 2, 3]));
    assert!(!same_bytes(&vec![1, 2, 3], &vec![1, 2, 4]));
    assert!(!same_bytes(&vec![1, 2], &vec![1, 2, 3]));
    assert!(same_bytes(&vec![], &vec![]));
}
