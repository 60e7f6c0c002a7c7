use libp2p::identity::Keypair;
use p2p_chat::gossip::message_id;
use std::collections::hash_map::DefaultHasher;
use std::hash::{Hash, Hasher};

fn expected(data: &Vec<u8>, topic: &str, source: Option<libp2p::PeerId>, now: u128) -> String {
    let mut hasher = DefaultHasher::new();
    data.hash(&mut hasher);
    libp2p::gossipsub::TopicHash::from_raw(topic).hash(&mut hasher);
    if let Some(peer_id) = source {
        peer_id.hash(&mut hasher);
    }
    now.to_string().hash(&mut hasher);
    hasher.finish().to_string()
}

#[test]
fn message_id_with_source_matches_hash() {
    let peer = Keypair::generate_ed25519().public().to_peer_id();
    let data = b"hello".to_vec();
    let id = message_id(&data, &"chat".to_string(), &Some(peer.to_bytes()), 1_700_000_000_123);
    assert_eq!(id, expected(&data, "chat", Some(peer), 1_700_000_000_123));
}

#[test]
fn message_id_without_source_matches_hash() {
    let data = vec![1, 2, 3];
    let id = message_id(&data, &"chat".to_string(), &None, 0);
    assert_eq!(id, expected(&data, "chat", None, 0));
    assert!(id.chars().all(|c| c.is_ascii_digit()));
}

#[test]
fn message_id_depends_on_time() {
    let data = vec![9];
    let a = message_id(&data, &"chat".to_string(), &None, 1);
    let b = message_id(&data, &"chat".to_string(), &None, 2);
    assert_ne!(a, b);
}
