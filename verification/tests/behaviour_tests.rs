use libp2p::gossipsub::TopicHash;
use libp2p::identity::Keypair;
use libp2p::swarm::ConnectionId;
use libp2p::{dcutr, gossipsub, mdns, ping, relay, Multiaddr, PeerId};
use p2p_chat::behaviour::ChatBehaviourEvent;
use std::time::Duration;

type Wrapped = ChatBehaviourEvent<String, bool>;

fn some_peer() -> PeerId {
    Keypair::generate_ed25519().public().to_peer_id()
}

#[test]
fn relay_server_event_goes_to_relay_server() {
    let peer = some_peer();
    let wrapped = Wrapped::from(relay::Event::ReservationTimedOut { src_peer_id: peer });
    match wrapped {
        ChatBehaviourEvent::RelayServer(relay::Event::ReservationTimedOut { src_peer_id }) => assert_eq!(src_peer_id, peer),
        other => panic!("unexpected {:?}", other),
    }
}

#[test]
fn relay_client_event_goes_to_relay_client() {
    let peer = some_peer();
    let wrapped = Wrapped::from(relay::client::Event::InboundCircuitEstablished { src_peer_id: peer, limit: None });
    match wrapped {
        ChatBehaviourEvent::RelayClient(relay::client::Event::InboundCircuitEstablished { src_peer_id, .. }) => assert_eq!(src_peer_id, peer),
        other => panic!("unexpected {:?}", other),
    }
}

#[test]
fn ping_event_goes_to_ping() {
    let peer = some_peer();
    let wrapped = Wrapped::from(ping::Event { peer, connection: ConnectionId::new_unchecked(3), result: Ok(Duration::from_millis(5)) });
    match wrapped {
        ChatBehaviourEvent::Ping(event) => {
            assert_eq!(event.peer, peer);
            assert_eq!(event.result.unwrap(), Duration::from_millis(5));
        }
        other => panic!("unexpected {:?}", other),
    }
}

#[test]
fn mdns_event_goes_to_mdns() {
    let peer = some_peer();
    let addr: Multiaddr = "/ip4/192.168.0.9/tcp/7".parse().unwrap();
    let wrapped = Wrapped::from(mdns::Event::Expired(vec![(peer, addr.clone())]));
    match wrapped {
        ChatBehaviourEvent::Mdns(mdns::Event::Expired(list)) => assert_eq!(list, vec![(peer, addr)]),
        other => panic!("unexpected {:?}", other),
    }
}

#[test]
fn gossipsub_event_goes_to_gossipsub() {
    let peer = some_peer();
    let wrapped = Wrapped::from(gossipsub::Event::Subscribed { peer_id: peer, topic: TopicHash::from_raw("chat") });
    match wrapped {
        ChatBehaviourEvent::Gossipsub(gossipsub::Event::Subscribed { peer_id, topic }) => {
            assert_eq!(peer_id, peer);
            assert_eq!(topic.as_str(), "chat");
        }
        other => panic!("unexpected {:?}", other),
    }
}

#[test]
fn dcutr_event_goes_to_dcutr() {
    let peer = some_peer();
    let result: Result<ConnectionId, dcutr::Error> = Ok(ConnectionId::new_unchecked(1));
    let wrapped = Wrapped::from(dcutr::Event { remote_peer_id: peer, result });
    match wrapped {
        ChatBehaviourEvent::Dcutr(event) => assert_eq!(event.remote_peer_id, peer),
        other => panic!("unexpected {:?}", other),
    }
}
