//! The events that the node's network protocols report, gathered in one
//! type: each protocol's event goes to the variant named after the protocol.
use vstd::prelude::*;

verus! {
/// The event type of the ping protocol, carried through unread.
#[verifier::external_type_specification]
#[verifier::external_body]
pub struct ExPingEvent(libp2p::ping::Event);
/// The event type of local discovery, carried through unread.
#[verifier::external_type_specification]
#[verifier::external_body]
pub struct ExMdnsEvent(libp2p::mdns::Event);
/// The event type of the identify protocol, carried through unread.
#[verifier::external_type_specification]
#[verifier::external_body]
pub struct ExIdentifyEvent(libp2p::identify::Event);
/// The event type of Kademlia routing, carried through unread.
#[verifier::external_type_specification]
#[verifier::external_body]
pub struct ExKadEvent(libp2p::kad::Event);
/// The event type of address reachability probing, carried through unread.
#[verifier::external_type_specification]
#[verifier::external_body]
pub struct ExAutonatEvent(libp2p::autonat::Event);
/// The event type of the relay server, carried through unread.
#[verifier::external_type_specification]
#[verifier::external_body]
pub struct ExRelayEvent(libp2p::relay::Event);
/// The event type of the relay client, carried through unread.
#[verifier::external_type_specification]
#[verifier::external_body]
pub struct ExRelayClientEvent(libp2p::relay::client::Event);
/// The event type of direct connection upgrades, carried through unread.
#[verifier::external_type_specification]
#[verifier::external_body]
pub struct ExDcutrEvent(libp2p::dcutr::Event);
/// The event type of the gossip protocol, carried through unread.
#[verifier::external_type_specification]
#[verifier::external_body]
pub struct ExGossipsubEvent(libp2p::gossipsub::Event);
/// The event type of libp2p's request-response protocols, carried through unread.
#[verifier::external_type_specification]
#[verifier::external_body]
#[verifier::reject_recursive_types(TRequest)]
#[verifier::reject_recursive_types(TResponse)]
#[verifier::reject_recursive_types(TChannelResponse)]
pub struct ExRequestResponseEvent<TRequest, TResponse, TChannelResponse>(
    libp2p::request_response::Event<TRequest, TResponse, TChannelResponse>,
);

/// An event of one of the node's protocols; `Q` and `A` are the chat
/// message and answer types of the messaging protocol.
#[allow(clippy::large_enum_variant)]
#[derive(Debug)]
#[verifier::reject_recursive_types(Q)]
#[verifier::reject_recursive_types(A)]
pub enum ChatBehaviourEvent<Q, A> {
    Ping(libp2p::ping::Event),
    Messaging(libp2p::request_response::Event<Q, A>),
    Mdns(libp2p::mdns::Event),
    Identify(libp2p::identify::Event),
    Kademlia(libp2p::kad::Event),
    Autonat(libp2p::autonat::Event),
    RelayServer(libp2p::relay::Event),
    RelayClient(libp2p::relay::client::Event),
    Dcutr(libp2p::dcutr::Event),
    Gossipsub(libp2p::gossipsub::Event),
}

impl<Q, A> From<libp2p::ping::Event> for ChatBehaviourEvent<Q, A> {
    /// An event of the ping protocol becomes a `Ping` event.
    fn from(event: libp2p::ping::Event) -> (wrapped: Self)
        ensures
            wrapped == ChatBehaviourEvent::<Q, A>::Ping(event),
    {
        ChatBehaviourEvent::Ping(event)
    }
}

impl<Q, A> vstd::std_specs::convert::FromSpecImpl<libp2p::ping::Event> for ChatBehaviourEvent<Q, A> {
    open spec fn obeys_from_spec() -> bool {
        true
    }

    open spec fn from_spec(event: libp2p::ping::Event) -> Self {
        ChatBehaviourEvent::Ping(event)
    }
}

impl<Q, A> From<libp2p::request_response::Event<Q, A>> for ChatBehaviourEvent<Q, A> {
    /// An event of the chat message protocol becomes a `Messaging` event.
    fn from(event: libp2p::request_response::Event<Q, A>) -> (wrapped: Self)
        ensures
            wrapped == ChatBehaviourEvent::<Q, A>::Messaging(event),
    {
        ChatBehaviourEvent::Messaging(event)
    }
}

impl<Q, A> vstd::std_specs::convert::FromSpecImpl<libp2p::request_response::Event<Q, A>> for ChatBehaviourEvent<Q, A> {
    open spec fn obeys_from_spec() -> bool {
        true
    }

    open spec fn from_spec(event: libp2p::request_response::Event<Q, A>) -> Self {
        ChatBehaviourEvent::Messaging(event)
    }
}

impl<Q, A> From<libp2p::mdns::Event> for ChatBehaviourEvent<Q, A> {
    /// An event of local discovery becomes a `Mdns` event.
    fn from(event: libp2p::mdns::Event) -> (wrapped: Self)
        ensures
            wrapped == ChatBehaviourEvent::<Q, A>::Mdns(event),
    {
        ChatBehaviourEvent::Mdns(event)
    }
}

impl<Q, A> vstd::std_specs::convert::FromSpecImpl<libp2p::mdns::Event> for ChatBehaviourEvent<Q, A> {
    open spec fn obeys_from_spec() -> bool {
        true
    }

    open spec fn from_spec(event: libp2p::mdns::Event) -> Self {
        ChatBehaviourEvent::Mdns(event)
    }
}

impl<Q, A> From<libp2p::identify::Event> for ChatBehaviourEvent<Q, A> {
    /// An event of the identify protocol becomes a `Identify` event.
    fn from(event: libp2p::identify::Event) -> (wrapped: Self)
        ensures
            wrapped == ChatBehaviourEvent::<Q, A>::Identify(event),
    {
        ChatBehaviourEvent::Identify(event)
    }
}

impl<Q, A> vstd::std_specs::convert::FromSpecImpl<libp2p::identify::Event> for ChatBehaviourEvent<Q, A> {
    open spec fn obeys_from_spec() -> bool {
        true
    }

    open spec fn from_spec(event: libp2p::identify::Event) -> Self {
        ChatBehaviourEvent::Identify(event)
    }
}

impl<Q, A> From<libp2p::kad::Event> for ChatBehaviourEvent<Q, A> {
    /// An event of Kademlia routing becomes a `Kademlia` event.
    fn from(event: libp2p::kad::Event) -> (wrapped: Self)
        ensures
            wrapped == ChatBehaviourEvent::<Q, A>::Kademlia(event),
    {
        ChatBehaviourEvent::Kademlia(event)
    }
}

impl<Q, A> vstd::std_specs::convert::FromSpecImpl<libp2p::kad::Event> for ChatBehaviourEvent<Q, A> {
    open spec fn obeys_from_spec() -> bool {
        true
    }

    open spec fn from_spec(event: libp2p::kad::Event) -> Self {
        ChatBehaviourEvent::Kademlia(event)
    }
}

impl<Q, A> From<libp2p::autonat::Event> for ChatBehaviourEvent<Q, A> {
    /// An event of address reachability probing becomes a `Autonat` event.
    fn from(event: libp2p::autonat::Event) -> (wrapped: Self)
        ensures
            wrapped == ChatBehaviourEvent::<Q, A>::Autonat(event),
    {
        ChatBehaviourEvent::Autonat(event)
    }
}

impl<Q, A> vstd::std_specs::convert::FromSpecImpl<libp2p::autonat::Event> for ChatBehaviourEvent<Q, A> {
    open spec fn obeys_from_spec() -> bool {
        true
    }

    open spec fn from_spec(event: libp2p::autonat::Event) -> Self {
        ChatBehaviourEvent::Autonat(event)
    }
}

impl<Q, A> From<libp2p::relay::Event> for ChatBehaviourEvent<Q, A> {
    /// An event of the relay server becomes a `RelayServer` event.
    fn from(event: libp2p::relay::Event) -> (wrapped: Self)
        ensures
            wrapped == ChatBehaviourEvent::<Q, A>::RelayServer(event),
    {
        ChatBehaviourEvent::RelayServer(event)
    }
}

impl<Q, A> vstd::std_specs::convert::FromSpecImpl<libp2p::relay::Event> for ChatBehaviourEvent<Q, A> {
    open spec fn obeys_from_spec() -> bool {
        true
    }

    open spec fn from_spec(event: libp2p::relay::Event) -> Self {
        ChatBehaviourEvent::RelayServer(event)
    }
}

impl<Q, A> From<libp2p::relay::client::Event> for ChatBehaviourEvent<Q, A> {
    /// An event of the relay client becomes a `RelayClient` event.
    fn from(event: libp2p::relay::client::Event) -> (wrapped: Self)
        ensures
            wrapped == ChatBehaviourEvent::<Q, A>::RelayClient(event),
    {
        ChatBehaviourEvent::RelayClient(event)
    }
}

impl<Q, A> vstd::std_specs::convert::FromSpecImpl<libp2p::relay::client::Event> for ChatBehaviourEvent<Q, A> {
    open spec fn obeys_from_spec() -> bool {
        true
    }

    open spec fn from_spec(event: libp2p::relay::client::Event) -> Self {
        ChatBehaviourEvent::RelayClient(event)
    }
}

impl<Q, A> From<libp2p::dcutr::Event> for ChatBehaviourEvent<Q, A> {
    /// An event of direct connection upgrades becomes a `Dcutr` event.
    fn from(event: libp2p::dcutr::Event) -> (wrapped: Self)
        ensures
            wrapped == ChatBehaviourEvent::<Q, A>::Dcutr(event),
    {
        ChatBehaviourEvent::Dcutr(event)
    }
}

impl<Q, A> vstd::std_specs::convert::FromSpecImpl<libp2p::dcutr::Event> for ChatBehaviourEvent<Q, A> {
    open spec fn obeys_from_spec() -> bool {
        true
    }

    open spec fn from_spec(event: libp2p::dcutr::Event) -> Self {
        ChatBehaviourEvent::Dcutr(event)
    }
}

impl<Q, A> From<libp2p::gossipsub::Event> for ChatBehaviourEvent<Q, A> {
    /// An event of the gossip protocol becomes a `Gossipsub` event.
    fn from(event: libp2p::gossipsub::Event) -> (wrapped: Self)
        ensures
            wrapped == ChatBehaviourEvent::<Q, A>::Gossipsub(event),
    {
        ChatBehaviourEvent::Gossipsub(event)
    }
}

impl<Q, A> vstd::std_specs::convert::FromSpecImpl<libp2p::gossipsub::Event> for ChatBehaviourEvent<Q, A> {
    open spec fn obeys_from_spec() -> bool {
        true
    }

    open spec fn from_spec(event: libp2p::gossipsub::Event) -> Self {
        ChatBehaviourEvent::Gossipsub(event)
    }
}

} // verus!
