//! Decision logic of a peer-to-peer chat node: configuration, bootstrap peer
//! lists, message de-duplication and gossip, and peer discovery handling.
pub mod text;
pub mod address;
pub mod message;
pub mod node;
pub mod behaviour;
pub mod gossip;
