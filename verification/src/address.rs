//! Peer addresses: the bootstrap peer list and the addresses a node listens on
//! through a relay. Addresses are held as the bytes of their multiaddr
//! encoding and peers as the bytes of their peer id; libp2p's `multiaddr`
//! does the parsing and composing.
use libp2p::multiaddr::{Multiaddr, Protocol};
use libp2p::PeerId;
use vstd::prelude::*;

use crate::text::{split_at_commas, split_list};

verus! {

/// The error `libp2p::multiaddr` reports for a text that is no multiaddr.
#[verifier::external_type_specification]
#[verifier::external_body]
pub struct ExAddressError(libp2p::multiaddr::Error);

/// The byte encoding of the multiaddr that `text` denotes, if it denotes one
/// (`Multiaddr::from_str`).
pub uninterp spec fn address_from_text(text: Seq<char>) -> Option<Seq<u8>>;

/// The peer id that ends the address with byte encoding `address`, if its last
/// component is `/p2p/<peer id>` (`Multiaddr::iter` and `Iterator::last`).
pub uninterp spec fn final_peer_of(address: Seq<u8>) -> Option<Seq<u8>>;

/// The address `address` with `/p2p/<peer>` put at its end, if it does not end
/// in another peer already (`Multiaddr::with_p2p`).
pub uninterp spec fn address_with_peer(address: Seq<u8>, peer: Seq<u8>) -> Option<Seq<u8>>;

/// Parses a multiaddr written as text, such as `/ip4/127.0.0.1/tcp/4001`, with
/// `Multiaddr::from_str`, and gives the bytes of its encoding (`Multiaddr::to_vec`).
/// Claimed: the result is `address_from_text` of the text.
#[verifier::external_body]
fn parse_address(text: &str) -> (r: Result<Vec<u8>, libp2p::multiaddr::Error>)
    ensures
        match r {
            Ok(bytes) => address_from_text(text@) == Some(bytes@),
            Err(_) => address_from_text(text@) is None,
        },
{
    match text.parse::<Multiaddr>() {
        Ok(address) => Ok(address.to_vec()),
        Err(e) => Err(e),
    }
}

/// The last component of an encoded address, through `Multiaddr::iter` and
/// `Iterator::last`, when it is `/p2p/<peer id>`: the peer id's bytes
/// (`PeerId::to_bytes`). Bytes that `Multiaddr::try_from` does not accept give
/// `None`. Claimed: the result is `final_peer_of` of the bytes.
#[verifier::external_body]
fn final_peer(address: &Vec<u8>) -> (r: Option<Vec<u8>>)
    ensures
        match r {
            Some(peer) => final_peer_of(address@) == Some(peer@),
            None => final_peer_of(address@) is None,
        },
{
    match Multiaddr::try_from(address.clone()) {
        Ok(decoded) => match decoded.iter().last() {
            Some(Protocol::P2p(peer)) => Some(peer.to_bytes()),
            _ => None,
        },
        Err(_) => None,
    }
}

/// `Multiaddr::with_p2p` on an encoded address and an encoded peer id: the
/// address with `/p2p/<peer>` at its end, or the address itself when it ends
/// in that peer already; `None` when it ends in another peer. Bytes that
/// `Multiaddr::try_from` or `PeerId::from_bytes` do not accept give `None`.
/// Claimed: the result is `address_with_peer` of the two byte strings.
#[verifier::external_body]
fn with_peer(address: &Vec<u8>, peer: &Vec<u8>) -> (r: Option<Vec<u8>>)
    ensures
        match r {
            Some(bytes) => address_with_peer(address@, peer@) == Some(bytes@),
            None => address_with_peer(address@, peer@) is None,
        },
{
    let decoded = match Multiaddr::try_from(address.clone()) {
        Ok(a) => a,
        Err(_) => return None,
    };
    let id = match PeerId::from_bytes(peer) {
        Ok(p) => p,
        Err(_) => return None,
    };
    match decoded.with_p2p(id) {
        Ok(extended) => Some(extended.to_vec()),
        Err(_) => None,
    }
}

/// The encoding of the `/p2p-circuit` component: the unsigned varint of its
/// multiaddr code, 290, with no value after it.
pub open spec fn circuit_component() -> Seq<u8> {
    seq![0xa2u8, 0x02u8]
}

/// `Multiaddr::with(Protocol::P2pCircuit)`: the address with `/p2p-circuit`
/// appended to its encoding.
pub fn with_circuit(address: &Vec<u8>) -> (r: Vec<u8>)
    ensures
        r@ == address@ + circuit_component(),
        r@ == address@ + seq![0xa2u8, 0x02u8],
{
    let mut out: Vec<u8> = Vec::new();
    let n: usize = address.len();
    let mut i: usize = 0;
    while i < n
        invariant
            n == address@.len(),
            i <= n,
            out@ == address@.subrange(0, i as int),
        decreases n - i,
    {
        out.push(address[i]);
        i = i + 1;
        assert(out@ =~= address@.subrange(0, i as int));
    }
    out.push(0xa2u8);
    out.push(0x02u8);
    assert(out@ =~= address@ + circuit_component());
    out
}

/// The address on which a node listens through the relay `peer` that
/// announced `address`: the address, then `/p2p/<peer>`, then `/p2p-circuit`.
pub open spec fn relay_listen_address_of(address: Seq<u8>, peer: Seq<u8>) -> Option<Seq<u8>> {
    match address_with_peer(address, peer) {
        Some(extended) => Some(extended + circuit_component()),
        None => None,
    }
}

/// The address to listen on through the relay `peer` at `address`; `None` when
/// the address ends in a different peer.
pub fn relay_listen_address(address: &Vec<u8>, peer: &Vec<u8>) -> (r: Option<Vec<u8>>)
    ensures
        match r {
            Some(bytes) => relay_listen_address_of(address@, peer@) == Some(bytes@),
            None => relay_listen_address_of(address@, peer@) is None,
        },
{
    match with_peer(address, peer) {
        Some(extended) => Some(with_circuit(&extended)),
        None => None,
    }
}

/// A bootstrap peer: the address to reach it at and its peer id.
#[derive(Clone, Debug, PartialEq, Eq)]
pub struct BootstrapPeer {
    pub address: Vec<u8>,
    pub peer: Vec<u8>,
}

/// Why an entry of the bootstrap peer list was refused.
#[derive(Debug)]
pub enum BootstrapError {
    /// The entry is no multiaddr.
    InvalidAddress { entry: String, cause: libp2p::multiaddr::Error },
    /// The entry's address does not end with a `/p2p/<peer id>` component.
    MissingPeerId { entry: String },
}

/// The text of the entry that an error is about.
pub open spec fn error_entry(e: BootstrapError) -> Seq<char> {
    match e {
        BootstrapError::InvalidAddress { entry, .. } => entry@,
        BootstrapError::MissingPeerId { entry } => entry@,
    }
}

/// An entry is accepted when it parses as an address whose last component
/// names a peer.
pub open spec fn entry_accepted(entry: Seq<char>) -> bool {
    &&& address_from_text(entry) is Some
    &&& final_peer_of(address_from_text(entry)->0) is Some
}

/// The peer that an accepted entry names.
pub open spec fn is_entry_peer(p: BootstrapPeer, entry: Seq<char>) -> bool {
    &&& address_from_text(entry) == Some(p.address@)
    &&& final_peer_of(p.address@) == Some(p.peer@)
}

/// The error that a refused entry gives: `InvalidAddress` when it does not
/// parse, `MissingPeerId` when it parses but names no peer at its end.
pub open spec fn is_entry_error(e: BootstrapError, entry: Seq<char>) -> bool {
    &&& error_entry(e) == entry
    &&& (e is InvalidAddress <==> address_from_text(entry) is None)
}

/// Reads one entry of the bootstrap peer list: its address and the peer id
/// that ends it.
pub fn parse_bootstrap_peer(entry: &str) -> (r: Result<BootstrapPeer, BootstrapError>)
    ensures
        r is Ok <==> entry_accepted(entry@),
        match r {
            Ok(p) => is_entry_peer(p, entry@),
            Err(e) => is_entry_error(e, entry@),
        },
{
    match parse_address(entry) {
        Err(cause) => Err(BootstrapError::InvalidAddress { entry: entry.to_owned(), cause }),
        Ok(address) => match final_peer(&address) {
            Some(peer) => Ok(BootstrapPeer { address, peer }),
            None => Err(BootstrapError::MissingPeerId { entry: entry.to_owned() }),
        },
    }
}

/// What the bootstrap peer list gives: the peers of its entries, in order, up
/// to the first entry that is refused, and the error about that entry, if any.
pub fn plan_bootstrap(list: &str) -> (r: (Vec<BootstrapPeer>, Option<BootstrapError>))
    ensures
        ({
            let entries = split_at_commas(list@);
            let (peers, error) = r;
            &&& peers.len() <= entries.len()
            &&& forall|i: int| 0 <= i < peers.len() ==> is_entry_peer(#[trigger] peers@[i], entries[i])
            &&& forall|i: int| 0 <= i < peers.len() ==> entry_accepted(#[trigger] entries[i])
            &&& (error is None <==> peers.len() == entries.len())
            &&& match error {
                Some(e) => !entry_accepted(entries[peers.len() as int]) && is_entry_error(
                    e,
                    entries[peers.len() as int],
                ),
                None => true,
            }
        }),
{
    let entries: Vec<String> = split_list(list);
    let ghost parts = split_at_commas(list@);
    let mut peers: Vec<BootstrapPeer> = Vec::new();
    let mut i: usize = 0;
    while i < entries.len()
        invariant
            parts == split_at_commas(list@),
            crate::text::texts_of(entries@) == parts,
            i <= entries.len(),
            peers.len() == i,
            forall|k: int| 0 <= k < i ==> is_entry_peer(#[trigger] peers@[k], parts[k]),
            forall|k: int| 0 <= k < i ==> entry_accepted(#[trigger] parts[k]),
        decreases entries.len() - i,
    {
        assert(entries@[i as int]@ == parts[i as int]);
        assert(parts.len() == entries.len());
        match parse_bootstrap_peer(entries[i].as_str()) {
            Ok(p) => {
                peers.push(p);
            },
            Err(e) => {
                return (peers, Some(e));
            },
        }
        i = i + 1;
    }
    (peers, None)
}

} // verus!
