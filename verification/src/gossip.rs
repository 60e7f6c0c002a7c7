//! The id under which the gossip protocol knows a published message: a hash
//! of the message's data, its topic, its source peer (when it has one) and the
//! time of hashing in milliseconds, written in decimal.
use std::collections::hash_map::DefaultHasher;
use std::hash::{Hash, Hasher};
use vstd::prelude::*;
use vstd::std_specs::hash::DefaultHasherAdditionalSpecFns;

verus! {

/// The writes that hashing a byte string makes to a hasher
/// (`<Vec<u8> as Hash>::hash`).
pub uninterp spec fn byte_string_hash_writes(data: Seq<u8>) -> Seq<Seq<u8>>;

/// The writes that hashing a text makes to a hasher (`<String as Hash>::hash`).
pub uninterp spec fn text_hash_writes(text: Seq<char>) -> Seq<Seq<u8>>;

/// The writes that hashing the peer id with byte encoding `peer` makes to a
/// hasher (`<PeerId as Hash>::hash`).
pub uninterp spec fn peer_hash_writes(peer: Seq<u8>) -> Seq<Seq<u8>>;

/// `<Vec<u8> as Hash>::hash` into a `DefaultHasher`. Claimed: what it writes
/// is `byte_string_hash_writes` of the bytes, after what was written before.
#[verifier::external_body]
fn hash_byte_string(hasher: &mut DefaultHasher, data: &Vec<u8>)
    ensures
        final(hasher)@ == old(hasher)@ + byte_string_hash_writes(data@),
{
    data.hash(hasher)
}

/// `<String as Hash>::hash` into a `DefaultHasher`. Claimed: what it writes is
/// `text_hash_writes` of the text, after what was written before.
#[verifier::external_body]
fn hash_text(hasher: &mut DefaultHasher, text: &String)
    ensures
        final(hasher)@ == old(hasher)@ + text_hash_writes(text@),
{
    text.hash(hasher)
}

/// `<PeerId as Hash>::hash` into a `DefaultHasher`, for the peer id decoded
/// from `peer` by `PeerId::from_bytes`. Claimed: what it writes is
/// `peer_hash_writes` of the bytes, after what was written before. Bytes that
/// decode to no peer id write nothing; the contract does not say so.
#[verifier::external_body]
fn hash_peer(hasher: &mut DefaultHasher, peer: &Vec<u8>)
    ensures
        final(hasher)@ == old(hasher)@ + peer_hash_writes(peer@),
{
    if let Ok(id) = libp2p::PeerId::from_bytes(peer) {
        id.hash(hasher)
    }
}

/// The decimal digit for `d` (below ten).
pub open spec fn digit(d: nat) -> char {
    (('0' as nat) + d) as char
}

/// A number written in decimal, without sign or leading zeros.
pub open spec fn decimal(n: nat) -> Seq<char>
    decreases n,
{
    if n < 10 {
        seq![digit(n)]
    } else {
        decimal(n / 10).push(digit(n % 10))
    }
}

/// `<u64 as ToString>::to_string`. Claimed: the number in decimal, as
/// integers' `Display` writes them.
#[verifier::external_body]
fn u64_decimal(n: u64) -> (text: String)
    ensures
        text@ == decimal(n as nat),
{
    n.to_string()
}

/// `<u128 as ToString>::to_string`. Claimed: the number in decimal, as
/// integers' `Display` writes them.
#[verifier::external_body]
fn u128_decimal(n: u128) -> (text: String)
    ensures
        text@ == decimal(n as nat),
{
    n.to_string()
}

/// What the message id hashes, in order: the data, the topic, the source
/// peer when there is one, and the time in milliseconds written in decimal.
pub open spec fn message_id_writes(
    data: Seq<u8>,
    topic: Seq<char>,
    source: Option<Seq<u8>>,
    now_millis: u128,
) -> Seq<Seq<u8>> {
    let known = byte_string_hash_writes(data) + text_hash_writes(topic);
    let sourced = match source {
        Some(peer) => known + peer_hash_writes(peer),
        None => known,
    };
    sourced + text_hash_writes(decimal(now_millis as nat))
}

/// The id of a gossip message with `data` on `topic` from `source`, hashed at
/// `now_millis` milliseconds after the Unix epoch: the decimal form of the
/// `DefaultHasher` hash of those four, in that order.
pub fn message_id(data: &Vec<u8>, topic: &String, source: &Option<Vec<u8>>, now_millis: u128) -> (id:
    String)
    ensures
        id@ == decimal(
            DefaultHasher::spec_finish(
                message_id_writes(
                    data@,
                    topic@,
                    match source {
                        Some(p) => Some(p@),
                        None => None,
                    },
                    now_millis,
                ),
            ) as nat,
        ),
{
    let mut hasher = DefaultHasher::new();
    hash_byte_string(&mut hasher, data);
    hash_text(&mut hasher, topic);
    match source {
        Some(peer) => hash_peer(&mut hasher, peer),
        None => {},
    }
    let now = u128_decimal(now_millis);
    hash_text(&mut hasher, &now);
    assert(hasher@ =~= message_id_writes(
        data@,
        topic@,
        match source {
            Some(p) => Some(p@),
            None => None,
        },
        now_millis,
    ));
    u64_decimal(hasher.finish())
}

} // verus!
