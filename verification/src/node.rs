//! The decisions of a chat node. A node remembers the ids of the chat
//! messages it has seen; for each event of the network or of its user it
//! answers with the actions to perform, in order. Peers are given as the bytes
//! of their peer ids and addresses as the bytes of their multiaddrs.
use std::collections::HashSet;
use vstd::prelude::*;

use crate::address::{relay_listen_address, relay_listen_address_of};
use crate::message::{
    fresh_message_id, is_random_uuid, MessageRequest, MessageResponse, RequestView,
};
use crate::text::{is_blank, is_blank_text, texts_of};

verus! {

broadcast use vstd::std_specs::hash::group_hash_axioms;

/// An action for the network layer or the user's screen.
#[derive(Clone, Debug, PartialEq, Eq)]
pub enum Action {
    /// Show a chat message that arrived for the first time.
    Deliver { from: Vec<u8>, text: String },
    /// Send a chat message to a peer.
    SendRequest { to: Vec<u8>, request: MessageRequest },
    /// Answer the chat message being handled.
    Acknowledge { response: MessageResponse },
    /// Tell the user that a line goes out to this many peers.
    Announce { text: String, recipients: usize },
    /// Tell the user that no peer is connected.
    NoPeers,
    /// Tell the user that local discovery found a peer at an address.
    Discovered { peer: Vec<u8>, address: Vec<u8> },
    /// Record an address of a peer in the routing table.
    AddAddress { peer: Vec<u8>, address: Vec<u8> },
    /// Make a peer an explicit peer of the gossip protocol.
    AddExplicitPeer { peer: Vec<u8> },
    /// Connect to a peer at an address.
    Dial { peer: Vec<u8>, address: Vec<u8> },
    /// Listen on an address (one reached through a relay).
    ListenOn { address: Vec<u8> },
    /// Stop: a relay's address ends in another peer than the relay, so no
    /// address to listen on through it can be made.
    RelayAddressRefused { address: Vec<u8>, peer: Vec<u8> },
    /// Tell the user that routing found a new peer.
    ReportNewRoute { peer: Vec<u8> },
}

/// An action as a mathematical value.
pub enum ActionView {
    Deliver { from: Seq<u8>, text: Seq<char> },
    SendRequest { to: Seq<u8>, request: RequestView },
    Acknowledge { ack: bool },
    Announce { text: Seq<char>, recipients: nat },
    NoPeers,
    Discovered { peer: Seq<u8>, address: Seq<u8> },
    AddAddress { peer: Seq<u8>, address: Seq<u8> },
    AddExplicitPeer { peer: Seq<u8> },
    Dial { peer: Seq<u8>, address: Seq<u8> },
    ListenOn { address: Seq<u8> },
    RelayAddressRefused { address: Seq<u8>, peer: Seq<u8> },
    ReportNewRoute { peer: Seq<u8> },
}

impl View for Action {
    type V = ActionView;

    open spec fn view(&self) -> ActionView {
        match self {
            Action::Deliver { from, text } => ActionView::Deliver { from: from@, text: text@ },
            Action::SendRequest { to, request } => ActionView::SendRequest {
                to: to@,
                request: request@,
            },
            Action::Acknowledge { response } => ActionView::Acknowledge { ack: response.ack },
            Action::Announce { text, recipients } => ActionView::Announce {
                text: text@,
                recipients: *recipients as nat,
            },
            Action::NoPeers => ActionView::NoPeers,
            Action::Discovered { peer, address } => ActionView::Discovered {
                peer: peer@,
                address: address@,
            },
            Action::AddAddress { peer, address } => ActionView::AddAddress {
                peer: peer@,
                address: address@,
            },
            Action::AddExplicitPeer { peer } => ActionView::AddExplicitPeer { peer: peer@ },
            Action::Dial { peer, address } => ActionView::Dial { peer: peer@, address: address@ },
            Action::ListenOn { address } => ActionView::ListenOn { address: address@ },
            Action::RelayAddressRefused { address, peer } => ActionView::RelayAddressRefused {
                address: address@,
                peer: peer@,
            },
            Action::ReportNewRoute { peer } => ActionView::ReportNewRoute { peer: peer@ },
        }
    }
}

/// The actions of a list, as values.
pub open spec fn action_views(v: Seq<Action>) -> Seq<ActionView> {
    v.map_values(|a: Action| a@)
}

/// The byte strings of a list.
pub open spec fn keys_of(v: Seq<Vec<u8>>) -> Seq<Seq<u8>> {
    v.map_values(|p: Vec<u8>| p@)
}

/// The (peer, address) pairs of a list, as values.
pub open spec fn pairs_of(v: Seq<(Vec<u8>, Vec<u8>)>) -> Seq<(Seq<u8>, Seq<u8>)> {
    v.map_values(|e: (Vec<u8>, Vec<u8>)| (e.0@, e.1@))
}

/// The connected peers other than `sender`, in their order.
pub open spec fn others(connected: Seq<Seq<u8>>, sender: Seq<u8>) -> Seq<Seq<u8>>
    decreases connected.len(),
{
    if connected.len() == 0 {
        Seq::<Seq<u8>>::empty()
    } else {
        let rest = others(connected.drop_last(), sender);
        if connected.last() == sender {
            rest
        } else {
            rest.push(connected.last())
        }
    }
}

/// One send of `request` to each of `targets`, in order.
pub open spec fn forwards(targets: Seq<Seq<u8>>, request: RequestView) -> Seq<ActionView> {
    targets.map_values(|p: Seq<u8>| ActionView::SendRequest { to: p, request })
}

/// The answer that every chat message gets.
pub open spec fn acknowledgement() -> ActionView {
    ActionView::Acknowledge { ack: true }
}

/// What a node that has seen the ids `seen` does with `request` from `from`
/// while `connected` are connected: a message seen before is only
/// acknowledged; a new one is shown, passed on to every connected peer but the
/// sender, and acknowledged.
pub open spec fn request_outcome(
    seen: Set<u128>,
    from: Seq<u8>,
    request: RequestView,
    connected: Seq<Seq<u8>>,
) -> Seq<ActionView> {
    if seen.contains(request.id) {
        seq![acknowledgement()]
    } else {
        seq![ActionView::Deliver { from, text: request.message }] + forwards(
            others(connected, from),
            request,
        ) + seq![acknowledgement()]
    }
}

/// What a line typed by the user gives, when the `i`-th connected peer's
/// message gets the id `ids[i]`: nothing for a blank line, a notice when no
/// peer is connected, else an announcement and one message to each peer.
pub open spec fn line_outcome(text: Seq<char>, connected: Seq<Seq<u8>>, ids: Seq<u128>) -> Seq<
    ActionView,
> {
    if is_blank_text(text) {
        Seq::<ActionView>::empty()
    } else if connected.len() == 0 {
        seq![ActionView::NoPeers]
    } else {
        seq![ActionView::Announce { text, recipients: connected.len() }] + Seq::new(
            connected.len(),
            |i: int|
                ActionView::SendRequest {
                    to: connected[i],
                    request: RequestView { id: ids[i], message: text },
                },
        )
    }
}

/// What local discovery of `found` peers gives: for each, in order, a notice,
/// its address in the routing table, the peer made explicit, and a dial.
pub open spec fn discovery_outcome(found: Seq<(Seq<u8>, Seq<u8>)>) -> Seq<ActionView>
    decreases found.len(),
{
    if found.len() == 0 {
        Seq::<ActionView>::empty()
    } else {
        let (peer, address) = found.last();
        discovery_outcome(found.drop_last()) + seq![
            ActionView::Discovered { peer, address },
            ActionView::AddAddress { peer, address },
            ActionView::AddExplicitPeer { peer },
            ActionView::Dial { peer, address },
        ]
    }
}

/// The protocol name by which a peer offers to be a relay.
pub open spec fn hop_protocol() -> Seq<char> {
    "/libp2p/circuit/relay/0.2.0/hop"@
}

/// Whether a peer that supports `protocols` is a relay.
pub open spec fn offers_relay(protocols: Seq<Seq<char>>) -> bool {
    exists|i: int| 0 <= i < protocols.len() && #[trigger] protocols[i] == hop_protocol()
}

/// Whether a list of actions ends in a stop.
pub open spec fn halted(actions: Seq<ActionView>) -> bool {
    actions.len() > 0 && actions.last() is RelayAddressRefused
}

/// The actions for one listen address of an identified peer.
pub open spec fn listen_address_outcome(peer: Seq<u8>, address: Seq<u8>, relay: bool) -> Seq<
    ActionView,
> {
    let recorded = seq![
        ActionView::AddAddress { peer, address },
        ActionView::AddExplicitPeer { peer },
    ];
    if !relay {
        recorded
    } else {
        match relay_listen_address_of(address, peer) {
            Some(listen) => recorded.push(ActionView::ListenOn { address: listen }),
            None => recorded.push(ActionView::RelayAddressRefused { address, peer }),
        }
    }
}

/// What identifying `peer` with its listen addresses gives: for each address,
/// in order, its actions, up to the first stop.
pub open spec fn identify_outcome(peer: Seq<u8>, addresses: Seq<Seq<u8>>, relay: bool) -> Seq<
    ActionView,
>
    decreases addresses.len(),
{
    if addresses.len() == 0 {
        Seq::<ActionView>::empty()
    } else {
        let before = identify_outcome(peer, addresses.drop_last(), relay);
        if halted(before) {
            before
        } else {
            before + listen_address_outcome(peer, addresses.last(), relay)
        }
    }
}

/// What a routing update gives: nothing for a known peer; for a new one a
/// notice and each of its addresses in the routing table.
pub open spec fn route_outcome(peer: Seq<u8>, is_new_peer: bool, addresses: Seq<Seq<u8>>) -> Seq<
    ActionView,
> {
    if !is_new_peer {
        Seq::<ActionView>::empty()
    } else {
        seq![ActionView::ReportNewRoute { peer }] + addresses.map_values(
            |a: Seq<u8>| ActionView::AddAddress { peer, address: a },
        )
    }
}

/// Whether two byte strings are equal.
pub fn same_bytes(a: &Vec<u8>, b: &Vec<u8>) -> (same: bool)
    ensures
        same == (a@ == b@),
{
    if a.len() != b.len() {
        return false;
    }
    let mut i: usize = 0;
    while i < a.len()
        invariant
            a.len() == b.len(),
            i <= a.len(),
            forall|k: int| 0 <= k < i ==> a@[k] == b@[k],
        decreases a.len() - i,
    {
        if a[i] != b[i] {
            return false;
        }
        i = i + 1;
    }
    assert(a@ =~= b@);
    true
}

/// A copy of a byte string.
pub fn copy_bytes(v: &Vec<u8>) -> (copy: Vec<u8>)
    ensures
        copy@ == v@,
{
    let mut out: Vec<u8> = Vec::new();
    let mut i: usize = 0;
    while i < v.len()
        invariant
            i <= v.len(),
            out@ == v@.subrange(0, i as int),
        decreases v.len() - i,
    {
        out.push(v[i]);
        i = i + 1;
        assert(out@ =~= v@.subrange(0, i as int));
    }
    assert(out@ =~= v@);
    out
}

/// The messages to the connected peers for the line `text`, the `i`-th with
/// the id `ids[i]`, as `line_outcome` lays them out.
pub fn compose_line(text: &String, connected: &Vec<Vec<u8>>, ids: &Vec<u128>) -> (actions: Vec<
    Action,
>)
    requires
        ids.len() == connected.len(),
    ensures
        action_views(actions@) == line_outcome(text@, keys_of(connected@), ids@),
{
    let mut actions: Vec<Action> = Vec::new();
    if is_blank(text.as_str()) {
        assert(action_views(actions@) =~= Seq::<ActionView>::empty());
        return actions;
    }
    if connected.len() == 0 {
        actions.push(Action::NoPeers);
        assert(action_views(actions@) =~= seq![ActionView::NoPeers]);
        return actions;
    }
    let ghost keys = keys_of(connected@);
    actions.push(Action::Announce { text: text.clone(), recipients: connected.len() });
    let ghost head = seq![ActionView::Announce { text: text@, recipients: connected.len() as nat }];
    let ghost sends = Seq::new(
        connected.len() as nat,
        |i: int|
            ActionView::SendRequest {
                to: keys[i],
                request: RequestView { id: ids@[i], message: text@ },
            },
    );
    assert(action_views(actions@) =~= head + sends.take(0));
    let mut i: usize = 0;
    while i < connected.len()
        invariant
            ids.len() == connected.len(),
            keys == keys_of(connected@),
            i <= connected.len(),
            head == seq![ActionView::Announce { text: text@, recipients: connected.len() as nat }],
            sends == Seq::new(
                connected.len() as nat,
                |k: int|
                    ActionView::SendRequest {
                        to: keys[k],
                        request: RequestView { id: ids@[k], message: text@ },
                    },
            ),
            action_views(actions@) == head + sends.take(i as int),
        decreases connected.len() - i,
    {
        let request = MessageRequest { id: ids[i], message: text.clone() };
        let to = copy_bytes(&connected[i]);
        let ghost before = actions@;
        let sent = Action::SendRequest { to, request };
        let ghost sent_view = sent@;
        actions.push(sent);
        assert(action_views(actions@) =~= action_views(before).push(sent_view));
        assert(sends.take(i as int + 1) =~= sends.take(i as int).push(sends[i as int]));
        assert(action_views(actions@) =~= head + sends.take(i as int + 1));
        i = i + 1;
    }
    assert(sends.take(connected.len() as int) =~= sends);
    assert(line_outcome(text@, keys, ids@) =~= head + sends);
    actions
}

/// The actions for local discovery of the `found` peers with their addresses.
pub fn discovery_actions(found: &Vec<(Vec<u8>, Vec<u8>)>) -> (actions: Vec<Action>)
    ensures
        action_views(actions@) == discovery_outcome(pairs_of(found@)),
        actions.len() == 4 * found.len(),
        forall|i: int|
            #![trigger pairs_of(found@)[i]]
            0 <= i < found.len() ==> {
                &&& action_views(actions@)[4 * i] == ActionView::Discovered {
                    peer: pairs_of(found@)[i].0,
                    address: pairs_of(found@)[i].1,
                }
                &&& action_views(actions@)[4 * i + 1] == ActionView::AddAddress {
                    peer: pairs_of(found@)[i].0,
                    address: pairs_of(found@)[i].1,
                }
                &&& action_views(actions@)[4 * i + 2] == ActionView::AddExplicitPeer {
                    peer: pairs_of(found@)[i].0,
                }
                &&& action_views(actions@)[4 * i + 3] == ActionView::Dial {
                    peer: pairs_of(found@)[i].0,
                    address: pairs_of(found@)[i].1,
                }
            },
{
    let mut actions: Vec<Action> = Vec::new();
    let ghost pairs = pairs_of(found@);
    let mut i: usize = 0;
    assert(pairs.take(0) =~= Seq::<(Seq<u8>, Seq<u8>)>::empty());
    assert(action_views(actions@) =~= Seq::<ActionView>::empty());
    while i < found.len()
        invariant
            pairs == pairs_of(found@),
            i <= found.len(),
            action_views(actions@) == discovery_outcome(pairs.take(i as int)),
        decreases found.len() - i,
    {
        let peer = &found[i].0;
        let address = &found[i].1;
        let ghost before = actions@;
        actions.push(Action::Discovered { peer: copy_bytes(peer), address: copy_bytes(address) });
        actions.push(Action::AddAddress { peer: copy_bytes(peer), address: copy_bytes(address) });
        actions.push(Action::AddExplicitPeer { peer: copy_bytes(peer) });
        actions.push(Action::Dial { peer: copy_bytes(peer), address: copy_bytes(address) });
        proof {
            let next = pairs.take(i as int + 1);
            assert(next.drop_last() =~= pairs.take(i as int));
            assert(next.last() == (peer@, address@));
            assert(action_views(actions@) =~= action_views(before) + seq![
                ActionView::Discovered { peer: peer@, address: address@ },
                ActionView::AddAddress { peer: peer@, address: address@ },
                ActionView::AddExplicitPeer { peer: peer@ },
                ActionView::Dial { peer: peer@, address: address@ },
            ]);
        }
        i = i + 1;
    }
    assert(pairs.take(found.len() as int) =~= pairs);
    proof {
        law_discovery_handles_every_pair(pairs);
    }
    actions
}

/// The name of the relay protocol, `libp2p::relay::HOP_PROTOCOL_NAME`, as text.
/// Claimed: it reads `/libp2p/circuit/relay/0.2.0/hop`, as the constant's
/// definition in libp2p-relay writes it.
#[verifier::external_body]
fn relay_hop_protocol() -> (name: String)
    ensures
        name@ == hop_protocol(),
{
    libp2p::relay::HOP_PROTOCOL_NAME.as_ref().to_owned()
}

/// Whether a peer that supports `protocols` is a relay.
pub fn is_relay(protocols: &Vec<String>) -> (relay: bool)
    ensures
        relay == offers_relay(texts_of(protocols@)),
        relay <==> exists|i: int|
            0 <= i < protocols.len() && #[trigger] protocols@[i]@
                == "/libp2p/circuit/relay/0.2.0/hop"@,
{
    let hop = relay_hop_protocol();
    let ghost names = texts_of(protocols@);
    let mut i: usize = 0;
    while i < protocols.len()
        invariant
            names == texts_of(protocols@),
            hop@ == hop_protocol(),
            i <= protocols.len(),
            forall|k: int| 0 <= k < i ==> names[k] != hop_protocol(),
        decreases protocols.len() - i,
    {
        if protocols[i] == hop {
            assert(names[i as int] == hop_protocol());
            return true;
        }
        i = i + 1;
    }
    assert forall|k: int| 0 <= k < protocols.len() implies #[trigger] protocols@[k]@
        != "/libp2p/circuit/relay/0.2.0/hop"@ by {
        assert(names[k] == protocols@[k]@);
    }
    false
}

proof fn lemma_halt_persists(peer: Seq<u8>, addresses: Seq<Seq<u8>>, relay: bool, k: int)
    requires
        0 <= k <= addresses.len(),
        halted(identify_outcome(peer, addresses.take(k), relay)),
    ensures
        identify_outcome(peer, addresses, relay) == identify_outcome(
            peer,
            addresses.take(k),
            relay,
        ),
    decreases addresses.len(),
{
    if addresses.len() == k {
        assert(addresses.take(k) =~= addresses);
    } else {
        let shorter = addresses.drop_last();
        assert(shorter.take(k) =~= addresses.take(k));
        lemma_halt_persists(peer, shorter, relay, k);
    }
}

/// The actions for an identified `peer` with its listen addresses; `relay`
/// says whether the peer is a relay.
pub fn identify_actions(peer: &Vec<u8>, addresses: &Vec<Vec<u8>>, relay: bool) -> (actions: Vec<
    Action,
>)
    ensures
        action_views(actions@) == identify_outcome(peer@, keys_of(addresses@), relay),
        !relay ==> {
            &&& actions.len() == 2 * addresses.len()
            &&& forall|j: int|
                #![trigger keys_of(addresses@)[j]]
                0 <= j < addresses.len() ==> {
                    &&& action_views(actions@)[2 * j] == ActionView::AddAddress {
                        peer: peer@,
                        address: keys_of(addresses@)[j],
                    }
                    &&& action_views(actions@)[2 * j + 1] == ActionView::AddExplicitPeer {
                        peer: peer@,
                    }
                }
        },
        relay ==> forall|j: int|
            #![trigger keys_of(addresses@)[j]]
            0 <= j < addresses.len() && relayable_before(peer@, keys_of(addresses@), j)
                ==> relay_block_at(action_views(actions@), peer@, keys_of(addresses@)[j], j),
        relay && relayable_before(peer@, keys_of(addresses@), addresses.len() as int)
            ==> actions.len() == 3 * addresses.len(),
{
    let mut actions: Vec<Action> = Vec::new();
    let ghost keys = keys_of(addresses@);
    let mut i: usize = 0;
    assert(keys.take(0) =~= Seq::<Seq<u8>>::empty());
    assert(action_views(actions@) =~= Seq::<ActionView>::empty());
    while i < addresses.len()
        invariant
            keys == keys_of(addresses@),
            i <= addresses.len(),
            action_views(actions@) == identify_outcome(peer@, keys.take(i as int), relay),
            !halted(action_views(actions@)),
        decreases addresses.len() - i,
    {
        let address = &addresses[i];
        let ghost before = action_views(actions@);
        let ghost next = keys.take(i as int + 1);
        assert(next.drop_last() =~= keys.take(i as int));
        assert(next.last() == address@);
        actions.push(Action::AddAddress { peer: copy_bytes(peer), address: copy_bytes(address) });
        actions.push(Action::AddExplicitPeer { peer: copy_bytes(peer) });
        if relay {
            match relay_listen_address(address, peer) {
                Some(listen) => {
                    actions.push(Action::ListenOn { address: listen });
                },
                None => {
                    actions.push(
                        Action::RelayAddressRefused {
                            address: copy_bytes(address),
                            peer: copy_bytes(peer),
                        },
                    );
                    proof {
                        assert(action_views(actions@) =~= before + listen_address_outcome(
                            peer@,
                            address@,
                            relay,
                        ));
                        lemma_halt_persists(peer@, keys, relay, i as int + 1);
                        law_identify_handles_every_address(peer@, keys, relay);
                    }
                    return actions;
                },
            }
        }
        assert(action_views(actions@) =~= before + listen_address_outcome(peer@, address@, relay));
        i = i + 1;
    }
    assert(keys.take(addresses.len() as int) =~= keys);
    proof {
        law_identify_handles_every_address(peer@, keys, relay);
    }
    actions
}

/// The actions for a routing update about `peer`.
pub fn route_actions(peer: &Vec<u8>, is_new_peer: bool, addresses: &Vec<Vec<u8>>) -> (actions:
    Vec<Action>)
    ensures
        action_views(actions@) == route_outcome(peer@, is_new_peer, keys_of(addresses@)),
        !is_new_peer ==> actions.len() == 0,
        is_new_peer ==> {
            &&& actions.len() == addresses.len() + 1
            &&& action_views(actions@)[0] == ActionView::ReportNewRoute { peer: peer@ }
            &&& forall|k: int|
                #![trigger keys_of(addresses@)[k]]
                0 <= k < addresses.len() ==> action_views(actions@)[k + 1]
                    == ActionView::AddAddress { peer: peer@, address: keys_of(addresses@)[k] }
        },
{
    let mut actions: Vec<Action> = Vec::new();
    if !is_new_peer {
        assert(action_views(actions@) =~= Seq::<ActionView>::empty());
        return actions;
    }
    actions.push(Action::ReportNewRoute { peer: copy_bytes(peer) });
    let ghost keys = keys_of(addresses@);
    let ghost adds = keys.map_values(|a: Seq<u8>| ActionView::AddAddress { peer: peer@, address: a });
    assert(action_views(actions@) =~= seq![ActionView::ReportNewRoute { peer: peer@ }]
        + adds.take(0));
    let mut i: usize = 0;
    while i < addresses.len()
        invariant
            keys == keys_of(addresses@),
            adds == keys.map_values(
                |a: Seq<u8>| ActionView::AddAddress { peer: peer@, address: a },
            ),
            i <= addresses.len(),
            action_views(actions@) == seq![ActionView::ReportNewRoute { peer: peer@ }] + adds.take(
                i as int,
            ),
        decreases addresses.len() - i,
    {
        let ghost before = actions@;
        let added = Action::AddAddress { peer: copy_bytes(peer), address: copy_bytes(&addresses[i]) };
        let ghost added_view = added@;
        actions.push(added);
        assert(action_views(actions@) =~= action_views(before).push(added_view));
        assert(adds.take(i as int + 1) =~= adds.take(i as int).push(adds[i as int]));
        assert(action_views(actions@) =~= seq![ActionView::ReportNewRoute { peer: peer@ }]
            + adds.take(i as int + 1));
        i = i + 1;
    }
    assert(adds.take(addresses.len() as int) =~= adds);
    proof {
        law_route_adds_every_address(peer@, is_new_peer, keys);
        assert forall|k: int| 0 <= k < addresses.len() implies action_views(actions@)[k + 1]
            == ActionView::AddAddress { peer: peer@, address: #[trigger] keys_of(addresses@)[k] } by {
            assert(route_outcome(peer@, is_new_peer, keys)[k + 1] == ActionView::AddAddress {
                peer: peer@,
                address: keys[k],
            });
        }
    }
    actions
}

/// Gossip never sends a message back to its sender and only to connected
/// peers; every connected peer other than the sender is among the targets.
pub proof fn law_gossip_targets(connected: Seq<Seq<u8>>, sender: Seq<u8>)
    ensures
        forall|k: int|
            0 <= k < others(connected, sender).len() ==> #[trigger] others(connected, sender)[k]
                != sender && connected.contains(others(connected, sender)[k]),
        forall|p: Seq<u8>|
            connected.contains(p) && p != sender ==> #[trigger] others(connected, sender).contains(
                p,
            ),
    decreases connected.len(),
{
    if connected.len() > 0 {
        let shorter = connected.drop_last();
        law_gossip_targets(shorter, sender);
        let rest = others(shorter, sender);
        let all = others(connected, sender);
        assert forall|k: int| 0 <= k < all.len() implies #[trigger] all[k] != sender
            && connected.contains(all[k]) by {
            if k < rest.len() {
                assert(all[k] == rest[k]);
                let j = choose|j: int| 0 <= j < shorter.len() && shorter[j] == rest[k];
                assert(connected[j] == shorter[j]);
            } else {
                assert(all[k] == connected.last());
                assert(connected[connected.len() - 1] == connected.last());
            }
        }
        assert forall|p: Seq<u8>| connected.contains(p) && p != sender implies #[trigger] all.contains(
            p,
        ) by {
            let j = choose|j: int| 0 <= j < connected.len() && connected[j] == p;
            if j < connected.len() - 1 {
                assert(shorter[j] == p);
                assert(shorter.contains(p));
                assert(rest.contains(p));
                let m = choose|m: int| 0 <= m < rest.len() && rest[m] == p;
                if connected.last() != sender {
                    assert(all[m] == rest[m]);
                }
                assert(all[m] == p);
            } else {
                assert(all[all.len() - 1] == p);
            }
        }
    }
}

/// The peers a new message is passed on to are exactly the connected peers
/// other than its sender, each as often and in the order they are connected.
pub proof fn law_gossip_targets_are_the_others(connected: Seq<Seq<u8>>, sender: Seq<u8>)
    ensures
        others(connected, sender) == connected.filter(|p: Seq<u8>| p != sender),
    decreases connected.len(),
{
    reveal(Seq::filter);
    if connected.len() > 0 {
        law_gossip_targets_are_the_others(connected.drop_last(), sender);
    }
}

/// Every chat message is acknowledged, once, as the last thing done with it;
/// whatever else is done with it comes before.
pub proof fn law_every_request_acknowledged(
    seen: Set<u128>,
    from: Seq<u8>,
    request: RequestView,
    connected: Seq<Seq<u8>>,
)
    ensures
        request_outcome(seen, from, request, connected).len() >= 1,
        request_outcome(seen, from, request, connected).last() == acknowledgement(),
        request_outcome(seen, from, request, connected).last() == (ActionView::Acknowledge {
            ack: true,
        }),
        forall|k: int|
            0 <= k < request_outcome(seen, from, request, connected).len() - 1
                ==> !(#[trigger] request_outcome(seen, from, request, connected)[k] is Acknowledge),
{
    let out = request_outcome(seen, from, request, connected);
    if !seen.contains(request.id) {
        let sends = forwards(others(connected, from), request);
        assert forall|k: int| 0 <= k < out.len() - 1 implies !(#[trigger] out[k] is Acknowledge) by {
            if k > 0 {
                assert(out[k] == sends[k - 1]);
            }
        }
    }
}

/// A chat message is shown and passed on at most once: once the node has
/// handled a message, any later message with the same id, from whichever
/// peer, is only acknowledged.
pub proof fn law_message_delivered_once(
    seen: Set<u128>,
    request: RequestView,
    later_from: Seq<u8>,
    later: RequestView,
    later_connected: Seq<Seq<u8>>,
)
    requires
        later.id == request.id,
    ensures
        request_outcome(seen.insert(request.id), later_from, later, later_connected) == seq![
            acknowledgement(),
        ],
        request_outcome(seen.insert(request.id), later_from, later, later_connected) == seq![
            (ActionView::Acknowledge { ack: true }),
        ],
{
}

/// A new chat message is shown once and passed on unchanged to exactly the
/// connected peers other than its sender, each once, in their order; an
/// old one is passed on to nobody.
pub proof fn law_new_message_gossiped(
    seen: Set<u128>,
    from: Seq<u8>,
    request: RequestView,
    connected: Seq<Seq<u8>>,
)
    ensures
        ({
            let out = request_outcome(seen, from, request, connected);
            let targets = others(connected, from);
            &&& !seen.contains(request.id) ==> {
                &&& out.len() == targets.len() + 2
                &&& out[0] == ActionView::Deliver { from, text: request.message }
                &&& forall|k: int|
                    0 <= k < targets.len() ==> #[trigger] out[k + 1] == ActionView::SendRequest {
                        to: targets[k],
                        request,
                    }
            }
            &&& seen.contains(request.id) ==> forall|k: int|
                0 <= k < out.len() ==> !(#[trigger] out[k] is SendRequest)
        }),
{
}

/// A line typed by the user: a blank one sends nothing; otherwise, with no
/// peer connected the user is told so, and with peers connected each of them
/// gets exactly one message, carrying the line, in their order.
pub proof fn law_line_reaches_each_peer(text: Seq<char>, connected: Seq<Seq<u8>>, ids: Seq<u128>)
    requires
        ids.len() == connected.len(),
    ensures
        is_blank_text(text) ==> line_outcome(text, connected, ids).len() == 0,
        !is_blank_text(text) && connected.len() == 0 ==> line_outcome(text, connected, ids)
            == seq![ActionView::NoPeers],
        !is_blank_text(text) && connected.len() > 0 ==> {
            &&& line_outcome(text, connected, ids).len() == connected.len() + 1
            &&& forall|i: int|
                0 <= i < connected.len() ==> #[trigger] line_outcome(text, connected, ids)[i + 1]
                    == ActionView::SendRequest {
                    to: connected[i],
                    request: RequestView { id: ids[i], message: text },
                }
        },
{
}

/// Every address a node listens on through a relay is the relay's address
/// followed by `/p2p/<relay>` and `/p2p-circuit`.
pub proof fn law_relay_listen_addresses(peer: Seq<u8>, addresses: Seq<Seq<u8>>, relay: bool)
    ensures
        forall|k: int|
            0 <= k < identify_outcome(peer, addresses, relay).len() ==> (#[trigger] identify_outcome(
                peer,
                addresses,
                relay,
            )[k] matches ActionView::ListenOn { address } ==> exists|j: int|
                0 <= j < addresses.len() && relay_listen_address_of(addresses[j], peer) == Some(
                    address,
                )),
    decreases addresses.len(),
{
    if addresses.len() > 0 {
        let shorter = addresses.drop_last();
        law_relay_listen_addresses(peer, shorter, relay);
        let before = identify_outcome(peer, shorter, relay);
        let out = identify_outcome(peer, addresses, relay);
        assert forall|k: int| 0 <= k < out.len() implies (#[trigger] out[k] matches ActionView::ListenOn {
            address,
        } ==> exists|j: int|
            0 <= j < addresses.len() && relay_listen_address_of(addresses[j], peer) == Some(
                address,
            )) by {
            if k < before.len() {
                assert(out[k] == before[k]);
                if let ActionView::ListenOn { address } = out[k] {
                    let j = choose|j: int|
                        0 <= j < shorter.len() && relay_listen_address_of(shorter[j], peer) == Some(
                            address,
                        );
                    assert(addresses[j] == shorter[j]);
                }
            } else {
                let last = addresses.last();
                assert(addresses[addresses.len() - 1] == last);
            }
        }
    }
}

/// A peer counts as a relay exactly when the relay hop protocol
/// `/libp2p/circuit/relay/0.2.0/hop` stands at some position of its protocol
/// list, wherever that is.
pub proof fn law_relay_recognised(protocols: Seq<Seq<char>>)
    ensures
        forall|i: int|
            0 <= i < protocols.len() && #[trigger] protocols[i]
                == "/libp2p/circuit/relay/0.2.0/hop"@ ==> offers_relay(protocols),
        offers_relay(protocols) ==> exists|i: int|
            0 <= i < protocols.len() && #[trigger] protocols[i]
                == "/libp2p/circuit/relay/0.2.0/hop"@,
{
}

/// Local discovery handles every (peer, address) pair it found, in order, the
/// same peer at several addresses included: four actions per pair, the `i`-th
/// four being the notice, the routing entry, the explicit peer and the dial
/// for the `i`-th pair.
pub proof fn law_discovery_handles_every_pair(found: Seq<(Seq<u8>, Seq<u8>)>)
    ensures
        discovery_outcome(found).len() == 4 * found.len(),
        forall|i: int|
            #![trigger found[i]]
            0 <= i < found.len() ==> {
                &&& discovery_outcome(found)[4 * i] == ActionView::Discovered {
                    peer: found[i].0,
                    address: found[i].1,
                }
                &&& discovery_outcome(found)[4 * i + 1] == ActionView::AddAddress {
                    peer: found[i].0,
                    address: found[i].1,
                }
                &&& discovery_outcome(found)[4 * i + 2] == ActionView::AddExplicitPeer {
                    peer: found[i].0,
                }
                &&& discovery_outcome(found)[4 * i + 3] == ActionView::Dial {
                    peer: found[i].0,
                    address: found[i].1,
                }
            },
    decreases found.len(),
{
    if found.len() > 0 {
        let shorter = found.drop_last();
        law_discovery_handles_every_pair(shorter);
        let before = discovery_outcome(shorter);
        let out = discovery_outcome(found);
        let n = found.len() - 1;
        assert forall|i: int| #![trigger found[i]] 0 <= i < found.len() implies {
            &&& out[4 * i] == ActionView::Discovered { peer: found[i].0, address: found[i].1 }
            &&& out[4 * i + 1] == ActionView::AddAddress { peer: found[i].0, address: found[i].1 }
            &&& out[4 * i + 2] == ActionView::AddExplicitPeer { peer: found[i].0 }
            &&& out[4 * i + 3] == ActionView::Dial { peer: found[i].0, address: found[i].1 }
        } by {
            if i < n {
                assert(shorter[i] == found[i]);
                assert(out[4 * i] == before[4 * i]);
                assert(out[4 * i + 1] == before[4 * i + 1]);
                assert(out[4 * i + 2] == before[4 * i + 2]);
                assert(out[4 * i + 3] == before[4 * i + 3]);
            } else {
                assert(found[i] == found.last());
            }
        }
    }
}

/// A routing update about a known peer does nothing; one about a new peer
/// reports it and puts every one of its addresses, in order, in the routing
/// table.
pub proof fn law_route_adds_every_address(
    peer: Seq<u8>,
    is_new_peer: bool,
    addresses: Seq<Seq<u8>>,
)
    ensures
        !is_new_peer ==> route_outcome(peer, is_new_peer, addresses).len() == 0,
        is_new_peer ==> {
            &&& route_outcome(peer, is_new_peer, addresses).len() == addresses.len() + 1
            &&& route_outcome(peer, is_new_peer, addresses)[0] == ActionView::ReportNewRoute {
                peer,
            }
            &&& forall|k: int|
                0 <= k < addresses.len() ==> #[trigger] route_outcome(
                    peer,
                    is_new_peer,
                    addresses,
                )[k + 1] == ActionView::AddAddress { peer, address: addresses[k] }
        },
{
}

/// Whether the first `j` addresses of a relay can all be listened through.
pub open spec fn relayable_before(peer: Seq<u8>, addresses: Seq<Seq<u8>>, j: int) -> bool {
    forall|k: int| 0 <= k < j ==> (#[trigger] relay_listen_address_of(addresses[k], peer)) is Some
}

proof fn lemma_first_refused(peer: Seq<u8>, addresses: Seq<Seq<u8>>, n: int) -> (m: int)
    requires
        0 <= n <= addresses.len(),
        !relayable_before(peer, addresses, n),
    ensures
        0 <= m < n,
        relayable_before(peer, addresses, m),
        relay_listen_address_of(addresses[m], peer) is None,
    decreases n,
{
    if !relayable_before(peer, addresses, n - 1) {
        lemma_first_refused(peer, addresses, n - 1)
    } else {
        n - 1
    }
}

/// What a relay's address gives after it is recorded: the address to listen
/// on through the relay, or the report that there is none.
pub open spec fn relay_step(peer: Seq<u8>, address: Seq<u8>) -> ActionView {
    match relay_listen_address_of(address, peer) {
        Some(listen) => ActionView::ListenOn { address: listen },
        None => ActionView::RelayAddressRefused { address, peer },
    }
}

proof fn lemma_identify_plain(peer: Seq<u8>, addresses: Seq<Seq<u8>>)
    ensures
        identify_outcome(peer, addresses, false).len() == 2 * addresses.len(),
        forall|j: int|
            #![trigger addresses[j]]
            0 <= j < addresses.len() ==> {
                &&& identify_outcome(peer, addresses, false)[2 * j] == ActionView::AddAddress {
                    peer,
                    address: addresses[j],
                }
                &&& identify_outcome(peer, addresses, false)[2 * j + 1]
                    == ActionView::AddExplicitPeer { peer }
            },
    decreases addresses.len(),
{
    let n = addresses.len() as int;
    if n > 0 {
        let shorter = addresses.drop_last();
        lemma_identify_plain(peer, shorter);
        let before = identify_outcome(peer, shorter, false);
        let out = identify_outcome(peer, addresses, false);
        if n > 1 {
            assert(shorter[n - 2] == addresses[n - 2]);
            assert(before.last() == before[2 * (n - 2) + 1]);
        }
        assert(!halted(before));
        assert(out == before + listen_address_outcome(peer, addresses.last(), false));
        assert forall|j: int| #![trigger addresses[j]] 0 <= j < n implies {
            &&& out[2 * j] == ActionView::AddAddress { peer, address: addresses[j] }
            &&& out[2 * j + 1] == ActionView::AddExplicitPeer { peer }
        } by {
            if j < n - 1 {
                assert(shorter[j] == addresses[j]);
                assert(out[2 * j] == before[2 * j]);
                assert(out[2 * j + 1] == before[2 * j + 1]);
            }
        }
    }
}

/// The three actions for the `j`-th address of a relay stand at `3 * j`,
/// and the handling ends right after them when the address was refused.
pub open spec fn relay_block_at(out: Seq<ActionView>, peer: Seq<u8>, address: Seq<u8>, j: int) -> bool {
    &&& out.len() >= 3 * j + 3
    &&& out[3 * j] == ActionView::AddAddress { peer, address }
    &&& out[3 * j + 1] == ActionView::AddExplicitPeer { peer }
    &&& out[3 * j + 2] == relay_step(peer, address)
    &&& relay_listen_address_of(address, peer) is None ==> out.len() == 3 * j + 3
}

proof fn lemma_relayable_shorter(peer: Seq<u8>, addresses: Seq<Seq<u8>>, j: int)
    requires
        0 <= j < addresses.len(),
        relayable_before(peer, addresses, j),
    ensures
        relayable_before(peer, addresses.drop_last(), j),
{
    let shorter = addresses.drop_last();
    assert forall|k: int| 0 <= k < j implies (#[trigger] relay_listen_address_of(
        shorter[k],
        peer,
    )) is Some by {
        assert(shorter[k] == addresses[k]);
        assert(relay_listen_address_of(addresses[k], peer) is Some);
    }
}

proof fn lemma_block_kept(
    before: Seq<ActionView>,
    out: Seq<ActionView>,
    peer: Seq<u8>,
    address: Seq<u8>,
    j: int,
)
    requires
        0 <= j,
        relay_block_at(before, peer, address, j),
        relay_listen_address_of(address, peer) is Some,
        out.len() >= before.len(),
        forall|x: int| 0 <= x < before.len() ==> out[x] == before[x],
    ensures
        relay_block_at(out, peer, address, j),
{
    assert(out[3 * j] == before[3 * j]);
    assert(out[3 * j + 1] == before[3 * j + 1]);
    assert(out[3 * j + 2] == before[3 * j + 2]);
}

#[verifier::rlimit(30)]
proof fn lemma_identify_relay(peer: Seq<u8>, addresses: Seq<Seq<u8>>)
    ensures
        forall|j: int|
            #![trigger addresses[j]]
            0 <= j < addresses.len() && relayable_before(peer, addresses, j) ==> relay_block_at(
                identify_outcome(peer, addresses, true),
                peer,
                addresses[j],
                j,
            ),
        relayable_before(peer, addresses, addresses.len() as int) ==> identify_outcome(
            peer,
            addresses,
            true,
        ).len() == 3 * addresses.len(),
    decreases addresses.len(),
{
    let n = addresses.len() as int;
    if n > 0 {
        let shorter = addresses.drop_last();
        lemma_identify_relay(peer, shorter);
        let before = identify_outcome(peer, shorter, true);
        let out = identify_outcome(peer, addresses, true);
        let last = addresses.last();
        assert(addresses[n - 1] == last);
        if relayable_before(peer, shorter, n - 1) {
            if n > 1 {
                assert(shorter[n - 2] == addresses[n - 2]);
                assert(relay_listen_address_of(shorter[n - 2], peer) is Some);
                assert(relay_block_at(before, peer, shorter[n - 2], n - 2));
                assert(before.last() == before[3 * (n - 2) + 2]);
            }
            assert(!halted(before));
            assert(out == before + listen_address_outcome(peer, last, true));
            assert forall|j: int|
                #![trigger addresses[j]]
                0 <= j < n && relayable_before(peer, addresses, j) implies relay_block_at(
                out,
                peer,
                addresses[j],
                j,
            ) by {
                if j < n - 1 {
                    assert(shorter[j] == addresses[j]);
                    assert(relay_listen_address_of(shorter[j], peer) is Some);
                    lemma_relayable_shorter(peer, addresses, j);
                    lemma_block_kept(before, out, peer, addresses[j], j);
                }
            }
            if relayable_before(peer, addresses, n) {
                assert(relay_listen_address_of(addresses[n - 1], peer) is Some);
            }
        } else {
            let m = lemma_first_refused(peer, shorter, n - 1);
            assert(shorter[m] == addresses[m]);
            assert(relay_block_at(before, peer, shorter[m], m));
            assert(before.last() == before[3 * m + 2]);
            assert(halted(before));
            assert(out == before);
            assert forall|j: int|
                #![trigger addresses[j]]
                0 <= j < n && relayable_before(peer, addresses, j) implies relay_block_at(
                out,
                peer,
                addresses[j],
                j,
            ) by {
                if j > m {
                    assert(relay_listen_address_of(addresses[m], peer) is Some);
                }
                assert(shorter[j] == addresses[j]);
                lemma_relayable_shorter(peer, addresses, j);
                assert(relay_block_at(before, peer, shorter[j], j));
            }
            if relayable_before(peer, addresses, n) {
                assert(relay_listen_address_of(addresses[m], peer) is Some);
            }
        }
    }
}

/// Identifying a peer records each of its listen addresses, in order, with
/// the peer made explicit after each. For a relay, each address also gives
/// the address to listen on through the relay, as long as every earlier
/// address gave one; the first address that gives none is reported as refused
/// and ends the handling.
pub proof fn law_identify_handles_every_address(
    peer: Seq<u8>,
    addresses: Seq<Seq<u8>>,
    relay: bool,
)
    ensures
        !relay ==> {
            &&& identify_outcome(peer, addresses, relay).len() == 2 * addresses.len()
            &&& forall|j: int|
                #![trigger addresses[j]]
                0 <= j < addresses.len() ==> {
                    &&& identify_outcome(peer, addresses, relay)[2 * j] == ActionView::AddAddress {
                        peer,
                        address: addresses[j],
                    }
                    &&& identify_outcome(peer, addresses, relay)[2 * j + 1]
                        == ActionView::AddExplicitPeer { peer }
                }
        },
        relay ==> forall|j: int|
            #![trigger addresses[j]]
            0 <= j < addresses.len() && relayable_before(peer, addresses, j) ==> relay_block_at(
                identify_outcome(peer, addresses, relay),
                peer,
                addresses[j],
                j,
            ),
        relay && relayable_before(peer, addresses, addresses.len() as int) ==> identify_outcome(
            peer,
            addresses,
            relay,
        ).len() == 3 * addresses.len(),
{
    if relay {
        lemma_identify_relay(peer, addresses);
    } else {
        lemma_identify_plain(peer, addresses);
    }
}

/// What happens on the network or at the keyboard, as the node sees it.
#[derive(Clone, Debug, PartialEq, Eq)]
pub enum NodeEvent {
    /// A peer sent a chat message.
    Request { from: Vec<u8>, request: MessageRequest },
    /// The user typed a line.
    Line { text: String },
    /// Local discovery found peers at addresses.
    MdnsDiscovered { found: Vec<(Vec<u8>, Vec<u8>)> },
    /// A peer told which protocols it supports and where it listens.
    Identified { peer: Vec<u8>, protocols: Vec<String>, listen_addrs: Vec<Vec<u8>> },
    /// Routing learnt of a peer and its addresses.
    RoutingUpdated { peer: Vec<u8>, is_new_peer: bool, addresses: Vec<Vec<u8>> },
}

/// A chat node's memory: the ids of the chat messages it has seen.
pub struct ChatNode {
    seen: HashSet<u128>,
}

impl View for ChatNode {
    type V = Set<u128>;

    closed spec fn view(&self) -> Set<u128> {
        self.seen@
    }
}

impl ChatNode {
    /// A node that has seen no message yet.
    pub fn new() -> (node: ChatNode)
        ensures
            node@ == Set::<u128>::empty(),
    {
        ChatNode { seen: HashSet::new() }
    }

    /// Handles a chat message `request` from `from` while `connected` are
    /// connected: the node remembers its id; a message not seen before is
    /// shown and passed on to every connected peer but the sender; every
    /// message is acknowledged.
    pub fn on_request(
        &mut self,
        from: &Vec<u8>,
        request: MessageRequest,
        connected: &Vec<Vec<u8>>,
    ) -> (actions: Vec<Action>)
        ensures
            final(self)@ == old(self)@.insert(request.id),
            action_views(actions@) == request_outcome(
                old(self)@,
                from@,
                request@,
                keys_of(connected@),
            ),
    {
        let mut actions: Vec<Action> = Vec::new();
        let fresh = self.seen.insert(request.id);
        if fresh {
            actions.push(Action::Deliver { from: copy_bytes(from), text: request.message.clone() });
            let ghost keys = keys_of(connected@);
            let ghost head = seq![ActionView::Deliver { from: from@, text: request@.message }];
            assert(keys.take(0) =~= Seq::<Seq<u8>>::empty());
            assert(action_views(actions@) =~= head + forwards(
                others(keys.take(0), from@),
                request@,
            ));
            let mut i: usize = 0;
            while i < connected.len()
                invariant
                    keys == keys_of(connected@),
                    head == seq![ActionView::Deliver { from: from@, text: request@.message }],
                    i <= connected.len(),
                    action_views(actions@) == head + forwards(
                        others(keys.take(i as int), from@),
                        request@,
                    ),
                decreases connected.len() - i,
            {
                let ghost before = others(keys.take(i as int), from@);
                let ghost next = keys.take(i as int + 1);
                assert(next.drop_last() =~= keys.take(i as int));
                assert(next.last() == connected@[i as int]@);
                if !same_bytes(&connected[i], from) {
                    let ghost prior = actions@;
                    let sent = Action::SendRequest {
                        to: copy_bytes(&connected[i]),
                        request: request.duplicate(),
                    };
                    let ghost sent_view = sent@;
                    actions.push(sent);
                    assert(action_views(actions@) =~= action_views(prior).push(sent_view));
                    assert(forwards(before.push(connected@[i as int]@), request@) =~= forwards(
                        before,
                        request@,
                    ).push(ActionView::SendRequest { to: connected@[i as int]@, request: request@ }));
                    assert(action_views(actions@) =~= head + forwards(others(next, from@), request@));
                }
                i = i + 1;
            }
            assert(keys.take(connected.len() as int) =~= keys);
        }
        let ghost before_ack = actions@;
        actions.push(Action::Acknowledge { response: MessageResponse { ack: true } });
        assert(action_views(actions@) =~= action_views(before_ack).push(acknowledgement()));
        actions
    }

    /// Handles a line typed by the user while `connected` are connected: a
    /// blank line is ignored; otherwise, when a peer is connected, each one is
    /// sent the line under a new random id.
    pub fn on_line(&self, text: &String, connected: &Vec<Vec<u8>>) -> (actions: Vec<Action>)
        ensures
            exists|ids: Seq<u128>|
                {
                    &&& ids.len() == connected.len()
                    &&& forall|i: int| 0 <= i < ids.len() ==> is_random_uuid(#[trigger] ids[i])
                    &&& action_views(actions@) == line_outcome(text@, keys_of(connected@), ids)
                },
    {
        if is_blank(text.as_str()) {
            let actions: Vec<Action> = Vec::new();
            proof {
                let sample: u128 = 0x4000_8000_0000_0000_0000u128;
                assert(sample & 0xF000_C000_0000_0000_0000u128 == 0x4000_8000_0000_0000_0000u128)
                    by (bit_vector)
                    requires
                        sample == 0x4000_8000_0000_0000_0000u128,
                ;
                let ids = Seq::new(connected.len() as nat, |i: int| sample);
                assert(action_views(actions@) =~= line_outcome(text@, keys_of(connected@), ids));
                assert(forall|i: int| 0 <= i < ids.len() ==> is_random_uuid(#[trigger] ids[i]));
                assert(ids.len() == connected.len() && (forall|i: int|
                    0 <= i < ids.len() ==> is_random_uuid(#[trigger] ids[i])) && action_views(
                    actions@,
                ) == line_outcome(text@, keys_of(connected@), ids));
            }
            return actions;
        }
        let mut ids: Vec<u128> = Vec::new();
        let mut i: usize = 0;
        while i < connected.len()
            invariant
                i <= connected.len(),
                ids.len() == i,
                forall|k: int| 0 <= k < ids.len() ==> is_random_uuid(#[trigger] ids@[k]),
            decreases connected.len() - i,
        {
            ids.push(fresh_message_id());
            i = i + 1;
        }
        compose_line(text, connected, &ids)
    }

    /// Handles one event while `connected` are connected; only a chat message
    /// changes what the node remembers.
    pub fn handle(&mut self, event: NodeEvent, connected: &Vec<Vec<u8>>) -> (actions: Vec<Action>)
        ensures
            match event {
                NodeEvent::Request { from, request } => {
                    &&& final(self)@ == old(self)@.insert(request.id)
                    &&& action_views(actions@) == request_outcome(
                        old(self)@,
                        from@,
                        request@,
                        keys_of(connected@),
                    )
                },
                NodeEvent::Line { text } => {
                    &&& final(self)@ == old(self)@
                    &&& exists|ids: Seq<u128>|
                        {
                            &&& ids.len() == connected.len()
                            &&& forall|i: int|
                                0 <= i < ids.len() ==> is_random_uuid(#[trigger] ids[i])
                            &&& action_views(actions@) == line_outcome(
                                text@,
                                keys_of(connected@),
                                ids,
                            )
                        }
                },
                NodeEvent::MdnsDiscovered { found } => {
                    &&& final(self)@ == old(self)@
                    &&& action_views(actions@) == discovery_outcome(pairs_of(found@))
                },
                NodeEvent::Identified { peer, protocols, listen_addrs } => {
                    &&& final(self)@ == old(self)@
                    &&& action_views(actions@) == identify_outcome(
                        peer@,
                        keys_of(listen_addrs@),
                        offers_relay(texts_of(protocols@)),
                    )
                },
                NodeEvent::RoutingUpdated { peer, is_new_peer, addresses } => {
                    &&& final(self)@ == old(self)@
                    &&& action_views(actions@) == route_outcome(
                        peer@,
                        is_new_peer,
                        keys_of(addresses@),
                    )
                },
            },
    {
        match event {
            NodeEvent::Request { from, request } => self.on_request(&from, request, connected),
            NodeEvent::Line { text } => self.on_line(&text, connected),
            NodeEvent::MdnsDiscovered { found } => discovery_actions(&found),
            NodeEvent::Identified { peer, protocols, listen_addrs } => {
                let relay = is_relay(&protocols);
                identify_actions(&peer, &listen_addrs, relay)
            },
            NodeEvent::RoutingUpdated { peer, is_new_peer, addresses } => route_actions(
                &peer,
                is_new_peer,
                &addresses,
            ),
        }
    }
}

} // verus!
