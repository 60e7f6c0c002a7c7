# p2p_chat

The decision logic of a peer-to-peer chat node built on libp2p, verified with Verus.

- `src/text.rs`: configuration switches, splitting the comma-separated bootstrap
  peer list, and recognising blank input lines.
- `src/address.rs`: reading bootstrap peer entries (multiaddrs ending in
  `/p2p/<peer id>`) and composing the address to listen on through a relay.
- `src/message.rs`: the chat message and its acknowledgement.
- `src/node.rs`: the node's memory of seen message ids and, for each network or
  user event, the ordered list of actions to perform (deliver, gossip to the
  other connected peers, acknowledge, record addresses, dial, listen).
- `src/behaviour.rs`: the event type of the node's protocols and the
  conversions that put each protocol's event in its own variant.
- `src/gossip.rs`: the id of a gossip message, hashed from its data, topic,
  source and the time.
- `app/`: the program itself: builds the libp2p swarm, turns swarm and stdin
  events into node events, and carries out the actions.
