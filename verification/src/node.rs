//! The node's protocol decisions: handshake validation, the peer
//! table, message handling and the pull-based chain synchronization.
//! The surrounding tasks perform the socket work and feed events in;
//! every decision about the chain and the protocol is made here.

use vstd::prelude::*;
use crate::chain::admissible;
use crate::chain::chain_inv;
use crate::chain::Blockchain;
use crate::message::peers_model;
use crate::message::Handshake;
use crate::message::Message;
use crate::message::MessageData;
use crate::message::MessageDataModel;
use crate::message::PeerInfo;
use crate::message::PeerInfoModel;
use crate::block::BlockModel;
use crate::text::str_eq;

verus! {

/// The first peer with the given name.
pub open spec fn find_peer(peers: Seq<PeerInfoModel>, name: Seq<char>) -> Option<PeerInfoModel>
    decreases peers.len(),
{
    if peers.len() == 0 {
        None
    } else if peers[0].name == name {
        Some(peers[0])
    } else {
        find_peer(peers.skip(1), name)
    }
}

/// The protocol version this node speaks.
pub open spec fn protocol_version() -> Seq<char> {
    "1"@
}

/// Validate a received handshake: the version must match and the peer
/// must not be this node itself.
pub fn validate_handshake(hs: &Handshake, self_id: &str) -> (r: Result<(), String>)
    ensures
        r is Ok <==> hs@.version == protocol_version() && hs@.peer_id != self_id@,
        r matches Err(m) ==> m@ == (if hs@.version != protocol_version() {
            "Invalid handshake version"@
        } else {
            "Cannot connect to self"@
        }),
{
    if !str_eq(hs.version.as_str(), "1") {
        return Err("Invalid handshake version".to_owned());
    }
    if str_eq(hs.peer_id.as_str(), self_id) {
        return Err("Cannot connect to self".to_owned());
    }
    Ok(())
}

/// The table of connected peers, keyed by peer name.
#[derive(Debug)]
pub struct PeerTable {
    peers: Vec<PeerInfo>,
}

impl View for PeerTable {
    type V = Seq<PeerInfoModel>;

    closed spec fn view(&self) -> Seq<PeerInfoModel> {
        peers_model(self.peers@)
    }
}

impl PeerTable {
    /// An empty table.
    pub fn new() -> (r: PeerTable)
        ensures
            r@ =~= Seq::<PeerInfoModel>::empty(),
    {
        PeerTable { peers: Vec::new() }
    }

    /// How many peers are connected.
    pub fn peer_count(&self) -> (r: usize)
        ensures
            r == self@.len(),
    {
        self.peers.len()
    }

    /// Whether a peer with this name is in the table.
    pub fn has_peer(&self, name: &str) -> (r: bool)
        ensures
            r == (find_peer(self@, name@) is Some),
    {
        let ghost peers = self@;
        proof {
            assert(peers.skip(0) =~= peers);
        }
        let mut i: usize = 0;
        while i < self.peers.len()
            invariant
                peers == self@,
                i <= peers.len(),
                peers.len() == self.peers@.len(),
                find_peer(peers, name@) == find_peer(peers.skip(i as int), name@),
            decreases self.peers@.len() - i,
        {
            if str_eq(self.peers[i].name.as_str(), name) {
                proof {
                    assert(peers.skip(i as int)[0] == peers[i as int]);
                }
                return true;
            }
            proof {
                assert(peers.skip(i as int)[0] == peers[i as int]);
                assert(peers.skip(i as int).skip(1) =~= peers.skip(i as int + 1));
            }
            i = i + 1;
        }
        proof {
            assert(peers.skip(peers.len() as int) =~= Seq::<PeerInfoModel>::empty());
        }
        false
    }

    /// Insert a peer; a name already present is left as it is.
    pub fn add_peer(&mut self, peer: PeerInfo)
        ensures
            find_peer(old(self)@, peer@.name) is Some ==> final(self)@ == old(self)@,
            find_peer(old(self)@, peer@.name) is None ==> final(self)@ =~= old(self)@.push(peer@),
    {
        if !self.has_peer(peer.name.as_str()) {
            let ghost pre = peers_model(self.peers@);
            let ghost pv = peer@;
            self.peers.push(peer);
            proof {
                assert(peers_model(self.peers@) =~= pre.push(pv));
            }
        }
    }

    /// Remove every peer with this name.
    pub fn rem_peer(&mut self, name: &str)
        ensures
            final(self)@ =~= old(self)@.filter(|p: PeerInfoModel| p.name != name@),
    {
        let ghost pre = self@;
        let mut kept: Vec<PeerInfo> = Vec::new();
        let mut i: usize = 0;
        while i < self.peers.len()
            invariant
                pre == peers_model(self.peers@),
                i <= self.peers@.len(),
                peers_model(kept@) =~= pre.take(i as int).filter(
                    |p: PeerInfoModel| p.name != name@,
                ),
            decreases self.peers@.len() - i,
        {
            proof {
                assert(pre.take(i as int + 1).drop_last() =~= pre.take(i as int));
                assert(pre.take(i as int + 1).last() == pre[i as int]);
            }
            if !str_eq(self.peers[i].name.as_str(), name) {
                kept.push(self.peers[i].clone());
            }
            proof {
                reveal_with_fuel(Seq::filter, 2);
                assert(pre.take(i as int + 1).filter(|p: PeerInfoModel| p.name != name@)
                    =~= peers_model(kept@));
            }
            i = i + 1;
        }
        proof {
            assert(pre.take(pre.len() as int) =~= pre);
        }
        self.peers = kept;
    }

    /// Every connected peer.
    pub fn get_peers(&self) -> (r: Vec<PeerInfo>)
        ensures
            peers_model(r@) =~= self@,
    {
        let mut out: Vec<PeerInfo> = Vec::new();
        let mut i: usize = 0;
        while i < self.peers.len()
            invariant
                i <= self.peers@.len(),
                peers_model(out@) =~= self@.take(i as int),
            decreases self.peers@.len() - i,
        {
            let ghost prevm = peers_model(out@);
            out.push(self.peers[i].clone());
            proof {
                assert(peers_model(out@) =~= prevm.push(self@[i as int]));
                assert(self@.take(i as int + 1) =~= self@.take(i as int).push(self@[i as int]));
            }
            i = i + 1;
        }
        proof {
            assert(self@.take(self@.len() as int) =~= self@);
        }
        out
    }

    /// A peer chosen by the caller's randomness: `None` only when the
    /// table is empty, otherwise the peer at `k` modulo the count.
    pub fn choose_peer(&self, k: usize) -> (r: Option<PeerInfo>)
        ensures
            r is Some <==> self@.len() > 0,
            r matches Some(p) ==> p@ == self@[k as int % self@.len() as int],
    {
        if self.peers.len() == 0 {
            None
        } else {
            Some(self.peers[k % self.peers.len()].clone())
        }
    }

    /// Up to three gossip targets, chosen by the caller's three random
    /// words: the first position uniformly, the second uniformly among
    /// the rest, the third uniformly among what remains, so the chosen
    /// set is a uniformly random subset when the words are uniform.
    pub fn gossip_targets(&self, r0: usize, r1: usize, r2: usize) -> (r: Vec<PeerInfo>)
        ensures
            r@.len() == (if self@.len() < 3 {
                self@.len()
            } else {
                3nat
            }),
            self@.len() >= 1 ==> (#[trigger] r@[0])@ == self@[gossip_first(
                self@.len() as int,
                r0 as int,
            )],
            self@.len() >= 2 ==> (#[trigger] r@[1])@ == self@[gossip_second(
                self@.len() as int,
                gossip_first(self@.len() as int, r0 as int),
                r1 as int,
            )],
            self@.len() >= 3 ==> (#[trigger] r@[2])@ == self@[gossip_third(
                self@.len() as int,
                gossip_first(self@.len() as int, r0 as int),
                gossip_second(
                    self@.len() as int,
                    gossip_first(self@.len() as int, r0 as int),
                    r1 as int,
                ),
                r2 as int,
            )],
    {
        let n = self.peers.len();
        let mut out: Vec<PeerInfo> = Vec::new();
        if n == 0 {
            return out;
        }
        let first = r0 % n;
        out.push(self.peers[first].clone());
        if n == 1 {
            return out;
        }
        let c1 = r1 % (n - 1);
        let second = if c1 < first {
            c1
        } else {
            c1 + 1
        };
        out.push(self.peers[second].clone());
        if n == 2 {
            return out;
        }
        let lo = if first < second {
            first
        } else {
            second
        };
        let hi = if first < second {
            second
        } else {
            first
        };
        let c2 = r2 % (n - 2);
        let c2a = if c2 >= lo {
            c2 + 1
        } else {
            c2
        };
        let third = if c2a >= hi {
            c2a + 1
        } else {
            c2a
        };
        out.push(self.peers[third].clone());
        out
    }
}

/// The first gossip position: the random word modulo the table length.
pub open spec fn gossip_first(n: int, r0: int) -> int
    recommends
        n > 0,
{
    r0 % n
}

/// The second gossip position: a uniform choice among the positions
/// other than the first, by skipping it.
pub open spec fn gossip_second(n: int, first: int, r1: int) -> int
    recommends
        n >= 2,
        0 <= first < n,
{
    let c = r1 % (n - 1);
    if c < first {
        c
    } else {
        c + 1
    }
}

/// The third gossip position: a uniform choice among the positions
/// other than the first two, by skipping both in order.
pub open spec fn gossip_third(n: int, first: int, second: int, r2: int) -> int
    recommends
        n >= 3,
        0 <= first < n,
        0 <= second < n,
        first != second,
{
    let lo = if first < second {
        first
    } else {
        second
    };
    let hi = if first < second {
        second
    } else {
        first
    };
    let c = r2 % (n - 2);
    let c1 = if c >= lo {
        c + 1
    } else {
        c
    };
    if c1 >= hi {
        c1 + 1
    } else {
        c1
    }
}

/// What the node does in reaction to one message.
#[derive(Debug)]
pub enum NodeAction {
    /// Nothing to send.
    Nothing,
    /// Send a payload to a named peer.
    Send { to: String, message: MessageData },
    /// Ask any peer for the block at `index`.
    RequestNext { index: usize },
    /// Connect to gossiped peers that are not yet in the table.
    Dial { peers: Vec<PeerInfo> },
}

/// The gossiped peers that are not yet in the table, in gossip order.
pub open spec fn unknown_peers(
    table: Seq<PeerInfoModel>,
    peers: Seq<PeerInfoModel>,
) -> Seq<PeerInfoModel> {
    peers.filter(|p: PeerInfoModel| find_peer(table, p.name) is None)
}

/// The action dials exactly the gossiped peers unknown to the table.
pub open spec fn dials_unknown(
    r: NodeAction,
    table: Seq<PeerInfoModel>,
    gossiped: Seq<PeerInfoModel>,
) -> bool {
    match r {
        NodeAction::Dial { peers } => peers_model(peers@) == unknown_peers(table, gossiped),
        _ => false,
    }
}

/// The action sends a `BlockResponse` carrying `b` to `sender`.
pub open spec fn sends_block(r: NodeAction, sender: Option<Seq<char>>, b: BlockModel) -> bool {
    match r {
        NodeAction::Send { to, message } => Some(to@) == sender && (match message@ {
            MessageDataModel::BlockResponse { block } => block == b,
            _ => false,
        }),
        _ => false,
    }
}

/// The action answers `sender` with the peer table.
pub open spec fn sends_gossip(
    r: NodeAction,
    sender: Option<Seq<char>>,
    table: Seq<PeerInfoModel>,
) -> bool {
    match r {
        NodeAction::Send { to, message } => Some(to@) == sender && (match message@ {
            MessageDataModel::PeerGossip { peers } => peers == table,
            _ => false,
        }),
        _ => false,
    }
}

/// The action asks for the block at index `i`.
pub open spec fn requests_index(r: NodeAction, i: int) -> bool {
    match r {
        NodeAction::RequestNext { index } => index as int == i,
        _ => false,
    }
}

/// React to one protocol message.
///
/// A `BlockchainTx` is admitted to the chain; a `BlockRequest` is
/// answered with the block at that index when the chain holds one; a
/// `BlockResponse` is admitted and, on success, the pull walk
/// continues with a request for the next index; `PeerDiscovery` is
/// answered with the peer table; a `PeerGossip` hands back the
/// gossiped peers not yet in the table, for the caller to dial;
/// everything else changes nothing.
pub fn handle_message(chain: &mut Blockchain, table: &PeerTable, msg: Message) -> (r: NodeAction)
    requires
        chain_inv(old(chain)),
        (msg@.payload is BlockRequest || msg@.payload is PeerDiscovery) ==> msg@.sender is Some,
    ensures
        chain_inv(final(chain)),
        final(chain).mpool@ == old(chain).mpool@,
        match msg@.payload {
            MessageDataModel::BlockchainTx { block } => {
                &&& r is Nothing
                &&& admissible(old(chain).store@, block) ==> final(chain).store@ =~= old(
                    chain,
                ).store@.push(block)
                &&& !admissible(old(chain).store@, block) ==> final(chain).store@ == old(
                    chain,
                ).store@
            },
            MessageDataModel::BlockRequest { index } => {
                &&& final(chain).store@ == old(chain).store@
                &&& index < old(chain).store@.len() ==> sends_block(
                    r,
                    msg@.sender,
                    old(chain).store@[index as int],
                )
                &&& index >= old(chain).store@.len() ==> r is Nothing
            },
            MessageDataModel::BlockResponse { block } => {
                &&& admissible(old(chain).store@, block) ==> final(chain).store@ =~= old(
                    chain,
                ).store@.push(block) && requests_index(r, block.index + 1)
                &&& !admissible(old(chain).store@, block) ==> final(chain).store@ == old(
                    chain,
                ).store@ && r is Nothing
            },
            MessageDataModel::PeerDiscovery => {
                &&& final(chain).store@ == old(chain).store@
                &&& sends_gossip(r, msg@.sender, table@)
            },
            MessageDataModel::PeerGossip { peers } => {
                &&& final(chain).store@ == old(chain).store@
                &&& dials_unknown(r, table@, peers)
            },
            _ => final(chain).store@ == old(chain).store@ && r is Nothing,
        },
{
    match msg.payload {
        MessageData::Chat { message } => NodeAction::Nothing,
        MessageData::PeerDiscovery => {
            let to = match msg.sender {
                Some(s) => s,
                None => {
                    proof {
                        assert(false);
                    }
                    String::new()
                },
            };
            NodeAction::Send { to, message: MessageData::PeerGossip { peers: table.get_peers() } }
        },
        MessageData::PeerGossip { peers } => {
            let ghost gossiped = peers_model(peers@);
            let mut fresh: Vec<PeerInfo> = Vec::new();
            let mut i: usize = 0;
            while i < peers.len()
                invariant
                    gossiped == peers_model(peers@),
                    i <= peers@.len(),
                    peers_model(fresh@) =~= unknown_peers(table@, gossiped.take(i as int)),
                decreases peers@.len() - i,
            {
                proof {
                    assert(gossiped.take(i as int + 1).drop_last() =~= gossiped.take(i as int));
                    assert(gossiped.take(i as int + 1).last() == gossiped[i as int]);
                }
                if !table.has_peer(peers[i].name.as_str()) {
                    fresh.push(peers[i].clone());
                }
                proof {
                    reveal_with_fuel(Seq::filter, 2);
                    assert(unknown_peers(table@, gossiped.take(i as int + 1)) =~= peers_model(
                        fresh@,
                    ));
                }
                i = i + 1;
            }
            proof {
                assert(gossiped.take(gossiped.len() as int) =~= gossiped);
            }
            NodeAction::Dial { peers: fresh }
        },
        MessageData::BlockchainTx { block } => {
            let _ = chain.add_block(block);
            NodeAction::Nothing
        },
        MessageData::BlockRequest { index } => {
            let to = match msg.sender {
                Some(s) => s,
                None => {
                    proof {
                        assert(false);
                    }
                    String::new()
                },
            };
            match chain.at(index) {
                Some(block) => NodeAction::Send {
                    to,
                    message: MessageData::BlockResponse { block },
                },
                None => NodeAction::Nothing,
            }
        },
        MessageData::BlockResponse { block } => {
            let next = block.index;
            match chain.add_block(block) {
                Ok(()) => {
                    // the stored block count is a machine word, which bounds the next index
                    let block_count = chain.store.block_count();
                    proof {
                        assert(next as int == block_count - 1);
                    }
                    NodeAction::RequestNext { index: (block_count - 1) + 1 }
                },
                Err(_) => NodeAction::Nothing,
            }
        },
    }
}

/// The next pull request of a sync walk: the block one past the
/// current height.
pub fn sync_request(chain: &Blockchain) -> (r: MessageData)
    requires
        chain_inv(chain),
    ensures
        r@ matches MessageDataModel::BlockRequest { index } && index as int == chain.store@.len(),
{
    // the stored block count is a machine word, which bounds the next index
    let block_count = chain.store.block_count();
    let len = chain.len();
    MessageData::BlockRequest { index: len + 1 }
}

} // verus!
