//! The typed peer-to-peer protocol: handshake and message envelopes.

use vstd::prelude::*;
use crate::block::Block;
use crate::block::BlockModel;

verus! {

/// A peer as advertised in gossip: its identifier and address.
#[derive(Debug)]
pub struct PeerInfo {
    pub name: String,
    pub addr: String,
}

pub ghost struct PeerInfoModel {
    pub name: Seq<char>,
    pub addr: Seq<char>,
}

impl View for PeerInfo {
    type V = PeerInfoModel;

    open spec fn view(&self) -> PeerInfoModel {
        PeerInfoModel { name: self.name@, addr: self.addr@ }
    }
}

impl Clone for PeerInfo {
    fn clone(&self) -> (r: Self)
        ensures
            r@ == self@,
    {
        PeerInfo { name: self.name.clone(), addr: self.addr.clone() }
    }
}

/// The view of a vector of peers.
pub open spec fn peers_model(v: Seq<PeerInfo>) -> Seq<PeerInfoModel> {
    v.map_values(|p: PeerInfo| p@)
}

/// The first record on any new connection.
#[derive(Debug)]
pub struct Handshake {
    pub version: String,
    pub peer_id: String,
    pub addr: String,
}

pub ghost struct HandshakeModel {
    pub version: Seq<char>,
    pub peer_id: Seq<char>,
    pub addr: Seq<char>,
}

impl View for Handshake {
    type V = HandshakeModel;

    open spec fn view(&self) -> HandshakeModel {
        HandshakeModel { version: self.version@, peer_id: self.peer_id@, addr: self.addr@ }
    }
}

/// A message payload.
#[derive(Debug)]
pub enum MessageData {
    Chat { message: String },
    PeerDiscovery,
    PeerGossip { peers: Vec<PeerInfo> },
    BlockchainTx { block: Block },
    BlockRequest { index: usize },
    BlockResponse { block: Block },
}

pub ghost enum MessageDataModel {
    Chat { message: Seq<char> },
    PeerDiscovery,
    PeerGossip { peers: Seq<PeerInfoModel> },
    BlockchainTx { block: BlockModel },
    BlockRequest { index: usize },
    BlockResponse { block: BlockModel },
}

impl View for MessageData {
    type V = MessageDataModel;

    open spec fn view(&self) -> MessageDataModel {
        match self {
            MessageData::Chat { message } => MessageDataModel::Chat { message: message@ },
            MessageData::PeerDiscovery => MessageDataModel::PeerDiscovery,
            MessageData::PeerGossip { peers } => MessageDataModel::PeerGossip {
                peers: peers_model(peers@),
            },
            MessageData::BlockchainTx { block } => MessageDataModel::BlockchainTx {
                block: block@,
            },
            MessageData::BlockRequest { index } => MessageDataModel::BlockRequest {
                index: *index,
            },
            MessageData::BlockResponse { block } => MessageDataModel::BlockResponse {
                block: block@,
            },
        }
    }
}

/// A message envelope: payload with optional sender and receiver.
#[derive(Debug)]
pub struct Message {
    pub payload: MessageData,
    pub receiver: Option<String>,
    pub sender: Option<String>,
}

pub ghost struct MessageModel {
    pub payload: MessageDataModel,
    pub receiver: Option<Seq<char>>,
    pub sender: Option<Seq<char>>,
}

impl View for Message {
    type V = MessageModel;

    open spec fn view(&self) -> MessageModel {
        MessageModel {
            payload: self.payload@,
            receiver: match &self.receiver {
                Some(r) => Some(r@),
                None => None,
            },
            sender: match &self.sender {
                Some(s) => Some(s@),
                None => None,
            },
        }
    }
}

} // verus!
