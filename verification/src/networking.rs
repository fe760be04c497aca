//! The messages that nodes exchange and the decisions a node takes on them:
//! accept or reject a new block, answer a chain request, and adopt a received
//! chain by the longest-valid-chain rule.

use vstd::prelude::*;

use crate::block::{Block, BlockView};
use crate::blockchain::{
    blocks_view, chain_valid, extends, Blockchain,
};
use crate::proof_of_work::mined_hash;
use crate::util::current_timestamp;

verus! {

/// The kinds of message that nodes exchange.
#[derive(Debug)]
pub enum NetworkMessageData {
    /// A newly mined block, serialised.
    NewBlock(String),
    /// A request for the full chain of the peers.
    ChainRequest,
    /// The full chain of a peer, one serialised block per entry.
    ChainResponse(Vec<String>),
}

/// A message stamped with the time it was created.
#[derive(Debug)]
pub struct NetworkMessage {
    /// Creation time, in seconds since the UNIX epoch.
    pub timestamp: i64,
    /// What the message carries.
    pub message_type: NetworkMessageData,
}

impl NetworkMessage {
    /// A message carrying `message_type`, stamped with the current time.
    pub fn new(message_type: NetworkMessageData) -> (res: Self)
        ensures
            res.message_type == message_type,
            res.timestamp >= 0,
    {
        NetworkMessage { timestamp: current_timestamp(), message_type }
    }
}

/// A message received from a peer, with the blocks it carries decoded.
/// Blocks that could not be decoded are not part of it.
#[derive(Debug)]
pub enum PeerMessage {
    NewBlock(Block),
    ChainRequest,
    ChainResponse(Vec<Block>),
}

/// What the node sends to its peers in answer to a message.
#[derive(Debug, PartialEq, Eq, Structural)]
pub enum Reply {
    /// Nothing is sent.
    Nothing,
    /// A request for the peers' chains.
    RequestChain,
    /// The node's own chain.
    SendChain,
}

/// A one-block chain received while holding a one-block chain.
pub open spec fn single_block_sync(local: Seq<BlockView>, received: Seq<BlockView>) -> bool {
    received.len() == local.len() && received.len() == 1
}

/// Whether a node holding `local` adopts the chain `received` from a peer:
/// only a valid chain is adopted, when it is longer than the local one, or
/// when both have one block (synchronising on join).
pub open spec fn adopts_chain(local: Seq<BlockView>, received: Seq<BlockView>) -> bool {
    &&& chain_valid(received)
    &&& received.len() > local.len() || single_block_sync(local, received)
}

/// The chain a node holds after receiving `received` while holding `local`.
pub open spec fn chain_after_response(local: Seq<BlockView>, received: Seq<BlockView>) -> Seq<
    BlockView,
> {
    if adopts_chain(local, received) {
        received
    } else {
        local
    }
}

/// The longest-valid-chain rule never shortens the chain.
pub proof fn lemma_chain_response_keeps_length(local: Seq<BlockView>, received: Seq<BlockView>)
    ensures
        chain_after_response(local, received).len() >= local.len(),
{
}

/// The longest-valid-chain rule keeps a valid chain valid: the node only
/// ever holds a chain that passes validation.
pub proof fn lemma_chain_response_keeps_validity(local: Seq<BlockView>, received: Seq<BlockView>)
    requires
        chain_valid(local),
    ensures
        chain_valid(chain_after_response(local, received)),
{
}

/// A node adopts a received chain exactly when it is valid and either
/// strictly longer than the local chain or, with the local chain, made of a
/// single block.
pub proof fn lemma_adopts_chain_iff(local: Seq<BlockView>, received: Seq<BlockView>)
    ensures
        adopts_chain(local, received) <==> (chain_valid(received) && (received.len() > local.len()
            || (received.len() == 1 && local.len() == 1))),
{
}

/// A chain no longer than the local one is ignored unless both hold a
/// single block; in particular an equally long chain of two blocks or more
/// never replaces the local chain.
pub proof fn lemma_not_longer_chain_ignored(local: Seq<BlockView>, received: Seq<BlockView>)
    requires
        received.len() <= local.len(),
        !(received.len() == 1 && local.len() == 1),
    ensures
        !adopts_chain(local, received),
        chain_after_response(local, received) == local,
{
}

/// Applies the longest-valid-chain rule to a chain received from a peer.
/// Returns whether the local chain was replaced.
pub fn handle_chain_response(local: &mut Blockchain, received: Vec<Block>) -> (replaced: bool)
    ensures
        final(local)@ == chain_after_response(old(local)@, blocks_view(received@)),
        replaced == adopts_chain(old(local)@, blocks_view(received@)),
        replaced == (chain_valid(blocks_view(received@)) && (received@.len() > old(local)@.len()
            || (received@.len() == 1 && old(local)@.len() == 1))),
        replaced ==> final(local)@ == blocks_view(received@),
        !replaced ==> final(local)@ == old(local)@,
        final(local)@.len() >= old(local)@.len(),
        chain_valid(old(local)@) ==> chain_valid(final(local)@),
{
    proof {
        lemma_chain_response_keeps_length(old(local)@, blocks_view(received@));
        if chain_valid(old(local)@) {
            lemma_chain_response_keeps_validity(old(local)@, blocks_view(received@));
        }
    }
    let received_len = received.len();
    let local_len = local.get_blocks().len();
    if received_len > local_len || (received_len == local_len && received_len == 1) {
        let candidate = Blockchain::from_blocks(received);
        if candidate.is_valid() {
            *local = candidate;
            true
        } else {
            false
        }
    } else {
        false
    }
}

/// Decides what a node does with a message from a peer: a new block is
/// appended when it extends the last block, and otherwise the node asks for
/// the peers' chains; a chain request is answered with the local chain; a
/// chain response goes through the longest-valid-chain rule.
pub fn handle_message(local: &mut Blockchain, msg: PeerMessage) -> (reply: Reply)
    ensures
        match msg {
            PeerMessage::NewBlock(block) => {
                if old(local)@.len() > 0 && extends(old(local)@.last(), block@) {
                    &&& final(local)@ == old(local)@.push(block@)
                    &&& reply == Reply::Nothing
                } else {
                    &&& final(local)@ == old(local)@
                    &&& reply == Reply::RequestChain
                }
            },
            PeerMessage::ChainRequest => {
                &&& final(local)@ == old(local)@
                &&& reply == Reply::SendChain
            },
            PeerMessage::ChainResponse(blocks) => {
                &&& final(local)@ == chain_after_response(old(local)@, blocks_view(blocks@))
                &&& reply == Reply::Nothing
            },
        },
        match msg {
            PeerMessage::NewBlock(block) => {
                let accepted = old(local)@.len() > 0 && block@.pre_block_hash == old(local)@.last().hash
                    && block@.hash == mined_hash(block@);
                &&& accepted ==> final(local)@ == old(local)@.push(block@)
                &&& !accepted ==> final(local)@ == old(local)@ && reply == Reply::RequestChain
            },
            PeerMessage::ChainRequest => final(local)@ == old(local)@,
            PeerMessage::ChainResponse(blocks) => {
                let adopted = chain_valid(blocks_view(blocks@)) && (blocks@.len() > old(local)@.len()
                    || (blocks@.len() == 1 && old(local)@.len() == 1));
                &&& adopted ==> final(local)@ == blocks_view(blocks@)
                &&& !adopted ==> final(local)@ == old(local)@
            },
        },
        chain_valid(old(local)@) ==> chain_valid(final(local)@),
{
    match msg {
        PeerMessage::NewBlock(block) => {
            if local.add_block(block) {
                Reply::Nothing
            } else {
                Reply::RequestChain
            }
        },
        PeerMessage::ChainRequest => Reply::SendChain,
        PeerMessage::ChainResponse(blocks) => {
            handle_chain_response(local, blocks);
            Reply::Nothing
        },
    }
}

} // verus!
