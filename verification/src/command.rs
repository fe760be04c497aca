//! The commands a node takes on its standard input, and mining a block on
//! the user's request.

use vstd::prelude::*;

use crate::block::{transactions_view, Block};
use crate::blockchain::{lemma_mined_block_extends, mined_on, Blockchain};
use crate::transaction::{spec_new_transaction, Transaction};
use crate::util::{has_prefix, str_starts_with, str_strip_prefix, str_trim, trim_chars};

verus! {

/// A command typed by the user.
#[derive(Debug)]
pub enum Command {
    /// `ls p`: list the connected peers.
    ListPeers,
    /// `add block <data>`: mine a block holding `<data>`, trimmed.
    AddBlock(String),
    /// `ls chain`: print the local chain.
    ListChain,
    /// Anything else.
    Unknown,
}

/// Reads a command line. The first matching prefix decides: `ls p`, then
/// `add block` (whose data is the rest of the line, trimmed), then `ls chain`.
pub fn parse_command(line: &str) -> (res: Command)
    ensures
        match res {
            Command::ListPeers => has_prefix(line@, "ls p"@),
            Command::AddBlock(data) => {
                &&& !has_prefix(line@, "ls p"@)
                &&& has_prefix(line@, "add block"@)
                &&& data@ == trim_chars(line@.skip("add block"@.len() as int))
            },
            Command::ListChain => {
                &&& !has_prefix(line@, "ls p"@)
                &&& !has_prefix(line@, "add block"@)
                &&& has_prefix(line@, "ls chain"@)
            },
            Command::Unknown => {
                &&& !has_prefix(line@, "ls p"@)
                &&& !has_prefix(line@, "add block"@)
                &&& !has_prefix(line@, "ls chain"@)
            },
        },
{
    if str_starts_with(line, "ls p") {
        Command::ListPeers
    } else if str_starts_with(line, "add block") {
        let rest = match str_strip_prefix(line, "add block") {
            Some(rest) => rest,
            None => "",
        };
        let data = str_trim(rest);
        Command::AddBlock(data.to_owned())
    } else if str_starts_with(line, "ls chain") {
        Command::ListChain
    } else {
        Command::Unknown
    }
}

/// Mines a block holding one transaction with `data` on top of the last
/// block and appends it to the chain. Returns the block, for broadcasting;
/// `None`, with the chain unchanged, when `data` is empty or the chain has
/// no block.
pub fn mine_block(chain: &mut Blockchain, data: String) -> (res: Option<Block>)
    requires
        old(chain)@.len() > 0 ==> old(chain)@.last().height < usize::MAX,
    ensures
        data@.len() == 0 || old(chain)@.len() == 0 ==> res is None && final(chain)@ == old(
            chain,
        )@,
        data@.len() > 0 && old(chain)@.len() > 0 ==> res is Some && mined_on(
            old(chain)@.last(),
            res->0@,
            seq![spec_new_transaction(data@)],
        ) && final(chain)@ == old(chain)@.push(res->0@),
{
    if data.as_str().is_empty() {
        return None;
    }
    let ghost txs_view = seq![spec_new_transaction(data@)];
    let txs = vec![Transaction::new(data)];
    assert(transactions_view(txs@) =~= txs_view);
    let new_block = match chain.get_last_block() {
        Some(prev_block) => {
            let block = Block::new_block(
                prev_block.hash.clone(),
                txs.as_slice(),
                prev_block.height + 1,
            );
            proof {
                lemma_mined_block_extends(old(chain)@.last(), block@, txs_view);
            }
            block
        },
        None => {
            return None;
        },
    };
    chain.add_block(new_block.clone());
    Some(new_block)
}

} // verus!
