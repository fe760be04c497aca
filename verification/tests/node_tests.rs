use p2p_blockchain_rust::block::Block;
use p2p_blockchain_rust::blockchain::Blockchain;
use p2p_blockchain_rust::command::{mine_block, parse_command, Command};
use p2p_blockchain_rust::networking::{
    handle_chain_response, handle_message, NetworkMessage, NetworkMessageData, PeerMessage, Reply,
};
use p2p_blockchain_rust::transaction::Transaction;

fn chain_with(n: usize) -> Blockchain {
    let mut bc = Blockchain::new();
    for i in 0..n {
        bc.add_create_block(vec![Transaction::new(format!("tx_{}", i))]);
    }
    bc
}

#[test]
fn test_parse_command() {
    assert!(matches!(parse_command("ls p"), Command::ListPeers));
    assert!(matches!(parse_command("ls peers"), Command::ListPeers));
    assert!(matches!(parse_command("ls chain"), Command::ListChain));
    assert!(matches!(parse_command("hello"), Command::Unknown));
    assert!(matches!(parse_command(" ls p"), Command::Unknown));
    match parse_command("add block  hello world \t") {
        Command::AddBlock(data) => assert_eq!(data, "hello world"),
        _ => panic!("expected AddBlock"),
    }
    match parse_command("add block") {
        Command::AddBlock(data) => assert_eq!(data, ""),
        _ => panic!("expected AddBlock"),
    }
}

#[test]
fn test_mine_block_appends_and_returns_block() {
    let mut bc = Blockchain::new();
    let block = mine_block(&mut bc, "hello".to_string()).unwrap();
    assert_eq!(bc.get_blocks().len(), 2);
    assert_eq!(block.get_height(), 1);
    assert_eq!(block.get_pre_block_hash(), bc.get_blocks()[0].get_hash());
    assert_eq!(bc.get_last_block().unwrap().get_hash(), block.get_hash());
    assert_eq!(block.get_transactions()[0].get_data(), "hello");
    assert!(bc.is_valid());
}

#[test]
fn test_mine_block_ignores_empty_data() {
    let mut bc = Blockchain::new();
    assert!(mine_block(&mut bc, String::new()).is_none());
    assert_eq!(bc.get_blocks().len(), 1);
    let mut empty = Blockchain::from_blocks(vec![]);
    assert!(mine_block(&mut empty, "x".to_string()).is_none());
    assert!(empty.get_blocks().is_empty());
}

#[test]
fn test_new_block_message_accepted() {
    let mut local = Blockchain::new();
    let last_hash = local.get_last_block().unwrap().get_hash().to_string();
    let block = Block::new_block(last_hash, &[Transaction::new("b".to_string())], 1);
    let reply = handle_message(&mut local, PeerMessage::NewBlock(block));
    assert_eq!(reply, Reply::Nothing);
    assert_eq!(local.get_blocks().len(), 2);
}

#[test]
fn test_new_block_message_rejected_requests_chain() {
    let mut local = Blockchain::new();
    let block = Block::new_block("elsewhere".to_string(), &[Transaction::new("b".to_string())], 1);
    let reply = handle_message(&mut local, PeerMessage::NewBlock(block));
    assert_eq!(reply, Reply::RequestChain);
    assert_eq!(local.get_blocks().len(), 1);
}

#[test]
fn test_chain_request_message_sends_chain() {
    let mut local = chain_with(1);
    let reply = handle_message(&mut local, PeerMessage::ChainRequest);
    assert_eq!(reply, Reply::SendChain);
    assert_eq!(local.get_blocks().len(), 2);
}

#[test]
fn test_longer_valid_chain_replaces_local() {
    let mut local = chain_with(1);
    let remote = chain_with(2);
    let received = remote.get_blocks().clone();
    assert!(handle_chain_response(&mut local, received));
    assert_eq!(local.get_blocks().len(), 3);
    assert_eq!(
        local.get_last_block().unwrap().get_hash(),
        remote.get_last_block().unwrap().get_hash()
    );
}

#[test]
fn test_longer_invalid_chain_is_ignored() {
    let mut local = chain_with(1);
    let remote = chain_with(2);
    let mut received = remote.get_blocks().clone();
    received[2].pre_block_hash = "forged".to_string();
    let before = local.get_last_block().unwrap().get_hash().to_string();
    let reply = handle_message(&mut local, PeerMessage::ChainResponse(received));
    assert_eq!(reply, Reply::Nothing);
    assert_eq!(local.get_blocks().len(), 2);
    assert_eq!(local.get_last_block().unwrap().get_hash(), before);
}

#[test]
fn test_shorter_or_equal_chain_is_ignored() {
    let mut local = chain_with(2);
    let remote = chain_with(2);
    assert!(!handle_chain_response(&mut local, remote.get_blocks().clone()));
    assert!(!handle_chain_response(&mut local, chain_with(0).get_blocks().clone()));
    assert_eq!(local.get_blocks().len(), 3);
}

#[test]
fn test_single_block_chain_is_synchronised() {
    let mut local = Blockchain::new();
    let remote = Blockchain::new();
    let remote_hash = remote.get_blocks()[0].get_hash().to_string();
    assert!(handle_chain_response(&mut local, remote.get_blocks().clone()));
    assert_eq!(local.get_blocks()[0].get_hash(), remote_hash);
}

#[test]
fn test_network_message_new_keeps_payload() {
    let msg = NetworkMessage::new(NetworkMessageData::ChainResponse(vec!["a".to_string()]));
    assert!(msg.timestamp > 0);
    match msg.message_type {
        NetworkMessageData::ChainResponse(v) => assert_eq!(v, vec!["a".to_string()]),
        _ => panic!("payload changed"),
    }
    let msg = NetworkMessage::new(NetworkMessageData::NewBlock("x".to_string()));
    assert!(matches!(msg.message_type, NetworkMessageData::NewBlock(ref s) if s == "x"));
}

#[test]
fn test_parse_command_trims_unicode_whitespace() {
    match parse_command("add block\u{3000}\u{a0}data\u{85}\n") {
        Command::AddBlock(data) => assert_eq!(data, "data"),
        _ => panic!("expected AddBlock"),
    }
}

#[test]
fn test_single_block_sync_rejects_invalid_block() {
    let mut local = Blockchain::new();
    let before = local.get_blocks()[0].get_hash().to_string();
    let remote = Blockchain::new();
    let mut received = remote.get_blocks().clone();
    received[0].hash = "00".repeat(32);
    assert!(!handle_chain_response(&mut local, received));
    assert_eq!(local.get_blocks()[0].get_hash(), before);
    assert!(local.is_valid());
}
