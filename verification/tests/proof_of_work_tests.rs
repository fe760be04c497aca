use p2p_blockchain_rust::block::Block;
use p2p_blockchain_rust::proof_of_work::ProofOfWork;
use p2p_blockchain_rust::transaction::Transaction;
use sha2::{Digest, Sha256};

#[test]
fn test_pow_produces_valid_hash() {
    let tx = Transaction::new("test".to_string());
    let block = Block::new_block("prev".to_string(), &[tx], 1);
    let pow = ProofOfWork::new_proof_of_work(block.clone());
    let (_, hash) = pow.run();
    assert_eq!(block.get_hash(), hash);
}

#[test]
fn test_pow_nonce_matches_block_nonce() {
    let block = Block::new_block("prev".to_string(), &[Transaction::new("a".to_string())], 1);
    let pow = ProofOfWork::new_proof_of_work(block.clone());
    let (nonce, hash) = pow.run();
    assert_eq!(nonce, block.get_nonce());
    // TARGET_BITS = 8: the first byte of the hash is zero.
    assert!(hash.starts_with("00"));
    assert_eq!(hash.len(), 64);
    assert!(hash.chars().all(|c| c.is_ascii_digit() || ('a'..='f').contains(&c)));
}

#[test]
fn test_hash_meets_target() {
    let block = Block::new_block("prev".to_string(), &[], 0);
    let pow = ProofOfWork::new_proof_of_work(block);
    let mut below = [0xffu8; 32];
    below[0] = 0;
    assert!(pow.hash_meets_target(&below));
    let mut at = [0u8; 32];
    at[0] = 1;
    assert!(!pow.hash_meets_target(&at));
    assert!(pow.hash_meets_target(&[0u8; 32]));
    // a short hash is a small number
    assert!(pow.hash_meets_target(&[0xff]));
}

#[test]
fn test_hash_transactions_is_sha256_of_ids() {
    let t1 = Transaction::new("a".to_string());
    let t2 = Transaction::new("b".to_string());
    let block = Block::new_block("prev".to_string(), &[t1.clone(), t2.clone()], 1);
    let h = block.hash_transactions();
    assert_eq!(h.len(), 32);
    let empty = Block::new_block("prev".to_string(), &[], 1);
    // SHA-256 of the empty string
    assert_eq!(
        empty.hash_transactions(),
        vec![
            0xe3, 0xb0, 0xc4, 0x42, 0x98, 0xfc, 0x1c, 0x14, 0x9a, 0xfb, 0xf4, 0xc8, 0x99, 0x6f,
            0xb9, 0x24, 0x27, 0xae, 0x41, 0xe4, 0x64, 0x9b, 0x93, 0x4c, 0xa4, 0x95, 0x99, 0x1b,
            0x78, 0x52, 0xb8, 0x55
        ]
    );
    assert_ne!(h, empty.hash_transactions());
}

#[test]
fn test_mined_hash_is_sha256_of_block_data_and_nonce() {
    let tx = Transaction::new("payload".to_string());
    let block = Block::new_block("prev".to_string(), &[tx.clone()], 3);
    let mut data = Vec::new();
    data.extend_from_slice("prev".as_bytes());
    data.extend_from_slice(&Sha256::digest(&tx.id));
    data.extend_from_slice(&block.get_timestamp().to_be_bytes());
    data.extend_from_slice(&8i32.to_be_bytes());
    data.extend_from_slice(&block.get_nonce().to_be_bytes());
    let digest = Sha256::digest(&data);
    let hex: String = digest.iter().map(|b| format!("{:02x}", b)).collect();
    assert_eq!(block.get_hash(), hex);
    assert_eq!(digest[0], 0);
    // every smaller nonce misses the target
    for n in 0..block.get_nonce() {
        let mut d = data[..data.len() - 8].to_vec();
        d.extend_from_slice(&n.to_be_bytes());
        assert_ne!(Sha256::digest(&d)[0], 0);
    }
}
