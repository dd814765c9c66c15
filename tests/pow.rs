use badchain::block::Block;
use badchain::pow::{ProofOfWork, TARGET, TARGET_BITS};
use badchain::transaction::Transaction;
use badchain::utils::{leading_u64, sha256};

#[test]
fn target_is_two_to_the_forty_six() {
    assert_eq!(TARGET_BITS, 18);
    assert_eq!(TARGET, 1u64 << 46);
}

#[test]
fn prepared_data_layout() {
    let block = Block {
        timestamp: 5,
        transactions: vec![],
        prev_block_hash: vec![1, 2],
        hash: vec![],
        nonce: 0,
    };
    let pow = ProofOfWork::new(block);
    let mut expected = vec![1u8, 2];
    expected.extend_from_slice(&sha256(&[]));
    expected.extend_from_slice(b"5187");
    assert_eq!(pow.prepare_data(7), expected);
}

#[test]
fn sealed_block_validates() {
    let t = Transaction::new_coinbase("A", "");
    let block = Block::with_timestamp(vec![t], &[3, 4], 1_600_000_000);
    assert_eq!(block.timestamp, 1_600_000_000);
    assert_eq!(block.prev_block_hash, vec![3, 4]);
    assert_eq!(block.hash.len(), 32);
    let nonce = block.nonce;
    let hash = block.hash.clone();
    let pow = ProofOfWork::new(block);
    assert_eq!(sha256(&pow.prepare_data(nonce)), hash);
    assert!(leading_u64(&hash) < TARGET);
    assert!(pow.validate());
}

#[test]
fn seal_returns_first_solving_nonce() {
    let block = Block::with_timestamp(vec![], &[], 42);
    let nonce = block.nonce;
    let pow = ProofOfWork::new(block);
    for n in 0..nonce {
        let h = sha256(&pow.prepare_data(n));
        assert!(leading_u64(&h) >= TARGET);
    }
}

#[test]
fn tampered_nonce_fails_validation() {
    let mut block = Block::with_timestamp(vec![], &[7], 99);
    if block.nonce > 0 {
        block.nonce -= 1;
        let pow = ProofOfWork::new(block);
        assert!(!pow.validate());
    }
}

#[test]
fn run_agrees_with_sealed_block() {
    let block = Block::with_timestamp(vec![], &[1], 7);
    let expected_nonce = block.nonce;
    let expected_hash = block.hash.clone();
    let pow = ProofOfWork::new(Block {
        timestamp: 7,
        transactions: vec![],
        prev_block_hash: vec![1],
        hash: vec![],
        nonce: 0,
    });
    let data = pow.run();
    assert_eq!(data.nonce, expected_nonce);
    assert_eq!(data.hash, expected_hash);
}

#[test]
fn hash_transactions_follows_order() {
    let a = Transaction::new_coinbase("A", "");
    let b = Transaction::new_coinbase("B", "");
    let mut flat = a.id.clone();
    flat.extend_from_slice(&b.id);
    let block = Block {
        timestamp: 0,
        transactions: vec![a.clone(), b.clone()],
        prev_block_hash: vec![],
        hash: vec![],
        nonce: 0,
    };
    assert_eq!(block.hash_transactions(), sha256(&flat));
    let swapped = Block {
        timestamp: 0,
        transactions: vec![b, a],
        prev_block_hash: vec![],
        hash: vec![],
        nonce: 0,
    };
    assert_ne!(swapped.hash_transactions(), block.hash_transactions());
}

#[test]
fn block_new_stamps_current_time() {
    let block = Block::new(vec![], &[1, 1]);
    assert!(block.timestamp > 1_500_000_000);
    assert!(ProofOfWork::new(block).validate());
}
