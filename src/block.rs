use crate::pow::{solves, pow_data, sealed, Data, ProofOfWork};
use crate::transaction::{Transaction, TransactionModel};
use crate::utils::{sha256, sha256_of};
use vstd::prelude::*;

verus! {

/// Abstract value of a `Block`.
pub struct BlockModel {
    pub timestamp: u64,
    pub transactions: Seq<TransactionModel>,
    pub prev_block_hash: Seq<u8>,
    pub hash: Seq<u8>,
    pub nonce: u64,
}

/// A sealed block: its transactions, the hash of the block before it (empty
/// for the origin block), and the nonce and hash that proof of work found.
pub struct Block {
    pub timestamp: u64,
    pub transactions: Vec<Transaction>,
    pub prev_block_hash: Vec<u8>,
    pub hash: Vec<u8>,
    pub nonce: u64,
}

impl View for Block {
    type V = BlockModel;

    open spec fn view(&self) -> BlockModel {
        BlockModel {
            timestamp: self.timestamp,
            transactions: self.transactions@.map_values(|t: Transaction| t@),
            prev_block_hash: self.prev_block_hash@,
            hash: self.hash@,
            nonce: self.nonce,
        }
    }
}

impl Clone for Block {
    fn clone(&self) -> (r: Self)
        ensures
            r@ == self@,
    {
        let mut transactions: Vec<Transaction> = Vec::new();
        let mut i: usize = 0;
        while i < self.transactions.len()
            invariant
                i <= self.transactions@.len(),
                transactions@.len() == i,
                forall|k: int|
                    0 <= k < i ==> (#[trigger] transactions@[k])@ == self.transactions@[k]@,
            decreases self.transactions@.len() - i,
        {
            transactions.push(self.transactions[i].clone());
            i = i + 1;
        }
        let r = Block {
            timestamp: self.timestamp,
            transactions,
            prev_block_hash: self.prev_block_hash.clone(),
            hash: self.hash.clone(),
            nonce: self.nonce,
        };
        assert(r.prev_block_hash@ =~= self.prev_block_hash@);
        assert(r.hash@ =~= self.hash@);
        assert(r@.transactions =~= self@.transactions);
        r
    }
}

/// The ids of the transactions, concatenated in order.
pub open spec fn flat_ids(txs: Seq<TransactionModel>) -> Seq<u8>
    decreases txs.len(),
{
    if txs.len() == 0 {
        seq![]
    } else {
        flat_ids(txs.drop_last()) + txs.last().id
    }
}

/// The digest of a block's transactions that proof of work hashes over.
pub open spec fn transactions_digest(txs: Seq<TransactionModel>) -> Seq<u8> {
    sha256_of(flat_ids(txs))
}

/// Relies on std::time::SystemTime: the seconds since the Unix epoch, when
/// the clock reads a time after it.
#[verifier::external_body]
fn unix_time() -> (r: Option<u64>) {
    std::time::SystemTime::now().duration_since(std::time::UNIX_EPOCH).ok().map(|d| d.as_secs())
}

impl Block {
    /// Seals a block with these transactions on top of `prev_block_hash`,
    /// stamped with the current time (zero if the clock reads a time before
    /// the Unix epoch).
    pub fn new(transactions: Vec<Transaction>, prev_block_hash: &[u8]) -> (r: Self)
        ensures
            r@.transactions == transactions@.map_values(|t: Transaction| t@),
            r@.prev_block_hash == prev_block_hash@,
            r@.hash.len() == 32,
            sealed(r@),
    {
        let timestamp = match unix_time() {
            Some(t) => t,
            None => 0,
        };
        Block::with_timestamp(transactions, prev_block_hash, timestamp)
    }

    /// Seals a block with these transactions on top of `prev_block_hash`,
    /// stamped with `timestamp`.
    pub fn with_timestamp(
        transactions: Vec<Transaction>,
        prev_block_hash: &[u8],
        timestamp: u64,
    ) -> (r: Self)
        ensures
            r@.timestamp == timestamp,
            r@.transactions == transactions@.map_values(|t: Transaction| t@),
            r@.prev_block_hash == prev_block_hash@,
            r@.hash.len() == 32,
            sealed(r@),
    {
        let mut prev: Vec<u8> = Vec::new();
        let mut i: usize = 0;
        while i < prev_block_hash.len()
            invariant
                i <= prev_block_hash@.len(),
                prev@ == prev_block_hash@.subrange(0, i as int),
            decreases prev_block_hash@.len() - i,
        {
            prev.push(prev_block_hash[i]);
            assert(prev@ =~= prev_block_hash@.subrange(0, i + 1));
            i = i + 1;
        }
        assert(prev_block_hash@.subrange(0, prev_block_hash@.len() as int) == prev_block_hash@);
        let block = Block { timestamp, transactions, prev_block_hash: prev, hash: Vec::new(), nonce: 0 };
        let ghost b0 = block@;
        let pow = ProofOfWork::new(block);
        let Data { nonce, hash } = pow.run();
        let mut block = pow.into_block();
        block.hash = hash;
        block.nonce = nonce;
        assert forall|n: u64| #[trigger] solves(block@, n) == solves(b0, n) by {
            assert(pow_data(block@, n) == pow_data(b0, n));
        }
        block
    }

    /// The digest of the concatenated ids of the block's transactions, in
    /// order.
    pub fn hash_transactions(&self) -> (r: Vec<u8>)
        ensures
            r@ == transactions_digest(self@.transactions),
    {
        let mut trx_ids_flat: Vec<u8> = Vec::new();
        let mut i: usize = 0;
        while i < self.transactions.len()
            invariant
                i <= self.transactions@.len(),
                trx_ids_flat@ == flat_ids(self@.transactions.subrange(0, i as int)),
            decreases self.transactions@.len() - i,
        {
            let id = &self.transactions[i].id;
            let ghost before = trx_ids_flat@;
            let mut j: usize = 0;
            while j < id.len()
                invariant
                    j <= id@.len(),
                    trx_ids_flat@ == before + id@.subrange(0, j as int),
                decreases id@.len() - j,
            {
                trx_ids_flat.push(id[j]);
                assert(trx_ids_flat@ =~= before + id@.subrange(0, j + 1));
                j = j + 1;
            }
            assert(id@.subrange(0, id@.len() as int) == id@);
            assert(self@.transactions.subrange(0, i + 1).drop_last() =~= self@.transactions.subrange(0, i as int));
            i = i + 1;
        }
        assert(self@.transactions.subrange(0, self@.transactions.len() as int) == self@.transactions);
        sha256(trx_ids_flat.as_slice())
    }
}

} // verus!
