use crate::block::{transactions_digest, Block, BlockModel};
use crate::utils::{append_decimal, be_value, decimal, leading_u64, sha256, sha256_of};
use vstd::prelude::*;

verus! {

/// Number of leading zero bits that a block hash must show.
pub const TARGET_BITS: u64 = 18;

/// A hash meets the difficulty when its first eight bytes, read big-endian,
/// are below this bound.
pub const TARGET: u64 = 1u64 << (64 - TARGET_BITS);

/// The bytes hashed to seal a block with `nonce`: the previous hash, the
/// transactions' digest, then the timestamp, the difficulty and the nonce in
/// decimal.
pub open spec fn pow_data(b: BlockModel, nonce: u64) -> Seq<u8> {
    b.prev_block_hash + transactions_digest(b.transactions) + decimal(b.timestamp as nat) + decimal(
        TARGET_BITS as nat,
    ) + decimal(nonce as nat)
}

/// The hash of `b` sealed with `nonce`.
pub open spec fn seal_hash(b: BlockModel, nonce: u64) -> Seq<u8> {
    sha256_of(pow_data(b, nonce))
}

/// Whether a hash meets the difficulty.
pub open spec fn meets_target(h: Seq<u8>) -> bool {
    be_value(h.subrange(0, 8)) < TARGET as nat
}

/// Whether `nonce` solves the proof of work for `b`.
pub open spec fn solves(b: BlockModel, nonce: u64) -> bool {
    meets_target(seal_hash(b, nonce))
}

/// `nonce` is the least solution for `b`, or the largest nonce when none
/// below it solves.
pub open spec fn first_solution(b: BlockModel, nonce: u64) -> bool {
    &&& solves(b, nonce) || nonce == u64::MAX
    &&& forall|n: u64| n < nonce ==> !solves(b, n)
}

/// A block as sealing leaves it: its hash is the seal hash of its nonce, and
/// its nonce is the first solution.
pub open spec fn sealed(b: BlockModel) -> bool {
    &&& b.hash == seal_hash(b, b.nonce)
    &&& first_solution(b, b.nonce)
}

/// Proof of work over one block.
pub struct ProofOfWork {
    pub block: Block,
    pub target: u64,
}

/// A nonce and the hash it gives.
pub struct Data {
    pub nonce: u64,
    pub hash: Vec<u8>,
}

impl ProofOfWork {
    pub fn new(block: Block) -> (r: Self)
        ensures
            r.block == block,
            r.wf(),
    {
        Self { block, target: TARGET }
    }

    /// Gives the block back.
    pub fn into_block(self) -> (r: Block)
        ensures
            r == self.block,
    {
        self.block
    }

    pub open spec fn wf(&self) -> bool {
        self.target == TARGET
    }

    /// Everything hashed for a nonce but the nonce itself.
    fn prepare_prefix(&self) -> (r: Vec<u8>)
        ensures
            forall|n: u64| r@ + decimal(n as nat) == #[trigger] pow_data(self.block@, n),
    {
        let mut data: Vec<u8> = Vec::new();
        let mut i: usize = 0;
        while i < self.block.prev_block_hash.len()
            invariant
                i <= self.block.prev_block_hash@.len(),
                data@ == self.block.prev_block_hash@.subrange(0, i as int),
            decreases self.block.prev_block_hash@.len() - i,
        {
            data.push(self.block.prev_block_hash[i]);
            assert(data@ =~= self.block.prev_block_hash@.subrange(0, i + 1));
            i = i + 1;
        }
        assert(self.block.prev_block_hash@.subrange(0, self.block.prev_block_hash@.len() as int)
            == self.block.prev_block_hash@);
        let digest = self.block.hash_transactions();
        let ghost mid = data@;
        let mut j: usize = 0;
        while j < digest.len()
            invariant
                j <= digest@.len(),
                data@ == mid + digest@.subrange(0, j as int),
            decreases digest@.len() - j,
        {
            data.push(digest[j]);
            assert(data@ =~= mid + digest@.subrange(0, j + 1));
            j = j + 1;
        }
        assert(digest@.subrange(0, digest@.len() as int) == digest@);
        append_decimal(&mut data, self.block.timestamp);
        append_decimal(&mut data, TARGET_BITS);
        assert forall|n: u64| data@ + decimal(n as nat) == #[trigger] pow_data(self.block@, n) by {
            assert(data@ + decimal(n as nat) =~= pow_data(self.block@, n));
        }
        data
    }

    /// The bytes hashed to seal the block with `nonce`.
    pub fn prepare_data(&self, nonce: u64) -> (r: Vec<u8>)
        ensures
            r@ == pow_data(self.block@, nonce),
    {
        let mut data = self.prepare_prefix();
        append_decimal(&mut data, nonce);
        assert(data@ == pow_data(self.block@, nonce));
        data
    }

    /// Searches the nonces upward from zero and returns the first that meets
    /// the difficulty, with its hash (the largest nonce if none below it
    /// does).
    pub fn run(&self) -> (r: Data)
        requires
            self.wf(),
        ensures
            r.hash@ == seal_hash(self.block@, r.nonce),
            r.hash@.len() == 32,
            first_solution(self.block@, r.nonce),
    {
        let prefix = self.prepare_prefix();
        let mut nonce: u64 = 0;
        loop
            invariant
                self.wf(),
                forall|n: u64| prefix@ + decimal(n as nat) == #[trigger] pow_data(self.block@, n),
                forall|n: u64| n < nonce ==> !solves(self.block@, n),
            decreases u64::MAX - nonce,
        {
            let mut data: Vec<u8> = Vec::new();
            let mut i: usize = 0;
            while i < prefix.len()
                invariant
                    i <= prefix@.len(),
                    data@ == prefix@.subrange(0, i as int),
                decreases prefix@.len() - i,
            {
                data.push(prefix[i]);
                assert(data@ =~= prefix@.subrange(0, i + 1));
                i = i + 1;
            }
            assert(prefix@.subrange(0, prefix@.len() as int) == prefix@);
            append_decimal(&mut data, nonce);
            assert(data@ == pow_data(self.block@, nonce));
            let hash = sha256(data.as_slice());
            let hash_int = leading_u64(hash.as_slice());
            if hash_int < self.target || nonce == u64::MAX {
                return Data { nonce, hash };
            }
            nonce = nonce + 1;
        }
    }

    /// Whether the block's own nonce meets the difficulty.
    pub fn validate(&self) -> (r: bool)
        requires
            self.wf(),
        ensures
            r == solves(self.block@, self.block.nonce),
    {
        let data = self.prepare_data(self.block.nonce);
        let hash = sha256(data.as_slice());
        let hash_int = leading_u64(hash.as_slice());
        hash_int < self.target
    }
}

} // verus!
