use crate::block::{Block, BlockModel};
use crate::pow::{sealed, solves};
use crate::transaction::{is_coinbase_model, Transaction, TransactionModel};
use crate::utils::{hash_to_str, hex_str};
use vstd::prelude::*;

verus! {

/// Memo of the coinbase input of the origin block.
pub const GENESIS_COINBASE_DATA: &'static str =
    "The Times 03/Jan/2009 Chancellor on brink of second bailout for banks";

/// Whether a block is the origin of its chain.
pub open spec fn is_origin(b: BlockModel) -> bool {
    b.prev_block_hash.len() == 0
}

/// A chain as read from its tip: every block sealed with a 32-byte hash, the
/// last one the origin, and each other one pointing at the next.
pub open spec fn chain_linked(c: Seq<BlockModel>) -> bool {
    &&& c.len() > 0
    &&& forall|i: int| 0 <= i < c.len() ==> sealed(#[trigger] c[i]) && c[i].hash.len() == 32
    &&& is_origin(c.last())
    &&& forall|i: int|
        0 <= i < c.len() - 1 ==> (#[trigger] c[i]).prev_block_hash.len() > 0
            && c[i].prev_block_hash == c[i + 1].hash
}

/// Seals the origin block, which holds the one coinbase transaction.
pub fn create_genesis(coinbase: Transaction) -> (r: Block)
    ensures
        r@.transactions == seq![coinbase@],
        chain_linked(seq![r@]),
{
    let r = Block::new(vec![coinbase], &[]);
    assert(r@.transactions =~= seq![coinbase@]);
    r
}

/// The origin block of a chain that rewards `address`.
pub fn genesis_block(address: &str) -> (r: Block)
    ensures
        r@.transactions == seq![crate::transaction::coinbase_model(address@, GENESIS_COINBASE_DATA@)],
        chain_linked(seq![r@]),
{
    create_genesis(Transaction::new_coinbase(address, GENESIS_COINBASE_DATA))
}

/// The handle on a stored chain: the hash of its tip.
pub struct Blockchain {
    last_block_hash: Vec<u8>,
}

impl Clone for Blockchain {
    fn clone(&self) -> (r: Self)
        ensures
            r.tip() == self.tip(),
    {
        let r = Blockchain { last_block_hash: self.last_block_hash.clone() };
        assert(r.last_block_hash@ =~= self.last_block_hash@);
        r
    }
}

/// A walk from a block hash back towards the origin.
pub struct BlockchainIterator {
    current_hash: Vec<u8>,
}

/// What opening a store may give: the tip that the store names, with no
/// block to write, or, for a store without a tip, a fresh origin block that
/// rewards `addr`, to be written, as the tip.
pub open spec fn open_outcome(
    stored_tip: Option<Seq<u8>>,
    addr: Seq<char>,
    tip: Seq<u8>,
    created: Option<BlockModel>,
) -> bool {
    match stored_tip {
        Some(t) => tip == t && created is None,
        None => created matches Some(g) && tip == g.hash && chain_linked(seq![g])
            && g.transactions == seq![
            crate::transaction::coinbase_model(addr, GENESIS_COINBASE_DATA@),
        ],
    }
}

/// The tip that a store names once the block created by an open, if any,
/// has been written with it.
pub open spec fn tip_after_open(stored_tip: Option<Seq<u8>>, tip: Seq<u8>) -> Option<Seq<u8>> {
    match stored_tip {
        Some(t) => Some(t),
        None => Some(tip),
    }
}

/// Opening a store a second time, after the first open's writes, gives the
/// same tip and creates nothing.
pub proof fn lemma_reopen_is_idempotent(
    stored_tip: Option<Seq<u8>>,
    addr: Seq<char>,
    tip1: Seq<u8>,
    created1: Option<BlockModel>,
    tip2: Seq<u8>,
    created2: Option<BlockModel>,
)
    requires
        open_outcome(stored_tip, addr, tip1, created1),
        open_outcome(tip_after_open(stored_tip, tip1), addr, tip2, created2),
    ensures
        tip2 == tip1,
        created2 is None,
{
}

/// Once a mined block and the tip pointer naming it are written together,
/// opening the store gives that block's hash as the tip.
pub proof fn lemma_open_after_mine(b: BlockModel, addr: Seq<char>, tip: Seq<u8>, created: Option<BlockModel>)
    requires
        open_outcome(Some(b.hash), addr, tip, created),
    ensures
        tip == b.hash,
        created is None,
{
}

impl Blockchain {
    /// Opens a chain from the tip that its store names, or, for a store
    /// without one, seals an origin block rewarding `genesis_address`, which
    /// the caller writes together with the tip pointer.
    pub fn open(stored_tip: Option<Vec<u8>>, genesis_address: &str) -> (r: (Self, Option<Block>))
        ensures
            open_outcome(
                match stored_tip {
                    Some(t) => Some(t@),
                    None => None,
                },
                genesis_address@,
                r.0.tip(),
                match r.1 {
                    Some(g) => Some(g@),
                    None => None,
                },
            ),
    {
        match stored_tip {
            Some(t) => (Blockchain::from_tip(t), None),
            None => {
                let genesis = genesis_block(genesis_address);
                let chain = Blockchain::from_tip(genesis.hash.clone());
                assert(genesis.hash@ =~= genesis@.hash);
                (chain, Some(genesis))
            },
        }
    }

    /// The chain whose tip has this hash.
    pub fn from_tip(last_block_hash: Vec<u8>) -> (r: Self)
        ensures
            r.tip() == last_block_hash@,
    {
        Blockchain { last_block_hash }
    }

    pub closed spec fn tip(&self) -> Seq<u8> {
        self.last_block_hash@
    }

    pub fn last_block_hash(&self) -> (r: &Vec<u8>)
        ensures
            r@ == self.tip(),
    {
        &self.last_block_hash
    }

    /// Seals a block with these transactions on top of the tip. It becomes
    /// the tip once it is stored and `commit` is called.
    pub fn next_block(&self, transactions: Vec<Transaction>) -> (r: Block)
        ensures
            r@.transactions == transactions@.map_values(|t: Transaction| t@),
            r@.prev_block_hash == self.tip(),
            r@.hash.len() == 32,
            sealed(r@),
    {
        Block::new(transactions, self.last_block_hash.as_slice())
    }

    /// Makes `block` the tip, once the store holds it.
    pub fn commit(&mut self, block: &Block)
        ensures
            final(self).tip() == block@.hash,
    {
        self.last_block_hash = block.hash.clone();
        assert(self.last_block_hash@ =~= block@.hash);
    }

    /// A walk that starts at the tip.
    pub fn iter(&self) -> (r: BlockchainIterator)
        ensures
            r.current() == self.tip(),
    {
        let r = BlockchainIterator { current_hash: self.last_block_hash.clone() };
        assert(r.current_hash@ =~= self.last_block_hash@);
        r
    }
}

impl BlockchainIterator {
    pub closed spec fn current(&self) -> Seq<u8> {
        self.current_hash@
    }

    /// The hash of the block to read next, or nothing once the origin block
    /// has been read.
    pub fn next_key(&self) -> (r: Option<&Vec<u8>>)
        ensures
            self.current().len() == 0 ==> r is None,
            self.current().len() > 0 ==> r is Some && r.unwrap()@ == self.current(),
    {
        if self.current_hash.len() == 0 {
            None
        } else {
            Some(&self.current_hash)
        }
    }

    /// Moves past `block`, the block read under the current hash.
    pub fn advance(&mut self, block: &Block)
        ensures
            final(self).current() == block@.prev_block_hash,
    {
        self.current_hash = block.prev_block_hash.clone();
        assert(self.current_hash@ =~= block@.prev_block_hash);
    }
}

/// State of the search for unspent outputs: the outputs known to be spent,
/// as (transaction id in hexadecimal, output index), and the transactions
/// found so far, once for each unspent output they hold for the address.
pub struct ResolveState {
    pub spent: Seq<(Seq<char>, int)>,
    pub unspent: Seq<TransactionModel>,
}

/// The transaction `t` once for each of its first `k` outputs that is
/// locked to `addr` and not in `spent`.
pub open spec fn output_hits(
    t: TransactionModel,
    spent: Seq<(Seq<char>, int)>,
    addr: Seq<char>,
    k: nat,
) -> Seq<TransactionModel>
    decreases k,
{
    if k == 0 {
        seq![]
    } else {
        let i = (k - 1) as nat;
        let hit = !spent.contains((hex_str(t.id), i as int)) && t.outputs[i as int].script_pub_key
            == addr;
        output_hits(t, spent, addr, i) + if hit {
            seq![t]
        } else {
            seq![]
        }
    }
}

/// The outputs that the first `k` inputs of `t` spend with `addr`.
pub open spec fn input_marks(t: TransactionModel, addr: Seq<char>, k: nat) -> Seq<(Seq<char>, int)>
    decreases k,
{
    if k == 0 {
        seq![]
    } else {
        let i = (k - 1) as nat;
        let inp = t.inputs[i as int];
        input_marks(t, addr, i) + if inp.script_sig == addr {
            seq![(hex_str(inp.trx_id), inp.output_idx)]
        } else {
            seq![]
        }
    }
}

/// The search after one more transaction: its outputs first, then, unless
/// it is a coinbase, the outputs its inputs spend.
pub open spec fn resolve_step(s: ResolveState, t: TransactionModel, addr: Seq<char>) -> ResolveState {
    ResolveState {
        spent: if is_coinbase_model(t) {
            s.spent
        } else {
            s.spent + input_marks(t, addr, t.inputs.len())
        },
        unspent: s.unspent + output_hits(t, s.spent, addr, t.outputs.len()),
    }
}

pub open spec fn resolve_txs(s: ResolveState, txs: Seq<TransactionModel>, addr: Seq<char>) -> ResolveState
    decreases txs.len(),
{
    if txs.len() == 0 {
        s
    } else {
        resolve_step(resolve_txs(s, txs.drop_last(), addr), txs.last(), addr)
    }
}

pub open spec fn resolve_blocks(blocks: Seq<BlockModel>, addr: Seq<char>) -> ResolveState
    decreases blocks.len(),
{
    if blocks.len() == 0 {
        ResolveState { spent: seq![], unspent: seq![] }
    } else {
        resolve_txs(resolve_blocks(blocks.drop_last(), addr), blocks.last().transactions, addr)
    }
}

/// How many of `blocks` a walk visits: up to and including the first origin
/// block.
pub open spec fn walk_len(blocks: Seq<BlockModel>) -> nat
    decreases blocks.len(),
{
    if blocks.len() == 0 {
        0
    } else if is_origin(blocks[0]) {
        1
    } else {
        1 + walk_len(blocks.drop_first())
    }
}

/// The transactions that hold unspent outputs for `addr`, in the order of a
/// walk over `blocks`, once per such output.
pub open spec fn unspent_for(blocks: Seq<BlockModel>, addr: Seq<char>) -> Seq<TransactionModel> {
    resolve_blocks(blocks.take(walk_len(blocks) as int), addr).unspent
}

pub open spec fn spent_view(v: Seq<(String, isize)>) -> Seq<(Seq<char>, int)> {
    v.map_values(|p: (String, isize)| (p.0@, p.1 as int))
}

pub open spec fn txs_view(v: Seq<Transaction>) -> Seq<TransactionModel> {
    v.map_values(|t: Transaction| t@)
}

fn is_spent(spent: &Vec<(String, isize)>, key: &String, idx: usize) -> (r: bool)
    ensures
        r == spent_view(spent@).contains((key@, idx as int)),
{
    let mut m: usize = 0;
    while m < spent.len()
        invariant
            m <= spent@.len(),
            forall|j: int| 0 <= j < m ==> spent_view(spent@)[j] != (key@, idx as int),
        decreases spent@.len() - m,
    {
        let p = &spent[m];
        if p.0 == *key && p.1 >= 0 && p.1 as usize == idx {
            assert(spent_view(spent@)[m as int] == (key@, idx as int));
            return true;
        }
        m = m + 1;
    }
    false
}

fn scan_transaction(
    spent: &mut Vec<(String, isize)>,
    unspent: &mut Vec<Transaction>,
    trx: &Transaction,
    address: &str,
)
    ensures
        resolve_step(
            ResolveState { spent: spent_view(old(spent)@), unspent: txs_view(old(unspent)@) },
            trx@,
            address@,
        ) == (ResolveState { spent: spent_view(final(spent)@), unspent: txs_view(final(unspent)@) }),
{
    let ghost s0 = spent_view(spent@);
    let ghost u0 = txs_view(unspent@);
    let trx_id = hash_to_str(trx.id.as_slice());
    let mut k: usize = 0;
    while k < trx.outputs.len()
        invariant
            k <= trx@.outputs.len(),
            spent_view(spent@) == s0,
            txs_view(unspent@) == u0 + output_hits(trx@, s0, address@, k as nat),
            trx_id@ == hex_str(trx@.id),
        decreases trx@.outputs.len() - k,
    {
        let ghost before = unspent@;
        let is_sp = is_spent(spent, &trx_id, k);
        assert(trx@.outputs[k as int] == trx.outputs@[k as int]@);
        if !is_sp && trx.outputs[k].can_be_unlocked_with(address) {
            let c = trx.clone();
            unspent.push(c);
            assert(txs_view(unspent@) =~= txs_view(before).push(trx@));
        } else {
            assert(txs_view(unspent@) =~= txs_view(before));
        }
        assert(txs_view(unspent@) =~= u0 + output_hits(trx@, s0, address@, (k + 1) as nat));
        k = k + 1;
    }
    if !trx.is_coinbase() {
        let mut j: usize = 0;
        while j < trx.inputs.len()
            invariant
                j <= trx@.inputs.len(),
                spent_view(spent@) == s0 + input_marks(trx@, address@, j as nat),
                txs_view(unspent@) == u0 + output_hits(trx@, s0, address@, trx@.outputs.len()),
            decreases trx@.inputs.len() - j,
        {
            let ghost before = spent@;
            let input = &trx.inputs[j];
            assert(trx@.inputs[j as int] == input@);
            if input.can_unlock_output_with(address) {
                let input_trx_id = hash_to_str(input.trx_id.as_slice());
                spent.push((input_trx_id, input.output_idx));
                assert(spent_view(spent@) =~= spent_view(before).push(
                    (hex_str(input@.trx_id), input@.output_idx),
                ));
            } else {
                assert(spent_view(spent@) =~= spent_view(before));
            }
            assert(spent_view(spent@) =~= s0 + input_marks(trx@, address@, (j + 1) as nat));
            j = j + 1;
        }
    } else {
        assert(spent_view(spent@) == s0);
    }
}

impl Blockchain {
    /// Walks `blocks`, given in order from the tip, up to and including the
    /// first origin block, and returns each transaction once for each of its
    /// outputs that is locked to `address` and spent by no input seen before it
    /// with `address` as credential.
    pub fn find_unspent_transactions(blocks: &Vec<Block>, address: &str) -> (r: Vec<Transaction>)
        ensures
            txs_view(r@) == unspent_for(blocks@.map_values(|b: Block| b@), address@),
    {
        let ghost bs = blocks@.map_values(|b: Block| b@);
        let mut unspent_trxs: Vec<Transaction> = Vec::new();
        let mut spent_trxs: Vec<(String, isize)> = Vec::new();
        let mut i: usize = 0;
        assert(bs.take(0) =~= Seq::<BlockModel>::empty());
        assert(spent_view(spent_trxs@) =~= seq![]);
        assert(txs_view(unspent_trxs@) =~= seq![]);
        while i < blocks.len()
            invariant
                i <= blocks@.len(),
                bs == blocks@.map_values(|b: Block| b@),
                forall|k: int| 0 <= k < i ==> !is_origin(#[trigger] bs[k]),
                (ResolveState { spent: spent_view(spent_trxs@), unspent: txs_view(unspent_trxs@) })
                    == resolve_blocks(bs.take(i as int), address@),
            decreases blocks@.len() - i,
        {
            let block = &blocks[i];
            let ghost s_start = ResolveState { spent: spent_view(spent_trxs@), unspent: txs_view(unspent_trxs@) };
            let mut j: usize = 0;
            while j < block.transactions.len()
                invariant
                    j <= block@.transactions.len(),
                    (ResolveState { spent: spent_view(spent_trxs@), unspent: txs_view(unspent_trxs@) })
                        == resolve_txs(s_start, block@.transactions.take(j as int), address@),
                decreases block@.transactions.len() - j,
            {
                scan_transaction(&mut spent_trxs, &mut unspent_trxs, &block.transactions[j], address);
                assert(block@.transactions.take(j + 1).drop_last() =~= block@.transactions.take(j as int));
                j = j + 1;
            }
            assert(block@.transactions.take(j as int) =~= block@.transactions);
            assert(bs.take(i + 1).drop_last() =~= bs.take(i as int));
            if block.prev_block_hash.len() == 0 {
                proof {
                    lemma_walk_len_prefix(bs, i as nat);
                }
                return unspent_trxs;
            }
            i = i + 1;
        }
        proof {
            lemma_walk_len_prefix(bs, i as nat);
            assert(bs.take(i as int) =~= bs);
        }
        unspent_trxs
    }
}

proof fn lemma_walk_len_prefix(bs: Seq<BlockModel>, i: nat)
    requires
        i <= bs.len(),
        forall|k: int| 0 <= k < i ==> !is_origin(#[trigger] bs[k]),
    ensures
        i < bs.len() && is_origin(bs[i as int]) ==> walk_len(bs) == i + 1,
        i == bs.len() ==> walk_len(bs) == i,
    decreases i,
{
    if i > 0 {
        let rest = bs.drop_first();
        assert forall|k: int| 0 <= k < i - 1 implies !is_origin(#[trigger] rest[k]) by {
            assert(rest[k] == bs[k + 1]);
        }
        lemma_walk_len_prefix(rest, (i - 1) as nat);
        assert(!is_origin(bs[0]));
    } else if bs.len() > 0 {
    }
}

/// A block sealed on top of a linked chain's tip extends it to a linked
/// chain: every block recomputes to its hash, only the origin has an empty
/// previous hash, and every other one names its predecessor's hash.
pub proof fn lemma_mined_block_extends_chain(c: Seq<BlockModel>, b: BlockModel)
    requires
        chain_linked(c),
        b.prev_block_hash == c[0].hash,
        b.hash.len() == 32,
        sealed(b),
    ensures
        chain_linked(seq![b] + c),
{
    let n = seq![b] + c;
    assert forall|i: int| 0 <= i < n.len() implies sealed(#[trigger] n[i]) && n[i].hash.len()
        == 32 by {
        if i > 0 {
            assert(n[i] == c[i - 1]);
        }
    }
    assert forall|i: int| 0 <= i < n.len() - 1 implies (#[trigger] n[i]).prev_block_hash.len() > 0
        && n[i].prev_block_hash == n[i + 1].hash by {
        if i > 0 {
            assert(n[i] == c[i - 1]);
            assert(n[i + 1] == c[i]);
        }
    }
    assert(n.last() == c.last());
}

/// A sealed block validates whenever some nonce solves its proof of work.
pub proof fn lemma_sealed_block_validates(b: BlockModel, n: u64)
    requires
        sealed(b),
        solves(b, n),
    ensures
        solves(b, b.nonce),
{
}

/// Sealing picks the least solving nonce: no solving nonce lies below it.
pub proof fn lemma_seal_is_least(b: BlockModel, n: u64)
    requires
        sealed(b),
        solves(b, n),
    ensures
        b.nonce <= n,
{
}

} // verus!
