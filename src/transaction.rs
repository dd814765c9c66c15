use crate::utils::{append_u64_le, le_bytes, sha256, sha256_of};
use vstd::prelude::*;
use vstd::utf8::encode_utf8;

verus! {

/// Value created by a coinbase transaction.
pub const SUBSIDY: usize = 10;

/// Abstract value of a `TrxInput`.
pub struct InputModel {
    pub trx_id: Seq<u8>,
    pub output_idx: int,
    pub script_sig: Seq<char>,
}

/// Abstract value of a `TrxOutput`.
pub struct OutputModel {
    pub value: nat,
    pub script_pub_key: Seq<char>,
}

/// Abstract value of a `Transaction`.
pub struct TransactionModel {
    pub id: Seq<u8>,
    pub inputs: Seq<InputModel>,
    pub outputs: Seq<OutputModel>,
}

/// A transaction: it spends earlier outputs through its inputs and creates
/// new outputs. Its id is the digest of its own encoding with the id empty.
pub struct Transaction {
    pub id: Vec<u8>,
    pub inputs: Vec<TrxInput>,
    pub outputs: Vec<TrxOutput>,
}

/// A reference to output `output_idx` of transaction `trx_id`, with the
/// credential that unlocks it. A coinbase input refers to no transaction and
/// to index `-1`.
pub struct TrxInput {
    pub trx_id: Vec<u8>,
    pub output_idx: isize,
    pub script_sig: String,
}

/// An amount locked to a credential.
pub struct TrxOutput {
    pub value: usize,
    pub script_pub_key: String,
}

impl View for TrxInput {
    type V = InputModel;

    open spec fn view(&self) -> InputModel {
        InputModel {
            trx_id: self.trx_id@,
            output_idx: self.output_idx as int,
            script_sig: self.script_sig@,
        }
    }
}

impl View for TrxOutput {
    type V = OutputModel;

    open spec fn view(&self) -> OutputModel {
        OutputModel { value: self.value as nat, script_pub_key: self.script_pub_key@ }
    }
}

impl View for Transaction {
    type V = TransactionModel;

    open spec fn view(&self) -> TransactionModel {
        TransactionModel {
            id: self.id@,
            inputs: self.inputs@.map_values(|i: TrxInput| i@),
            outputs: self.outputs@.map_values(|o: TrxOutput| o@),
        }
    }
}

impl Clone for TrxInput {
    fn clone(&self) -> (r: Self)
        ensures
            r@ == self@,
    {
        let r = TrxInput {
            trx_id: self.trx_id.clone(),
            output_idx: self.output_idx,
            script_sig: self.script_sig.clone(),
        };
        assert(r.trx_id@ =~= self.trx_id@);
        r
    }
}

impl Clone for TrxOutput {
    fn clone(&self) -> (r: Self)
        ensures
            r@ == self@,
    {
        TrxOutput { value: self.value, script_pub_key: self.script_pub_key.clone() }
    }
}

impl Clone for Transaction {
    fn clone(&self) -> (r: Self)
        ensures
            r@ == self@,
    {
        let mut inputs: Vec<TrxInput> = Vec::new();
        let mut i: usize = 0;
        while i < self.inputs.len()
            invariant
                i <= self.inputs@.len(),
                inputs@.len() == i,
                forall|k: int| 0 <= k < i ==> (#[trigger] inputs@[k])@ == self.inputs@[k]@,
            decreases self.inputs@.len() - i,
        {
            inputs.push(self.inputs[i].clone());
            i = i + 1;
        }
        let mut outputs: Vec<TrxOutput> = Vec::new();
        let mut j: usize = 0;
        while j < self.outputs.len()
            invariant
                j <= self.outputs@.len(),
                outputs@.len() == j,
                forall|k: int| 0 <= k < j ==> (#[trigger] outputs@[k])@ == self.outputs@[k]@,
            decreases self.outputs@.len() - j,
        {
            outputs.push(self.outputs[j].clone());
            j = j + 1;
        }
        let r = Transaction { id: self.id.clone(), inputs, outputs };
        assert(r.id@ =~= self.id@);
        assert(r@.inputs =~= self@.inputs);
        assert(r@.outputs =~= self@.outputs);
        r
    }
}

/// A byte string in the record encoding: its length as eight little-endian
/// bytes, then the bytes.
pub open spec fn enc_bytes(b: Seq<u8>) -> Seq<u8> {
    le_bytes(b.len(), 8) + b
}

/// A string in the record encoding: its UTF-8 bytes as a byte string.
pub open spec fn enc_str(s: Seq<char>) -> Seq<u8> {
    enc_bytes(encode_utf8(s))
}

/// A signed index as eight little-endian bytes of its two's complement.
pub open spec fn enc_index(v: int) -> Seq<u8> {
    le_bytes((v as u64) as nat, 8)
}

pub open spec fn enc_input(i: InputModel) -> Seq<u8> {
    enc_bytes(i.trx_id) + enc_index(i.output_idx) + enc_str(i.script_sig)
}

pub open spec fn enc_output(o: OutputModel) -> Seq<u8> {
    le_bytes(o.value, 8) + enc_str(o.script_pub_key)
}

pub open spec fn enc_input_items(s: Seq<InputModel>) -> Seq<u8>
    decreases s.len(),
{
    if s.len() == 0 {
        seq![]
    } else {
        enc_input_items(s.drop_last()) + enc_input(s.last())
    }
}

pub open spec fn enc_output_items(s: Seq<OutputModel>) -> Seq<u8>
    decreases s.len(),
{
    if s.len() == 0 {
        seq![]
    } else {
        enc_output_items(s.drop_last()) + enc_output(s.last())
    }
}

/// A transaction in the record encoding: the id, then the inputs and the
/// outputs, each list preceded by its length.
pub open spec fn enc_transaction(t: TransactionModel) -> Seq<u8> {
    enc_bytes(t.id) + le_bytes(t.inputs.len(), 8) + enc_input_items(t.inputs) + le_bytes(
        t.outputs.len(),
        8,
    ) + enc_output_items(t.outputs)
}

/// The id that a transaction with these inputs and outputs carries.
pub open spec fn transaction_id(inputs: Seq<InputModel>, outputs: Seq<OutputModel>) -> Seq<u8> {
    sha256_of(enc_transaction(TransactionModel { id: seq![], inputs, outputs }))
}

/// The memo of a coinbase input: `data`, or a note naming the receiver when
/// `data` is empty.
pub open spec fn coinbase_memo(to: Seq<char>, data: Seq<char>) -> Seq<char> {
    if data.len() == 0 {
        "Reward to '"@ + to + "'"@
    } else {
        data
    }
}

/// The coinbase transaction paying the subsidy to `to`.
pub open spec fn coinbase_model(to: Seq<char>, data: Seq<char>) -> TransactionModel {
    let inputs = seq![InputModel { trx_id: seq![], output_idx: -1, script_sig: coinbase_memo(to, data) }];
    let outputs = seq![OutputModel { value: SUBSIDY as nat, script_pub_key: to }];
    TransactionModel { id: transaction_id(inputs, outputs), inputs, outputs }
}

/// Whether a transaction creates value: exactly one input, referring to no
/// transaction and to index `-1`.
pub open spec fn is_coinbase_model(t: TransactionModel) -> bool {
    &&& t.inputs.len() == 1
    &&& t.inputs[0].trx_id.len() == 0
    &&& t.inputs[0].output_idx == -1
}

fn append_bytes(out: &mut Vec<u8>, b: &[u8])
    ensures
        final(out)@ == old(out)@ + enc_bytes(b@),
{
    append_u64_le(out, b.len() as u64);
    let ghost mid = out@;
    let mut i: usize = 0;
    while i < b.len()
        invariant
            i <= b@.len(),
            out@ == mid + b@.subrange(0, i as int),
        decreases b@.len() - i,
    {
        out.push(b[i]);
        assert(out@ =~= mid + b@.subrange(0, i + 1));
        i = i + 1;
    }
    assert(b@.subrange(0, b@.len() as int) == b@);
    assert(final(out)@ =~= old(out)@ + enc_bytes(b@));
}

fn append_str(out: &mut Vec<u8>, s: &String)
    ensures
        final(out)@ == old(out)@ + enc_str(s@),
{
    append_bytes(out, s.as_str().as_bytes());
}

fn append_input(out: &mut Vec<u8>, i: &TrxInput)
    ensures
        final(out)@ == old(out)@ + enc_input(i@),
{
    append_bytes(out, i.trx_id.as_slice());
    append_u64_le(out, i.output_idx as u64);
    append_str(out, &i.script_sig);
    assert(final(out)@ =~= old(out)@ + enc_input(i@));
}

fn append_output(out: &mut Vec<u8>, o: &TrxOutput)
    ensures
        final(out)@ == old(out)@ + enc_output(o@),
{
    append_u64_le(out, o.value as u64);
    append_str(out, &o.script_pub_key);
    assert(final(out)@ =~= old(out)@ + enc_output(o@));
}

/// Appends the record encoding of `t` to `out`.
pub fn append_transaction(out: &mut Vec<u8>, t: &Transaction)
    ensures
        final(out)@ == old(out)@ + enc_transaction(t@),
{
    let ghost start = out@;
    append_bytes(out, t.id.as_slice());
    append_u64_le(out, t.inputs.len() as u64);
    let ghost mid = out@;
    let mut i: usize = 0;
    while i < t.inputs.len()
        invariant
            i <= t.inputs@.len(),
            out@ == mid + enc_input_items(t@.inputs.subrange(0, i as int)),
        decreases t.inputs@.len() - i,
    {
        append_input(out, &t.inputs[i]);
        assert(t@.inputs.subrange(0, i + 1).drop_last() =~= t@.inputs.subrange(0, i as int));
        assert(out@ =~= mid + enc_input_items(t@.inputs.subrange(0, i + 1)));
        i = i + 1;
    }
    assert(t@.inputs.subrange(0, t@.inputs.len() as int) == t@.inputs);
    append_u64_le(out, t.outputs.len() as u64);
    let ghost mid2 = out@;
    let mut j: usize = 0;
    while j < t.outputs.len()
        invariant
            j <= t.outputs@.len(),
            out@ == mid2 + enc_output_items(t@.outputs.subrange(0, j as int)),
        decreases t.outputs@.len() - j,
    {
        append_output(out, &t.outputs[j]);
        assert(t@.outputs.subrange(0, j + 1).drop_last() =~= t@.outputs.subrange(0, j as int));
        assert(out@ =~= mid2 + enc_output_items(t@.outputs.subrange(0, j + 1)));
        j = j + 1;
    }
    assert(t@.outputs.subrange(0, t@.outputs.len() as int) == t@.outputs);
    assert(final(out)@ =~= start + enc_transaction(t@));
}

impl Transaction {
    /// A transaction over these inputs and outputs, with its id set.
    pub fn new(inputs: Vec<TrxInput>, outputs: Vec<TrxOutput>) -> (r: Self)
        ensures
            r@.inputs == inputs@.map_values(|i: TrxInput| i@),
            r@.outputs == outputs@.map_values(|o: TrxOutput| o@),
            r@.id == transaction_id(r@.inputs, r@.outputs),
    {
        let mut trx = Transaction { id: Vec::new(), inputs, outputs };
        trx.set_id();
        trx
    }

    /// The coinbase transaction that pays the subsidy to `to`, with `data` as
    /// the memo of its input (a note naming `to` when `data` is empty).
    pub fn new_coinbase(to: &str, data: &str) -> (r: Self)
        ensures
            r@ == coinbase_model(to@, data@),
    {
        let data = if data.is_empty() {
            let mut memo = String::from_str("Reward to '");
            memo.append(to);
            memo.append("'");
            memo
        } else {
            data.to_owned()
        };
        let trx_in = TrxInput { trx_id: Vec::new(), output_idx: -1, script_sig: data };
        let trx_out = TrxOutput { value: SUBSIDY, script_pub_key: to.to_owned() };
        let r = Transaction::new(vec![trx_in], vec![trx_out]);
        assert(r@.inputs =~= coinbase_model(to@, data@).inputs);
        assert(r@.outputs =~= coinbase_model(to@, data@).outputs);
        r
    }

    fn set_id(&mut self)
        ensures
            final(self)@.inputs == old(self)@.inputs,
            final(self)@.outputs == old(self)@.outputs,
            final(self)@.id == transaction_id(old(self)@.inputs, old(self)@.outputs),
    {
        self.id = Vec::new();
        let mut encoded: Vec<u8> = Vec::new();
        append_transaction(&mut encoded, self);
        assert(self@ == TransactionModel { id: seq![], inputs: old(self)@.inputs, outputs: old(self)@.outputs });
        assert(encoded@ =~= enc_transaction(self@));
        self.id = sha256(encoded.as_slice());
    }

    /// Whether this transaction creates value rather than spending outputs.
    pub fn is_coinbase(&self) -> (r: bool)
        ensures
            r == is_coinbase_model(self@),
    {
        self.inputs.len() == 1 && self.inputs[0].trx_id.len() == 0 && self.inputs[0].output_idx
            == -1
    }
}

impl TrxInput {
    pub fn new(trx_id: Vec<u8>, output_idx: isize, script_sig: String) -> (r: Self)
        ensures
            r@ == (InputModel { trx_id: trx_id@, output_idx: output_idx as int, script_sig: script_sig@ }),
    {
        TrxInput { trx_id, output_idx, script_sig }
    }

    /// Whether `unlocking_data` is the credential that this input carries.
    pub fn can_unlock_output_with(&self, unlocking_data: &str) -> (r: bool)
        ensures
            r == (self.script_sig@ == unlocking_data@),
    {
        self.script_sig == unlocking_data.to_owned()
    }
}

impl TrxOutput {
    pub fn new(value: usize, script_pub_key: String) -> (r: Self)
        ensures
            r@ == (OutputModel { value: value as nat, script_pub_key: script_pub_key@ }),
    {
        TrxOutput { value, script_pub_key }
    }

    /// Whether `unlocking_data` is the credential this output is locked to.
    pub fn can_be_unlocked_with(&self, unlocking_data: &str) -> (r: bool)
        ensures
            r == (self.script_pub_key@ == unlocking_data@),
    {
        self.script_pub_key == unlocking_data.to_owned()
    }
}

} // verus!
