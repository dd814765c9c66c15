use badchain::transaction::{append_transaction, Transaction, TrxInput, TrxOutput, SUBSIDY};
use badchain::utils::sha256;

fn id_of(t: &Transaction) -> Vec<u8> {
    let blank = Transaction {
        id: vec![],
        inputs: t.inputs.clone(),
        outputs: t.outputs.clone(),
    };
    let mut bytes = Vec::new();
    append_transaction(&mut bytes, &blank);
    sha256(&bytes)
}

#[test]
fn coinbase_pays_subsidy_to_receiver() {
    let t = Transaction::new_coinbase("A", "memo");
    assert_eq!(SUBSIDY, 10);
    assert_eq!(t.outputs.len(), 1);
    assert_eq!(t.outputs[0].value, 10);
    assert_eq!(t.outputs[0].script_pub_key, "A");
    assert_eq!(t.inputs.len(), 1);
    assert!(t.inputs[0].trx_id.is_empty());
    assert_eq!(t.inputs[0].output_idx, -1);
    assert_eq!(t.inputs[0].script_sig, "memo");
    assert_eq!(t.id.len(), 32);
    assert_eq!(t.id, id_of(&t));
    assert!(t.is_coinbase());
}

#[test]
fn coinbase_without_memo_names_receiver() {
    let t = Transaction::new_coinbase("alice", "");
    assert_eq!(t.inputs[0].script_sig, "Reward to 'alice'");
}

#[test]
fn coinbase_ids_differ_by_receiver() {
    let a = Transaction::new_coinbase("A", "m");
    let b = Transaction::new_coinbase("B", "m");
    assert_ne!(a.id, b.id);
}

#[test]
fn transaction_with_normal_input_is_not_coinbase() {
    let t = Transaction::new(
        vec![TrxInput::new(vec![1, 2], 0, "A".to_string())],
        vec![TrxOutput::new(3, "B".to_string())],
    );
    assert!(!t.is_coinbase());
    let empty_id_normal_index = Transaction::new(
        vec![TrxInput::new(vec![], 0, "A".to_string())],
        vec![],
    );
    assert!(!empty_id_normal_index.is_coinbase());
    let two_inputs = Transaction::new(
        vec![
            TrxInput::new(vec![], -1, "A".to_string()),
            TrxInput::new(vec![], -1, "A".to_string()),
        ],
        vec![],
    );
    assert!(!two_inputs.is_coinbase());
    let sentinel = Transaction::new(vec![TrxInput::new(vec![], -1, "x".to_string())], vec![]);
    assert!(sentinel.is_coinbase());
    let named = Transaction::new(vec![TrxInput::new(vec![5], -1, "x".to_string())], vec![]);
    assert!(!named.is_coinbase());
}

#[test]
fn new_transaction_id_is_digest_of_encoding() {
    let t = Transaction::new(
        vec![TrxInput::new(vec![9; 32], 1, "A".to_string())],
        vec![TrxOutput::new(4, "B".to_string()), TrxOutput::new(6, "A".to_string())],
    );
    assert_eq!(t.id.len(), 32);
    assert_eq!(t.id, id_of(&t));
}

#[test]
fn record_encoding_layout() {
    let t = Transaction {
        id: vec![],
        inputs: vec![TrxInput::new(vec![1, 2], -1, "x".to_string())],
        outputs: vec![TrxOutput::new(10, "y".to_string())],
    };
    let mut out = Vec::new();
    append_transaction(&mut out, &t);
    let mut expected: Vec<u8> = vec![0; 8];
    expected.extend_from_slice(&[1, 0, 0, 0, 0, 0, 0, 0]);
    expected.extend_from_slice(&[2, 0, 0, 0, 0, 0, 0, 0, 1, 2]);
    expected.extend_from_slice(&[0xff; 8]);
    expected.extend_from_slice(&[1, 0, 0, 0, 0, 0, 0, 0, b'x']);
    expected.extend_from_slice(&[1, 0, 0, 0, 0, 0, 0, 0]);
    expected.extend_from_slice(&[10, 0, 0, 0, 0, 0, 0, 0]);
    expected.extend_from_slice(&[1, 0, 0, 0, 0, 0, 0, 0, b'y']);
    assert_eq!(out, expected);
}

#[test]
fn credentials_compare_exactly() {
    let i = TrxInput::new(vec![], 0, "key".to_string());
    assert!(i.can_unlock_output_with("key"));
    assert!(!i.can_unlock_output_with("ke"));
    let o = TrxOutput::new(1, "addr".to_string());
    assert!(o.can_be_unlocked_with("addr"));
    assert!(!o.can_be_unlocked_with("Addr"));
}

#[test]
fn clone_keeps_fields() {
    let t = Transaction::new_coinbase("A", "");
    let c = t.clone();
    assert_eq!(c.id, t.id);
    assert_eq!(c.inputs[0].script_sig, t.inputs[0].script_sig);
    assert_eq!(c.outputs[0].value, t.outputs[0].value);
}
