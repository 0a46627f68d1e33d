use simple_ctv::tx::{build_child_tx, serialize_tx, serialize_tx_hex, OutPoint, Transaction, TxIn,
    TxOut};

fn op_return_output() -> TxOut {
    TxOut { value: 0, script_pubkey: vec![0x6a, 0x01, 0x42] }
}

fn to_bitcoin_tx(tx: &Transaction) -> bitcoin::Transaction {
    bitcoin::Transaction {
        version: bitcoin::transaction::Version(tx.version),
        lock_time: bitcoin::absolute::LockTime::from_consensus(tx.lock_time),
        input: tx
            .input
            .iter()
            .map(|i| bitcoin::TxIn {
                previous_output: bitcoin::OutPoint {
                    txid: <bitcoin::Txid as bitcoin::hashes::Hash>::from_byte_array(
                        i.previous_output.txid,
                    ),
                    vout: i.previous_output.vout,
                },
                script_sig: bitcoin::ScriptBuf::from_bytes(i.script_sig.clone()),
                sequence: bitcoin::Sequence(i.sequence),
                witness: bitcoin::Witness::from_slice(&i.witness),
            })
            .collect(),
        output: tx
            .output
            .iter()
            .map(|o| bitcoin::TxOut {
                value: bitcoin::Amount::from_sat(o.value),
                script_pubkey: bitcoin::ScriptBuf::from_bytes(o.script_pubkey.clone()),
            })
            .collect(),
    }
}

fn sample_tx(with_witness: bool) -> Transaction {
    let witness = if with_witness {
        vec![vec![0xaa; 34], vec![0xbb; 33]]
    } else {
        Vec::new()
    };
    Transaction {
        version: 3,
        lock_time: 0,
        input: vec![TxIn {
            previous_output: OutPoint { txid: [0x42u8; 32], vout: 1 },
            script_sig: Vec::new(),
            sequence: 0xfffffffd,
            witness,
        }],
        output: vec![
            TxOut { value: 1337, script_pubkey: vec![0x51, 0x02, 0x4e, 0x73] },
            TxOut { value: 0, script_pubkey: vec![0x6a, 0x01, 0x99] },
        ],
    }
}

#[test]
fn serialization_matches_bitcoin_consensus_with_witness() {
    let tx = sample_tx(true);
    let ours = serialize_tx(&tx);
    let theirs = bitcoin::consensus::encode::serialize(&to_bitcoin_tx(&tx));
    assert_eq!(ours, theirs);
}

#[test]
fn serialization_matches_bitcoin_consensus_without_witness() {
    let tx = sample_tx(false);
    let ours = serialize_tx(&tx);
    let theirs = bitcoin::consensus::encode::serialize(&to_bitcoin_tx(&tx));
    assert_eq!(ours, theirs);
}

#[test]
fn hex_serialization_matches_bitcoin_hex() {
    let tx = sample_tx(true);
    let ours = String::from_utf8(serialize_tx_hex(&tx)).unwrap();
    let theirs = bitcoin::consensus::encode::serialize_hex(&to_bitcoin_tx(&tx));
    assert_eq!(ours, theirs);
}

#[test]
fn child_tx_spends_anchor_outpoint() {
    let parent_txid = [0x07u8; 32];
    let child = build_child_tx(&parent_txid, 1, Vec::new(), vec![op_return_output()]);
    assert_eq!(child.version, 3);
    assert_eq!(child.lock_time, 0);
    assert_eq!(child.input.len(), 1);
    assert_eq!(child.input[0].previous_output.txid, parent_txid);
    assert_eq!(child.input[0].previous_output.vout, 1);
    assert_eq!(child.input[0].sequence, 0xffffffff);
    assert_eq!(child.output.len(), 1);
    assert_eq!(child.output[0].value, 0);
}

#[test]
fn child_tx_includes_fee_reserve_inputs() {
    let parent_txid = [0x07u8; 32];
    let fee = vec![OutPoint { txid: [0x21u8; 32], vout: 3 }];
    let child = build_child_tx(&parent_txid, 1, fee, vec![op_return_output()]);
    assert_eq!(child.input.len(), 2);
    assert_eq!(child.input[0].previous_output.txid, parent_txid);
    assert_eq!(child.input[0].previous_output.vout, 1);
    assert_eq!(child.input[1].previous_output.txid, [0x21u8; 32]);
    assert_eq!(child.input[1].previous_output.vout, 3);
    assert_eq!(child.input[1].sequence, 0xffffffff);
    assert!(child.input[1].witness.is_empty());
}

#[test]
fn multi_input_serialization_matches_bitcoin_consensus() {
    let mut tx = sample_tx(true);
    tx.input.push(TxIn {
        previous_output: OutPoint { txid: [0x13u8; 32], vout: 0 },
        script_sig: vec![0x00, 0x14],
        sequence: 0xffffffff,
        witness: vec![vec![0x01]],
    });
    let ours = serialize_tx(&tx);
    let theirs = bitcoin::consensus::encode::serialize(&to_bitcoin_tx(&tx));
    assert_eq!(ours, theirs);
}
