use simple_ctv::ctv_scripts::{
    calc_ctv_hash, create_ctv_address, ctv_script, spend_ctv, ScriptVariant,
};
use simple_ctv::tx::{build_parent_tx, OutPoint, Transaction, TxIn, TxOut};

fn p2tr_like_script(fill: u8) -> Vec<u8> {
    let mut s = vec![0x51, 0x20];
    s.extend(std::iter::repeat(fill).take(32));
    s
}

fn literal_outputs() -> Vec<TxOut> {
    vec![
        TxOut { value: 1337, script_pubkey: p2tr_like_script(0x11) },
        TxOut { value: 240, script_pubkey: p2tr_like_script(0x22) },
    ]
}

fn unsigned_spend(outputs: Vec<TxOut>) -> Transaction {
    Transaction {
        version: 3,
        lock_time: 0,
        input: vec![TxIn {
            previous_output: OutPoint { txid: [0x42u8; 32], vout: 0 },
            script_sig: Vec::new(),
            sequence: 0xfffffffd,
            witness: Vec::new(),
        }],
        output: outputs,
    }
}

fn verify_control_block(
    info: &bitcoin::taproot::TaprootSpendInfo,
    script_bytes: &[u8],
    control_bytes: &[u8],
) -> bool {
    let secp = bitcoin::key::Secp256k1::new();
    let control = bitcoin::taproot::ControlBlock::decode(control_bytes).unwrap();
    let script = bitcoin::ScriptBuf::from_bytes(script_bytes.to_vec());
    control.verify_taproot_commitment(&secp, info.output_key().to_inner(), &script)
}

#[test]
fn end_to_end_literal_scenario() {
    let outputs = literal_outputs();
    let hash = calc_ctv_hash(&outputs, None);
    assert_eq!(hash.len(), 32);

    let script = ctv_script(hash, ScriptVariant::Minimal);
    let mut expected = vec![0x20u8];
    expected.extend(hash);
    expected.push(0xb3);
    assert_eq!(script, expected);

    let info = create_ctv_address(hash, ScriptVariant::Minimal).unwrap();
    let address =
        bitcoin::Address::p2tr_tweaked(info.output_key(), bitcoin::Network::Regtest);
    assert!(address.to_string().starts_with("bcrt1p"));

    let spent = spend_ctv(unsigned_spend(outputs), &info, hash, ScriptVariant::Minimal).unwrap();
    assert_eq!(spent.input.len(), 1);
    let witness = &spent.input[0].witness;
    assert_eq!(witness.len(), 2);
    assert_eq!(witness[0], script);
    assert_eq!(witness[1].len(), 33);
    assert!(verify_control_block(&info, &witness[0], &witness[1]));
}

#[test]
fn end_to_end_withdrop_variant() {
    let outputs = literal_outputs();
    let hash = calc_ctv_hash(&outputs, None);
    let script = ctv_script(hash, ScriptVariant::WithDrop);
    let info = create_ctv_address(hash, ScriptVariant::WithDrop).unwrap();
    let spent = spend_ctv(unsigned_spend(outputs), &info, hash, ScriptVariant::WithDrop).unwrap();
    let witness = &spent.input[0].witness;
    assert_eq!(witness.len(), 3);
    assert_eq!(witness[0], hash.to_vec());
    assert_eq!(witness[1], script);
    assert_eq!(witness[2].len(), 33);
    assert!(verify_control_block(&info, &witness[1], &witness[2]));
}

#[test]
fn derivations_with_fresh_keys_both_valid() {
    let outputs = literal_outputs();
    let hash = calc_ctv_hash(&outputs, None);
    let info1 = create_ctv_address(hash, ScriptVariant::Minimal).unwrap();
    let info2 = create_ctv_address(hash, ScriptVariant::Minimal).unwrap();
    assert_ne!(info1.output_key(), info2.output_key());
    let script = ctv_script(hash, ScriptVariant::Minimal);
    let spent1 = spend_ctv(unsigned_spend(literal_outputs()), &info1, hash, ScriptVariant::Minimal)
        .unwrap();
    let spent2 = spend_ctv(unsigned_spend(literal_outputs()), &info2, hash, ScriptVariant::Minimal)
        .unwrap();
    assert!(verify_control_block(&info1, &script, &spent1.input[0].witness[1]));
    assert!(verify_control_block(&info2, &script, &spent2.input[0].witness[1]));
}

#[test]
fn independent_spend_infos_give_identical_script_items() {
    let outputs = literal_outputs();
    let hash = calc_ctv_hash(&outputs, None);
    let info1 = create_ctv_address(hash, ScriptVariant::Minimal).unwrap();
    let info2 = create_ctv_address(hash, ScriptVariant::Minimal).unwrap();
    let spent1 = spend_ctv(unsigned_spend(literal_outputs()), &info1, hash, ScriptVariant::Minimal)
        .unwrap();
    let spent2 = spend_ctv(unsigned_spend(literal_outputs()), &info2, hash, ScriptVariant::Minimal)
        .unwrap();
    let w1 = &spent1.input[0].witness;
    let w2 = &spent2.input[0].witness;
    assert_eq!(w1.len(), w2.len());
    assert_eq!(w1[0], w2[0]);
    assert!(verify_control_block(&info1, &w1[0], &w1[1]));
    assert!(verify_control_block(&info2, &w2[0], &w2[1]));
}

#[test]
fn spend_fails_on_variant_mismatch() {
    let outputs = literal_outputs();
    let hash = calc_ctv_hash(&outputs, None);
    let info = create_ctv_address(hash, ScriptVariant::Minimal).unwrap();
    let r = spend_ctv(unsigned_spend(outputs), &info, hash, ScriptVariant::WithDrop);
    assert!(r.is_err());
}

#[test]
fn parent_tx_spends_funding_outpoint() {
    let outputs = literal_outputs();
    let txid = [0x9au8; 32];
    let parent = build_parent_tx(&txid, 0, outputs);
    assert_eq!(parent.version, 3);
    assert_eq!(parent.lock_time, 0);
    assert_eq!(parent.input.len(), 1);
    assert_eq!(parent.input[0].previous_output.txid, txid);
    assert_eq!(parent.input[0].previous_output.vout, 0);
    assert_eq!(parent.input[0].sequence, 0xfffffffd);
    assert!(parent.input[0].witness.is_empty());
    assert_eq!(parent.output.len(), 2);
    assert_eq!(parent.output[0].value, 1337);
    assert_eq!(parent.output[1].value, 240);
}
