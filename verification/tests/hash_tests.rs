use bitcoin::consensus::Encodable;
use simple_ctv::ctv_scripts::calc_ctv_hash;
use simple_ctv::tx::TxOut;

fn sha(b: &[u8]) -> [u8; 32] {
    let h = <bitcoin::hashes::sha256::Hash as bitcoin::hashes::Hash>::hash(b);
    <bitcoin::hashes::sha256::Hash as bitcoin::hashes::Hash>::to_byte_array(h)
}

fn p2tr_like_script(fill: u8) -> Vec<u8> {
    let mut s = vec![0x51, 0x20];
    s.extend(std::iter::repeat(fill).take(32));
    s
}

fn sample_outputs() -> Vec<TxOut> {
    vec![
        TxOut { value: 1337, script_pubkey: p2tr_like_script(0x11) },
        TxOut { value: 240, script_pubkey: p2tr_like_script(0x22) },
    ]
}

/// The hash recomputed the way a consensus-faithful peer would: the same
/// template bytes assembled with the bitcoin crate's own encoder and hasher.
fn reference_hash(outputs: &[TxOut], timeout: Option<u32>) -> [u8; 32] {
    let mut buffer: Vec<u8> = Vec::new();
    buffer.extend(3_i32.to_le_bytes());
    buffer.extend(0_i32.to_le_bytes());
    buffer.extend(1_u32.to_le_bytes());
    let seq_val: u32 = timeout.unwrap_or(0xfffffffd);
    buffer.extend(sha(&seq_val.to_le_bytes()));
    buffer.extend((outputs.len() as u32).to_le_bytes());
    let mut output_bytes: Vec<u8> = Vec::new();
    for o in outputs {
        let btc_out = bitcoin::TxOut {
            value: bitcoin::Amount::from_sat(o.value),
            script_pubkey: bitcoin::ScriptBuf::from_bytes(o.script_pubkey.clone()),
        };
        btc_out.consensus_encode(&mut output_bytes).unwrap();
    }
    buffer.extend(sha(&output_bytes));
    buffer.extend(0_u32.to_le_bytes());
    sha(&buffer)
}

#[test]
fn hash_is_deterministic_across_calls() {
    let outs = sample_outputs();
    let h1 = calc_ctv_hash(&outs, None);
    let h2 = calc_ctv_hash(&outs, None);
    assert_eq!(h1, h2);
    let h3 = calc_ctv_hash(&outs, Some(144));
    let h4 = calc_ctv_hash(&outs, Some(144));
    assert_eq!(h3, h4);
}

#[test]
fn hash_matches_reference_construction() {
    let outs = sample_outputs();
    assert_eq!(calc_ctv_hash(&outs, None), reference_hash(&outs, None));
    assert_eq!(calc_ctv_hash(&outs, Some(7)), reference_hash(&outs, Some(7)));
    let empty: Vec<TxOut> = vec![];
    assert_eq!(calc_ctv_hash(&empty, None), reference_hash(&empty, None));
}

#[test]
fn hash_is_sensitive_to_value() {
    let outs = sample_outputs();
    let mut changed = sample_outputs();
    changed[0].value = 1338;
    assert_ne!(calc_ctv_hash(&outs, None), calc_ctv_hash(&changed, None));
}

#[test]
fn hash_is_sensitive_to_script() {
    let outs = sample_outputs();
    let mut changed = sample_outputs();
    changed[1].script_pubkey[10] ^= 0xff;
    assert_ne!(calc_ctv_hash(&outs, None), calc_ctv_hash(&changed, None));
}

#[test]
fn hash_is_sensitive_to_order() {
    let outs = sample_outputs();
    let mut swapped = sample_outputs();
    swapped.reverse();
    assert_ne!(calc_ctv_hash(&outs, None), calc_ctv_hash(&swapped, None));
}

#[test]
fn hash_is_sensitive_to_count() {
    let outs = sample_outputs();
    let mut more = sample_outputs();
    more.push(TxOut { value: 5000, script_pubkey: p2tr_like_script(0x33) });
    assert_ne!(calc_ctv_hash(&outs, None), calc_ctv_hash(&more, None));
}

#[test]
fn hash_is_sensitive_to_sequence_policy() {
    let outs = sample_outputs();
    let h_none = calc_ctv_hash(&outs, None);
    let h_timeout = calc_ctv_hash(&outs, Some(144));
    let h_other_timeout = calc_ctv_hash(&outs, Some(145));
    assert_ne!(h_none, h_timeout);
    assert_ne!(h_timeout, h_other_timeout);
}

#[test]
fn boundary_output_sets_hash_distinctly() {
    let empty: Vec<TxOut> = vec![];
    let single = vec![TxOut { value: 1, script_pubkey: p2tr_like_script(0x44) }];
    let mut many: Vec<TxOut> = Vec::new();
    for i in 0..36u64 {
        many.push(TxOut { value: 1000 + i, script_pubkey: p2tr_like_script(i as u8) });
    }
    let h_empty = calc_ctv_hash(&empty, None);
    let h_single = calc_ctv_hash(&single, None);
    let h_many = calc_ctv_hash(&many, None);
    assert_ne!(h_empty, h_single);
    assert_ne!(h_empty, h_many);
    assert_ne!(h_single, h_many);
    assert_eq!(h_empty, reference_hash(&empty, None));
    assert_eq!(h_single, reference_hash(&single, None));
    assert_eq!(h_many, reference_hash(&many, None));
}
