//! The covenant core: the template hash that commits to an output set and
//! a sequence policy, the script that carries the commitment, the Taproot
//! address derivation for that script, and the witness assembly that spends
//! it.

use vstd::prelude::*;
use vstd::array::array_as_slice;
use crate::digest::{sha256, sha256_of};
use crate::encode::{
    copy_bytes, lemma_concat_parts_equal, lemma_u32_le_injective, push_bytes, push_u32_le, u32_le,
};
use crate::error::CtvError;
use crate::taproot::{control_block_bytes, fresh_internal_key, spend_info_paths,
    taproot_single_leaf};
use crate::tx::{
    ins_view, lemma_outputs_bytes_injective, lemma_outputs_bytes_push, outputs_bytes,
    outputs_encodable, outs_view, push_txout, Transaction, TransactionV, TxIn, TxInV, TxOut,
    TxOutV,
};

verus! {

/// The two shapes of the commitment script. Creation and spend must use
/// the same variant: the script bytes differ, so the leaf hash and the
/// derived address differ too.
#[derive(Clone, Copy, Debug, PartialEq, Eq, Structural)]
pub enum ScriptVariant {
    /// `push(hash) OP_CTV`, spent with a two-item witness.
    Minimal,
    /// `push(hash) OP_CTV OP_DROP`, spent with the commitment hash as an
    /// extra leading witness item.
    WithDrop,
}

/// The commitment script bytes: a 32-byte push of the commitment hash
/// (opcode 0x20), then OP_NOP4, which CTV-aware validators read as
/// OP_CHECKTEMPLATEVERIFY, and for the `WithDrop` variant a trailing
/// OP_DROP.
pub open spec fn ctv_script_bytes(hash: Seq<u8>, variant: ScriptVariant) -> Seq<u8> {
    seq![0x20u8] + hash + seq![0xb3u8] + (match variant {
        ScriptVariant::Minimal => Seq::empty(),
        ScriptVariant::WithDrop => seq![0x75u8],
    })
}

/// Builds the commitment script for a commitment hash.
pub fn ctv_script(ctv_hash: [u8; 32], variant: ScriptVariant) -> (r: Vec<u8>)
    ensures
        r@ == ctv_script_bytes(ctv_hash@, variant),
{
    let mut v: Vec<u8> = Vec::new();
    v.push(0x20);
    push_bytes(&mut v, array_as_slice(&ctv_hash));
    v.push(0xb3);
    match variant {
        ScriptVariant::Minimal => {},
        ScriptVariant::WithDrop => {
            v.push(0x75);
        },
    }
    assert(v@ =~= ctv_script_bytes(ctv_hash@, variant));
    v
}

/// The 4-byte sequence value a policy puts in force: the explicit relative
/// timeout, or the constant that enables replacement with no timelock.
pub open spec fn sequence_value(timeout: Option<u32>) -> u32 {
    match timeout {
        Some(t) => t,
        None => 0xfffffffdu32,
    }
}

/// The hashed transaction template: version 3 and locktime 0, one input,
/// the digest of the sequence value, the output count, the digest of the
/// consensus-encoded outputs, and input index 0, every integer in 4-byte
/// little-endian form.
pub open spec fn template_bytes(outputs: Seq<TxOutV>, timeout: Option<u32>) -> Seq<u8> {
    u32_le(3) + u32_le(0) + u32_le(1) + sha256_of(u32_le(sequence_value(timeout))) + u32_le(
        outputs.len() as u32,
    ) + sha256_of(outputs_bytes(outputs)) + u32_le(0)
}

/// The commitment hash: the SHA-256 digest of the template.
pub open spec fn ctv_hash_of(outputs: Seq<TxOutV>, timeout: Option<u32>) -> Seq<u8> {
    sha256_of(template_bytes(outputs, timeout))
}

/// Hashes a committed output set and sequence policy into the 32-byte
/// commitment. A pure function of its inputs: any change to output order,
/// count, value, script bytes or sequence policy changes the template.
pub fn calc_ctv_hash(outputs: &[TxOut], timeout: Option<u32>) -> (r: [u8; 32])
    requires
        outputs@.len() <= u32::MAX,
    ensures
        r@ == ctv_hash_of(outs_view(outputs@), timeout),
{
    let mut buffer: Vec<u8> = Vec::new();
    push_u32_le(&mut buffer, 3);
    push_u32_le(&mut buffer, 0);
    push_u32_le(&mut buffer, 1);

    let seq_val: u32 = match timeout {
        Some(timeout_value) => timeout_value,
        None => 0xfffffffd,
    };
    let mut seq_bytes: Vec<u8> = Vec::new();
    push_u32_le(&mut seq_bytes, seq_val);
    let seq_hash = sha256(&seq_bytes);
    push_bytes(&mut buffer, array_as_slice(&seq_hash));

    push_u32_le(&mut buffer, outputs.len() as u32);

    let mut output_bytes: Vec<u8> = Vec::new();
    let mut i: usize = 0;
    assert(outs_view(outputs@).take(0) =~= Seq::<TxOutV>::empty());
    while i < outputs.len()
        invariant
            i <= outputs@.len(),
            output_bytes@ == outputs_bytes(outs_view(outputs@).take(i as int)),
        decreases outputs@.len() - i,
    {
        push_txout(&mut output_bytes, &outputs[i]);
        proof {
            assert(outs_view(outputs@).take(i + 1) =~= outs_view(outputs@).take(i as int).push(
                outputs@[i as int]@));
            lemma_outputs_bytes_push(outs_view(outputs@).take(i as int), outputs@[i as int]@);
            assert(output_bytes@ =~= outputs_bytes(outs_view(outputs@).take(i + 1)));
        }
        i += 1;
    }
    assert(outs_view(outputs@).take(outputs@.len() as int) =~= outs_view(outputs@));
    let out_hash = sha256(&output_bytes);
    push_bytes(&mut buffer, array_as_slice(&out_hash));

    push_u32_le(&mut buffer, 0);
    assert(buffer@ =~= template_bytes(outs_view(outputs@), timeout));
    sha256(&buffer)
}

/// Derives the Taproot spend info that embeds the commitment script as the
/// sole leaf under a fresh, provably unspendable internal key. The result
/// is always `Ok`, and what it holds is pinned: its one tapscript leaf is
/// the commitment script for this hash and variant, at the root, with an
/// empty merkle path. The address formatter and `spend_ctv` consume it.
pub fn create_ctv_address(ctv_hash: [u8; 32], variant: ScriptVariant) -> (r: Result<
    bitcoin::taproot::TaprootSpendInfo,
    CtvError,
>)
    ensures
        r is Ok,
        r matches Ok(si) ==> spend_info_paths(si) == map![
            ctv_script_bytes(ctv_hash@, variant) => 0nat,
        ],
{
    let internal_key = fresh_internal_key();
    let script = ctv_script(ctv_hash, variant);
    match taproot_single_leaf(&script, internal_key) {
        Some(info) => Ok(info),
        None => Err(CtvError::Derivation),
    }
}

/// The witness items that prove the script path: the commitment script and
/// the control block, and for the `WithDrop` variant the commitment hash
/// first. No signature: CTV needs only correct commitment disclosure.
pub open spec fn spend_witness(hash: Seq<u8>, variant: ScriptVariant, cb: Seq<u8>) -> Seq<
    Seq<u8>,
> {
    match variant {
        ScriptVariant::Minimal => seq![ctv_script_bytes(hash, variant), cb],
        ScriptVariant::WithDrop => seq![hash, ctv_script_bytes(hash, variant), cb],
    }
}

/// One input with the spend witness appended to its stack; all other
/// fields unchanged.
pub open spec fn spent_txin(i: TxInV, hash: Seq<u8>, variant: ScriptVariant, cb: Seq<u8>)
    -> TxInV {
    TxInV {
        previous_output: i.previous_output,
        script_sig: i.script_sig,
        sequence: i.sequence,
        witness: i.witness + spend_witness(hash, variant, cb),
    }
}

/// A list of inputs, each with the spend witness appended.
pub open spec fn spent_ins(ins: Seq<TxInV>, hash: Seq<u8>, variant: ScriptVariant, cb: Seq<u8>)
    -> Seq<TxInV> {
    ins.map_values(|i: TxInV| spent_txin(i, hash, variant, cb))
}

/// The transaction with the spend witness appended to every input;
/// version, locktime and outputs unchanged.
pub open spec fn spent_tx_view(
    t: TransactionV,
    hash: Seq<u8>,
    variant: ScriptVariant,
    cb: Seq<u8>,
) -> TransactionV {
    TransactionV {
        version: t.version,
        lock_time: t.lock_time,
        input: spent_ins(t.input, hash, variant, cb),
        output: t.output,
    }
}

/// Appends the spend witness, with the given control block, to every input
/// of the unsigned transaction.
pub fn attach_ctv_witness(
    unsigned_tx: Transaction,
    ctv_hash: [u8; 32],
    variant: ScriptVariant,
    control_block: &Vec<u8>,
) -> (r: Transaction)
    ensures
        r@ == spent_tx_view(unsigned_tx@, ctv_hash@, variant, control_block@),
{
    let script = ctv_script(ctv_hash, variant);
    let ghost orig = unsigned_tx@;
    let Transaction { version, lock_time, input, output } = unsigned_tx;
    let ghost orig_ins = input@;
    let mut rest = input;
    let mut done: Vec<TxIn> = Vec::new();
    while rest.len() > 0
        invariant
            done@.len() + rest@.len() == orig_ins.len(),
            rest@ == orig_ins.skip(done@.len() as int),
            ins_view(done@) == spent_ins(
                ins_view(orig_ins).take(done@.len() as int), ctv_hash@, variant, control_block@),
            script@ == ctv_script_bytes(ctv_hash@, variant),
        decreases rest@.len(),
    {
        let ghost k = done@.len() as int;
        let mut txin = rest.remove(0);
        let ghost pre = txin@;
        proof {
            assert(orig_ins.skip(k)[0] == orig_ins[k]);
            assert(orig_ins.skip(k).remove(0) =~= orig_ins.skip(k + 1));
        }
        match variant {
            ScriptVariant::Minimal => {},
            ScriptVariant::WithDrop => {
                txin.witness.push(copy_bytes(array_as_slice(&ctv_hash)));
            },
        }
        txin.witness.push(copy_bytes(script.as_slice()));
        txin.witness.push(copy_bytes(control_block.as_slice()));
        proof {
            assert(txin@.witness =~~= pre.witness + spend_witness(
                ctv_hash@, variant, control_block@));
            assert(txin@ =~~= spent_txin(pre, ctv_hash@, variant, control_block@));
            assert(pre == ins_view(orig_ins)[k]);
            assert(ins_view(done@.push(txin)) =~= ins_view(done@).push(txin@));
            assert(spent_ins(ins_view(orig_ins).take(k + 1), ctv_hash@, variant, control_block@)
                =~~= spent_ins(ins_view(orig_ins).take(k), ctv_hash@, variant, control_block@)
                    .push(spent_txin(ins_view(orig_ins)[k], ctv_hash@, variant, control_block@)));
            assert(ins_view(done@.push(txin)) =~~= spent_ins(
                ins_view(orig_ins).take(k + 1), ctv_hash@, variant, control_block@));
        }
        done.push(txin);
    }
    proof {
        assert(ins_view(orig_ins).take(orig_ins.len() as int) =~= ins_view(orig_ins));
    }
    let r = Transaction { version, lock_time, input: done, output };
    proof {
        assert(r@ =~~= spent_tx_view(orig, ctv_hash@, variant, control_block@));
    }
    r
}

/// Attaches the script-path witness to every input of the unsigned
/// transaction, proving the leaf against the given spend info. Succeeds
/// exactly when the spend info holds the commitment script for this hash
/// and variant as a tapscript leaf — in particular always against a spend
/// info from `create_ctv_address` over the same hash and variant — and
/// fails with a derivation error otherwise, a creation/spend mismatch.
pub fn spend_ctv(
    unsigned_tx: Transaction,
    taproot_spend_info: &bitcoin::taproot::TaprootSpendInfo,
    ctv_hash: [u8; 32],
    variant: ScriptVariant,
) -> (r: Result<Transaction, CtvError>)
    ensures
        r is Ok <==> spend_info_paths(*taproot_spend_info).dom().contains(ctv_script_bytes(
            ctv_hash@, variant)),
        r matches Ok(t) ==> exists|cb: Seq<u8>|
            #![auto]
            cb.len() == 33 + 32 * spend_info_paths(*taproot_spend_info)[ctv_script_bytes(
                ctv_hash@, variant)] && t@ == spent_tx_view(unsigned_tx@, ctv_hash@, variant, cb),
        r matches Err(e) ==> e == CtvError::Derivation,
{
    let script = ctv_script(ctv_hash, variant);
    match control_block_bytes(taproot_spend_info, &script) {
        Some(cb) => {
            let ghost cbv = cb@;
            let t = attach_ctv_witness(unsigned_tx, ctv_hash, variant, &cb);
            proof {
                assert(cbv.len() == 33 + 32 * spend_info_paths(*taproot_spend_info)[
                    ctv_script_bytes(ctv_hash@, variant)] && t@ == spent_tx_view(
                    unsigned_tx@, ctv_hash@, variant, cbv));
            }
            Ok(t)
        },
        None => Err(CtvError::Derivation),
    }
}

/// Round trip: what derivation promises is what the spend needs. A spend
/// info whose one tapscript leaf is the commitment script at the root —
/// what `create_ctv_address` ensures of its result, whatever internal key
/// the randomness gave it — holds that script as a leaf, so `spend_ctv`
/// over the same hash and variant succeeds, and the shortest merkle path
/// is empty, so the attached control block is exactly 33 bytes. Two
/// independent derivations from one hash thus both admit the spend, whose
/// witness differs between them only in the control-block item.
pub proof fn lemma_derived_spend_info_admits_spend(
    si: bitcoin::taproot::TaprootSpendInfo,
    hash: Seq<u8>,
    variant: ScriptVariant,
)
    requires
        spend_info_paths(si) == map![ctv_script_bytes(hash, variant) => 0nat],
    ensures
        spend_info_paths(si).dom().contains(ctv_script_bytes(hash, variant)),
        spend_info_paths(si)[ctv_script_bytes(hash, variant)] == 0,
{
    assert(map![ctv_script_bytes(hash, variant) => 0nat].dom().contains(ctv_script_bytes(
        hash, variant)));
}

/// Determinism: the commitment hash is a function of the output set and
/// the sequence policy alone, so any two computations over the same
/// inputs return the same 32 bytes.
pub proof fn lemma_ctv_hash_deterministic(
    outputs: Seq<TxOutV>,
    timeout: Option<u32>,
    r1: Seq<u8>,
    r2: Seq<u8>,
)
    requires
        r1 == ctv_hash_of(outputs, timeout),
        r2 == ctv_hash_of(outputs, timeout),
    ensures
        r1 == r2,
{
}

/// Sensitivity to the output count: under one sequence policy, output
/// sets of different sizes — among them the empty, the single-output and
/// the many-output set — give different templates, and so different
/// preimages of the commitment hash.
pub proof fn lemma_template_count_sensitive(
    o1: Seq<TxOutV>,
    o2: Seq<TxOutV>,
    timeout: Option<u32>,
)
    requires
        o1.len() <= u32::MAX,
        o2.len() <= u32::MAX,
        o1.len() != o2.len(),
    ensures
        template_bytes(o1, timeout) != template_bytes(o2, timeout),
{
    let p = u32_le(3) + u32_le(0) + u32_le(1) + sha256_of(u32_le(sequence_value(timeout)));
    let tail1 = u32_le(o1.len() as u32) + (sha256_of(outputs_bytes(o1)) + u32_le(0));
    let tail2 = u32_le(o2.len() as u32) + (sha256_of(outputs_bytes(o2)) + u32_le(0));
    assert(template_bytes(o1, timeout) =~= p + tail1);
    assert(template_bytes(o2, timeout) =~= p + tail2);
    if template_bytes(o1, timeout) == template_bytes(o2, timeout) {
        lemma_concat_parts_equal(p, p, tail1, tail2);
        lemma_concat_parts_equal(
            u32_le(o1.len() as u32),
            u32_le(o2.len() as u32),
            sha256_of(outputs_bytes(o1)) + u32_le(0),
            sha256_of(outputs_bytes(o2)) + u32_le(0),
        );
        lemma_u32_le_injective(o1.len() as u32, o2.len() as u32);
    }
}

/// Sensitivity to the sequence policy: policies with different sequence
/// values give different preimages to the policy digest inside the
/// template. (That the digests, and so the commitment hashes, then differ
/// is the collision resistance of SHA-256, which lives in the outside
/// crate and is not restated here.)
pub proof fn lemma_policy_preimage_sensitive(t1: Option<u32>, t2: Option<u32>)
    requires
        sequence_value(t1) != sequence_value(t2),
    ensures
        u32_le(sequence_value(t1)) != u32_le(sequence_value(t2)),
{
    if u32_le(sequence_value(t1)) == u32_le(sequence_value(t2)) {
        lemma_u32_le_injective(sequence_value(t1), sequence_value(t2));
    }
}

/// The spend witness is bound to the script and merkle path, not to the
/// internal key: two witnesses for the same hash and variant, built from
/// any two control blocks (for example, from spend infos derived with two
/// different random keys), agree on every item but the final control
/// block.
pub proof fn lemma_spend_witness_key_independent(
    hash: Seq<u8>,
    variant: ScriptVariant,
    cb1: Seq<u8>,
    cb2: Seq<u8>,
)
    ensures
        spend_witness(hash, variant, cb1).len() == spend_witness(hash, variant, cb2).len(),
        spend_witness(hash, variant, cb1).drop_last() == spend_witness(
            hash, variant, cb2).drop_last(),
        spend_witness(hash, variant, cb1).last() == cb1,
        spend_witness(hash, variant, cb2).last() == cb2,
{
    assert(spend_witness(hash, variant, cb1).drop_last() =~~= spend_witness(
        hash, variant, cb2).drop_last());
}

/// Sensitivity, in full: two commitments that differ anywhere — in an
/// output's value or script, the output order, the output count, or the
/// sequence policy — have different templates, provided the two inner
/// digests do not collide on the parts that differ. The two hypotheses
/// state exactly the collision-freedom this consumes; that SHA-256 makes
/// them overwhelmingly likely is the outside crate's ground and is not
/// restated here.
pub proof fn lemma_template_sensitive(
    o1: Seq<TxOutV>,
    o2: Seq<TxOutV>,
    t1: Option<u32>,
    t2: Option<u32>,
)
    requires
        o1.len() <= u32::MAX,
        o2.len() <= u32::MAX,
        outputs_encodable(o1),
        outputs_encodable(o2),
        o1 != o2 || sequence_value(t1) != sequence_value(t2),
        sha256_of(u32_le(sequence_value(t1))) == sha256_of(u32_le(sequence_value(t2)))
            ==> u32_le(sequence_value(t1)) == u32_le(sequence_value(t2)),
        sha256_of(outputs_bytes(o1)) == sha256_of(outputs_bytes(o2)) ==> outputs_bytes(o1)
            == outputs_bytes(o2),
    ensures
        template_bytes(o1, t1) != template_bytes(o2, t2),
{
    if template_bytes(o1, t1) == template_bytes(o2, t2) {
        let p = u32_le(3) + u32_le(0) + u32_le(1);
        let d1 = sha256_of(u32_le(sequence_value(t1)));
        let d2 = sha256_of(u32_le(sequence_value(t2)));
        let f1 = sha256_of(outputs_bytes(o1));
        let f2 = sha256_of(outputs_bytes(o2));
        let rest1 = d1 + (u32_le(o1.len() as u32) + (f1 + u32_le(0)));
        let rest2 = d2 + (u32_le(o2.len() as u32) + (f2 + u32_le(0)));
        assert(template_bytes(o1, t1) =~= p + rest1);
        assert(template_bytes(o2, t2) =~= p + rest2);
        lemma_concat_parts_equal(p, p, rest1, rest2);
        lemma_concat_parts_equal(
            d1,
            d2,
            u32_le(o1.len() as u32) + (f1 + u32_le(0)),
            u32_le(o2.len() as u32) + (f2 + u32_le(0)),
        );
        lemma_concat_parts_equal(
            u32_le(o1.len() as u32),
            u32_le(o2.len() as u32),
            f1 + u32_le(0),
            f2 + u32_le(0),
        );
        lemma_concat_parts_equal(f1, f2, u32_le(0), u32_le(0));
        lemma_u32_le_injective(sequence_value(t1), sequence_value(t2));
        lemma_outputs_bytes_injective(o1, o2);
    }
}

/// Sensitivity carried to the commitment hash itself: under the same
/// collision-freedom as above, extended to the outer digest, two
/// commitments that differ anywhere have different 32-byte hashes.
pub proof fn lemma_ctv_hash_sensitive(
    o1: Seq<TxOutV>,
    o2: Seq<TxOutV>,
    t1: Option<u32>,
    t2: Option<u32>,
)
    requires
        o1.len() <= u32::MAX,
        o2.len() <= u32::MAX,
        outputs_encodable(o1),
        outputs_encodable(o2),
        o1 != o2 || sequence_value(t1) != sequence_value(t2),
        sha256_of(u32_le(sequence_value(t1))) == sha256_of(u32_le(sequence_value(t2)))
            ==> u32_le(sequence_value(t1)) == u32_le(sequence_value(t2)),
        sha256_of(outputs_bytes(o1)) == sha256_of(outputs_bytes(o2)) ==> outputs_bytes(o1)
            == outputs_bytes(o2),
        sha256_of(template_bytes(o1, t1)) == sha256_of(template_bytes(o2, t2))
            ==> template_bytes(o1, t1) == template_bytes(o2, t2),
    ensures
        ctv_hash_of(o1, t1) != ctv_hash_of(o2, t2),
{
    lemma_template_sensitive(o1, o2, t1, t2);
}

} // verus!
