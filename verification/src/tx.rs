//! The transaction model the covenant works on, and its consensus
//! serialization: little-endian integers, CompactSize length prefixes and
//! BIP-141 witness framing, stated byte for byte as spec functions and
//! produced by verified code.

use vstd::prelude::*;
use crate::encode::{
    compact_size, lemma_compact_size_prefix, lemma_concat_parts_equal, lemma_u64_le_injective,
    push_bytes, push_compact_size, push_u32_le, push_u64_le, u32_le, u64_le,
};
use crate::error::CtvError;

verus! {

/// A transaction output: an amount in satoshis and the script that locks it.
pub struct TxOut {
    pub value: u64,
    pub script_pubkey: Vec<u8>,
}

/// The mathematical shape of an output.
#[verifier::ext_equal]
pub ghost struct TxOutV {
    pub value: u64,
    pub script_pubkey: Seq<u8>,
}

impl View for TxOut {
    type V = TxOutV;

    open spec fn view(&self) -> TxOutV {
        TxOutV { value: self.value, script_pubkey: self.script_pubkey@ }
    }
}

/// A reference to the output of a prior transaction, by transaction id
/// (in internal byte order) and output index.
pub struct OutPoint {
    pub txid: [u8; 32],
    pub vout: u32,
}

/// The mathematical shape of an outpoint.
#[verifier::ext_equal]
pub ghost struct OutPointV {
    pub txid: Seq<u8>,
    pub vout: u32,
}

impl View for OutPoint {
    type V = OutPointV;

    open spec fn view(&self) -> OutPointV {
        OutPointV { txid: self.txid@, vout: self.vout }
    }
}

/// A transaction input: the outpoint it spends, a legacy script, a sequence
/// number, and the witness stack attached at spend time.
pub struct TxIn {
    pub previous_output: OutPoint,
    pub script_sig: Vec<u8>,
    pub sequence: u32,
    pub witness: Vec<Vec<u8>>,
}

/// The mathematical shape of an input.
#[verifier::ext_equal]
pub ghost struct TxInV {
    pub previous_output: OutPointV,
    pub script_sig: Seq<u8>,
    pub sequence: u32,
    pub witness: Seq<Seq<u8>>,
}

/// The sequences of bytes held by a list of byte vectors.
pub open spec fn bytes_view(s: Seq<Vec<u8>>) -> Seq<Seq<u8>> {
    s.map_values(|x: Vec<u8>| x@)
}

impl View for TxIn {
    type V = TxInV;

    open spec fn view(&self) -> TxInV {
        TxInV {
            previous_output: self.previous_output@,
            script_sig: self.script_sig@,
            sequence: self.sequence,
            witness: bytes_view(self.witness@),
        }
    }
}

/// A transaction: version, locktime, inputs and outputs.
pub struct Transaction {
    pub version: i32,
    pub lock_time: u32,
    pub input: Vec<TxIn>,
    pub output: Vec<TxOut>,
}

/// The mathematical shape of a transaction.
#[verifier::ext_equal]
pub ghost struct TransactionV {
    pub version: i32,
    pub lock_time: u32,
    pub input: Seq<TxInV>,
    pub output: Seq<TxOutV>,
}

/// The views of a list of outputs.
pub open spec fn outs_view(s: Seq<TxOut>) -> Seq<TxOutV> {
    s.map_values(|o: TxOut| o@)
}

/// The views of a list of inputs.
pub open spec fn ins_view(s: Seq<TxIn>) -> Seq<TxInV> {
    s.map_values(|i: TxIn| i@)
}

impl View for Transaction {
    type V = TransactionV;

    open spec fn view(&self) -> TransactionV {
        TransactionV {
            version: self.version,
            lock_time: self.lock_time,
            input: ins_view(self.input@),
            output: outs_view(self.output@),
        }
    }
}

/// The consensus encoding of one output: 8-byte little-endian value, then
/// the length-prefixed script.
pub open spec fn txout_bytes(o: TxOutV) -> Seq<u8> {
    u64_le(o.value) + compact_size(o.script_pubkey.len()) + o.script_pubkey
}

/// The concatenated consensus encodings of a list of outputs.
pub open spec fn outputs_bytes(outs: Seq<TxOutV>) -> Seq<u8>
    decreases outs.len(),
{
    if outs.len() == 0 {
        Seq::empty()
    } else {
        txout_bytes(outs[0]) + outputs_bytes(outs.drop_first())
    }
}

/// The consensus encoding of one input: outpoint, length-prefixed script,
/// sequence. The witness is framed separately (BIP-141).
pub open spec fn txin_bytes(i: TxInV) -> Seq<u8> {
    i.previous_output.txid + u32_le(i.previous_output.vout)
        + compact_size(i.script_sig.len()) + i.script_sig + u32_le(i.sequence)
}

/// The concatenated consensus encodings of a list of inputs.
pub open spec fn inputs_bytes(ins: Seq<TxInV>) -> Seq<u8>
    decreases ins.len(),
{
    if ins.len() == 0 {
        Seq::empty()
    } else {
        txin_bytes(ins[0]) + inputs_bytes(ins.drop_first())
    }
}

/// The length-prefixed items of one witness stack, without the item count.
pub open spec fn witness_items_bytes(w: Seq<Seq<u8>>) -> Seq<u8>
    decreases w.len(),
{
    if w.len() == 0 {
        Seq::empty()
    } else {
        compact_size(w[0].len()) + w[0] + witness_items_bytes(w.drop_first())
    }
}

/// The consensus encoding of one witness stack: item count, then each item
/// length-prefixed.
pub open spec fn witness_bytes(w: Seq<Seq<u8>>) -> Seq<u8> {
    compact_size(w.len()) + witness_items_bytes(w)
}

/// The concatenated witness stacks of a list of inputs.
pub open spec fn witnesses_bytes(ins: Seq<TxInV>) -> Seq<u8>
    decreases ins.len(),
{
    if ins.len() == 0 {
        Seq::empty()
    } else {
        witness_bytes(ins[0].witness) + witnesses_bytes(ins.drop_first())
    }
}

/// Whether the transaction serializes in BIP-141 form: some input carries a
/// witness, or there are no inputs at all (which avoids a decode ambiguity).
pub open spec fn uses_segwit(t: TransactionV) -> bool {
    t.input.len() == 0 || exists|i: int|
        0 <= i < t.input.len() && #[trigger] t.input[i].witness.len() > 0
}

/// The full consensus serialization of a transaction: version, the BIP-141
/// marker and flag when a witness is present, length-prefixed inputs and
/// outputs, the witness stacks, and the locktime.
pub open spec fn tx_bytes(t: TransactionV) -> Seq<u8> {
    u32_le(t.version as u32) + (if uses_segwit(t) {
        seq![0u8, 1u8]
    } else {
        Seq::empty()
    }) + compact_size(t.input.len()) + inputs_bytes(t.input) + compact_size(t.output.len())
        + outputs_bytes(t.output) + (if uses_segwit(t) {
        witnesses_bytes(t.input)
    } else {
        Seq::empty()
    }) + u32_le(t.lock_time)
}

pub(crate) proof fn lemma_outputs_bytes_push(s: Seq<TxOutV>, x: TxOutV)
    ensures
        outputs_bytes(s.push(x)) == outputs_bytes(s) + txout_bytes(x),
    decreases s.len(),
{
    if s.len() == 0 {
        assert(s.push(x).len() == 1);
        assert(s.push(x)[0] == x);
        assert(s.push(x).drop_first() =~= Seq::<TxOutV>::empty());
        assert(outputs_bytes(s.push(x)) == txout_bytes(x) + outputs_bytes(Seq::<TxOutV>::empty()));
        assert(outputs_bytes(Seq::<TxOutV>::empty()) =~= Seq::<u8>::empty());
        assert(outputs_bytes(s) =~= Seq::<u8>::empty());
        assert(outputs_bytes(s.push(x)) =~= outputs_bytes(s) + txout_bytes(x));
    } else {
        assert(s.push(x).drop_first() =~= s.drop_first().push(x));
        lemma_outputs_bytes_push(s.drop_first(), x);
        assert(outputs_bytes(s.push(x)) =~= outputs_bytes(s) + txout_bytes(x));
    }
}

pub(crate) proof fn lemma_inputs_bytes_push(s: Seq<TxInV>, x: TxInV)
    ensures
        inputs_bytes(s.push(x)) == inputs_bytes(s) + txin_bytes(x),
    decreases s.len(),
{
    if s.len() == 0 {
        assert(s.push(x).len() == 1);
        assert(s.push(x)[0] == x);
        assert(s.push(x).drop_first() =~= Seq::<TxInV>::empty());
        assert(inputs_bytes(s.push(x)) == txin_bytes(x) + inputs_bytes(Seq::<TxInV>::empty()));
        assert(inputs_bytes(Seq::<TxInV>::empty()) =~= Seq::<u8>::empty());
        assert(inputs_bytes(s) =~= Seq::<u8>::empty());
        assert(inputs_bytes(s.push(x)) =~= inputs_bytes(s) + txin_bytes(x));
    } else {
        assert(s.push(x).drop_first() =~= s.drop_first().push(x));
        lemma_inputs_bytes_push(s.drop_first(), x);
        assert(inputs_bytes(s.push(x)) =~= inputs_bytes(s) + txin_bytes(x));
    }
}

pub(crate) proof fn lemma_witness_items_bytes_push(s: Seq<Seq<u8>>, x: Seq<u8>)
    ensures
        witness_items_bytes(s.push(x)) == witness_items_bytes(s) + compact_size(x.len()) + x,
    decreases s.len(),
{
    if s.len() == 0 {
        assert(s.push(x).len() == 1);
        assert(s.push(x)[0] == x);
        assert(s.push(x).drop_first() =~= Seq::<Seq<u8>>::empty());
        assert(witness_items_bytes(s.push(x)) == compact_size(x.len()) + x
            + witness_items_bytes(Seq::<Seq<u8>>::empty()));
        assert(witness_items_bytes(Seq::<Seq<u8>>::empty()) =~= Seq::<u8>::empty());
        assert(witness_items_bytes(s) =~= Seq::<u8>::empty());
        assert(witness_items_bytes(s.push(x)) =~= witness_items_bytes(s) + compact_size(x.len())
            + x);
    } else {
        assert(s.push(x).drop_first() =~= s.drop_first().push(x));
        lemma_witness_items_bytes_push(s.drop_first(), x);
        assert(witness_items_bytes(s.push(x)) =~= witness_items_bytes(s) + compact_size(x.len())
            + x);
    }
}

pub(crate) proof fn lemma_witnesses_bytes_push(s: Seq<TxInV>, x: TxInV)
    ensures
        witnesses_bytes(s.push(x)) == witnesses_bytes(s) + witness_bytes(x.witness),
    decreases s.len(),
{
    if s.len() == 0 {
        assert(s.push(x).len() == 1);
        assert(s.push(x)[0] == x);
        assert(s.push(x).drop_first() =~= Seq::<TxInV>::empty());
        assert(witnesses_bytes(s.push(x)) == witness_bytes(x.witness)
            + witnesses_bytes(Seq::<TxInV>::empty()));
        assert(witnesses_bytes(Seq::<TxInV>::empty()) =~= Seq::<u8>::empty());
        assert(witnesses_bytes(s) =~= Seq::<u8>::empty());
        assert(witnesses_bytes(s.push(x)) =~= witnesses_bytes(s) + witness_bytes(x.witness));
    } else {
        assert(s.push(x).drop_first() =~= s.drop_first().push(x));
        lemma_witnesses_bytes_push(s.drop_first(), x);
        assert(witnesses_bytes(s.push(x)) =~= witnesses_bytes(s) + witness_bytes(x.witness));
    }
}

/// Appends the consensus encoding of one output.
pub fn push_txout(buf: &mut Vec<u8>, o: &TxOut)
    ensures
        final(buf)@ == old(buf)@ + txout_bytes(o@),
{
    push_u64_le(buf, o.value);
    push_compact_size(buf, o.script_pubkey.len() as u64);
    push_bytes(buf, o.script_pubkey.as_slice());
    assert(buf@ =~= old(buf)@ + txout_bytes(o@));
}

/// Appends the consensus encodings of a list of outputs.
pub fn push_outputs(buf: &mut Vec<u8>, outs: &Vec<TxOut>)
    ensures
        final(buf)@ == old(buf)@ + outputs_bytes(outs_view(outs@)),
{
    let mut i: usize = 0;
    assert(outs_view(outs@).take(0) =~= Seq::<TxOutV>::empty());
    while i < outs.len()
        invariant
            i <= outs@.len(),
            buf@ == old(buf)@ + outputs_bytes(outs_view(outs@).take(i as int)),
        decreases outs@.len() - i,
    {
        push_txout(buf, &outs[i]);
        proof {
            assert(outs_view(outs@).take(i + 1) =~= outs_view(outs@).take(i as int).push(
                outs@[i as int]@));
            lemma_outputs_bytes_push(outs_view(outs@).take(i as int), outs@[i as int]@);
            assert(buf@ =~= old(buf)@ + outputs_bytes(outs_view(outs@).take(i + 1)));
        }
        i += 1;
    }
    assert(outs_view(outs@).take(outs@.len() as int) =~= outs_view(outs@));
}

/// Appends the consensus encoding of one input, without its witness.
pub fn push_txin(buf: &mut Vec<u8>, i: &TxIn)
    ensures
        final(buf)@ == old(buf)@ + txin_bytes(i@),
{
    push_bytes(buf, i.previous_output.txid.as_slice());
    push_u32_le(buf, i.previous_output.vout);
    push_compact_size(buf, i.script_sig.len() as u64);
    push_bytes(buf, i.script_sig.as_slice());
    push_u32_le(buf, i.sequence);
    assert(buf@ =~= old(buf)@ + txin_bytes(i@));
}

/// Appends the consensus encodings of a list of inputs.
pub fn push_inputs(buf: &mut Vec<u8>, ins: &Vec<TxIn>)
    ensures
        final(buf)@ == old(buf)@ + inputs_bytes(ins_view(ins@)),
{
    let mut i: usize = 0;
    assert(ins_view(ins@).take(0) =~= Seq::<TxInV>::empty());
    while i < ins.len()
        invariant
            i <= ins@.len(),
            buf@ == old(buf)@ + inputs_bytes(ins_view(ins@).take(i as int)),
        decreases ins@.len() - i,
    {
        push_txin(buf, &ins[i]);
        proof {
            assert(ins_view(ins@).take(i + 1) =~= ins_view(ins@).take(i as int).push(
                ins@[i as int]@));
            lemma_inputs_bytes_push(ins_view(ins@).take(i as int), ins@[i as int]@);
            assert(buf@ =~= old(buf)@ + inputs_bytes(ins_view(ins@).take(i + 1)));
        }
        i += 1;
    }
    assert(ins_view(ins@).take(ins@.len() as int) =~= ins_view(ins@));
}

/// Appends the consensus encoding of one witness stack.
pub fn push_witness(buf: &mut Vec<u8>, w: &Vec<Vec<u8>>)
    ensures
        final(buf)@ == old(buf)@ + witness_bytes(bytes_view(w@)),
{
    push_compact_size(buf, w.len() as u64);
    let ghost pre = buf@;
    let mut i: usize = 0;
    assert(bytes_view(w@).take(0) =~= Seq::<Seq<u8>>::empty());
    while i < w.len()
        invariant
            i <= w@.len(),
            buf@ == pre + witness_items_bytes(bytes_view(w@).take(i as int)),
        decreases w@.len() - i,
    {
        push_compact_size(buf, w[i].len() as u64);
        push_bytes(buf, w[i].as_slice());
        proof {
            assert(bytes_view(w@).take(i + 1) =~= bytes_view(w@).take(i as int).push(
                w@[i as int]@));
            lemma_witness_items_bytes_push(bytes_view(w@).take(i as int), w@[i as int]@);
            assert(buf@ =~= pre + witness_items_bytes(bytes_view(w@).take(i + 1)));
        }
        i += 1;
    }
    assert(bytes_view(w@).take(w@.len() as int) =~= bytes_view(w@));
    assert(buf@ =~= old(buf)@ + witness_bytes(bytes_view(w@)));
}

/// Appends the witness stacks of a list of inputs.
pub fn push_witnesses(buf: &mut Vec<u8>, ins: &Vec<TxIn>)
    ensures
        final(buf)@ == old(buf)@ + witnesses_bytes(ins_view(ins@)),
{
    let mut i: usize = 0;
    assert(ins_view(ins@).take(0) =~= Seq::<TxInV>::empty());
    while i < ins.len()
        invariant
            i <= ins@.len(),
            buf@ == old(buf)@ + witnesses_bytes(ins_view(ins@).take(i as int)),
        decreases ins@.len() - i,
    {
        push_witness(buf, &ins[i].witness);
        proof {
            assert(ins_view(ins@).take(i + 1) =~= ins_view(ins@).take(i as int).push(
                ins@[i as int]@));
            lemma_witnesses_bytes_push(ins_view(ins@).take(i as int), ins@[i as int]@);
            assert(buf@ =~= old(buf)@ + witnesses_bytes(ins_view(ins@).take(i + 1)));
        }
        i += 1;
    }
    assert(ins_view(ins@).take(ins@.len() as int) =~= ins_view(ins@));
}

/// Whether any input of the transaction carries a witness item, or the
/// input list is empty: exactly when serialization takes the BIP-141 form.
pub fn has_witness(tx: &Transaction) -> (r: bool)
    ensures
        r == uses_segwit(tx@),
{
    if tx.input.len() == 0 {
        return true;
    }
    let mut found = false;
    let mut i: usize = 0;
    while i < tx.input.len()
        invariant
            i <= tx.input@.len(),
            found == exists|k: int|
                0 <= k < i && #[trigger] ins_view(tx.input@)[k].witness.len() > 0,
        decreases tx.input@.len() - i,
    {
        if tx.input[i].witness.len() > 0 {
            assert(ins_view(tx.input@)[i as int].witness.len() > 0);
            found = true;
        }
        i += 1;
    }
    found
}

/// Serializes a transaction in consensus form.
pub fn serialize_tx(tx: &Transaction) -> (r: Vec<u8>)
    ensures
        r@ == tx_bytes(tx@),
{
    let mut buf: Vec<u8> = Vec::new();
    push_u32_le(&mut buf, tx.version as u32);
    let segwit = has_witness(tx);
    if segwit {
        buf.push(0u8);
        buf.push(1u8);
    }
    push_compact_size(&mut buf, tx.input.len() as u64);
    push_inputs(&mut buf, &tx.input);
    push_compact_size(&mut buf, tx.output.len() as u64);
    push_outputs(&mut buf, &tx.output);
    if segwit {
        push_witnesses(&mut buf, &tx.input);
    }
    push_u32_le(&mut buf, tx.lock_time);
    assert(buf@ =~= tx_bytes(tx@));
    buf
}

/// The parent transaction of the covenant: version 3, locktime 0, a single
/// input spending the funding outpoint with the relative-sequence constant
/// that enables replacement without a timelock, and the committed outputs.
pub open spec fn parent_tx_view(funding_txid: Seq<u8>, vout: u32, outputs: Seq<TxOutV>)
    -> TransactionV {
    TransactionV {
        version: 3,
        lock_time: 0,
        input: seq![
            TxInV {
                previous_output: OutPointV { txid: funding_txid, vout },
                script_sig: Seq::empty(),
                sequence: 0xfffffffdu32,
                witness: Seq::empty(),
            },
        ],
        output: outputs,
    }
}

/// Builds the unsigned parent transaction that spends the funding output
/// and carries the committed output set.
pub fn build_parent_tx(funding_txid: &[u8; 32], vout: u32, outputs: Vec<TxOut>)
    -> (r: Transaction)
    ensures
        r@ == parent_tx_view(funding_txid@, vout, outs_view(outputs@)),
{
    let txin = TxIn {
        previous_output: OutPoint { txid: *funding_txid, vout },
        script_sig: Vec::new(),
        sequence: 0xfffffffd,
        witness: Vec::new(),
    };
    let mut input: Vec<TxIn> = Vec::new();
    input.push(txin);
    let r = Transaction { version: 3, lock_time: 0, input, output: outputs };
    proof {
        assert(r@ =~~= parent_tx_view(funding_txid@, vout, outs_view(outputs@)));
    }
    r
}

/// An unsigned input with the default sequence, spending one outpoint.
pub open spec fn plain_txin(o: OutPointV) -> TxInV {
    TxInV {
        previous_output: o,
        script_sig: Seq::empty(),
        sequence: 0xffffffffu32,
        witness: Seq::empty(),
    }
}

/// The views of a list of outpoints.
pub open spec fn outpoints_view(s: Seq<OutPoint>) -> Seq<OutPointV> {
    s.map_values(|o: OutPoint| o@)
}

/// The child transaction that pays the fee: version 3, locktime 0, the
/// anchor outpoint first, then the fee-reserve outpoints the wallet will
/// sign, every input with the default sequence, and the caller's outputs.
pub open spec fn child_tx_view(
    anchor: OutPointV,
    fee_inputs: Seq<OutPointV>,
    outputs: Seq<TxOutV>,
) -> TransactionV {
    TransactionV {
        version: 3,
        lock_time: 0,
        input: seq![plain_txin(anchor)] + fee_inputs.map_values(|o: OutPointV| plain_txin(o)),
        output: outputs,
    }
}

/// Builds the child transaction that spends the anchor output of an
/// already-broadcast parent, together with any fee-reserve outpoints.
pub fn build_child_tx(
    parent_txid: &[u8; 32],
    vout: u32,
    fee_inputs: Vec<OutPoint>,
    outputs: Vec<TxOut>,
) -> (r: Transaction)
    ensures
        r@ == child_tx_view(
            OutPointV { txid: parent_txid@, vout },
            outpoints_view(fee_inputs@),
            outs_view(outputs@),
        ),
{
    let mut input: Vec<TxIn> = Vec::new();
    input.push(TxIn {
        previous_output: OutPoint { txid: *parent_txid, vout },
        script_sig: Vec::new(),
        sequence: 0xffffffff,
        witness: Vec::new(),
    });
    let ghost anchor_in = seq![plain_txin(OutPointV { txid: parent_txid@, vout })];
    assert(ins_view(input@) =~~= anchor_in);
    let mut i: usize = 0;
    while i < fee_inputs.len()
        invariant
            i <= fee_inputs@.len(),
            ins_view(input@) == anchor_in + outpoints_view(fee_inputs@).take(i as int).map_values(
                |o: OutPointV| plain_txin(o),
            ),
        decreases fee_inputs@.len() - i,
    {
        let ghost before = input@;
        let fee_in = TxIn {
            previous_output: OutPoint {
                txid: fee_inputs[i].txid,
                vout: fee_inputs[i].vout,
            },
            script_sig: Vec::new(),
            sequence: 0xffffffff,
            witness: Vec::new(),
        };
        proof {
            assert(fee_in@ =~~= plain_txin(fee_inputs@[i as int]@));
        }
        input.push(fee_in);
        proof {
            assert(ins_view(input@) =~= ins_view(before).push(fee_in@));
            assert(outpoints_view(fee_inputs@).take(i + 1) =~= outpoints_view(
                fee_inputs@).take(i as int).push(fee_inputs@[i as int]@));
            assert(outpoints_view(fee_inputs@).take(i + 1).map_values(
                |o: OutPointV| plain_txin(o)) =~~= outpoints_view(fee_inputs@).take(
                i as int).map_values(|o: OutPointV| plain_txin(o)).push(
                plain_txin(fee_inputs@[i as int]@)));
            assert(ins_view(input@) =~~= anchor_in + outpoints_view(fee_inputs@).take(
                i + 1).map_values(|o: OutPointV| plain_txin(o)));
        }
        i += 1;
    }
    assert(outpoints_view(fee_inputs@).take(fee_inputs@.len() as int) =~= outpoints_view(
        fee_inputs@));
    let r = Transaction { version: 3, lock_time: 0, input, output: outputs };
    proof {
        assert(r@ =~~= child_tx_view(
            OutPointV { txid: parent_txid@, vout },
            outpoints_view(fee_inputs@),
            outs_view(outputs@),
        ));
    }
    r
}

/// Serializes a transaction and returns its lowercase hex form, as the
/// raw-transaction RPC takes it.
pub fn serialize_tx_hex(tx: &Transaction) -> (r: Vec<u8>)
    ensures
        r@ == crate::encode::hex_bytes(tx_bytes(tx@)),
{
    let raw = serialize_tx(tx);
    crate::encode::to_hex(&raw)
}

/// Whether every script in the output list fits the CompactSize encoding:
/// true of any output list held in memory.
pub open spec fn outputs_encodable(outs: Seq<TxOutV>) -> bool {
    forall|i: int| 0 <= i < outs.len() ==> #[trigger] outs[i].script_pubkey.len() <= u64::MAX
}

/// The encoding of one output is a prefix code: if two encoded outputs
/// followed by arbitrary tails agree byte for byte, the outputs agree and
/// so do the tails.
pub proof fn lemma_txout_bytes_prefix(a: TxOutV, b: TxOutV, ra: Seq<u8>, rb: Seq<u8>)
    requires
        a.script_pubkey.len() <= u64::MAX,
        b.script_pubkey.len() <= u64::MAX,
        txout_bytes(a) + ra == txout_bytes(b) + rb,
    ensures
        a == b,
        ra == rb,
{
    let sa = compact_size(a.script_pubkey.len()) + a.script_pubkey + ra;
    let sb = compact_size(b.script_pubkey.len()) + b.script_pubkey + rb;
    assert(u64_le(a.value) + sa =~= txout_bytes(a) + ra);
    assert(u64_le(b.value) + sb =~= txout_bytes(b) + rb);
    lemma_concat_parts_equal(u64_le(a.value), u64_le(b.value), sa, sb);
    lemma_u64_le_injective(a.value, b.value);
    assert(compact_size(a.script_pubkey.len()) + (a.script_pubkey + ra) =~= sa);
    assert(compact_size(b.script_pubkey.len()) + (b.script_pubkey + rb) =~= sb);
    lemma_compact_size_prefix(
        a.script_pubkey.len(),
        b.script_pubkey.len(),
        a.script_pubkey + ra,
        b.script_pubkey + rb,
    );
    lemma_concat_parts_equal(a.script_pubkey, b.script_pubkey, ra, rb);
    assert(a =~~= b);
}

/// The concatenated output encoding is injective: two distinct output
/// lists — an output's value or script changed, the order changed, or the
/// count changed — give distinct byte sequences, and so distinct preimages
/// to the outputs digest of the template.
pub proof fn lemma_outputs_bytes_injective(o1: Seq<TxOutV>, o2: Seq<TxOutV>)
    requires
        outputs_encodable(o1),
        outputs_encodable(o2),
        outputs_bytes(o1) == outputs_bytes(o2),
    ensures
        o1 == o2,
    decreases o1.len(),
{
    if o1.len() == 0 && o2.len() == 0 {
        assert(o1 =~= o2);
    } else if o1.len() == 0 {
        assert(outputs_bytes(o1).len() == 0);
        assert(outputs_bytes(o2).len() >= txout_bytes(o2[0]).len());
        assert(txout_bytes(o2[0]).len() >= 8);
    } else if o2.len() == 0 {
        assert(outputs_bytes(o2).len() == 0);
        assert(outputs_bytes(o1).len() >= txout_bytes(o1[0]).len());
        assert(txout_bytes(o1[0]).len() >= 8);
    } else {
        lemma_txout_bytes_prefix(
            o1[0],
            o2[0],
            outputs_bytes(o1.drop_first()),
            outputs_bytes(o2.drop_first()),
        );
        assert(outputs_encodable(o1.drop_first())) by {
            assert(forall|i: int|
                0 <= i < o1.drop_first().len() ==> o1.drop_first()[i] == o1[i + 1]);
        }
        assert(outputs_encodable(o2.drop_first())) by {
            assert(forall|i: int|
                0 <= i < o2.drop_first().len() ==> o2.drop_first()[i] == o2[i + 1]);
        }
        lemma_outputs_bytes_injective(o1.drop_first(), o2.drop_first());
        assert(o1.len() == o2.len());
        assert forall|i: int| 0 <= i < o1.len() implies o1[i] == o2[i] by {
            if i > 0 {
                assert(o1.drop_first()[i - 1] == o1[i]);
                assert(o2.drop_first()[i - 1] == o2[i]);
            }
        }
        assert(o1 =~= o2);
    }
}

/// The data-carrier script: OP_RETURN, then a direct push of the payload
/// below 76 bytes, or an OP_PUSHDATA1 push up to 255 bytes — the two push
/// forms a payload of that size takes on the wire.
pub open spec fn op_return_bytes(data: Seq<u8>) -> Seq<u8> {
    if data.len() < 76 {
        seq![0x6au8, data.len() as u8] + data
    } else {
        seq![0x6au8, 0x4cu8, data.len() as u8] + data
    }
}

/// Builds an OP_RETURN output script around a payload. Fails, with an
/// encoding error, exactly when the payload does not fit a one-byte push
/// length (256 bytes or more); longer pushes exist on the wire but serve
/// no data-carrier purpose here.
pub fn op_return_script(data: &[u8]) -> (r: Result<Vec<u8>, CtvError>)
    ensures
        r is Ok <==> data@.len() < 0x100,
        r matches Ok(s) ==> s@ == op_return_bytes(data@),
        r matches Err(e) ==> e == CtvError::Encoding,
{
    if data.len() >= 0x100 {
        return Err(CtvError::Encoding);
    }
    let mut v: Vec<u8> = Vec::new();
    v.push(0x6a);
    if data.len() >= 76 {
        v.push(0x4c);
    }
    v.push(data.len() as u8);
    push_bytes(&mut v, data);
    assert(v@ =~= op_return_bytes(data@));
    Ok(v)
}

} // verus!
