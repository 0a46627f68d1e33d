//! The trusted boundary to the `bitcoin` crate's Taproot machinery: the
//! ephemeral unspendable internal key, the single-leaf tree that carries
//! the commitment script, and the control block that proves the leaf at
//! spend time. Everything here is believed on the strength of the named
//! functions of that crate; the logic around it is verified.

use vstd::prelude::*;

verus! {

#[verifier::external_type_specification]
#[verifier::external_body]
pub struct ExTaprootSpendInfo(bitcoin::taproot::TaprootSpendInfo);

#[verifier::external_type_specification]
#[verifier::external_body]
pub struct ExXOnlyPublicKey(bitcoin::key::XOnlyPublicKey);

/// What a Taproot spend info holds: the byte form of each script that is a
/// tapscript leaf of its tree, mapped to the length of the shortest merkle
/// path that proves it. The wrappers below say how the `bitcoin` crate's
/// builder and control-block lookup behave over this map.
pub uninterp spec fn spend_info_paths(si: bitcoin::taproot::TaprootSpendInfo) -> Map<
    Seq<u8>,
    nat,
>;

/// Relies on `bitcoin::key::Keypair::new` (with `rand::thread_rng`) and
/// `bitcoin::key::XOnlyPublicKey::from_keypair`: the x-only public key of a
/// freshly drawn random secret key. The secret key goes out of scope here
/// and is never returned or stored, so the key path of an output tweaked
/// from this key stays unspendable. Nothing is promised of a random result.
#[verifier::external_body]
pub fn fresh_internal_key() -> bitcoin::key::XOnlyPublicKey {
    let secp = bitcoin::key::Secp256k1::new();
    let keypair = bitcoin::key::Keypair::new(&secp, &mut rand::thread_rng());
    let (pk, _parity) = bitcoin::key::XOnlyPublicKey::from_keypair(&keypair);
    pk
}

/// Relies on `bitcoin::taproot::TaprootBuilder`: `add_leaf(0, script)` on a
/// fresh builder always succeeds (depth 0 is in range and the builder is
/// empty), and `finalize` always succeeds on the resulting one-node tree,
/// tweaking the internal key with the tree's merkle root. So the result is
/// always `Some`, and the spend info it carries holds exactly one tapscript
/// leaf — this script, at the root, with an empty merkle path.
#[verifier::external_body]
pub fn taproot_single_leaf(script: &Vec<u8>, internal_key: bitcoin::key::XOnlyPublicKey) -> (r:
    Option<bitcoin::taproot::TaprootSpendInfo>)
    ensures
        r is Some,
        r matches Some(si) ==> spend_info_paths(si) == map![script@ => 0nat],
{
    let secp = bitcoin::key::Secp256k1::new();
    let script_buf = bitcoin::ScriptBuf::from_bytes(script.clone());
    match bitcoin::taproot::TaprootBuilder::new().add_leaf(0, script_buf) {
        Ok(builder) => builder.finalize(&secp, internal_key).ok(),
        Err(_) => None,
    }
}

/// Relies on `bitcoin::taproot::TaprootSpendInfo::control_block` and
/// `bitcoin::taproot::ControlBlock::serialize`: the lookup returns `Some`
/// exactly when the script, at the tapscript leaf version, is a leaf of
/// the spend info, and picks the shortest merkle path for it; the
/// serialization is one byte of leaf version and output-key parity, the
/// 32-byte internal key, and 32 bytes per merkle-path node.
#[verifier::external_body]
pub fn control_block_bytes(
    spend_info: &bitcoin::taproot::TaprootSpendInfo,
    script: &Vec<u8>,
) -> (r: Option<Vec<u8>>)
    ensures
        r is Some <==> spend_info_paths(*spend_info).dom().contains(script@),
        r matches Some(cb) ==> cb@.len() == 33 + 32 * spend_info_paths(*spend_info)[script@],
{
    let script_buf = bitcoin::ScriptBuf::from_bytes(script.clone());
    let script_ver = (script_buf, bitcoin::taproot::LeafVersion::TapScript);
    spend_info.control_block(&script_ver).map(|cb| cb.serialize())
}

} // verus!
