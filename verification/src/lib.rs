//! A toolkit for CTV (`OP_CHECKTEMPLATEVERIFY`) covenants: a deterministic
//! hash over a committed transaction template, the minimal script that
//! carries that commitment, a Taproot single-leaf encoding of the script
//! under a provably unspendable internal key, and the assembly and consensus
//! serialization of the transactions that fund and spend the covenant.

pub mod encode;
pub mod digest;
pub mod error;
pub mod tx;
pub mod taproot;
pub mod ctv_scripts;
