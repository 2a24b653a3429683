//! Finds uneconomical ("dust") outputs in a wallet's unspent set and drafts an
//! unsigned transaction that sends them to a zero-value OP_RETURN output.

pub mod dust;
pub mod skeleton;
pub mod utxo;
pub mod util;
