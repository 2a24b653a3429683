use vstd::prelude::*;
use crate::utxo::Utxo;
use bitcoin::{Amount, OutPoint, ScriptBuf, Sequence, TxIn, TxOut, Txid, Witness};

verus! {

/// Sequence number of every input: opts in to replace-by-fee and turns off
/// relative time locks.
pub const RBF_SEQUENCE: u32 = 0xFFFF_FFFD;

/// The OP_RETURN opcode.
pub const OP_RETURN: u8 = 0x6a;

/// An input of the draft: the output it spends, with an empty unlocking script
/// and an empty witness.
pub struct SkeletonInput {
    pub txid: [u8; 32],
    pub vout: u32,
    pub sequence: u32,
}

/// An output of the draft.
pub struct SkeletonOutput {
    pub value: u64,
    pub script_pubkey: Vec<u8>,
}

/// An unsigned transaction with no signing material.
pub struct TxSkeleton {
    pub version: i32,
    pub lock_time: u32,
    pub inputs: Vec<SkeletonInput>,
    pub outputs: Vec<SkeletonOutput>,
}

#[verifier::external_type_specification]
#[verifier::external_body]
pub struct ExPsbt(bitcoin::Psbt);

#[verifier::external_type_specification]
#[verifier::external_body]
pub struct ExPsbtError(bitcoin::psbt::Error);

/// Why no draft could be made.
#[derive(Debug)]
pub enum BuildError {
    /// No output was selected, and a transaction needs at least one input.
    NoInputs,
    /// The PSBT could not be made from the draft. [`create_dust_psbt`] never
    /// returns it, as its drafts carry no unlocking scripts or witnesses.
    Psbt(bitcoin::psbt::Error),
}

/// How many outputs a draft takes: the first `count`, or all if fewer.
pub open spec fn taken(len: nat, count: nat) -> nat {
    if count < len {
        count
    } else {
        len
    }
}

/// `t` is the draft that spends the first `n` outputs of `utxos`, in order, to
/// one zero-value OP_RETURN output.
pub open spec fn is_dust_skeleton(t: TxSkeleton, utxos: Seq<Utxo>, n: nat) -> bool {
    &&& t.version == 2
    &&& t.lock_time == 0
    &&& t.inputs.len() == n
    &&& forall|i: int|
        0 <= i < n ==> (#[trigger] t.inputs@[i]).txid@ == utxos[i].txid@ && t.inputs@[i].vout
            == utxos[i].vout && t.inputs@[i].sequence == RBF_SEQUENCE
    &&& t.outputs.len() == 1
    &&& t.outputs@[0].value == 0
    &&& t.outputs@[0].script_pubkey@ == seq![OP_RETURN]
}

/// The script of a provably unspendable output: OP_RETURN with no payload.
pub fn create_op_return_output_script() -> (r: Vec<u8>)
    ensures
        r@ == seq![OP_RETURN],
{
    let mut script_pubkey = Vec::new();
    script_pubkey.push(OP_RETURN);
    script_pubkey
}

/// Drafts a transaction (version 2, lock time 0) that spends the first
/// `utxo_count` outputs, or all of them if there are fewer, each with the
/// replace-by-fee sequence, to a single zero-value OP_RETURN output. A draft
/// with no input is refused.
pub fn build_skeleton(utxos: &Vec<Utxo>, utxo_count: u64) -> (r: Result<TxSkeleton, BuildError>)
    ensures
        taken(utxos@.len(), utxo_count as nat) == 0 <==> r is Err,
        r matches Err(e) ==> e is NoInputs,
        r matches Ok(t) ==> is_dust_skeleton(t, utxos@, taken(utxos@.len(), utxo_count as nat)),
{
    let n: usize = if utxo_count < utxos.len() as u64 {
        utxo_count as usize
    } else {
        utxos.len()
    };
    if n == 0 {
        return Err(BuildError::NoInputs);
    }
    let mut inputs: Vec<SkeletonInput> = Vec::new();
    let mut i: usize = 0;
    while i < n
        invariant
            n <= utxos.len(),
            i <= n,
            inputs.len() == i,
            forall|j: int|
                0 <= j < i ==> (#[trigger] inputs@[j]).txid@ == utxos@[j].txid@ && inputs@[j].vout
                    == utxos@[j].vout && inputs@[j].sequence == RBF_SEQUENCE,
        decreases n - i,
    {
        let u = &utxos[i];
        inputs.push(SkeletonInput { txid: u.txid, vout: u.vout, sequence: RBF_SEQUENCE });
        i = i + 1;
    }
    let mut outputs: Vec<SkeletonOutput> = Vec::new();
    outputs.push(SkeletonOutput { value: 0, script_pubkey: create_op_return_output_script() });
    Ok(TxSkeleton { version: 2, lock_time: 0, inputs, outputs })
}

/// Relies on bitcoin's `Psbt::from_unsigned_tx`, which wraps the transaction in
/// a PSBT with empty per-input and per-output maps, and fails only when an input
/// has a non-empty unlocking script or witness. The draft is converted field by
/// field into a `bitcoin::Transaction`, with empty unlocking scripts and
/// witnesses, so the call succeeds.
#[verifier::external_body]
fn psbt_from_skeleton(t: &TxSkeleton) -> (r: Result<bitcoin::Psbt, bitcoin::psbt::Error>)
    ensures
        r is Ok,
{
    let input = t.inputs.iter().map(|i| TxIn {
        previous_output: OutPoint { txid: <Txid as bitcoin::hashes::Hash>::from_byte_array(i.txid), vout: i.vout },
        script_sig: ScriptBuf::new(),
        sequence: Sequence(i.sequence),
        witness: Witness::new(),
    }).collect();
    let output = t.outputs.iter().map(|o| TxOut {
        value: Amount::from_sat(o.value),
        script_pubkey: ScriptBuf::from_bytes(o.script_pubkey.clone()),
    }).collect();
    let version = bitcoin::transaction::Version(t.version);
    let lock_time = bitcoin::absolute::LockTime::from_consensus(t.lock_time);
    bitcoin::Psbt::from_unsigned_tx(bitcoin::Transaction { version, lock_time, input, output })
}

/// Makes an unsigned PSBT that spends the first `utxo_count` outputs (or all, if
/// fewer) to one zero-value OP_RETURN output, and returns it with the draft of
/// [`build_skeleton`] that it was made from. With no output selected it fails
/// with `NoInputs`; otherwise it succeeds.
pub fn create_dust_psbt(utxos: &Vec<Utxo>, utxo_count: u64) -> (r: Result<
    (bitcoin::Psbt, TxSkeleton),
    BuildError,
>)
    ensures
        taken(utxos@.len(), utxo_count as nat) == 0 <==> r is Err,
        r matches Err(e) ==> e is NoInputs,
        r matches Ok((_, t)) ==> is_dust_skeleton(t, utxos@, taken(utxos@.len(), utxo_count as nat)),
{
    match build_skeleton(utxos, utxo_count) {
        Err(e) => Err(e),
        Ok(t) => match psbt_from_skeleton(&t) {
            Ok(p) => Ok((p, t)),
            Err(e) => Err(BuildError::Psbt(e)),
        },
    }
}

} // verus!
