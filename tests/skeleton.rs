use dustbuster::skeleton::{
    build_skeleton, create_dust_psbt, create_op_return_output_script, BuildError, RBF_SEQUENCE,
};
use dustbuster::utxo::Utxo;

fn utxo(tag: u8, amount: u64) -> Utxo {
    Utxo {
        txid: [tag; 32],
        vout: tag as u32 + 10,
        amount,
        script_pubkey: vec![0x00, 0x14, 1, 2, 3, 4, 5, 6, 7, 8, 9, 10, 11, 12, 13, 14, 15, 16, 17, 18, 19, 20],
        address: None,
    }
}

#[test]
fn op_return_script_is_one_opcode() {
    assert_eq!(create_op_return_output_script(), vec![0x6a]);
}

#[test]
fn build_takes_first_two_in_order() {
    let utxos = vec![utxo(1, 10), utxo(2, 20), utxo(3, 30)];
    let t = build_skeleton(&utxos, 2).unwrap();
    assert_eq!(t.version, 2);
    assert_eq!(t.lock_time, 0);
    assert_eq!(t.inputs.len(), 2);
    assert_eq!(t.inputs[0].txid, [1; 32]);
    assert_eq!(t.inputs[0].vout, 11);
    assert_eq!(t.inputs[1].txid, [2; 32]);
    assert_eq!(t.inputs[1].vout, 12);
    for i in &t.inputs {
        assert_eq!(i.sequence, 0xFFFF_FFFD);
        assert_eq!(i.sequence, RBF_SEQUENCE);
    }
    assert_eq!(t.outputs.len(), 1);
    assert_eq!(t.outputs[0].value, 0);
    assert_eq!(t.outputs[0].script_pubkey, vec![0x6a]);
}

#[test]
fn build_takes_all_when_count_is_larger() {
    let utxos = vec![utxo(1, 10), utxo(2, 20)];
    let t = build_skeleton(&utxos, 100).unwrap();
    assert_eq!(t.inputs.len(), 2);
    assert_eq!(t.outputs.len(), 1);
}

#[test]
fn build_of_nothing_is_an_error() {
    for n in [1u64, 2, 100, u64::MAX] {
        assert!(matches!(build_skeleton(&Vec::new(), n), Err(BuildError::NoInputs)));
    }
}

#[test]
fn build_with_zero_count_is_an_error() {
    let utxos = vec![utxo(1, 10)];
    assert!(matches!(build_skeleton(&utxos, 0), Err(BuildError::NoInputs)));
}

#[test]
fn psbt_holds_the_draft() {
    let utxos = vec![utxo(1, 10), utxo(2, 20), utxo(3, 30)];
    let (psbt, draft) = create_dust_psbt(&utxos, 2).unwrap();
    assert_eq!(draft.inputs.len(), 2);
    assert_eq!(draft.inputs[1].txid, [2; 32]);
    assert_eq!(draft.outputs.len(), 1);
    let tx = &psbt.unsigned_tx;
    assert_eq!(tx.version.0, 2);
    assert_eq!(tx.lock_time.to_consensus_u32(), 0);
    assert_eq!(tx.input.len(), 2);
    assert_eq!(tx.input[0].previous_output.vout, 11);
    assert_eq!(tx.input[1].previous_output.vout, 12);
    assert_eq!(tx.input[1].previous_output.txid.to_string(), "02".repeat(32));
    assert_eq!(tx.input[0].sequence.0, 0xFFFF_FFFD);
    assert!(tx.input[0].script_sig.is_empty());
    assert!(tx.input[0].witness.is_empty());
    assert_eq!(tx.output.len(), 1);
    assert_eq!(tx.output[0].value.to_sat(), 0);
    assert_eq!(tx.output[0].script_pubkey.as_bytes(), &[0x6a]);
    assert_eq!(psbt.inputs.len(), 2);
    assert_eq!(psbt.outputs.len(), 1);
}

#[test]
fn psbt_of_nothing_is_an_error() {
    assert!(matches!(create_dust_psbt(&Vec::new(), 5), Err(BuildError::NoInputs)));
}

#[test]
fn psbt_takes_all_when_count_is_larger() {
    let utxos = vec![utxo(1, 10), utxo(2, 20), utxo(3, 30)];
    let (psbt, draft) = create_dust_psbt(&utxos, 100).unwrap();
    assert_eq!(psbt.unsigned_tx.input.len(), 3);
    assert_eq!(draft.inputs.len(), 3);
    assert!(matches!(create_dust_psbt(&utxos, 0), Err(BuildError::NoInputs)));
}
