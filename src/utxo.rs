use vstd::prelude::*;

verus! {

/// One unspent output as the wallet reports it.
pub struct Utxo {
    /// Transaction identifier, in the byte order used inside transactions.
    pub txid: [u8; 32],
    /// Index of the output within its transaction.
    pub vout: u32,
    /// Value in satoshis.
    pub amount: u64,
    /// The locking script that a future spend must satisfy.
    pub script_pubkey: Vec<u8>,
    /// The canonical address string of `script_pubkey`, where one exists.
    pub address: Option<String>,
}

/// The mathematical content of a [`Utxo`].
pub struct UtxoView {
    pub txid: Seq<u8>,
    pub vout: u32,
    pub amount: u64,
    pub script_pubkey: Seq<u8>,
    pub address: Option<Seq<char>>,
}

pub open spec fn address_view(a: Option<String>) -> Option<Seq<char>> {
    match a {
        Some(s) => Some(s@),
        None => None,
    }
}

impl View for Utxo {
    type V = UtxoView;

    open spec fn view(&self) -> UtxoView {
        UtxoView {
            txid: self.txid@,
            vout: self.vout,
            amount: self.amount,
            script_pubkey: self.script_pubkey@,
            address: address_view(self.address),
        }
    }
}

/// The views of a sequence of records, in order.
pub open spec fn views(s: Seq<Utxo>) -> Seq<UtxoView> {
    s.map_values(|u: Utxo| u@)
}

impl Clone for Utxo {
    fn clone(&self) -> (r: Self)
        ensures
            r@ == self@,
    {
        let script_pubkey = self.script_pubkey.clone();
        let address = match &self.address {
            Some(a) => Some(a.clone()),
            None => None,
        };
        proof {
            assert(script_pubkey@ =~= self.script_pubkey@);
        }
        Utxo { txid: self.txid, vout: self.vout, amount: self.amount, script_pubkey, address }
    }
}

} // verus!
