use vstd::prelude::*;
use crate::utxo::{views, Utxo, UtxoView};

verus! {

/// The outputs of one address, in the order in which they were given.
pub struct AddressGroup {
    pub address: String,
    pub utxos: Vec<Utxo>,
}

/// Why classification could not run.
#[derive(Debug, PartialEq, Eq, Structural)]
pub enum DustError {
    /// An address filter was given, but no output is owned by that address.
    AddressNotFound,
}

/// The script starts with OP_RETURN and can never be spent.
pub open spec fn is_op_return(s: Seq<u8>) -> bool {
    s.len() > 0 && s[0] == 0x6a
}

/// A version opcode (OP_0 or OP_1..OP_16) followed by one push of 2 to 40 bytes
/// that fills the rest of the script.
pub open spec fn is_witness_program(s: Seq<u8>) -> bool {
    &&& 4 <= s.len() <= 42
    &&& 2 <= s[1] <= 40
    &&& s.len() - 2 == s[1]
    &&& (s[0] == 0 || 0x51 <= s[0] <= 0x60)
}

/// Bytes taken by the length prefix of a serialized script of `n` bytes.
pub open spec fn compact_size_len(n: nat) -> nat {
    if n <= 0xfc {
        1
    } else if n <= 0xffff {
        3
    } else if n <= 0xffff_ffff {
        5
    } else {
        9
    }
}

/// Virtual bytes charged for creating and later spending an output with this
/// script: the input that spends it (witness data at a quarter weight), plus the
/// output's own value field and serialized script.
pub open spec fn spend_cost(s: Seq<u8>) -> nat {
    if is_op_return(s) {
        0
    } else {
        let input: nat = if is_witness_program(s) { 67 } else { 148 };
        input + 8 + compact_size_len(s.len()) + s.len()
    }
}

/// The smallest value that is not dust for this script at `fee_rate` sat/vB.
pub open spec fn dust_threshold(s: Seq<u8>, fee_rate: nat) -> nat {
    fee_rate * spend_cost(s)
}

pub open spec fn is_dust(u: UtxoView, fee_rate: nat) -> bool {
    u.amount < dust_threshold(u.script_pubkey, fee_rate)
}

/// The fee rate is small enough that no threshold computation overflows.
pub open spec fn fee_rate_fits(s: Seq<UtxoView>, fee_rate: u64) -> bool {
    &&& fee_rate * 1000 <= u64::MAX
    &&& forall|i: int|
        0 <= i < s.len() ==> fee_rate * 1000 * (165 + s[i].script_pubkey.len()) <= u64::MAX
}

/// The outputs owned by `a`, in order.
pub open spec fn owned_by(s: Seq<UtxoView>, a: Seq<char>) -> Seq<UtxoView>
    decreases s.len(),
{
    if s.len() == 0 {
        Seq::empty()
    } else {
        let rest = owned_by(s.drop_last(), a);
        if s.last().address == Some(a) {
            rest.push(s.last())
        } else {
            rest
        }
    }
}

/// The dust outputs of `s`, in order.
pub open spec fn dust_of(s: Seq<UtxoView>, fee_rate: nat) -> Seq<UtxoView>
    decreases s.len(),
{
    if s.len() == 0 {
        Seq::empty()
    } else {
        let rest = dust_of(s.drop_last(), fee_rate);
        if is_dust(s.last(), fee_rate) {
            rest.push(s.last())
        } else {
            rest
        }
    }
}

/// What classification yields: the dust among all outputs, or among those of
/// one address, which must own at least one output.
pub open spec fn classify(s: Seq<UtxoView>, fee_rate: nat, address: Option<Seq<char>>) -> Result<
    Seq<UtxoView>,
    DustError,
> {
    match address {
        None => Ok(dust_of(s, fee_rate)),
        Some(a) => if owned_by(s, a).len() == 0 {
            Err(DustError::AddressNotFound)
        } else {
            Ok(dust_of(owned_by(s, a), fee_rate))
        },
    }
}

pub open spec fn is_grouping(s: Seq<UtxoView>, groups: Seq<AddressGroup>) -> bool {
    &&& forall|k: int|
        0 <= k < groups.len() ==> views((#[trigger] groups[k]).utxos@) == owned_by(
            s,
            groups[k].address@,
        ) && owned_by(s, groups[k].address@).len() > 0
    &&& forall|k: int, l: int|
        0 <= k < l < groups.len() ==> #[trigger] groups[k].address@ != #[trigger] groups[l].address@
    &&& forall|i: int|
        0 <= i < s.len() && s[i].address.is_some() ==> exists|k: int|
            0 <= k < groups.len() && #[trigger] groups[k].address@ == s[i].address.unwrap()
}

/// Relies on bitcoin's `Script::minimal_non_dust_custom`, with the fee rate made by
/// `FeeRate::from_sat_per_vb_unchecked`: the rate in sat/kvB times the script's
/// spend cost, divided by 1000. It panics when that product overflows.
#[verifier::external_body]
#[allow(deprecated)]
fn minimal_non_dust(script: &Vec<u8>, fee_rate: u64) -> (r: u64)
    requires
        fee_rate * 1000 * (165 + script@.len()) <= u64::MAX,
    ensures
        r == dust_threshold(script@, fee_rate as nat),
{
    let rate = bitcoin::FeeRate::from_sat_per_vb_unchecked(fee_rate);
    bitcoin::Script::from_bytes(script.as_slice()).minimal_non_dust_custom(rate).to_sat()
}

proof fn lemma_owned_by_empty(s: Seq<UtxoView>, a: Seq<char>)
    requires
        forall|i: int| 0 <= i < s.len() ==> s[i].address != Some(a),
    ensures
        owned_by(s, a).len() == 0,
    decreases s.len(),
{
    if s.len() > 0 {
        lemma_owned_by_empty(s.drop_last(), a);
    }
}

proof fn lemma_owned_by_some(s: Seq<UtxoView>, a: Seq<char>, i: int)
    requires
        0 <= i < s.len(),
        s[i].address == Some(a),
    ensures
        owned_by(s, a).len() > 0,
    decreases s.len(),
{
    if i < s.len() - 1 {
        lemma_owned_by_some(s.drop_last(), a, i);
    }
}

proof fn lemma_views_push(v: Seq<Utxo>, u: Utxo)
    ensures
        views(v.push(u)) == views(v).push(u@),
{
    assert(views(v.push(u)) =~= views(v).push(u@));
}

/// Every output of `owned_by(s, a)` is an output of `s` owned by `a`, and back.
pub proof fn lemma_owned_by_members(s: Seq<UtxoView>, a: Seq<char>)
    ensures
        forall|x: UtxoView| #[trigger]
            owned_by(s, a).contains(x) <==> (s.contains(x) && x.address == Some(a)),
    decreases s.len(),
{
    broadcast use vstd::seq_lib::lemma_seq_contains_after_push;

    if s.len() > 0 {
        let p = s.drop_last();
        lemma_owned_by_members(p, a);
        assert(s =~= p.push(s.last()));
        assert forall|x: UtxoView| #[trigger]
            owned_by(s, a).contains(x) <==> (s.contains(x) && x.address == Some(a)) by {
            vstd::seq_lib::lemma_seq_contains_after_push(p, s.last(), x);
            assert(s.contains(x) <==> (p.contains(x) || x == s.last()));
            if s.last().address == Some(a) {
                assert(owned_by(s, a) == owned_by(p, a).push(s.last()));
                vstd::seq_lib::lemma_seq_contains_after_push(owned_by(p, a), s.last(), x);
            } else {
                assert(owned_by(s, a) == owned_by(p, a));
            }
        }
    }
}

/// Every output of `dust_of(s, f)` is an output of `s` that is dust at `f`, and back.
pub proof fn lemma_dust_of_members(s: Seq<UtxoView>, fee_rate: nat)
    ensures
        forall|x: UtxoView| #[trigger]
            dust_of(s, fee_rate).contains(x) <==> (s.contains(x) && is_dust(x, fee_rate)),
    decreases s.len(),
{
    broadcast use vstd::seq_lib::lemma_seq_contains_after_push;

    if s.len() > 0 {
        let p = s.drop_last();
        lemma_dust_of_members(p, fee_rate);
        assert(s =~= p.push(s.last()));
        assert forall|x: UtxoView| #[trigger]
            dust_of(s, fee_rate).contains(x) <==> (s.contains(x) && is_dust(x, fee_rate)) by {
            vstd::seq_lib::lemma_seq_contains_after_push(p, s.last(), x);
            assert(s.contains(x) <==> (p.contains(x) || x == s.last()));
            if is_dust(s.last(), fee_rate) {
                assert(dust_of(s, fee_rate) == dust_of(p, fee_rate).push(s.last()));
                vstd::seq_lib::lemma_seq_contains_after_push(dust_of(p, fee_rate), s.last(), x);
            } else {
                assert(dust_of(s, fee_rate) == dust_of(p, fee_rate));
            }
        }
    }
}

proof fn lemma_owned_by_fits(s: Seq<UtxoView>, a: Seq<char>, fee_rate: u64)
    requires
        fee_rate_fits(s, fee_rate),
    ensures
        fee_rate_fits(owned_by(s, a), fee_rate),
{
    lemma_owned_by_members(s, a);
    let o = owned_by(s, a);
    assert forall|i: int| 0 <= i < o.len() implies fee_rate * 1000 * (165
        + o[i].script_pubkey.len()) <= u64::MAX by {
        assert(o.contains(o[i]));
        let j = choose|j: int| 0 <= j < s.len() && s[j] == o[i];
    }
}

/// The outputs of `utxos` owned by `address`, in order.
fn select_owned(utxos: &Vec<Utxo>, address: &String) -> (r: Vec<Utxo>)
    ensures
        views(r@) == owned_by(views(utxos@), address@),
{
    let mut r: Vec<Utxo> = Vec::new();
    let mut i: usize = 0;
    while i < utxos.len()
        invariant
            i <= utxos.len(),
            views(r@) == owned_by(views(utxos@).subrange(0, i as int), address@),
        decreases utxos.len() - i,
    {
        let ghost s = views(utxos@);
        assert(s.subrange(0, i + 1).drop_last() =~= s.subrange(0, i as int));
        let owned = match &utxos[i].address {
            Some(a) => *a == *address,
            None => false,
        };
        if owned {
            proof {
                lemma_views_push(r@, utxos@[i as int]);
            }
            r.push(utxos[i].clone());
        }
        i = i + 1;
    }
    assert(views(utxos@).subrange(0, utxos.len() as int) =~= views(utxos@));
    r
}

/// The outputs of `utxos` that are dust at `fee_rate`, in order.
fn select_dust(utxos: &Vec<Utxo>, fee_rate: u64) -> (r: Vec<Utxo>)
    requires
        fee_rate_fits(views(utxos@), fee_rate),
    ensures
        views(r@) == dust_of(views(utxos@), fee_rate as nat),
{
    let mut r: Vec<Utxo> = Vec::new();
    let mut i: usize = 0;
    while i < utxos.len()
        invariant
            i <= utxos.len(),
            fee_rate_fits(views(utxos@), fee_rate),
            views(r@) == dust_of(views(utxos@).subrange(0, i as int), fee_rate as nat),
        decreases utxos.len() - i,
    {
        let ghost s = views(utxos@);
        assert(s.subrange(0, i + 1).drop_last() =~= s.subrange(0, i as int));
        assert(s[i as int].script_pubkey == utxos@[i as int].script_pubkey@);
        let threshold = minimal_non_dust(&utxos[i].script_pubkey, fee_rate);
        if utxos[i].amount < threshold {
            proof {
                lemma_views_push(r@, utxos@[i as int]);
            }
            r.push(utxos[i].clone());
        }
        i = i + 1;
    }
    assert(views(utxos@).subrange(0, utxos.len() as int) =~= views(utxos@));
    r
}

/// The position of the group of `address`, if there is one.
fn find_group(groups: &Vec<AddressGroup>, address: &String) -> (r: Option<usize>)
    ensures
        match r {
            Some(k) => k < groups.len() && groups@[k as int].address@ == address@,
            None => forall|l: int| 0 <= l < groups.len() ==> groups@[l].address@ != address@,
        },
{
    let mut k: usize = 0;
    while k < groups.len()
        invariant
            k <= groups.len(),
            forall|l: int| 0 <= l < k ==> groups@[l].address@ != address@,
        decreases groups.len() - k,
    {
        if groups[k].address == *address {
            return Some(k);
        }
        k = k + 1;
    }
    None
}

/// Groups the outputs by owning address. Each group holds, in the order given,
/// all outputs of that address; outputs without an address belong to no
/// group, and no address has two groups.
pub fn get_utxos_by_address(utxos: &Vec<Utxo>) -> (groups: Vec<AddressGroup>)
    ensures
        is_grouping(views(utxos@), groups@),
{
    let ghost s = views(utxos@);
    let mut groups: Vec<AddressGroup> = Vec::new();
    let mut i: usize = 0;
    while i < utxos.len()
        invariant
            i <= utxos.len(),
            s == views(utxos@),
            forall|k: int|
                0 <= k < groups.len() ==> views((#[trigger] groups@[k]).utxos@) == owned_by(
                    s,
                    groups@[k].address@,
                ) && owned_by(s, groups@[k].address@).len() > 0,
            forall|k: int, l: int|
                0 <= k < l < groups.len() ==> #[trigger] groups@[k].address@
                    != #[trigger] groups@[l].address@,
            forall|j: int|
                0 <= j < i && s[j].address.is_some() ==> exists|k: int|
                    0 <= k < groups.len() && #[trigger] groups@[k].address@
                        == s[j].address.unwrap(),
        decreases utxos.len() - i,
    {
        assert(s[i as int] == utxos@[i as int]@);
        if let Some(a) = &utxos[i].address {
            let found = find_group(&groups, a).is_some();
            if !found {
                let members = select_owned(utxos, a);
                proof {
                    lemma_owned_by_some(s, a@, i as int);
                }
                let ghost old_groups = groups@;
                groups.push(AddressGroup { address: a.clone(), utxos: members });
                assert forall|k: int| 0 <= k < groups.len() implies views(
                    (#[trigger] groups@[k]).utxos@,
                ) == owned_by(s, groups@[k].address@) && owned_by(s, groups@[k].address@).len()
                    > 0 by {
                    if k < old_groups.len() {
                        assert(groups@[k] == old_groups[k]);
                    }
                }
                assert forall|k: int, l: int|
                    0 <= k < l < groups.len() implies #[trigger] groups@[k].address@
                    != #[trigger] groups@[l].address@ by {
                    assert(groups@[k] == old_groups[k]);
                    if l < old_groups.len() {
                        assert(groups@[l] == old_groups[l]);
                    }
                }
                assert forall|j: int|
                    0 <= j <= i && s[j].address.is_some() implies exists|k: int|
                    0 <= k < groups.len() && #[trigger] groups@[k].address@
                        == s[j].address.unwrap() by {
                    if j < i {
                        let k = choose|k: int|
                            0 <= k < old_groups.len() && #[trigger] old_groups[k].address@
                                == s[j].address.unwrap();
                        assert(groups@[k] == old_groups[k]);
                    } else {
                        assert(groups@[groups.len() - 1].address@ == a@);
                    }
                }
            }
        }
        i = i + 1;
    }
    groups
}

/// The dust outputs, in the order given. With an address, only the outputs
/// of that address's group are considered, and an address that owns no output is
/// an error.
pub fn get_dust_utxos(utxos: &Vec<Utxo>, min_relay_fee: u64, address: &Option<String>) -> (r:
    Result<Vec<Utxo>, DustError>)
    requires
        fee_rate_fits(views(utxos@), min_relay_fee),
    ensures
        match r {
            Ok(v) => classify(views(utxos@), min_relay_fee as nat, crate::utxo::address_view(*address))
                == Ok::<Seq<UtxoView>, DustError>(views(v@)),
            Err(e) => classify(views(utxos@), min_relay_fee as nat, crate::utxo::address_view(*address))
                == Err::<Seq<UtxoView>, DustError>(e),
        },
{
    match address {
        None => Ok(select_dust(utxos, min_relay_fee)),
        Some(a) => {
            let groups = get_utxos_by_address(utxos);
            let ghost s = views(utxos@);
            assert(crate::utxo::address_view(*address) == Some(a@));
            if let Some(k) = find_group(&groups, a) {
                proof {
                    lemma_owned_by_fits(s, a@, min_relay_fee);
                    assert(views(groups@[k as int].utxos@) == owned_by(s, a@));
                }
                return Ok(select_dust(&groups[k].utxos, min_relay_fee));
            }
            proof {
                assert forall|i: int| 0 <= i < s.len() implies s[i].address != Some(a@) by {
                    if s[i].address == Some(a@) {
                        let k = choose|k: int|
                            0 <= k < groups.len() && #[trigger] groups@[k].address@
                                == s[i].address.unwrap();
                    }
                }
                lemma_owned_by_empty(s, a@);
            }
            Err(DustError::AddressNotFound)
        },
    }
}

/// An output is in the result of classification exactly when it is among the
/// outputs considered (all of them, or those of the filter address) and its
/// amount is below its dust threshold at the fee rate.
pub proof fn lemma_classify_includes_exactly_dust(
    s: Seq<UtxoView>,
    fee_rate: nat,
    address: Option<Seq<char>>,
    x: UtxoView,
)
    ensures
        classify(s, fee_rate, address) matches Ok(r) ==> (r.contains(x) <==> (s.contains(x) && (
        address is None || x.address == address) && x.amount < dust_threshold(
            x.script_pubkey,
            fee_rate,
        ))),
{
    match address {
        None => lemma_dust_of_members(s, fee_rate),
        Some(a) => {
            lemma_owned_by_members(s, a);
            lemma_dust_of_members(owned_by(s, a), fee_rate);
        },
    }
}

/// The dust threshold of a script never falls as the fee rate rises.
pub proof fn lemma_threshold_monotone(script: Seq<u8>, low: nat, high: nat)
    requires
        low <= high,
    ensures
        dust_threshold(script, low) <= dust_threshold(script, high),
{
    let c = spend_cost(script);
    assert(low * c <= high * c) by (nonlinear_arith)
        requires
            low <= high,
    ;
}

/// With an address filter, the result is the dust of that address's group as
/// the grouper builds it, and holds only outputs of that group.
pub proof fn lemma_filtered_within_group(
    s: Seq<UtxoView>,
    fee_rate: nat,
    groups: Seq<AddressGroup>,
    k: int,
)
    requires
        is_grouping(s, groups),
        0 <= k < groups.len(),
    ensures
        classify(s, fee_rate, Some(groups[k].address@)) == Ok::<Seq<UtxoView>, DustError>(
            dust_of(views(groups[k].utxos@), fee_rate),
        ),
        forall|x: UtxoView|
            dust_of(views(groups[k].utxos@), fee_rate).contains(x) ==> #[trigger] views(
                groups[k].utxos@,
            ).contains(x),
{
    let g = views(groups[k].utxos@);
    assert(g == owned_by(s, groups[k].address@));
    lemma_dust_of_members(g, fee_rate);
}

/// Classifying a result of classification again, at the same fee rate, gives
/// it back unchanged and in the same order.
pub proof fn lemma_classify_idempotent(s: Seq<UtxoView>, fee_rate: nat, address: Option<
    Seq<char>,
>)
    ensures
        classify(s, fee_rate, address) matches Ok(r) ==> classify(r, fee_rate, None) == Ok::<
            Seq<UtxoView>,
            DustError,
        >(r),
{
    match address {
        None => lemma_dust_of_idempotent(s, fee_rate),
        Some(a) => lemma_dust_of_idempotent(owned_by(s, a), fee_rate),
    }
}

proof fn lemma_dust_of_idempotent(s: Seq<UtxoView>, fee_rate: nat)
    ensures
        dust_of(dust_of(s, fee_rate), fee_rate) == dust_of(s, fee_rate),
    decreases s.len(),
{
    if s.len() > 0 {
        let p = s.drop_last();
        lemma_dust_of_idempotent(p, fee_rate);
        if is_dust(s.last(), fee_rate) {
            let d = dust_of(p, fee_rate).push(s.last());
            assert(d.drop_last() =~= dust_of(p, fee_rate));
        }
    }
}

/// Raising the fee rate only adds dust: the dust at a lower rate is exactly the
/// dust at that rate among the dust at a higher one, so it is a subsequence of
/// it, in the same order.
pub proof fn lemma_dust_grows_with_fee_rate(
    s: Seq<UtxoView>,
    low: nat,
    high: nat,
    address: Option<Seq<char>>,
)
    requires
        low <= high,
    ensures
        classify(s, low, address) matches Ok(r_low) ==> classify(s, high, address) matches Ok(
            r_high,
        ) && classify(r_high, low, None) == Ok::<Seq<UtxoView>, DustError>(r_low),
{
    match address {
        None => lemma_dust_of_nested(s, low, high),
        Some(a) => lemma_dust_of_nested(owned_by(s, a), low, high),
    }
}

proof fn lemma_dust_of_nested(s: Seq<UtxoView>, low: nat, high: nat)
    requires
        low <= high,
    ensures
        dust_of(dust_of(s, high), low) == dust_of(s, low),
    decreases s.len(),
{
    if s.len() > 0 {
        let p = s.drop_last();
        lemma_dust_of_nested(p, low, high);
        lemma_threshold_monotone(s.last().script_pubkey, low, high);
        if is_dust(s.last(), high) {
            let d = dust_of(p, high).push(s.last());
            assert(d.drop_last() =~= dust_of(p, high));
        }
    }
}

/// With an address filter, outputs that the address does not own (those of
/// other addresses and those with none) have no effect on the result.
pub proof fn lemma_filter_ignores_other_outputs(
    s1: Seq<UtxoView>,
    s2: Seq<UtxoView>,
    fee_rate: nat,
    a: Seq<char>,
)
    requires
        owned_by(s1, a) == owned_by(s2, a),
    ensures
        classify(s1, fee_rate, Some(a)) == classify(s2, fee_rate, Some(a)),
{
}

/// Classifying the same outputs with the same parameters twice gives the same
/// result: the same outputs in the same order, or the same error.
pub proof fn lemma_classify_deterministic(
    s1: Seq<UtxoView>,
    s2: Seq<UtxoView>,
    fee_rate: nat,
    address: Option<Seq<char>>,
)
    requires
        s1 == s2,
    ensures
        classify(s1, fee_rate, address) == classify(s2, fee_rate, address),
{
}

/// Whether `fee_rate` is small enough for [`get_dust_utxos`] on these outputs.
pub fn fee_rate_supported(utxos: &Vec<Utxo>, fee_rate: u64) -> (r: bool)
    ensures
        r == fee_rate_fits(views(utxos@), fee_rate),
{
    if fee_rate > u64::MAX / 1000 {
        return false;
    }
    let mut i: usize = 0;
    while i < utxos.len()
        invariant
            i <= utxos.len(),
            fee_rate * 1000 <= u64::MAX,
            forall|j: int|
                0 <= j < i ==> fee_rate * 1000 * (165 + utxos@[j].script_pubkey@.len())
                    <= u64::MAX,
        decreases utxos.len() - i,
    {
        let len = utxos[i].script_pubkey.len();
        let unit = fee_rate * 1000;
        if unit > 0 && (len as u64 > u64::MAX - 165 || len as u64 + 165 > u64::MAX / unit) {
            proof {
                if len as u64 > u64::MAX - 165 {
                    assert(unit * (len + 165) >= len + 165) by (nonlinear_arith)
                        requires
                            unit > 0,
                    ;
                } else {
                    assert(unit * (len + 165) > u64::MAX) by (nonlinear_arith)
                        requires
                            unit > 0,
                            len + 165 > u64::MAX / unit,
                    ;
                }
                assert(views(utxos@)[i as int].script_pubkey == utxos@[i as int].script_pubkey@);
            }
            return false;
        }
        proof {
            if unit > 0 {
                assert(unit * (len + 165) <= u64::MAX) by (nonlinear_arith)
                    requires
                        unit > 0,
                        len + 165 <= u64::MAX / unit,
                ;
            }
        }
        i = i + 1;
    }
    proof {
        assert forall|j: int| 0 <= j < views(utxos@).len() implies fee_rate * 1000 * (165
            + views(utxos@)[j].script_pubkey.len()) <= u64::MAX by {
            assert(views(utxos@)[j].script_pubkey == utxos@[j].script_pubkey@);
        }
    }
    true
}

} // verus!
