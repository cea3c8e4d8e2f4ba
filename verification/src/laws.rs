//! Properties of the library that span several operations.

use vstd::prelude::*;
use crate::math::{spec_convert_to_shares, spec_convert_to_balance};
use crate::types::{SubnetNodeClass, class_rank, spec_has_classification, SubnetNodeClassification};
use crate::network::{get_or, sat_add};
use crate::pools::{pool_credited, pool_debited, seeded};
use crate::network::{Network, WithdrawCheck};
use crate::types::{NetworkError, QueuedSwapCall, RegistrationSubnetData, SubnetData, MIN_LIQUIDITY};
use crate::unbonding::{claims_of, future_part};
use crate::keys::has_stake;
use crate::nodes::hotkeys_of;
use crate::registry::{index_of, flat};
use crate::types::{SubnetState, NodeRegistrationChecks, PERCENTAGE_FACTOR};
use crate::nodes::{opt_view, queue_of};
use crate::network::{DEFAULT_SUBNET_MIN_STAKE, DEFAULT_SUBNET_MAX_STAKE};

verus! {

/// Redeeming the shares a deposit of `b` mints in a pool with `ts > 0` shares and
/// `tb` balance, once the deposit is in the pool, returns at most `b`: a
/// depositor cannot take out more than it put in.
pub proof fn lemma_deposit_redeem_no_profit(b: u128, ts: u128, tb: u128)
    requires
        ts > 0,
        ts as int + spec_convert_to_shares(b, ts, tb) as int <= u128::MAX,
        tb as int + b as int <= u128::MAX,
    ensures
        ({
            let shares = spec_convert_to_shares(b, ts, tb);
            spec_convert_to_balance(shares, (ts + shares) as u128, (tb + b) as u128) <= b
        }),
{
    let shares = spec_convert_to_shares(b, ts, tb);
    let q = (b as int) * (ts as int + 10) / (tb as int + 1);
    assert(q >= 0) by (nonlinear_arith)
        requires b >= 0, ts >= 0, tb >= 0, q == (b as int) * (ts as int + 10) / (tb as int + 1);
    assert(shares <= q);
    assert((shares as int) * (tb as int + 1) <= (b as int) * (ts as int + 10)) by (nonlinear_arith)
        requires
            shares <= q,
            shares >= 0,
            tb >= 0,
            q == (b as int) * (ts as int + 10) / (tb as int + 1);
    let num = (shares as int) * ((tb + b) as int + 1);
    let den = (ts + shares) as int + 10;
    assert(num <= (b as int) * den) by (nonlinear_arith)
        requires
            (shares as int) * (tb as int + 1) <= (b as int) * (ts as int + 10),
            num == (shares as int) * ((tb + b) as int + 1),
            den == (ts + shares) as int + 10,
            (tb + b) as int == tb as int + b as int,
            (ts + shares) as int == ts as int + shares as int;
    assert(num / den <= b) by (nonlinear_arith)
        requires num <= (b as int) * den, den > 0, num >= 0, b >= 0;
}

/// The first deposit of `b` into a pool with no shares (which first receives
/// `MIN_LIQUIDITY` dead shares, then mints shares one for one), once it is in
/// the pool, redeems for at most `b`, when the pool held at most the dead
/// shares' worth of balance (an empty pool holds none).
pub proof fn lemma_first_deposit_redeem_no_profit(b: u128, tb: u128)
    requires
        tb as int <= MIN_LIQUIDITY as int + 9,
        tb as int + b as int <= u128::MAX,
        MIN_LIQUIDITY as int + b as int <= u128::MAX,
    ensures
        ({
            let shares = spec_convert_to_shares(b, 0, tb);
            spec_convert_to_balance(shares, (MIN_LIQUIDITY + shares) as u128, (tb + b) as u128) <= b
        }),
{
    let shares = spec_convert_to_shares(b, 0, tb);
    assert(shares == b);
    let num = (b as int) * ((tb + b) as int + 1);
    let den = (MIN_LIQUIDITY + b) as int + 10;
    assert(num <= (b as int) * den) by (nonlinear_arith)
        requires
            num == (b as int) * ((tb + b) as int + 1),
            den == (MIN_LIQUIDITY + b) as int + 10,
            (tb + b) as int == tb as int + b as int,
            (MIN_LIQUIDITY + b) as int == MIN_LIQUIDITY as int + b as int,
            tb as int <= MIN_LIQUIDITY as int + 9,
            b >= 0;
    assert(num / den <= b) by (nonlinear_arith)
        requires num <= (b as int) * den, den > 0, num >= 0, b >= 0;
}

/// Converting more shares never yields less balance.
pub proof fn lemma_convert_to_balance_monotonic(s1: u128, s2: u128, ts: u128, tb: u128)
    requires
        s1 <= s2,
    ensures
        spec_convert_to_balance(s1, ts, tb) <= spec_convert_to_balance(s2, ts, tb),
{
    if ts != 0 {
        let d = ts as int + 10;
        let m = tb as int + 1;
        assert((s1 as int) * m / d <= (s2 as int) * m / d) by (nonlinear_arith)
            requires s1 <= s2, s1 >= 0, m > 0, d > 0;
    }
}

/// Depositing more balance never mints fewer shares.
pub proof fn lemma_convert_to_shares_monotonic(b1: u128, b2: u128, ts: u128, tb: u128)
    requires
        b1 <= b2,
    ensures
        spec_convert_to_shares(b1, ts, tb) <= spec_convert_to_shares(b2, ts, tb),
{
    if ts != 0 {
        let m = ts as int + 10;
        let d = tb as int + 1;
        assert((b1 as int) * m / d <= (b2 as int) * m / d) by (nonlinear_arith)
            requires b1 <= b2, b1 >= 0, m > 0, d > 0;
    }
}

/// A donation (more balance, same shares) never lowers what shares redeem for.
pub proof fn lemma_donation_never_dilutes(shares: u128, ts: u128, tb1: u128, tb2: u128)
    requires
        tb1 <= tb2,
    ensures
        spec_convert_to_balance(shares, ts, tb1) <= spec_convert_to_balance(shares, ts, tb2),
{
    if ts != 0 {
        let d = ts as int + 10;
        assert((shares as int) * (tb1 as int + 1) / d <= (shares as int) * (tb2 as int + 1) / d) by (nonlinear_arith)
            requires tb1 <= tb2, shares >= 0, tb1 >= 0, d > 0;
    }
}

/// Debiting a pool by what was just credited to it, when nothing saturated,
/// restores every balance and share count.
pub proof fn lemma_credit_then_debit_restores<K, AK>(
    ts0: Map<K, u128>,
    tb0: Map<K, u128>,
    as0: Map<AK, u128>,
    ts1: Map<K, u128>,
    tb1: Map<K, u128>,
    as1: Map<AK, u128>,
    ts2: Map<K, u128>,
    tb2: Map<K, u128>,
    as2: Map<AK, u128>,
    k: K,
    ak: AK,
    amount: u128,
    shares: u128,
)
    requires
        pool_credited(ts0, tb0, as0, ts1, tb1, as1, k, ak, amount, shares),
        pool_debited(ts1, tb1, as1, ts2, tb2, as2, k, ak, amount, shares),
        get_or(ts0, k, 0u128) + shares <= u128::MAX,
        get_or(tb0, k, 0u128) + amount <= u128::MAX,
        get_or(as0, ak, 0u128) + shares <= u128::MAX,
    ensures
        forall|x: K| get_or(ts2, x, 0u128) == get_or(ts0, x, 0u128),
        forall|x: K| get_or(tb2, x, 0u128) == get_or(tb0, x, 0u128),
        forall|x: AK| get_or(as2, x, 0u128) == get_or(as0, x, 0u128),
{
}

/// `previous` undoes `next` on every class below the highest: if `n` is what
/// `next` gives for `c` and `p` what `previous` gives for `n`, then `p == c`.
pub proof fn lemma_previous_undoes_next(c: SubnetNodeClass, n: SubnetNodeClass, p: SubnetNodeClass)
    requires
        class_rank(c) < 3,
        class_rank(n) == if class_rank(c) < 3 { class_rank(c) + 1 } else { 3 },
        class_rank(p) == if class_rank(n) > 0 { class_rank(n) - 1 } else { 0 },
    ensures
        p == c,
{
    lemma_class_rank_injective(p, c);
}

/// `next` undoes `previous` on every class above the lowest.
pub proof fn lemma_next_undoes_previous(c: SubnetNodeClass, p: SubnetNodeClass, n: SubnetNodeClass)
    requires
        class_rank(c) > 0,
        class_rank(p) == if class_rank(c) > 0 { class_rank(c) - 1 } else { 0 },
        class_rank(n) == if class_rank(p) < 3 { class_rank(p) + 1 } else { 3 },
    ensures
        n == c,
{
    lemma_class_rank_injective(n, c);
}

/// Classes with the same rank are the same class.
proof fn lemma_class_rank_injective(a: SubnetNodeClass, b: SubnetNodeClass)
    requires
        class_rank(a) == class_rank(b),
    ensures
        a == b,
{
    match a {
        SubnetNodeClass::Registered => {},
        SubnetNodeClass::Idle => {},
        SubnetNodeClass::Included => {},
        SubnetNodeClass::Validator => {},
    }
    match b {
        SubnetNodeClass::Registered => {},
        SubnetNodeClass::Idle => {},
        SubnetNodeClass::Included => {},
        SubnetNodeClass::Validator => {},
    }
}

/// A node that has a classification also has every lower one, and keeps it in
/// later epochs.
pub proof fn lemma_has_classification_monotonic(
    c: SubnetNodeClassification,
    required: SubnetNodeClass,
    lower: SubnetNodeClass,
    epoch: u32,
    later: u32,
)
    requires
        spec_has_classification(c, required, epoch),
        class_rank(lower) <= class_rank(required),
        epoch <= later,
    ensures
        spec_has_classification(c, lower, later),
{
}

/// Once an account has made a rate-limited transaction at block `b > 0`, its
/// transactions at every later block within the rate limit are refused.
pub proof fn lemma_rate_limit_after_transaction(o: Network, n: Network, a: u64, b: u32, later: u32)
    requires
        n.last_tx_block@ == o.last_tx_block@.insert(a, b),
        n.tx_rate_limit == o.tx_rate_limit,
        n.tx_rate_limit > 0,
        b > 0,
        b <= later,
        later as int - b as int <= n.tx_rate_limit,
    ensures
        n.spec_rate_limited(a, later),
{
}

/// Queue ids stay strictly increasing and below the next id as calls are
/// queued, as long as the next id has not reached its maximum.
pub proof fn lemma_queue_ids_increasing(o: Network, n: Network, call: QueuedSwapCall, block: u32)
    requires
        n.swap_queued(o, call, block),
        o.next_swap_queue_id < u32::MAX,
        forall|i: int, j: int| 0 <= i < j < o.swap_queue_order@.len() ==> o.swap_queue_order@[i] < o.swap_queue_order@[j],
        forall|i: int| 0 <= i < o.swap_queue_order@.len() ==> o.swap_queue_order@[i] < o.next_swap_queue_id,
    ensures
        forall|i: int, j: int| 0 <= i < j < n.swap_queue_order@.len() ==> n.swap_queue_order@[i] < n.swap_queue_order@[j],
        forall|i: int| 0 <= i < n.swap_queue_order@.len() ==> n.swap_queue_order@[i] < n.next_swap_queue_id,
{
}

/// A second claim at the same block finds nothing left to pay.
pub proof fn lemma_claim_twice_pays_nothing(claimed: Seq<crate::network::PendingDeposit>, a: u64, m: Map<u32, u128>, block: u32)
    requires
        claims_of(claimed, a, future_part(m, block), block),
    ensures
        claimed.len() == 0,
{
    if claimed.len() > 0 {
        let k = claimed[0].unbonding_block;
        assert(future_part(m, block).contains_key(k));
    }
}

/// A subnet name, once registered, cannot be registered again.
pub proof fn lemma_registered_name_is_taken(
    o: Network,
    n: Network,
    id: u32,
    data: RegistrationSubnetData,
    max_cost: u128,
    cost: u128,
    funds: WithdrawCheck,
)
    requires
        n.meta.subnet_name.as_map() == o.meta.subnet_name.as_map().insert(data.name@, id),
    ensures
        n.register_subnet_error(data, max_cost, cost, funds) == Some(NetworkError::SubnetNameExist),
{
}

/// A removed subnet no longer exists, and its name and repository are free.
pub proof fn lemma_removed_subnet_is_gone(o: Network, n: Network, s: u32, d: SubnetData)
    requires
        n.subnet_records_dropped(o, s, d),
    ensures
        !n.subnets_data@.contains_key(s),
        !n.meta.subnet_name.as_map().contains_key(d.name@),
        !n.meta.subnet_repo.as_map().contains_key(d.repo@),
        !n.meta.subnet_owner@.contains_key(s),
{
}

/// A successful transfer of delegate stake between two accounts, when nothing
/// saturates, keeps the pool's total shares and balance and the
/// two accounts' combined shares.
pub proof fn lemma_transfer_conserves_shares(o: Network, n: Network, a: u64, s: u32, to: u64, shares: u128)
    requires
        n.delegate_stake_transferred(o, a, s, to, shares, Ok(())),
        get_or(o.total_subnet_delegate_stake_shares@, s, 0u128) >= shares,
        get_or(o.account_subnet_delegate_stake_shares@, (to, s), 0u128) + shares <= u128::MAX,
    ensures
        get_or(n.total_subnet_delegate_stake_shares@, s, 0u128) == get_or(o.total_subnet_delegate_stake_shares@, s, 0u128),
        get_or(n.total_subnet_delegate_stake_balance@, s, 0u128) == get_or(o.total_subnet_delegate_stake_balance@, s, 0u128),
        get_or(n.account_subnet_delegate_stake_shares@, (a, s), 0u128)
            + get_or(n.account_subnet_delegate_stake_shares@, (to, s), 0u128)
            == get_or(o.account_subnet_delegate_stake_shares@, (a, s), 0u128)
            + get_or(o.account_subnet_delegate_stake_shares@, (to, s), 0u128),
{
}

/// Stake sent to the unbonding ledger is paid out by a claim once its cooldown
/// has passed: the claim pays the entry of that claim block, which holds at least
/// the amount (entries of one claim block add up, saturating).
pub proof fn lemma_unbonding_paid_after_cooldown(
    o: Network,
    n: Network,
    coldkey: u64,
    amount: u128,
    cooldown_blocks: u32,
    block: u32,
    claimed: Seq<crate::network::PendingDeposit>,
    later: u32,
)
    requires
        n.unbonding_added(o, coldkey, amount, cooldown_blocks, block, true),
        claims_of(claimed, coldkey, n.ledger_of(coldkey), later),
        block as int + cooldown_blocks as int <= later,
    ensures
        exists|i: int| 0 <= i < claimed.len() && (#[trigger] claimed[i]).unbonding_block == block + cooldown_blocks
            && claimed[i].amount >= amount,
{
    let cb = (block + cooldown_blocks) as u32;
    assert(n.ledger_of(coldkey).contains_key(cb));
    let i = choose|i: int| 0 <= i < claimed.len() && (#[trigger] claimed[i]).unbonding_block == cb;
    assert(claimed[i].amount == n.ledger_of(coldkey)[cb]);
}

/// Subnet ids are handed out fresh: while every existing id is at most the
/// number handed out and that number is below its maximum, the next id names no
/// existing subnet.
pub proof fn lemma_new_subnet_id_is_fresh(o: Network)
    requires
        o.meta.total_subnet_uids < u32::MAX,
        forall|s: u32| #[trigger] o.subnets_data@.contains_key(s) ==> s <= o.meta.total_subnet_uids,
    ensures
        !o.subnets_data@.contains_key((o.meta.total_subnet_uids + 1) as u32),
{
}

/// A hotkey update hands the old hotkey over: afterwards the coldkey owns the
/// new hotkey and nobody the old one, the coldkey's hotkeys list the new one in
/// place of the old one, and every nonzero subnet stake of the old hotkey is
/// held by the new one.
pub proof fn lemma_update_hotkey_hands_over(o: Network, n: Network, coldkey: u64, old_hotkey: u64, new_hotkey: u64, s: u32)
    requires
        o.update_hotkey_error(coldkey, old_hotkey, new_hotkey) is None,
        o.keys_moved(n, coldkey, old_hotkey, new_hotkey),
    ensures
        get_or(n.keys.hotkey_owner@, new_hotkey, 0u64) == coldkey,
        !n.keys.hotkey_owner@.contains_key(old_hotkey),
        hotkeys_of(n.keys.coldkey_hotkeys@, coldkey).contains(new_hotkey),
        !hotkeys_of(n.keys.coldkey_hotkeys@, coldkey).contains(old_hotkey),
        has_stake(o.keys.account_subnet_stake@, old_hotkey, s) ==> {
            &&& n.keys.account_subnet_stake@.contains_key((new_hotkey, s))
            &&& n.keys.account_subnet_stake@[(new_hotkey, s)] == o.keys.account_subnet_stake@[(old_hotkey, s)]
            &&& !n.keys.account_subnet_stake@.contains_key((old_hotkey, s))
        },
{
    assert(old_hotkey != new_hotkey);
}

/// Once an overwatch node has been given a peer id in an existing subnet, that
/// peer id proves stake in the subnet, whatever class (of the four) and minimum
/// stake are asked for.
pub proof fn lemma_overwatch_peer_proves_stake(
    o: Network,
    n: Network,
    s: u32,
    overwatch_node_id: u32,
    peer: Seq<u8>,
    min_class: u8,
    min_stake: Option<u128>,
    epoch: u32,
)
    requires
        index_of(n.ow.peer_id_overwatch_node_id@, s) == index_of(o.ow.peer_id_overwatch_node_id@, s).insert(peer, overwatch_node_id),
        n.subnets_data@.contains_key(s),
        min_class <= 3,
    ensures
        n.spec_proof_of_stake(s, peer, min_class, min_stake, epoch),
{
}


/// Registering an overwatch node keeps the number of overwatch nodes within the
/// maximum: a count at most the maximum before is at most the maximum after. A
/// registration that succeeds hands out the next id to the caller's validator,
/// counts one more node and gives it at least the minimum overwatch stake.
pub proof fn lemma_overwatch_nodes_bounded(
    o: Network,
    n: Network,
    coldkey: u64,
    stake_to_be_added: u128,
    funds: WithdrawCheck,
    current_overwatch_epoch: u32,
    current_epoch: u32,
    subnet_epochs: Map<u32, u32>,
    r: Result<(), NetworkError>,
)
    requires
        o.ow.total_overwatch_nodes <= o.ow.max_overwatch_nodes,
        match o.register_overwatch_error(coldkey, current_overwatch_epoch, current_epoch, subnet_epochs) {
            Some(e) => r == Err::<(), NetworkError>(e) && n == o,
            None => n.overwatch_registration(o, coldkey, stake_to_be_added, funds, r),
        },
    ensures
        n.ow.total_overwatch_nodes <= n.ow.max_overwatch_nodes,
        r is Ok ==> {
            let uid = (o.ow.total_overwatch_node_uids + 1) as u32;
            let b = get_or(o.overwatch_node_stake_balance@, uid, 0u128);
            &&& n.ow.total_overwatch_node_uids == uid
            &&& n.ow.overwatch_nodes@ == o.ow.overwatch_nodes@.insert(uid, coldkey)
            &&& n.overwatch_node_validator_id@[uid] == o.ow.coldkey_validator_id@[coldkey]
            &&& n.ow.total_overwatch_nodes == o.ow.total_overwatch_nodes + 1
            &&& get_or(n.overwatch_node_stake_balance@, uid, 0u128) == sat_add(b, stake_to_be_added)
            &&& get_or(n.overwatch_node_stake_balance@, uid, 0u128) >= o.overwatch_min_stake_balance
        },
{
}

/// Adding to an unbonding ledger keeps it within the maximum number of
/// unbondings: a ledger of at most `max_unbondings` entries before has at most
/// that many after, whether or not the amount found room.
pub proof fn lemma_unbonding_ledger_bounded(
    o: Network,
    n: Network,
    coldkey: u64,
    amount: u128,
    cooldown_blocks: u32,
    block: u32,
    ok: bool,
)
    requires
        o.ledger_of(coldkey).len() <= o.max_unbondings,
        n.max_unbondings == o.max_unbondings,
        n.unbonding_added(o, coldkey, amount, cooldown_blocks, block, ok),
    ensures
        n.ledger_of(coldkey).len() <= n.max_unbondings,
{
    let m0 = o.ledger_of(coldkey);
    let auto = (m0.len() as u32) == o.max_unbondings;
    let l1 = if auto { future_part(m0, block) } else { m0 };
    assert(l1.dom().subset_of(m0.dom()));
    vstd::set_lib::lemma_len_subset(l1.dom(), m0.dom());
    if ok {
        let claim_block = if block as int + cooldown_blocks as int > u32::MAX { u32::MAX } else { (block + cooldown_blocks) as u32 };
        assert(n.ledger_of(coldkey).dom() =~= l1.dom().insert(claim_block));
    }
}

/// No two subnets share a name, and no two share a repository, in a network
/// kept well formed by its operations.
pub proof fn lemma_subnet_names_unique(n: Network, s1: u32, s2: u32)
    requires
        n.wf(),
        n.subnets_data@.contains_key(s1),
        n.subnets_data@.contains_key(s2),
        s1 != s2,
    ensures
        n.subnets_data@[s1].name@ != n.subnets_data@[s2].name@,
        n.subnets_data@[s1].repo@ != n.subnets_data@[s2].repo@,
{
}

/// Depositing `b` into subnet `s`'s delegate pool for `a` (which mints `sh`
/// shares) and then removing those shares, with the pool untouched in between,
/// pays out at most `b` (`subnet_redeem_amount` is what
/// `perform_do_remove_delegate_stake` pays): no value is taken from the other
/// stakers. It holds when nothing saturates and a pool without shares holds at
/// most `MIN_LIQUIDITY + 9` of balance.
pub proof fn lemma_deposit_then_remove_no_profit(o: Network, mid: Network, a: u64, s: u32, b: u128, sh: u128)
    requires
        o.subnet_deposit_result(s, b) == (Ok::<(), NetworkError>(()), b, sh),
        mid.subnet_deposited(o, a, s, b),
        get_or(seeded(o.total_subnet_delegate_stake_shares@, s), s, 0u128) as int + sh as int <= u128::MAX,
        get_or(o.total_subnet_delegate_stake_balance@, s, 0u128) as int + b as int <= u128::MAX,
        get_or(o.total_subnet_delegate_stake_shares@, s, 0u128) == 0
            ==> get_or(o.total_subnet_delegate_stake_balance@, s, 0u128) as int <= MIN_LIQUIDITY as int + 9,
    ensures
        mid.subnet_redeem_amount(s, sh) <= b,
{
    let ts0 = get_or(o.total_subnet_delegate_stake_shares@, s, 0u128);
    let tb0 = get_or(o.total_subnet_delegate_stake_balance@, s, 0u128);
    assert(sh == spec_convert_to_shares(b, ts0, tb0));
    assert(sh != 0);
    assert(get_or(mid.total_subnet_delegate_stake_balance@, s, 0u128) == tb0 + b);
    if ts0 == 0 {
        assert(sh == b);
        assert(get_or(mid.total_subnet_delegate_stake_shares@, s, 0u128) == MIN_LIQUIDITY + b);
        lemma_first_deposit_redeem_no_profit(b, tb0);
    } else {
        assert(get_or(mid.total_subnet_delegate_stake_shares@, s, 0u128) == ts0 + sh);
        lemma_deposit_redeem_no_profit(b, ts0, tb0);
    }
}

/// A subnet registration, accepted or refused, keeps every subnet's name and
/// repository indexed to it, so that no two subnets share a name or a
/// repository afterwards.
pub proof fn lemma_registration_keeps_names_unique(
    o: Network,
    n: Network,
    owner: u64,
    max_cost: u128,
    data: RegistrationSubnetData,
    block: u32,
    epoch: u32,
    cost: u128,
    funds: WithdrawCheck,
    r: Result<u32, NetworkError>,
)
    requires
        o.names_indexed(),
        o.meta.subnet_name.keys_distinct(),
        o.meta.subnet_repo.keys_distinct(),
        n.subnet_registration(o, owner, max_cost, data, block, epoch, cost, funds, r),
    ensures
        n.names_indexed(),
        forall|i: u32, j: u32| #![trigger n.subnets_data@[i], n.subnets_data@[j]]
            n.subnets_data@.contains_key(i) && n.subnets_data@.contains_key(j) && i != j ==> {
                &&& n.subnets_data@[i].name@ != n.subnets_data@[j].name@
                &&& n.subnets_data@[i].repo@ != n.subnets_data@[j].repo@
            },
{
    assert forall|i: u32, j: u32| #![trigger n.subnets_data@[i], n.subnets_data@[j]]
        n.subnets_data@.contains_key(i) && n.subnets_data@.contains_key(j) && i != j implies {
            &&& n.subnets_data@[i].name@ != n.subnets_data@[j].name@
            &&& n.subnets_data@[i].repo@ != n.subnets_data@[j].repo@
        } by {
        assert(n.names_indexed());
    }
}

/// A validator qualifies for an overwatch node only if it has a reputation
/// whose score and average attestation reach the overwatch minimums and whose
/// age reaches the minimum age (an age of zero when it starts later), at an
/// epoch past the minimum age.
pub proof fn lemma_overwatch_qualification_thresholds(n: Network, v: u32, current_epoch: u32, count: u32)
    requires
        n.overwatch_qualified(v, current_epoch, count),
    ensures
        n.ow.validator_reputation@.contains_key(v),
        n.ow.validator_reputation@[v].score >= n.ow.min_rep_score,
        n.ow.validator_reputation@[v].average_attestation >= n.ow.min_avg_attestation_ratio,
        current_epoch > n.ow.min_age,
        n.ow.min_age == 0 || current_epoch >= n.ow.validator_reputation@[v].start_epoch + n.ow.min_age,
{
}

/// A validator whose reputation score is below the overwatch minimum is never
/// overwatch-qualified, whatever its subnets, and its coldkey cannot register
/// an overwatch node: the registration is refused and nothing changes; once
/// the earlier gates (validator, whitelist, epoch, capacity) pass, the refusal
/// is `ColdkeyNotOverwatchQualified`.
pub proof fn lemma_low_score_never_overwatch(
    o: Network,
    n: Network,
    coldkey: u64,
    stake_to_be_added: u128,
    funds: WithdrawCheck,
    current_overwatch_epoch: u32,
    current_epoch: u32,
    subnet_epochs: Map<u32, u32>,
    r: Result<(), NetworkError>,
)
    requires
        o.ow.coldkey_validator_id@.contains_key(coldkey),
        o.ow.validator_reputation@.contains_key(o.ow.coldkey_validator_id@[coldkey]),
        o.ow.validator_reputation@[o.ow.coldkey_validator_id@[coldkey]].score < o.ow.min_rep_score,
        match o.register_overwatch_error(coldkey, current_overwatch_epoch, current_epoch, subnet_epochs) {
            Some(e) => r == Err::<(), NetworkError>(e) && n == o,
            None => n.overwatch_registration(o, coldkey, stake_to_be_added, funds, r),
        },
    ensures
        forall|e: u32, c: u32| !o.overwatch_qualified(o.ow.coldkey_validator_id@[coldkey], e, c),
        r is Err,
        n == o,
        get_or(o.ow.overwatch_validator_whitelist@, o.ow.coldkey_validator_id@[coldkey], false)
            && current_overwatch_epoch != 0
            && o.ow.total_overwatch_nodes < o.ow.max_overwatch_nodes
            ==> r == Err::<(), NetworkError>(NetworkError::ColdkeyNotOverwatchQualified),
{
}

/// A successful subnet registration stores parameters within the network's
/// limits: a delegate stake rewards percentage between the minimum and the
/// maximum (and at most 100%), a minimum stake between the bounds for it, a
/// maximum stake at least the minimum and at most the network maximum, at
/// least one bootnode, enough initial coldkeys, a fresh name and repository,
/// and a cost within the caller's cap.
pub proof fn lemma_registered_subnet_within_limits(
    o: Network,
    n: Network,
    owner: u64,
    max_cost: u128,
    data: RegistrationSubnetData,
    block: u32,
    epoch: u32,
    cost: u128,
    funds: WithdrawCheck,
    r: Result<u32, NetworkError>,
)
    requires
        n.subnet_registration(o, owner, max_cost, data, block, epoch, cost, funds, r),
        r is Ok,
    ensures
        ({
            let id = r->Ok_0;
            let p = o.params;
            let pct = n.meta.subnet_delegate_stake_rewards_percentage@[id];
            let min = n.subnet_min_stake_balance@[id];
            let max = n.subnet_max_stake_balance@[id];
            &&& n.meta.subnet_delegate_stake_rewards_percentage@.contains_key(id)
            &&& p.min_delegate_stake_percentage <= pct <= p.max_delegate_stake_percentage
            &&& pct <= PERCENTAGE_FACTOR
            &&& p.min_subnet_min_stake <= min <= p.max_subnet_min_stake
            &&& min <= max <= p.network_max_stake_balance
            &&& n.meta.subnet_bootnodes@[id]@.len() >= 1
            &&& (n.meta.subnet_registration_initial_coldkeys@[id]@.len() as u32) >= p.min_subnet_nodes
            &&& !o.meta.subnet_name.as_map().contains_key(data.name@)
            &&& !o.meta.subnet_repo.as_map().contains_key(data.repo@)
            &&& cost <= max_cost
        }),
{
}

/// A subnet registration whose delegate stake percentage lies outside the
/// network's range is refused and changes nothing.
pub proof fn lemma_subnet_percentage_out_of_range_refused(
    o: Network,
    n: Network,
    owner: u64,
    max_cost: u128,
    data: RegistrationSubnetData,
    block: u32,
    epoch: u32,
    cost: u128,
    funds: WithdrawCheck,
    r: Result<u32, NetworkError>,
)
    requires
        n.subnet_registration(o, owner, max_cost, data, block, epoch, cost, funds, r),
        data.delegate_stake_percentage > o.params.max_delegate_stake_percentage
            || data.delegate_stake_percentage < o.params.min_delegate_stake_percentage,
    ensures
        r is Err,
        n == o,
{
}

/// No node registers in a paused subnet: the registration is refused and
/// changes nothing; with a hotkey distinct from the coldkey the refusal is
/// `SubnetIsPaused`.
pub proof fn lemma_paused_subnet_takes_no_nodes(
    o: Network,
    n: Network,
    coldkey: u64,
    subnet_id: u32,
    hotkey: u64,
    peer_id: Vec<u8>,
    bootnode_peer_id: Vec<u8>,
    client_peer_id: Vec<u8>,
    bootnode: Option<Vec<u8>>,
    delegate_reward_rate: u128,
    stake_to_be_added: u128,
    unique: Option<Vec<u8>>,
    non_unique: Option<Vec<u8>>,
    max_burn_amount: u128,
    checks: NodeRegistrationChecks,
    r: Result<(), NetworkError>,
)
    requires
        n.node_registration(o, coldkey, subnet_id, hotkey, peer_id, bootnode_peer_id, client_peer_id, bootnode, delegate_reward_rate, stake_to_be_added, unique, non_unique, max_burn_amount, checks, r),
        o.subnets_data@.contains_key(subnet_id),
        o.subnets_data@[subnet_id].state == SubnetState::Paused,
    ensures
        r is Err,
        n == o,
        coldkey != hotkey ==> r == Err::<(), NetworkError>(NetworkError::SubnetIsPaused),
{
}

/// A node registration that succeeds was made into an existing, unpaused
/// subnet outside its enactment period, with a hotkey distinct from the
/// coldkey and owned by nobody, a queue below its maximum, a delegate reward
/// rate of at most 100%, a burn within the caller's cap that succeeded, and an
/// initial stake within the subnet's stake range.
pub proof fn lemma_node_registration_success_conditions(
    o: Network,
    n: Network,
    coldkey: u64,
    subnet_id: u32,
    hotkey: u64,
    peer_id: Vec<u8>,
    bootnode_peer_id: Vec<u8>,
    client_peer_id: Vec<u8>,
    bootnode: Option<Vec<u8>>,
    delegate_reward_rate: u128,
    stake_to_be_added: u128,
    unique: Option<Vec<u8>>,
    non_unique: Option<Vec<u8>>,
    max_burn_amount: u128,
    checks: NodeRegistrationChecks,
    r: Result<(), NetworkError>,
)
    requires
        n.node_registration(o, coldkey, subnet_id, hotkey, peer_id, bootnode_peer_id, client_peer_id, bootnode, delegate_reward_rate, stake_to_be_added, unique, non_unique, max_burn_amount, checks, r),
        r is Ok,
    ensures
        o.subnets_data@.contains_key(subnet_id),
        o.subnets_data@[subnet_id].state != SubnetState::Paused,
        coldkey != hotkey,
        !o.keys.hotkey_owner@.contains_key(hotkey),
        !checks.in_enactment,
        queue_of(o.nodes.subnet_node_queue@, subnet_id).len() < get_or(o.meta.max_registered_nodes@, subnet_id, 64u32),
        delegate_reward_rate <= PERCENTAGE_FACTOR,
        checks.burn_amount <= max_burn_amount,
        checks.burn_ok,
        get_or(o.subnet_min_stake_balance@, subnet_id, DEFAULT_SUBNET_MIN_STAKE) <= stake_to_be_added,
        stake_to_be_added <= get_or(o.subnet_max_stake_balance@, subnet_id, DEFAULT_SUBNET_MAX_STAKE),
{
}

/// A peer id that names, in subnet `s`, a node waiting in the subnet's
/// registration queue (not yet active), whose class started by `epoch` and
/// whose hotkey holds at least `min` stake in the subnet, proves stake at the
/// lowest class (`Registered`, rank 0).
pub proof fn lemma_queued_node_proves_stake(n: Network, s: u32, peer: Seq<u8>, epoch: u32, min: u128)
    requires
        n.subnets_data@.contains_key(s),
        index_of(n.nodes.peer_id_subnet_node_id@, s).contains_key(peer),
        ({
            let id = index_of(n.nodes.peer_id_subnet_node_id@, s)[peer];
            let node = flat(n.nodes.registered_subnet_nodes_data@)[(s, id)];
            &&& flat(n.nodes.registered_subnet_nodes_data@).contains_key((s, id))
            &&& !flat(n.nodes.subnet_nodes_data@).contains_key((s, id))
            &&& node.classification.start_epoch <= epoch
            &&& get_or(n.keys.account_subnet_stake@, (node.hotkey, s), 0u128) >= min
        }),
    ensures
        n.spec_proof_of_stake(s, peer, 0u8, Some(min), epoch),
        get_or(n.subnet_min_stake_balance@, s, DEFAULT_SUBNET_MIN_STAKE) <= min
            ==> n.spec_proof_of_stake(s, peer, 0u8, None, epoch),
{
}

/// A successful addition of node stake leaves the node's stake in the subnet
/// equal to the old stake plus the amount (capped at `u128::MAX`), within the
/// subnet's minimum and maximum stake; an addition that would take it above a
/// maximum below `u128::MAX` is refused and changes nothing.
pub proof fn lemma_node_stake_within_subnet_range(
    o: Network,
    n: Network,
    coldkey: u64,
    s: u32,
    id: u32,
    amount: u128,
    funds: WithdrawCheck,
    block: u32,
    r: Result<(), NetworkError>,
)
    requires
        match o.add_node_stake_error(coldkey, s, id, amount, funds, block) {
            Some(e) => r == Err::<(), NetworkError>(e) && n == o,
            None => r is Ok && n.node_stake_increased(o, id, s, amount) && n.node_stake_frame(o),
        },
    ensures
        r is Ok ==> {
            let after = get_or(n.node_subnet_stake@, (id, s), 0u128);
            &&& get_or(o.node_subnet_stake@, (id, s), 0u128) + amount <= u128::MAX
                ==> after == get_or(o.node_subnet_stake@, (id, s), 0u128) + amount
            &&& get_or(o.subnet_min_stake_balance@, s, DEFAULT_SUBNET_MIN_STAKE) <= after
            &&& after <= get_or(o.subnet_max_stake_balance@, s, DEFAULT_SUBNET_MAX_STAKE)
            &&& after <= get_or(n.subnet_max_stake_balance@, s, DEFAULT_SUBNET_MAX_STAKE)
        },
        get_or(o.node_subnet_stake@, (id, s), 0u128) + amount > get_or(o.subnet_max_stake_balance@, s, DEFAULT_SUBNET_MAX_STAKE)
            && get_or(o.subnet_max_stake_balance@, s, DEFAULT_SUBNET_MAX_STAKE) < u128::MAX
            ==> r is Err && n == o,
{
}

/// Only the coldkey owning a node's validator adds stake to it, and only a
/// positive amount.
pub proof fn lemma_node_stake_added_by_owner(
    o: Network,
    n: Network,
    coldkey: u64,
    s: u32,
    id: u32,
    amount: u128,
    funds: WithdrawCheck,
    block: u32,
    r: Result<(), NetworkError>,
)
    requires
        match o.add_node_stake_error(coldkey, s, id, amount, funds, block) {
            Some(e) => r == Err::<(), NetworkError>(e) && n == o,
            None => r is Ok && n.node_stake_increased(o, id, s, amount) && n.node_stake_frame(o),
        },
        r is Ok,
    ensures
        o.subnets_data@.contains_key(s),
        o.subnet_node_validator_id@.contains_key((s, id)),
        o.validator_coldkey@.contains_key(o.subnet_node_validator_id@[(s, id)]),
        o.validator_coldkey@[o.subnet_node_validator_id@[(s, id)]] == coldkey,
        amount > 0,
        funds == WithdrawCheck::Allowed,
{
}

/// Removing node stake takes at most the stake the node holds, only for the
/// coldkey owning the node's validator, and leaves an active node (one with a
/// reputation record) at least the subnet's minimum stake; a removal that
/// would take an active node below the minimum leaves the stake unchanged.
pub proof fn lemma_node_stake_removal_bounded(
    o: Network,
    n: Network,
    coldkey: u64,
    s: u32,
    id: u32,
    amount: u128,
    block: u32,
    r: Result<bool, NetworkError>,
)
    requires
        match o.remove_node_stake_error(coldkey, s, id, amount, block) {
            Some(e) => r == Err::<bool, NetworkError>(e) && n == o,
            None => n.node_stake_decreased(o, id, s, amount) && n.node_stake_frame(o),
        },
    ensures
        ({
            let before = get_or(o.node_subnet_stake@, (id, s), 0u128);
            let after = get_or(n.node_subnet_stake@, (id, s), 0u128);
            let min = get_or(o.subnet_min_stake_balance@, s, DEFAULT_SUBNET_MIN_STAKE);
            &&& after != before ==> {
                &&& amount <= before
                &&& after == before - amount
                &&& o.subnet_node_validator_id@.contains_key((s, id))
                &&& o.validator_coldkey@[o.subnet_node_validator_id@[(s, id)]] == coldkey
                &&& o.subnet_node_reputation@.contains_key((s, id)) ==> after >= min
            }
            &&& amount > before ==> n == o
            &&& o.subnet_node_reputation@.contains_key((s, id)) && amount <= before && before - amount < min ==> n == o
        }),
{
}

/// An overwatch registration that succeeds was made by a coldkey with a
/// whitelisted validator that is overwatch-qualified (reputation score,
/// attestation and age at least the minimums), at a nonzero overwatch epoch,
/// with fewer overwatch nodes than the maximum, and an initial stake reaching
/// the overwatch minimum.
pub proof fn lemma_overwatch_registration_success_conditions(
    o: Network,
    n: Network,
    coldkey: u64,
    stake_to_be_added: u128,
    funds: WithdrawCheck,
    current_overwatch_epoch: u32,
    current_epoch: u32,
    subnet_epochs: Map<u32, u32>,
    r: Result<(), NetworkError>,
)
    requires
        match o.register_overwatch_error(coldkey, current_overwatch_epoch, current_epoch, subnet_epochs) {
            Some(e) => r == Err::<(), NetworkError>(e) && n == o,
            None => n.overwatch_registration(o, coldkey, stake_to_be_added, funds, r),
        },
        r is Ok,
    ensures
        ({
            let v = o.ow.coldkey_validator_id@[coldkey];
            let rep = o.ow.validator_reputation@[v];
            &&& o.ow.coldkey_validator_id@.contains_key(coldkey)
            &&& get_or(o.ow.overwatch_validator_whitelist@, v, false)
            &&& current_overwatch_epoch != 0
            &&& o.ow.total_overwatch_nodes < o.ow.max_overwatch_nodes
            &&& o.ow.validator_reputation@.contains_key(v)
            &&& rep.score >= o.ow.min_rep_score
            &&& rep.average_attestation >= o.ow.min_avg_attestation_ratio
            &&& current_epoch > o.ow.min_age
            &&& stake_to_be_added > 0
        }),
{
    let v = o.ow.coldkey_validator_id@[coldkey];
    lemma_overwatch_qualification_thresholds(o, v, current_epoch, o.classified_subnet_count(v, subnet_epochs));
}

/// A peer id, bootnode peer id or client peer id that names, in subnet `s`, an
/// active node of class at least the requested rank since `epoch` at the
/// latest, whose hotkey holds at least `min` stake in the subnet, proves stake.
pub proof fn lemma_active_node_proves_stake(n: Network, s: u32, peer: Seq<u8>, min_class: u8, epoch: u32, min: u128, family: u8)
    requires
        n.subnets_data@.contains_key(s),
        min_class <= 3,
        family <= 2,
        ({
            let f = if family == 0 {
                n.nodes.peer_id_subnet_node_id@
            } else if family == 1 {
                n.nodes.bootnode_peer_id_subnet_node_id@
            } else {
                n.nodes.client_peer_id_subnet_node_id@
            };
            let id = index_of(f, s)[peer];
            let node = flat(n.nodes.subnet_nodes_data@)[(s, id)];
            &&& index_of(f, s).contains_key(peer)
            &&& flat(n.nodes.subnet_nodes_data@).contains_key((s, id))
            &&& class_rank(node.classification.node_class) >= min_class
            &&& node.classification.start_epoch <= epoch
            &&& get_or(n.keys.account_subnet_stake@, (node.hotkey, s), 0u128) >= min
        }),
    ensures
        n.spec_proof_of_stake(s, peer, min_class, Some(min), epoch),
{
}

/// No peer proves stake in a subnet that does not exist, or at a class rank
/// above the top one.
pub proof fn lemma_no_stake_proof_outside_range(n: Network, s: u32, peer: Seq<u8>, min_class: u8, min: Option<u128>, epoch: u32)
    requires
        !n.subnets_data@.contains_key(s) || min_class > 3,
    ensures
        !n.spec_proof_of_stake(s, peer, min_class, min, epoch),
{
}

/// Overwatch stake additions end at or above the overwatch minimum stake;
/// removals take at most the balance, and leave a live overwatch node at or
/// above the minimum.
pub proof fn lemma_overwatch_stake_within_minimum(
    o: Network,
    n_add: Network,
    n_rem: Network,
    coldkey: u64,
    id: u32,
    add: u128,
    funds: WithdrawCheck,
    is_overwatch_node: bool,
    rem: u128,
    r_add: Result<(), NetworkError>,
)
    requires
        match o.add_overwatch_stake_error(coldkey, id, add, funds) {
            Some(e) => r_add == Err::<(), NetworkError>(e) && n_add == o,
            None => r_add is Ok && n_add.overwatch_stake_moved(o, id, add, true),
        },
        match o.remove_overwatch_stake_error(coldkey, id, is_overwatch_node, rem) {
            Some(_) => n_rem == o,
            None => n_rem.overwatch_stake_moved(o, id, rem, false),
        },
    ensures
        r_add is Ok ==> get_or(n_add.overwatch_node_stake_balance@, id, 0u128) >= o.overwatch_min_stake_balance,
        r_add is Ok ==> add > 0,
        ({
            let before = get_or(o.overwatch_node_stake_balance@, id, 0u128);
            let after = get_or(n_rem.overwatch_node_stake_balance@, id, 0u128);
            &&& after != before ==> {
                &&& rem <= before
                &&& after == before - rem
                &&& is_overwatch_node ==> after >= o.overwatch_min_stake_balance
            }
            &&& rem > before ==> n_rem == o
        }),
{
}

/// Removing a hotkey's stake takes at most what it holds and leaves a subnet
/// node at least the subnet's minimum stake; a larger removal changes nothing.
pub proof fn lemma_hotkey_stake_removal_bounded(
    o: Network,
    n: Network,
    coldkey: u64,
    s: u32,
    hotkey: u64,
    is_subnet_node: bool,
    amount: u128,
    block: u32,
    r: Result<(), NetworkError>,
)
    requires
        n.stake_removed(o, coldkey, s, hotkey, is_subnet_node, amount, block, r),
    ensures
        ({
            let before = get_or(o.keys.account_subnet_stake@, (hotkey, s), 0u128);
            let after = get_or(n.keys.account_subnet_stake@, (hotkey, s), 0u128);
            &&& after != before ==> {
                &&& amount <= before
                &&& after == before - amount
                &&& is_subnet_node ==> after >= get_or(o.subnet_min_stake_balance@, s, DEFAULT_SUBNET_MIN_STAKE)
            }
            &&& amount > before ==> n == o && r is Err
        }),
{
}

/// Removing delegate shares takes at most the shares the account holds in the
/// pool, and the account's shares fall by exactly the shares removed; a larger
/// removal changes nothing.
pub proof fn lemma_delegate_removal_bounded(o: Network, n: Network, a: u64, s: u32, shares: u128, block: u32)
    requires
        match o.remove_delegate_error(a, s, shares, block) {
            Some(_) => n == o,
            None => n.subnet_pool_debited(o, a, s, o.subnet_redeem_amount(s, shares), shares),
        },
    ensures
        ({
            let before = get_or(o.account_subnet_delegate_stake_shares@, (a, s), 0u128);
            let after = get_or(n.account_subnet_delegate_stake_shares@, (a, s), 0u128);
            &&& after != before ==> shares <= before && after == before - shares
            &&& shares > before ==> n == o
        }),
{
}

} // verus!
