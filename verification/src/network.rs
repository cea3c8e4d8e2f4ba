use vstd::prelude::*;
use std::collections::BTreeMap;
use std::collections::BTreeSet;
use crate::types::{QueuedSwapItem, SubnetData, SubnetNode};
use crate::registry::{NetworkParams, SubnetsMeta, NodesMeta, KeysMeta, OverwatchMeta, flat};

verus! {

/// Value stored under `k`, or `d` when there is none (a storage read with a default).
pub open spec fn get_or<K, V>(m: Map<K, V>, k: K, d: V) -> V {
    if m.contains_key(k) {
        m[k]
    } else {
        d
    }
}

/// Read `k` from a map, falling back to `d`.
pub fn map_get<K: Ord + Copy, V: Copy>(m: &BTreeMap<K, V>, k: K, d: V) -> (r: V)
    requires
        vstd::laws_cmp::obeys_cmp::<K>(),
    ensures
        r == get_or(m@, k, d),
{
    match m.get(&k) {
        Some(v) => *v,
        None => d,
    }
}

/// Write `v` under `k`.
pub fn map_set<K: Ord + Copy, V>(m: &mut BTreeMap<K, V>, k: K, v: V)
    requires
        vstd::laws_cmp::obeys_cmp::<K>(),
    ensures
        final(m)@ == old(m)@.insert(k, v),
{
    m.insert(k, v);
}

/// Remove `k`.
pub fn map_remove<K: Ord + Copy, V>(m: &mut BTreeMap<K, V>, k: K)
    requires
        vstd::laws_cmp::obeys_cmp::<K>(),
    ensures
        final(m)@ == old(m)@.remove(k),
{
    m.remove(&k);
}

/// `x + y` capped at `u128::MAX`.
pub open spec fn sat_add(x: u128, y: u128) -> u128 {
    if (x as int + y as int) > u128::MAX { u128::MAX } else { (x + y) as u128 }
}

/// `x - y` floored at zero.
pub open spec fn sat_sub(x: u128, y: u128) -> u128 {
    if x < y { 0 } else { (x - y) as u128 }
}

/// `x + y` for signed flows, capped at the `i128` range.
pub open spec fn sat_add_i128(x: i128, y: i128) -> i128 {
    if (x as int + y as int) > i128::MAX {
        i128::MAX
    } else if (x as int + y as int) < i128::MIN {
        i128::MIN
    } else {
        (x + y) as i128
    }
}

/// `x - y` for signed flows, capped at the `i128` range.
pub open spec fn sat_sub_i128(x: i128, y: i128) -> i128 {
    if (x as int - y as int) > i128::MAX {
        i128::MAX
    } else if (x as int - y as int) < i128::MIN {
        i128::MIN
    } else {
        (x - y) as i128
    }
}

/// Saturating signed addition.
pub fn saturating_add_i128(x: i128, y: i128) -> (r: i128)
    ensures
        r == sat_add_i128(x, y),
{
    match x.checked_add(y) {
        Some(v) => v,
        None => if y > 0 { i128::MAX } else { i128::MIN },
    }
}

/// Saturating signed subtraction.
pub fn saturating_sub_i128(x: i128, y: i128) -> (r: i128)
    ensures
        r == sat_sub_i128(x, y),
{
    if y >= 0 {
        if x >= i128::MIN + y { x - y } else { i128::MIN }
    } else {
        if x <= i128::MAX + y { x - y } else { i128::MAX }
    }
}

/// The two's-complement reinterpretation of a balance as a signed flow.
pub open spec fn as_flow(amount: u128) -> i128 {
    if amount <= i128::MAX as u128 { amount as i128 } else { (amount as int - 0x1_0000_0000_0000_0000_0000_0000_0000_0000int) as i128 }
}

/// Reinterpret a balance as a signed flow (as Rust's `as i128` does).
pub fn balance_as_flow(amount: u128) -> (r: i128)
    ensures
        r == as_flow(amount),
{
    if amount <= i128::MAX as u128 {
        amount as i128
    } else {
        let low: u128 = amount - 0x8000_0000_0000_0000_0000_0000_0000_0000u128;
        let r: i128 = (low as i128) + i128::MIN;
        r
    }
}

/// Outcome of asking the currency whether an amount can leave an account.
///
/// `NotEnough`: the free balance is below the amount or the withdrawal is not
/// allowed; `WithdrawFails`: the check passes but a keep-alive withdrawal would
/// fail; `Allowed`: the withdrawal would succeed.
#[derive(Clone, Copy, Debug, PartialEq, Eq, Structural)]
pub enum WithdrawCheck {
    NotEnough,
    WithdrawFails,
    Allowed,
}

/// A matured unbonding: `amount` becomes free balance of `account`.
#[derive(Clone, Copy, Debug, PartialEq, Eq, Structural)]
pub struct PendingDeposit {
    pub account: u64,
    pub unbonding_block: u32,
    pub amount: u128,
}

/// Network-wide and per-subnet state read and written by the staking logic.
///
/// Accounts are `u64`. Maps hold what the chain stores; a key that is absent
/// reads as the documented default of its storage item.
#[derive(Clone)]
pub struct Network {
    /// Blocks per epoch.
    pub epoch_length: u32,
    /// Minimum delegate stake deposit (default 1000).
    pub min_delegate_stake_deposit: u128,
    /// Cooldown epochs of subnet delegate stake unbondings (default 1).
    pub delegate_stake_cooldown_epochs: u32,
    /// Cooldown epochs of node stake unbondings (default 4).
    pub stake_cooldown_epochs: u32,
    /// Maximum unbondings per account (default 32).
    pub max_unbondings: u32,
    /// Blocks between two rate-limited transactions of one account (0 disables).
    pub tx_rate_limit: u32,
    /// Minimum overwatch node stake (default 100e18).
    pub overwatch_min_stake_balance: u128,
    /// Maximum swap queue calls executed per block (default 16).
    pub max_swap_queue_calls_per_block: u32,
    /// Whether transactions are paused.
    pub tx_pause: bool,
    /// Last rate-limited transaction block per account.
    pub last_tx_block: BTreeMap<u64, u32>,
    /// Data of each subnet that exists.
    pub subnets_data: BTreeMap<u32, SubnetData>,
    /// Subnet delegate pools: total shares per subnet.
    pub total_subnet_delegate_stake_shares: BTreeMap<u32, u128>,
    /// Subnet delegate pools: total balance per subnet.
    pub total_subnet_delegate_stake_balance: BTreeMap<u32, u128>,
    /// Subnet delegate pools: shares per (account, subnet).
    pub account_subnet_delegate_stake_shares: BTreeMap<(u64, u32), u128>,
    /// Sum of all subnet delegate pool balances.
    pub total_delegate_stake: u128,
    /// Net delegate stake flow per subnet.
    pub subnet_net_flow: BTreeMap<u32, i128>,
    /// Validator delegate pools: total shares per validator.
    pub validator_delegate_stake_shares: BTreeMap<u32, u128>,
    /// Validator delegate pools: total balance per validator.
    pub validator_delegate_stake_balance: BTreeMap<u32, u128>,
    /// Validator delegate pools: shares per (account, validator).
    pub account_validator_delegate_stake_shares: BTreeMap<(u64, u32), u128>,
    /// Sum of all validator delegate pool balances.
    pub total_validator_delegate_stake_balance: u128,
    /// Node delegate pools: total shares per (subnet, node).
    pub total_node_delegate_stake_shares: BTreeMap<(u32, u32), u128>,
    /// Node delegate pools: total balance per (subnet, node).
    pub total_node_delegate_stake_balance: BTreeMap<(u32, u32), u128>,
    /// Node delegate pools: shares per (account, subnet, node).
    pub account_node_delegate_stake_shares: BTreeMap<(u64, u32, u32), u128>,
    /// Sum of all node delegate pool balances.
    pub total_node_delegate_stake: u128,
    /// Stake of a node in a subnet, keyed (node, subnet).
    pub node_subnet_stake: BTreeMap<(u32, u32), u128>,
    /// Total node stake per subnet.
    pub total_subnet_stake: BTreeMap<u32, u128>,
    /// Total node stake.
    pub total_stake: u128,
    /// Minimum node stake per subnet (default 100e18).
    pub subnet_min_stake_balance: BTreeMap<u32, u128>,
    /// Maximum node stake per subnet (default 1000e18).
    pub subnet_max_stake_balance: BTreeMap<u32, u128>,
    /// Validator owning a subnet node, keyed (subnet, node).
    pub subnet_node_validator_id: BTreeMap<(u32, u32), u32>,
    /// Coldkey of each validator; its keys are the validators that exist.
    pub validator_coldkey: BTreeMap<u32, u64>,
    /// Node ids of each validator, by subnet.
    pub validator_subnet_nodes: BTreeMap<u32, BTreeMap<u32, BTreeSet<u32>>>,
    /// Reputation of active subnet nodes, keyed (subnet, node).
    pub subnet_node_reputation: BTreeMap<(u32, u32), u128>,
    /// Validator owning an overwatch node.
    pub overwatch_node_validator_id: BTreeMap<u32, u32>,
    /// Stake of each overwatch node.
    pub overwatch_node_stake_balance: BTreeMap<u32, u128>,
    /// Total overwatch node stake.
    pub total_overwatch_node_stake_balance: u128,
    /// Delegate account balance per account.
    pub account_delegate_stake: BTreeMap<u64, u128>,
    /// Sum of delegate account balances.
    pub total_account_delegate_stake: u128,
    /// Unbonding ledger per account: claim block -> amount.
    pub stake_unbonding_ledger: BTreeMap<u64, BTreeMap<u32, u128>>,
    /// Sum of all unbonding amounts.
    pub total_unbonding_balance: u128,
    /// Matured unbondings the currency still has to deposit, in claim order.
    pub pending_deposits: Vec<PendingDeposit>,
    /// Queued swap calls by id.
    pub swap_call_queue: BTreeMap<u32, QueuedSwapItem>,
    /// Ids of queued swap calls in execution order.
    pub swap_queue_order: Vec<u32>,
    /// Id of the next queued swap call.
    pub next_swap_queue_id: u32,
    /// Governance parameters of subnet and node registration.
    pub params: NetworkParams,
    /// Per-subnet records.
    pub meta: SubnetsMeta,
    /// Per-subnet node records.
    pub nodes: NodesMeta,
    /// Hotkey and coldkey records.
    pub keys: KeysMeta,
    /// Overwatch node records.
    pub ow: OverwatchMeta,
}

/// Default minimum node stake of a subnet (100e18).
pub const DEFAULT_SUBNET_MIN_STAKE: u128 = 100_000_000_000_000_000_000;

/// Default maximum node stake of a subnet (1000e18).
pub const DEFAULT_SUBNET_MAX_STAKE: u128 = 1_000_000_000_000_000_000_000;

impl Network {
    /// A network with no subnets, no stake and default parameters.
    pub fn new(epoch_length: u32, tx_rate_limit: u32, params: NetworkParams) -> (r: Network)
        ensures
            r.epoch_length == epoch_length,
            r.tx_rate_limit == tx_rate_limit,
            r.min_delegate_stake_deposit == 1000,
            r.delegate_stake_cooldown_epochs == 1,
            r.stake_cooldown_epochs == 4,
            r.max_unbondings == 32,
            r.overwatch_min_stake_balance == DEFAULT_SUBNET_MIN_STAKE,
            r.max_swap_queue_calls_per_block == 16,
            !r.tx_pause,
            r.last_tx_block@ == Map::<u64, u32>::empty(),
            r.subnets_data@ == Map::<u32, SubnetData>::empty(),
            r.total_subnet_delegate_stake_shares@ == Map::<u32, u128>::empty(),
            r.total_subnet_delegate_stake_balance@ == Map::<u32, u128>::empty(),
            r.account_subnet_delegate_stake_shares@ == Map::<(u64, u32), u128>::empty(),
            r.total_delegate_stake == 0,
            r.subnet_net_flow@ == Map::<u32, i128>::empty(),
            r.validator_delegate_stake_shares@ == Map::<u32, u128>::empty(),
            r.validator_delegate_stake_balance@ == Map::<u32, u128>::empty(),
            r.account_validator_delegate_stake_shares@ == Map::<(u64, u32), u128>::empty(),
            r.total_validator_delegate_stake_balance == 0,
            r.total_node_delegate_stake_shares@ == Map::<(u32, u32), u128>::empty(),
            r.total_node_delegate_stake_balance@ == Map::<(u32, u32), u128>::empty(),
            r.account_node_delegate_stake_shares@ == Map::<(u64, u32, u32), u128>::empty(),
            r.total_node_delegate_stake == 0,
            r.node_subnet_stake@ == Map::<(u32, u32), u128>::empty(),
            r.total_subnet_stake@ == Map::<u32, u128>::empty(),
            r.total_stake == 0,
            r.subnet_min_stake_balance@ == Map::<u32, u128>::empty(),
            r.subnet_max_stake_balance@ == Map::<u32, u128>::empty(),
            r.subnet_node_validator_id@ == Map::<(u32, u32), u32>::empty(),
            r.validator_coldkey@ == Map::<u32, u64>::empty(),
            r.validator_subnet_nodes@ == Map::<u32, BTreeMap<u32, BTreeSet<u32>>>::empty(),
            r.subnet_node_reputation@ == Map::<(u32, u32), u128>::empty(),
            r.overwatch_node_validator_id@ == Map::<u32, u32>::empty(),
            r.overwatch_node_stake_balance@ == Map::<u32, u128>::empty(),
            r.total_overwatch_node_stake_balance == 0,
            r.account_delegate_stake@ == Map::<u64, u128>::empty(),
            r.total_account_delegate_stake == 0,
            r.stake_unbonding_ledger@ == Map::<u64, BTreeMap<u32, u128>>::empty(),
            r.total_unbonding_balance == 0,
            r.pending_deposits@ == Seq::<PendingDeposit>::empty(),
            r.swap_call_queue@ == Map::<u32, QueuedSwapItem>::empty(),
            r.swap_queue_order@ == Seq::<u32>::empty(),
            r.next_swap_queue_id == 0,
            r.params == params,
            r.wf(),
            r.meta.subnet_name.as_map() == Map::<Seq<u8>, u32>::empty(),
            r.meta.subnet_repo.as_map() == Map::<Seq<u8>, u32>::empty(),
            r.meta.total_subnet_uids == 0,
            r.meta.total_active_subnets == 0,
            r.nodes.subnet_nodes_data@ == Map::<u32, BTreeMap<u32, SubnetNode>>::empty(),
            r.nodes.total_active_nodes == 0,
            r.nodes.total_nodes == 0,
    {
        Network {
            epoch_length,
            min_delegate_stake_deposit: 1000,
            delegate_stake_cooldown_epochs: 1,
            stake_cooldown_epochs: 4,
            max_unbondings: 32,
            tx_rate_limit,
            overwatch_min_stake_balance: DEFAULT_SUBNET_MIN_STAKE,
            max_swap_queue_calls_per_block: 16,
            tx_pause: false,
            last_tx_block: BTreeMap::new(),
            subnets_data: BTreeMap::new(),
            total_subnet_delegate_stake_shares: BTreeMap::new(),
            total_subnet_delegate_stake_balance: BTreeMap::new(),
            account_subnet_delegate_stake_shares: BTreeMap::new(),
            total_delegate_stake: 0,
            subnet_net_flow: BTreeMap::new(),
            validator_delegate_stake_shares: BTreeMap::new(),
            validator_delegate_stake_balance: BTreeMap::new(),
            account_validator_delegate_stake_shares: BTreeMap::new(),
            total_validator_delegate_stake_balance: 0,
            total_node_delegate_stake_shares: BTreeMap::new(),
            total_node_delegate_stake_balance: BTreeMap::new(),
            account_node_delegate_stake_shares: BTreeMap::new(),
            total_node_delegate_stake: 0,
            node_subnet_stake: BTreeMap::new(),
            total_subnet_stake: BTreeMap::new(),
            total_stake: 0,
            subnet_min_stake_balance: BTreeMap::new(),
            subnet_max_stake_balance: BTreeMap::new(),
            subnet_node_validator_id: BTreeMap::new(),
            validator_coldkey: BTreeMap::new(),
            validator_subnet_nodes: BTreeMap::new(),
            subnet_node_reputation: BTreeMap::new(),
            overwatch_node_validator_id: BTreeMap::new(),
            overwatch_node_stake_balance: BTreeMap::new(),
            total_overwatch_node_stake_balance: 0,
            account_delegate_stake: BTreeMap::new(),
            total_account_delegate_stake: 0,
            stake_unbonding_ledger: BTreeMap::new(),
            total_unbonding_balance: 0,
            pending_deposits: Vec::new(),
            swap_call_queue: BTreeMap::new(),
            swap_queue_order: Vec::new(),
            next_swap_queue_id: 0,
            params,
            meta: SubnetsMeta::new(),
            nodes: NodesMeta::new(),
            keys: KeysMeta::new(),
            ow: OverwatchMeta::new(epoch_length),
        }
    }

    /// Whether a transaction at `current_block` after one at `prev_tx_block` is
    /// inside the rate limit window.
    pub open spec fn spec_exceeds_tx_rate_limit(&self, prev_tx_block: u32, current_block: u32) -> bool {
        if self.tx_rate_limit == 0 || prev_tx_block == 0 {
            false
        } else {
            (if current_block >= prev_tx_block { current_block - prev_tx_block } else { 0int })
                <= self.tx_rate_limit
        }
    }

    pub fn exceeds_tx_rate_limit(&self, prev_tx_block: u32, current_block: u32) -> (r: bool)
        ensures
            r == self.spec_exceeds_tx_rate_limit(prev_tx_block, current_block),
    {
        if self.tx_rate_limit == 0 || prev_tx_block == 0 {
            return false;
        }
        current_block.saturating_sub(prev_tx_block) <= self.tx_rate_limit
    }

    /// Last rate-limited transaction block of an account (0 when none).
    pub fn get_last_tx_block(&self, account_id: u64) -> (r: u32)
        ensures
            r == get_or(self.last_tx_block@, account_id, 0u32),
    {
        map_get(&self.last_tx_block, account_id, 0)
    }

    /// Whether the account's transaction at `block` is rate limited.
    pub open spec fn spec_rate_limited(&self, account_id: u64, block: u32) -> bool {
        self.spec_exceeds_tx_rate_limit(get_or(self.last_tx_block@, account_id, 0u32), block)
    }

    pub fn set_last_tx_block(&mut self, account_id: u64, block: u32)
        ensures
            final(self).last_tx_block@ == old(self).last_tx_block@.insert(account_id, block),
            final(self).same_settings(*old(self)),
            final(self).same_subnet_pool(*old(self)),
            final(self).same_validator_pool(*old(self)),
            final(self).same_node_pool(*old(self)),
            final(self).same_node_stake(*old(self)),
            final(self).same_overwatch_stake(*old(self)),
            final(self).same_delegate_account(*old(self)),
            final(self).same_unbonding(*old(self)),
            final(self).same_swap_queue(*old(self)),
    {
        map_set(&mut self.last_tx_block, account_id, block);
    }

    /// Parameters and the maps the staking logic only reads equal those of `o`.
    pub open spec fn same_settings(&self, o: Network) -> bool {
        &&& self.epoch_length == o.epoch_length
        &&& self.min_delegate_stake_deposit == o.min_delegate_stake_deposit
        &&& self.delegate_stake_cooldown_epochs == o.delegate_stake_cooldown_epochs
        &&& self.stake_cooldown_epochs == o.stake_cooldown_epochs
        &&& self.max_unbondings == o.max_unbondings
        &&& self.tx_rate_limit == o.tx_rate_limit
        &&& self.overwatch_min_stake_balance == o.overwatch_min_stake_balance
        &&& self.max_swap_queue_calls_per_block == o.max_swap_queue_calls_per_block
        &&& self.tx_pause == o.tx_pause
        &&& self.subnets_data@ == o.subnets_data@
        &&& self.subnet_min_stake_balance@ == o.subnet_min_stake_balance@
        &&& self.subnet_max_stake_balance@ == o.subnet_max_stake_balance@
        &&& self.subnet_node_validator_id@ == o.subnet_node_validator_id@
        &&& self.validator_coldkey@ == o.validator_coldkey@
        &&& self.subnet_node_reputation@ == o.subnet_node_reputation@
        &&& self.overwatch_node_validator_id@ == o.overwatch_node_validator_id@
        &&& self.params == o.params
        &&& self.meta == o.meta
        &&& self.nodes == o.nodes
        &&& self.keys == o.keys
        &&& self.ow == o.ow
    }

    /// Every node id of a subnet, active or registered, is at most the number
    /// of ids the subnet has handed out.
    pub open spec fn node_ids_bounded(&self) -> bool {
        &&& forall|s: u32, i: u32| #[trigger] flat(self.nodes.subnet_nodes_data@).contains_key((s, i))
            ==> i <= get_or(self.nodes.total_subnet_node_uids@, s, 0u32)
        &&& forall|s: u32, i: u32| #[trigger] flat(self.nodes.registered_subnet_nodes_data@).contains_key((s, i))
            ==> i <= get_or(self.nodes.total_subnet_node_uids@, s, 0u32)
    }

    /// The name and the repository of every subnet are indexed to that subnet.
    pub open spec fn names_indexed(&self) -> bool {
        &&& forall|s: u32| #[trigger] self.subnets_data@.contains_key(s) ==> {
            &&& self.meta.subnet_name.as_map().contains_key(self.subnets_data@[s].name@)
            &&& self.meta.subnet_name.as_map()[self.subnets_data@[s].name@] == s
            &&& self.meta.subnet_repo.as_map().contains_key(self.subnets_data@[s].repo@)
            &&& self.meta.subnet_repo.as_map()[self.subnets_data@[s].repo@] == s
        }
    }

    /// Every index of byte-string keys holds each key at most once, node ids
    /// stay within the ids handed out, and subnet names and repositories are
    /// indexed.
    pub open spec fn wf(&self) -> bool {
        &&& self.node_ids_bounded()
        &&& self.names_indexed()
        &&& self.meta.subnet_name.keys_distinct()
        &&& self.meta.subnet_repo.keys_distinct()
        &&& forall|s: u32| #[trigger] self.nodes.peer_id_subnet_node_id@.contains_key(s)
            ==> self.nodes.peer_id_subnet_node_id@[s].keys_distinct()
        &&& forall|s: u32| #[trigger] self.nodes.bootnode_peer_id_subnet_node_id@.contains_key(s)
            ==> self.nodes.bootnode_peer_id_subnet_node_id@[s].keys_distinct()
        &&& forall|s: u32| #[trigger] self.nodes.client_peer_id_subnet_node_id@.contains_key(s)
            ==> self.nodes.client_peer_id_subnet_node_id@[s].keys_distinct()
        &&& forall|s: u32| #[trigger] self.nodes.bootnode_subnet_node_id@.contains_key(s)
            ==> self.nodes.bootnode_subnet_node_id@[s].keys_distinct()
        &&& forall|s: u32| #[trigger] self.nodes.unique_param_subnet_node_id@.contains_key(s)
            ==> self.nodes.unique_param_subnet_node_id@[s].keys_distinct()
        &&& forall|s: u32| #[trigger] self.ow.peer_id_overwatch_node_id@.contains_key(s)
            ==> self.ow.peer_id_overwatch_node_id@[s].keys_distinct()
    }

    /// The subnet delegate pools equal those of `o`.
    pub open spec fn same_subnet_pool(&self, o: Network) -> bool {
        &&& self.total_subnet_delegate_stake_shares@ == o.total_subnet_delegate_stake_shares@
        &&& self.total_subnet_delegate_stake_balance@ == o.total_subnet_delegate_stake_balance@
        &&& self.account_subnet_delegate_stake_shares@ == o.account_subnet_delegate_stake_shares@
        &&& self.total_delegate_stake == o.total_delegate_stake
        &&& self.subnet_net_flow@ == o.subnet_net_flow@
    }

    /// The validator delegate pools equal those of `o`.
    pub open spec fn same_validator_pool(&self, o: Network) -> bool {
        &&& self.validator_delegate_stake_shares@ == o.validator_delegate_stake_shares@
        &&& self.validator_delegate_stake_balance@ == o.validator_delegate_stake_balance@
        &&& self.account_validator_delegate_stake_shares@ == o.account_validator_delegate_stake_shares@
        &&& self.total_validator_delegate_stake_balance == o.total_validator_delegate_stake_balance
    }

    /// The node delegate pools equal those of `o`.
    pub open spec fn same_node_pool(&self, o: Network) -> bool {
        &&& self.total_node_delegate_stake_shares@ == o.total_node_delegate_stake_shares@
        &&& self.total_node_delegate_stake_balance@ == o.total_node_delegate_stake_balance@
        &&& self.account_node_delegate_stake_shares@ == o.account_node_delegate_stake_shares@
        &&& self.total_node_delegate_stake == o.total_node_delegate_stake
    }

    /// Node stakes equal those of `o`.
    pub open spec fn same_node_stake(&self, o: Network) -> bool {
        &&& self.node_subnet_stake@ == o.node_subnet_stake@
        &&& self.total_subnet_stake@ == o.total_subnet_stake@
        &&& self.total_stake == o.total_stake
    }

    /// Overwatch node stakes equal those of `o`.
    pub open spec fn same_overwatch_stake(&self, o: Network) -> bool {
        &&& self.overwatch_node_stake_balance@ == o.overwatch_node_stake_balance@
        &&& self.total_overwatch_node_stake_balance == o.total_overwatch_node_stake_balance
    }

    /// Delegate account balances equal those of `o`.
    pub open spec fn same_delegate_account(&self, o: Network) -> bool {
        &&& self.account_delegate_stake@ == o.account_delegate_stake@
        &&& self.total_account_delegate_stake == o.total_account_delegate_stake
    }

    /// The unbonding ledger equals that of `o`.
    pub open spec fn same_unbonding(&self, o: Network) -> bool {
        &&& self.stake_unbonding_ledger@ == o.stake_unbonding_ledger@
        &&& self.total_unbonding_balance == o.total_unbonding_balance
        &&& self.pending_deposits@ == o.pending_deposits@
    }

    /// The swap queue equals that of `o`.
    pub open spec fn same_swap_queue(&self, o: Network) -> bool {
        &&& self.swap_call_queue@ == o.swap_call_queue@
        &&& self.swap_queue_order@ == o.swap_queue_order@
        &&& self.next_swap_queue_id == o.next_swap_queue_id
    }

    /// Rate-limit blocks equal those of `o`.
    pub open spec fn same_rate_limit(&self, o: Network) -> bool {
        self.last_tx_block@ == o.last_tx_block@
    }
}

/// Genesis settings of the network.
#[derive(Clone, Debug)]
pub struct GenesisConfig {
    pub subnet_name: Vec<u8>,
    pub subnet_nodes: Vec<(u64, Vec<u8>)>,
}

impl GenesisConfig {
    /// Apply the genesis settings: subnets may activate right after
    /// registration, overwatch epochs last two epochs, and every overwatch
    /// qualification threshold is lifted.
    pub fn build(&self, network: &mut Network)
        ensures
            *final(network) == (Network {
                params: NetworkParams {
                    min_subnet_registration_epochs: 0,
                    overwatch_epoch_length_multiplier: 2,
                    ..old(network).params
                },
                ow: OverwatchMeta {
                    min_diversification_ratio: 0,
                    min_rep_score: 0,
                    min_avg_attestation_ratio: 0,
                    min_age: 0,
                    ..old(network).ow
                },
                ..*old(network)
            }),
    {
        network.params.min_subnet_registration_epochs = 0;
        network.params.overwatch_epoch_length_multiplier = 2;
        network.ow.min_diversification_ratio = 0;
        network.ow.min_rep_score = 0;
        network.ow.min_avg_attestation_ratio = 0;
        network.ow.min_age = 0;
    }
}

} // verus!
