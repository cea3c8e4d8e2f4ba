//! Subnet and subnet node records: what registration writes and removal clears.

use vstd::prelude::*;
use std::collections::BTreeMap;
use std::collections::BTreeSet;
use crate::types::{KeyType, SubnetNode, Reputation};
use crate::names::NameIndex;

verus! {

/// Network-wide parameters set by governance.
#[derive(Clone, Copy, Debug, PartialEq, Eq, Structural)]
pub struct NetworkParams {
    /// Subnets allowed beyond which the epoch logic removes subnets (one extra may register).
    pub max_subnets: u32,
    /// Maximum bootnodes a subnet registers with.
    pub max_bootnodes: u32,
    /// Lowest minimum node stake a subnet may choose.
    pub min_subnet_min_stake: u128,
    /// Highest minimum node stake a subnet may choose.
    pub max_subnet_min_stake: u128,
    /// Highest maximum node stake a subnet may choose.
    pub network_max_stake_balance: u128,
    /// Lowest delegate stake reward percentage (1e18 = 100%).
    pub min_delegate_stake_percentage: u128,
    /// Highest delegate stake reward percentage (1e18 = 100%).
    pub max_delegate_stake_percentage: u128,
    /// Minimum nodes of a subnet, and of initial coldkeys at registration.
    pub min_subnet_nodes: u32,
    /// Epochs a registered subnet waits before it may try to activate.
    pub min_subnet_registration_epochs: u32,
    /// Maximum active nodes of a subnet.
    pub max_subnet_nodes: u32,
    /// Epoch slots reserved before the first subnet slot.
    pub designated_epoch_slots: u32,
    /// Epochs per overwatch epoch.
    pub overwatch_epoch_length_multiplier: u32,
    /// Epochs an activated node keeps its stake before it may remove any.
    pub min_active_node_stake_epochs: u32,
    /// Factor (1e18 = 100%) applied to a paid registration cost to give the
    /// next registration's starting cost.
    pub new_registration_cost_multiplier: u128,
}

impl NetworkParams {
    /// The default parameters; the minimum registration period and the minimum
    /// stake period of an activated node are one day of epochs.
    pub fn defaults(epochs_per_year: u32, designated_epoch_slots: u32) -> (r: NetworkParams)
        ensures
            r.max_subnets == 64,
            r.max_bootnodes == 32,
            r.min_subnet_min_stake == 100_000_000_000_000_000_000u128,
            r.max_subnet_min_stake == 250_000_000_000_000_000_000u128,
            r.network_max_stake_balance == 1_000_000_000_000_000_000_000u128,
            r.min_delegate_stake_percentage == 50_000_000_000_000_000u128,
            r.max_delegate_stake_percentage == 950_000_000_000_000_000u128,
            r.min_subnet_nodes == 3,
            r.min_subnet_registration_epochs == epochs_per_year / 365,
            r.max_subnet_nodes == 256,
            r.designated_epoch_slots == designated_epoch_slots,
            r.overwatch_epoch_length_multiplier == 16,
            r.min_active_node_stake_epochs == epochs_per_year / 365,
            r.new_registration_cost_multiplier == 2_000_000_000_000_000_000u128,
    {
        NetworkParams {
            max_subnets: 64,
            max_bootnodes: 32,
            min_subnet_min_stake: 100_000_000_000_000_000_000,
            max_subnet_min_stake: 250_000_000_000_000_000_000,
            network_max_stake_balance: 1_000_000_000_000_000_000_000,
            min_delegate_stake_percentage: 50_000_000_000_000_000,
            max_delegate_stake_percentage: 950_000_000_000_000_000,
            min_subnet_nodes: 3,
            min_subnet_registration_epochs: epochs_per_year / 365,
            max_subnet_nodes: 256,
            designated_epoch_slots,
            overwatch_epoch_length_multiplier: 16,
            min_active_node_stake_epochs: epochs_per_year / 365,
            new_registration_cost_multiplier: 2_000_000_000_000_000_000,
        }
    }
}

/// Per-subnet records besides the subnet data itself.
#[derive(Clone)]
pub struct SubnetsMeta {
    /// Subnet name -> subnet id (names are unique).
    pub subnet_name: NameIndex,
    /// Subnet repository -> subnet id (repositories are unique).
    pub subnet_repo: NameIndex,
    pub subnet_owner: BTreeMap<u32, u64>,
    pub pending_subnet_owner: BTreeMap<u32, u64>,
    /// Epoch of registration, kept until activation.
    pub subnet_registration_epoch: BTreeMap<u32, u32>,
    pub subnet_delegate_stake_rewards_percentage: BTreeMap<u32, u128>,
    pub last_subnet_delegate_stake_rewards_update: BTreeMap<u32, u32>,
    /// Coldkeys allowed to register nodes while the subnet registers, with how many each.
    pub subnet_registration_initial_coldkeys: BTreeMap<u32, BTreeMap<u64, u32>>,
    /// Nodes each initial coldkey has registered so far.
    pub initial_coldkey_data: BTreeMap<u32, BTreeMap<u64, u32>>,
    pub subnet_bootnodes: BTreeMap<u32, Vec<Vec<u8>>>,
    pub subnet_key_types: BTreeMap<u32, Vec<KeyType>>,
    pub max_registered_nodes: BTreeMap<u32, u32>,
    pub subnet_id_friendly_uid: BTreeMap<u32, u32>,
    pub friendly_uid_subnet_id: BTreeMap<u32, u32>,
    /// Subnet ids handed out so far.
    pub total_subnet_uids: u32,
    pub total_active_subnets: u32,
    pub previous_subnet_pause_epoch: BTreeMap<u32, u32>,
    pub prev_subnet_activation_epoch: u32,
    /// The starting cost of the next subnet registration.
    pub last_registration_cost: u128,
    /// The block of the last subnet registration.
    pub last_subnet_registration_block: u32,
    /// Epoch slot of each subnet (block offset within an epoch).
    pub subnet_slot: BTreeMap<u32, u32>,
    /// Subnet of each assigned epoch slot.
    pub slot_assignment: BTreeMap<u32, u32>,
    /// The epoch slots currently assigned.
    pub assigned_slots: BTreeSet<u32>,
}

/// Per-subnet node records, each keyed first by subnet id.
#[derive(Clone)]
pub struct NodesMeta {
    pub subnet_nodes_data: BTreeMap<u32, BTreeMap<u32, SubnetNode>>,
    pub registered_subnet_nodes_data: BTreeMap<u32, BTreeMap<u32, SubnetNode>>,
    pub total_active_subnet_nodes: BTreeMap<u32, u32>,
    pub total_active_nodes: u32,
    pub total_subnet_nodes: BTreeMap<u32, u32>,
    pub total_nodes: u32,
    pub total_subnet_node_uids: BTreeMap<u32, u32>,
    pub peer_id_subnet_node_id: BTreeMap<u32, NameIndex>,
    pub bootnode_peer_id_subnet_node_id: BTreeMap<u32, NameIndex>,
    pub client_peer_id_subnet_node_id: BTreeMap<u32, NameIndex>,
    pub bootnode_subnet_node_id: BTreeMap<u32, NameIndex>,
    pub unique_param_subnet_node_id: BTreeMap<u32, NameIndex>,
    pub hotkey_subnet_node_id: BTreeMap<u32, BTreeMap<u64, u32>>,
    pub subnet_node_id_hotkey: BTreeMap<u32, BTreeMap<u32, u64>>,
    pub subnet_node_consecutive_included_epochs: BTreeMap<u32, BTreeMap<u32, u32>>,
    pub subnet_elected_validator: BTreeMap<u32, BTreeMap<u32, u32>>,
    pub node_slot_index: BTreeMap<u32, BTreeMap<u32, u32>>,
    pub subnet_node_election_slots: BTreeMap<u32, Vec<u32>>,
    /// Nodes chosen for a subnet's emergency validator set, while it has one.
    pub emergency_subnet_node_election: BTreeMap<u32, Vec<u32>>,
    pub subnet_node_queue: BTreeMap<u32, Vec<SubnetNode>>,
    pub total_electable_nodes: u32,
    pub total_subnet_electable_nodes: BTreeMap<u32, u32>,
}

/// Hotkey and coldkey records.
#[derive(Clone)]
pub struct KeysMeta {
    /// Owner coldkey of each hotkey (an absent hotkey reads as account 0).
    pub hotkey_owner: BTreeMap<u64, u64>,
    /// Subnet each subnet node hotkey registered in.
    pub hotkey_subnet_id: BTreeMap<u64, u32>,
    /// Hotkeys of each coldkey.
    pub coldkey_hotkeys: BTreeMap<u64, BTreeSet<u64>>,
    /// Node ids of each coldkey, per subnet.
    pub coldkey_subnet_nodes: BTreeMap<u64, BTreeMap<u32, BTreeSet<u32>>>,
    /// Reputation of each coldkey (absent reads as the default reputation).
    pub coldkey_reputation: BTreeMap<u64, Reputation>,
    /// Stake of each (hotkey, subnet).
    pub account_subnet_stake: BTreeMap<(u64, u32), u128>,
}

/// Overwatch node records and qualification thresholds.
#[derive(Clone)]
pub struct OverwatchMeta {
    /// Validator of each coldkey.
    pub coldkey_validator_id: BTreeMap<u64, u32>,
    /// Validators allowed to run overwatch nodes (absent reads as not allowed).
    pub overwatch_validator_whitelist: BTreeMap<u32, bool>,
    /// Reputation of each validator.
    pub validator_reputation: BTreeMap<u32, Reputation>,
    pub total_overwatch_nodes: u32,
    /// Overwatch node ids handed out so far.
    pub total_overwatch_node_uids: u32,
    /// Hotkey of each overwatch node.
    pub overwatch_nodes: BTreeMap<u32, u64>,
    pub max_overwatch_nodes: u32,
    /// Share of active subnets a validator must validate in (1e18 = 100%).
    pub min_diversification_ratio: u128,
    pub min_rep_score: u128,
    pub min_avg_attestation_ratio: u128,
    /// Epochs a validator must have existed for.
    pub min_age: u32,
    /// Peer id of each overwatch node in each subnet -> overwatch node id.
    pub peer_id_overwatch_node_id: BTreeMap<u32, NameIndex>,
    /// Hotkey an overwatch node acts with, when it has one of its own.
    pub overwatch_node_id_hotkey: BTreeMap<u32, u64>,
    /// Overwatch node of each overwatch hotkey.
    pub hotkey_overwatch_node_id: BTreeMap<u64, u32>,
    /// Overwatch stake held by each hotkey.
    pub account_overwatch_stake: BTreeMap<u64, u128>,
    /// Peer id of each overwatch node in each subnet.
    pub overwatch_node_index: BTreeMap<u32, BTreeMap<u32, Vec<u8>>>,
}

impl OverwatchMeta {
    /// Records with the default thresholds for `epoch_length`.
    pub fn new(epoch_length: u32) -> (r: OverwatchMeta)
        ensures
            r.coldkey_validator_id@ == Map::<u64, u32>::empty(),
            r.overwatch_validator_whitelist@ == Map::<u32, bool>::empty(),
            r.validator_reputation@ == Map::<u32, Reputation>::empty(),
            r.total_overwatch_nodes == 0,
            r.total_overwatch_node_uids == 0,
            r.overwatch_nodes@ == Map::<u32, u64>::empty(),
            r.max_overwatch_nodes == 64,
            r.min_diversification_ratio == 250_000_000_000_000_000u128,
            r.min_rep_score == 750_000_000_000_000_000u128,
            r.min_avg_attestation_ratio == 720_000_000_000_000_000u128,
            r.min_age == epoch_length / 4,
            r.peer_id_overwatch_node_id@ == Map::<u32, NameIndex>::empty(),
            r.overwatch_node_id_hotkey@ == Map::<u32, u64>::empty(),
            r.hotkey_overwatch_node_id@ == Map::<u64, u32>::empty(),
            r.account_overwatch_stake@ == Map::<u64, u128>::empty(),
            r.overwatch_node_index@ == Map::<u32, BTreeMap<u32, Vec<u8>>>::empty(),
    {
        OverwatchMeta {
            coldkey_validator_id: BTreeMap::new(),
            overwatch_validator_whitelist: BTreeMap::new(),
            validator_reputation: BTreeMap::new(),
            total_overwatch_nodes: 0,
            total_overwatch_node_uids: 0,
            overwatch_nodes: BTreeMap::new(),
            max_overwatch_nodes: 64,
            min_diversification_ratio: 250_000_000_000_000_000,
            min_rep_score: 750_000_000_000_000_000,
            min_avg_attestation_ratio: 720_000_000_000_000_000,
            min_age: epoch_length / 4,
            peer_id_overwatch_node_id: BTreeMap::new(),
            overwatch_node_id_hotkey: BTreeMap::new(),
            hotkey_overwatch_node_id: BTreeMap::new(),
            account_overwatch_stake: BTreeMap::new(),
            overwatch_node_index: BTreeMap::new(),
        }
    }
}

impl KeysMeta {
    pub fn new() -> (r: KeysMeta)
        ensures
            r.hotkey_owner@ == Map::<u64, u64>::empty(),
            r.hotkey_subnet_id@ == Map::<u64, u32>::empty(),
            r.coldkey_hotkeys@ == Map::<u64, BTreeSet<u64>>::empty(),
            r.coldkey_reputation@ == Map::<u64, Reputation>::empty(),
    {
        KeysMeta {
            hotkey_owner: BTreeMap::new(),
            hotkey_subnet_id: BTreeMap::new(),
            coldkey_hotkeys: BTreeMap::new(),
            coldkey_subnet_nodes: BTreeMap::new(),
            coldkey_reputation: BTreeMap::new(),
            account_subnet_stake: BTreeMap::new(),
        }
    }
}

impl SubnetsMeta {
    pub fn new() -> (r: SubnetsMeta)
        ensures
            r.subnet_name.keys_distinct(),
            r.subnet_repo.keys_distinct(),
            r.subnet_name.as_map() == Map::<Seq<u8>, u32>::empty(),
            r.subnet_repo.as_map() == Map::<Seq<u8>, u32>::empty(),
            r.subnet_owner@ == Map::<u32, u64>::empty(),
            r.subnet_registration_epoch@ == Map::<u32, u32>::empty(),
            r.total_subnet_uids == 0,
            r.total_active_subnets == 0,
            r.last_registration_cost == 1_000_000_000_000_000_000u128,
            r.last_subnet_registration_block == 0,
            r.subnet_slot@ == Map::<u32, u32>::empty(),
            r.slot_assignment@ == Map::<u32, u32>::empty(),
            r.assigned_slots@ == Set::<u32>::empty(),
    {
        SubnetsMeta {
            subnet_name: NameIndex::new(),
            subnet_repo: NameIndex::new(),
            subnet_owner: BTreeMap::new(),
            pending_subnet_owner: BTreeMap::new(),
            subnet_registration_epoch: BTreeMap::new(),
            subnet_delegate_stake_rewards_percentage: BTreeMap::new(),
            last_subnet_delegate_stake_rewards_update: BTreeMap::new(),
            subnet_registration_initial_coldkeys: BTreeMap::new(),
            initial_coldkey_data: BTreeMap::new(),
            subnet_bootnodes: BTreeMap::new(),
            subnet_key_types: BTreeMap::new(),
            max_registered_nodes: BTreeMap::new(),
            subnet_id_friendly_uid: BTreeMap::new(),
            friendly_uid_subnet_id: BTreeMap::new(),
            total_subnet_uids: 0,
            total_active_subnets: 0,
            previous_subnet_pause_epoch: BTreeMap::new(),
            prev_subnet_activation_epoch: 0,
            last_registration_cost: 1_000_000_000_000_000_000,
            last_subnet_registration_block: 0,
            subnet_slot: BTreeMap::new(),
            slot_assignment: BTreeMap::new(),
            assigned_slots: BTreeSet::new(),
        }
    }
}

impl NodesMeta {
    pub fn new() -> (r: NodesMeta)
        ensures
            r.subnet_nodes_data@ == Map::<u32, BTreeMap<u32, SubnetNode>>::empty(),
            r.registered_subnet_nodes_data@ == Map::<u32, BTreeMap<u32, SubnetNode>>::empty(),
            r.total_active_nodes == 0,
            r.total_nodes == 0,
            r.peer_id_subnet_node_id@ == Map::<u32, NameIndex>::empty(),
            r.bootnode_peer_id_subnet_node_id@ == Map::<u32, NameIndex>::empty(),
            r.client_peer_id_subnet_node_id@ == Map::<u32, NameIndex>::empty(),
            r.bootnode_subnet_node_id@ == Map::<u32, NameIndex>::empty(),
            r.unique_param_subnet_node_id@ == Map::<u32, NameIndex>::empty(),
    {
        NodesMeta {
            subnet_nodes_data: BTreeMap::new(),
            registered_subnet_nodes_data: BTreeMap::new(),
            total_active_subnet_nodes: BTreeMap::new(),
            total_active_nodes: 0,
            total_subnet_nodes: BTreeMap::new(),
            total_nodes: 0,
            total_subnet_node_uids: BTreeMap::new(),
            peer_id_subnet_node_id: BTreeMap::new(),
            bootnode_peer_id_subnet_node_id: BTreeMap::new(),
            client_peer_id_subnet_node_id: BTreeMap::new(),
            bootnode_subnet_node_id: BTreeMap::new(),
            unique_param_subnet_node_id: BTreeMap::new(),
            hotkey_subnet_node_id: BTreeMap::new(),
            subnet_node_id_hotkey: BTreeMap::new(),
            subnet_node_consecutive_included_epochs: BTreeMap::new(),
            subnet_elected_validator: BTreeMap::new(),
            node_slot_index: BTreeMap::new(),
            subnet_node_election_slots: BTreeMap::new(),
            emergency_subnet_node_election: BTreeMap::new(),
            subnet_node_queue: BTreeMap::new(),
            total_electable_nodes: 0,
            total_subnet_electable_nodes: BTreeMap::new(),
        }
    }
}

/// A map of maps keyed first by subnet, seen as one map keyed by (subnet, key).
pub open spec fn flat<K, V>(m: Map<u32, BTreeMap<K, V>>) -> Map<(u32, K), V> {
    Map::new(
        |p: (u32, K)| m.contains_key(p.0) && m[p.0]@.contains_key(p.1),
        |p: (u32, K)| m[p.0]@[p.1],
    )
}

/// Write `v` under (`s`, `k`).
pub fn nested_insert<K: Ord + Copy, V>(m: &mut BTreeMap<u32, BTreeMap<K, V>>, s: u32, k: K, v: V)
    requires
        vstd::laws_cmp::obeys_cmp::<K>(),
    ensures
        flat(final(m)@) == flat(old(m)@).insert((s, k), v),
        final(m)@.dom() == old(m)@.dom().insert(s),
{
    let mut inner = match m.remove(&s) {
        Some(i) => i,
        None => BTreeMap::new(),
    };
    inner.insert(k, v);
    m.insert(s, inner);
    proof {
        assert(flat(m@) =~= flat(old(m)@).insert((s, k), v));
        assert(m@.dom() =~= old(m)@.dom().insert(s));
    }
}

/// Remove (`s`, `k`).
pub fn nested_remove<K: Ord + Copy, V>(m: &mut BTreeMap<u32, BTreeMap<K, V>>, s: u32, k: K)
    requires
        vstd::laws_cmp::obeys_cmp::<K>(),
    ensures
        flat(final(m)@) == flat(old(m)@).remove((s, k)),
        final(m)@.dom() == old(m)@.dom(),
{
    if m.contains_key(&s) {
        let mut inner = match m.remove(&s) {
            Some(i) => i,
            None => BTreeMap::new(),
        };
        inner.remove(&k);
        m.insert(s, inner);
        proof {
            assert(flat(m@) =~= flat(old(m)@).remove((s, k)));
            assert(m@.dom() =~= old(m)@.dom());
        }
    } else {
        proof {
            assert(flat(m@) =~= flat(old(m)@).remove((s, k)));
        }
    }
}

/// Read (`s`, `k`).
pub fn nested_get<K: Ord + Copy, V: Copy>(m: &BTreeMap<u32, BTreeMap<K, V>>, s: u32, k: K) -> (r: Option<V>)
    requires
        vstd::laws_cmp::obeys_cmp::<K>(),
    ensures
        r == if flat(m@).contains_key((s, k)) { Some(flat(m@)[(s, k)]) } else { None::<V> },
{
    match m.get(&s) {
        Some(inner) => match inner.get(&k) {
            Some(v) => Some(*v),
            None => None,
        },
        None => None,
    }
}

/// The index of subnet `s` in a per-subnet family of indexes (empty when absent).
pub open spec fn index_of(m: Map<u32, NameIndex>, s: u32) -> Map<Seq<u8>, u32> {
    if m.contains_key(s) { m[s].as_map() } else { Map::empty() }
}

/// Every index of the family holds each key at most once.
pub open spec fn family_distinct(m: Map<u32, NameIndex>) -> bool {
    forall|s: u32| #[trigger] m.contains_key(s) ==> m[s].keys_distinct()
}

/// Whether `k` is a key of subnet `s`'s index.
pub fn index_contains(m: &BTreeMap<u32, NameIndex>, s: u32, k: &Vec<u8>) -> (r: bool)
    ensures
        r == index_of(m@, s).contains_key(k@),
{
    match m.get(&s) {
        Some(i) => i.contains_key(k),
        None => false,
    }
}

/// Map `k` to `id` in subnet `s`'s index.
pub fn index_insert(m: &mut BTreeMap<u32, NameIndex>, s: u32, k: Vec<u8>, id: u32)
    requires
        family_distinct(old(m)@),
    ensures
        family_distinct(final(m)@),
        final(m)@.contains_key(s),
        index_of(final(m)@, s) == index_of(old(m)@, s).insert(k@, id),
        final(m)@.remove(s) == old(m)@.remove(s),
{
    let mut inner = match m.remove(&s) {
        Some(i) => i,
        None => NameIndex::new(),
    };
    inner.insert(k, id);
    m.insert(s, inner);
    proof {
        assert(m@.remove(s) =~= old(m)@.remove(s));
    }
}

/// The id stored under `k` in subnet `s`'s index, if any.
pub fn index_get(m: &BTreeMap<u32, NameIndex>, s: u32, k: &Vec<u8>) -> (r: Option<u32>)
    requires
        family_distinct(m@),
    ensures
        r == if index_of(m@, s).contains_key(k@) { Some(index_of(m@, s)[k@]) } else { None::<u32> },
{
    match m.get(&s) {
        Some(i) => i.get(k),
        None => None,
    }
}

} // verus!
