//! Subnet lifecycle: registration, activation and removal.

use vstd::prelude::*;
use std::collections::BTreeMap;
use crate::types::{ActivationOutcome, SubnetState, SubnetRemovalReason, SubnetData, RegistrationSubnetData, NetworkError, PERCENTAGE_FACTOR};
use crate::network::WithdrawCheck;
use crate::network::{Network, get_or, map_get, map_set, map_remove};
use crate::names::NameIndex;
use crate::registry::{SubnetsMeta, NodesMeta, flat};
use crate::hooks::{Weight, WeightMeter, WeightAccumulator, DbWeight, weight_add, weight_fits, add_weight, reads_writes_weight, computational_weight};

use crate::math::{checked_mul_div, spec_mul_div};

verus! {

/// The lowest slot of `lo..hi` that is not in `assigned`, if there is one.
pub open spec fn first_free_slot(assigned: Set<u32>, lo: int, hi: int) -> Option<u32>
    decreases hi - lo,
{
    if lo >= hi || lo < 0 || lo > u32::MAX {
        None
    } else if !assigned.contains(lo as u32) {
        Some(lo as u32)
    } else {
        first_free_slot(assigned, lo + 1, hi)
    }
}

/// The starting cost of the next subnet registration after one that paid
/// `cost`: `cost` times `multiplier` (1e18 = 100%), capped at `u128::MAX`.
pub open spec fn next_registration_cost(cost: u128, multiplier: u128) -> u128 {
    match spec_mul_div(cost, multiplier, 0, PERCENTAGE_FACTOR, 0) {
        Some(c) => c,
        None => u128::MAX,
    }
}

/// Keys of a (subnet, node) map that belong to subnet `s`.
pub open spec fn subnet_keys(s: u32) -> Set<(u32, u32)> {
    Set::new(|k: (u32, u32)| k.0 == s)
}

/// `a - b` floored at zero.
pub open spec fn sat_sub_u32(a: u32, b: u32) -> u32 {
    if a < b { 0 } else { (a - b) as u32 }
}

/// Remove every entry of subnet `s` from a map keyed by (subnet, node);
/// returns how many entries went.
pub fn remove_subnet_keys<V: Copy>(m: &mut BTreeMap<(u32, u32), V>, s: u32) -> (r: usize)
    ensures
        final(m)@ == old(m)@.remove_keys(subnet_keys(s)),
        r == old(m)@.len() - final(m)@.len(),
{
    let mut out: BTreeMap<(u32, u32), V> = BTreeMap::new();
    let ghost m0 = m@;
    for (k, v) in it: m.iter()
        invariant
            m0 == m@,
            forall|q: (u32, u32)| #[trigger] out@.contains_key(q) ==> m0.contains_key(q) && q.0 != s && out@[q] == m0[q],
            forall|q: (u32, u32)| #[trigger] m0.contains_key(q) && q.0 != s && !out@.contains_key(q) ==>
                exists|j: int| it.index() <= j < it.seq().len() && *it.seq()[j].0 == q,
    {
        let ghost idx = it.index();
        proof {
            assert(*it.seq()[idx].0 == *k);
            assert(*it.seq()[idx].1 == *v);
        }
        if k.0 != s {
            out.insert(*k, *v);
        }
        proof {
            assert forall|q: (u32, u32)| #[trigger] m0.contains_key(q) && q.0 != s && !out@.contains_key(q) implies
                exists|j: int| idx + 1 <= j < it.seq().len() && *it.seq()[j].0 == q by {
                let j = choose|j: int| idx <= j < it.seq().len() && *it.seq()[j].0 == q;
                assert(j != idx);
            }
        }
    }
    proof {
        assert forall|q: (u32, u32)| m0.contains_key(q) && q.0 != s implies #[trigger] out@.contains_key(q) by {
            if !out@.contains_key(q) {
                assert(m0.contains_key(q));
            }
        }
        assert(out@ =~= m0.remove_keys(subnet_keys(s)));
        vstd::set_lib::lemma_len_subset(out@.dom(), m0.dom());
    }
    let removed = m.len() - out.len();
    *m = out;
    removed
}

/// Entries of subnet `s` in a map of per-subnet maps, as a `u32` count.
pub open spec fn nested_count<K, V>(m: Map<u32, BTreeMap<K, V>>, s: u32) -> u32 {
    if m.contains_key(s) { m[s]@.len() as u32 } else { 0 }
}

/// Entries of subnet `s` in a family of per-subnet indexes, as a `u32` count.
pub open spec fn index_count(m: Map<u32, NameIndex>, s: u32) -> u32 {
    if m.contains_key(s) { m[s].entries@.len() as u32 } else { 0 }
}

/// Length of subnet `s`'s list, as a `u32` count.
pub open spec fn list_count<T>(m: Map<u32, Vec<T>>, s: u32) -> u32 {
    if m.contains_key(s) { m[s]@.len() as u32 } else { 0 }
}

/// Computation counted for processing a list of `n` entries.
pub open spec fn list_ops(n: u32) -> int {
    if n > 1 { n * 1000 } else { 0 }
}

/// Number of entries of subnet `s` in a per-subnet map.
fn nested_entries<K: Ord, V>(m: &BTreeMap<u32, BTreeMap<K, V>>, s: u32) -> (r: usize)
    requires
        vstd::laws_cmp::obeys_cmp::<K>(),
    ensures
        r == if m@.contains_key(s) { m@[s]@.len() } else { 0 },
{
    match m.get(&s) {
        Some(inner) => inner.len(),
        None => 0,
    }
}

/// Count of the entries of subnet `s` in a family of indexes.
fn index_len(m: &BTreeMap<u32, NameIndex>, s: u32) -> (r: u32)
    ensures
        r == index_count(m@, s),
{
    match m.get(&s) {
        Some(inner) => inner.entries.len() as u32,
        None => 0,
    }
}

/// Length of subnet `s`'s list.
fn list_len<T>(m: &BTreeMap<u32, Vec<T>>, s: u32) -> (r: u32)
    ensures
        r == list_count(m@, s),
{
    match m.get(&s) {
        Some(v) => v.len() as u32,
        None => 0,
    }
}

/// Whether every value of `m` is at least one.
pub fn all_at_least_one(m: &BTreeMap<u64, u32>) -> (r: bool)
    ensures
        r == (forall|k: u64| #[trigger] m@.contains_key(k) ==> m@[k] >= 1),
{
    let mut ok = true;
    for (k, v) in it: m.iter()
        invariant
            !ok ==> exists|q: u64| #[trigger] m@.contains_key(q) && m@[q] < 1,
            ok ==> forall|q: u64| #[trigger] m@.contains_key(q) && m@[q] < 1 ==>
                exists|j: int| it.index() <= j < it.seq().len() && *it.seq()[j].0 == q,
    {
        let ghost idx = it.index();
        proof {
            assert(*it.seq()[idx].0 == *k);
            assert(*it.seq()[idx].1 == *v);
            assert(m@.contains_key(*k) && m@[*k] == *v);
        }
        if *v < 1 {
            ok = false;
        }
        proof {
            if ok {
                assert forall|q: u64| #[trigger] m@.contains_key(q) && m@[q] < 1 implies
                    exists|j: int| idx + 1 <= j < it.seq().len() && *it.seq()[j].0 == q by {
                    let j = choose|j: int| idx <= j < it.seq().len() && *it.seq()[j].0 == q;
                    assert(j != idx);
                }
            }
        }
    }
    proof {
        if ok {
            assert forall|q: u64| #[trigger] m@.contains_key(q) implies m@[q] >= 1 by {
                if m@[q] < 1 {
                    assert(m@.contains_key(q) && m@[q] < 1);
                }
            }
        }
    }
    ok
}

/// A copy of a byte string.
pub fn clone_bytes(v: &Vec<u8>) -> (r: Vec<u8>)
    ensures
        r@ == v@,
{
    let r = v.clone();
    assert(r@ =~= v@);
    r
}

impl Network {
    /// The node records of `final` follow those of `o` by clearing subnet `s`.
    pub open spec fn nodes_cleaned(&self, o: Network, s: u32) -> bool {
        let n = self.nodes;
        let p = o.nodes;
        &&& n.subnet_nodes_data@ == p.subnet_nodes_data@.remove(s)
        &&& n.registered_subnet_nodes_data@ == p.registered_subnet_nodes_data@.remove(s)
        &&& n.total_active_subnet_nodes@ == p.total_active_subnet_nodes@.remove(s)
        &&& n.total_active_nodes == sat_sub_u32(p.total_active_nodes, get_or(p.total_active_subnet_nodes@, s, 0u32))
        &&& n.total_subnet_nodes@ == p.total_subnet_nodes@.remove(s)
        &&& n.total_nodes == p.total_nodes
        &&& n.total_subnet_node_uids@ == p.total_subnet_node_uids@.remove(s)
        &&& n.peer_id_subnet_node_id@ == p.peer_id_subnet_node_id@.remove(s)
        &&& n.bootnode_peer_id_subnet_node_id@ == p.bootnode_peer_id_subnet_node_id@.remove(s)
        &&& n.client_peer_id_subnet_node_id@ == p.client_peer_id_subnet_node_id@.remove(s)
        &&& n.bootnode_subnet_node_id@ == p.bootnode_subnet_node_id@.remove(s)
        &&& n.unique_param_subnet_node_id@ == p.unique_param_subnet_node_id@.remove(s)
        &&& n.hotkey_subnet_node_id@ == p.hotkey_subnet_node_id@.remove(s)
        &&& n.subnet_node_id_hotkey@ == p.subnet_node_id_hotkey@.remove(s)
        &&& n.subnet_node_consecutive_included_epochs@ == p.subnet_node_consecutive_included_epochs@.remove(s)
        &&& n.subnet_elected_validator@ == p.subnet_elected_validator@.remove(s)
        &&& n.node_slot_index@ == p.node_slot_index@.remove(s)
        &&& n.subnet_node_election_slots@ == p.subnet_node_election_slots@.remove(s)
        &&& n.subnet_node_queue@ == p.subnet_node_queue@.remove(s)
        &&& n.total_electable_nodes == sat_sub_u32(p.total_electable_nodes, list_count(p.subnet_node_election_slots@, s))
        &&& n.total_subnet_electable_nodes@ == p.total_subnet_electable_nodes@.remove(s)
        &&& self.subnet_node_reputation@ == o.subnet_node_reputation@.remove_keys(subnet_keys(s))
    }

    /// Every field outside the subnet and node records equals that of `o`.
    pub open spec fn registry_frame(&self, o: Network) -> bool {
        &&& self.registry_frame_but_keys(o)
        &&& self.keys == o.keys
    }

    /// Every field outside the subnet, node and key records equals that of `o`.
    pub open spec fn registry_frame_but_keys(&self, o: Network) -> bool {
        &&& self.epoch_length == o.epoch_length
        &&& self.min_delegate_stake_deposit == o.min_delegate_stake_deposit
        &&& self.delegate_stake_cooldown_epochs == o.delegate_stake_cooldown_epochs
        &&& self.stake_cooldown_epochs == o.stake_cooldown_epochs
        &&& self.max_unbondings == o.max_unbondings
        &&& self.tx_rate_limit == o.tx_rate_limit
        &&& self.overwatch_min_stake_balance == o.overwatch_min_stake_balance
        &&& self.max_swap_queue_calls_per_block == o.max_swap_queue_calls_per_block
        &&& self.tx_pause == o.tx_pause
        &&& self.params == o.params
        &&& self.subnet_node_validator_id@ == o.subnet_node_validator_id@
        &&& self.validator_coldkey@ == o.validator_coldkey@
        &&& self.overwatch_node_validator_id@ == o.overwatch_node_validator_id@
        &&& self.ow == o.ow
        &&& self.same_subnet_pool(o)
        &&& self.same_validator_pool(o)
        &&& self.same_node_pool(o)
        &&& self.same_node_stake(o)
        &&& self.same_overwatch_stake(o)
        &&& self.same_delegate_account(o)
        &&& self.same_unbonding(o)
        &&& self.same_swap_queue(o)
        &&& self.same_rate_limit(o)
    }

    /// Storage writes of clearing subnet `s`'s node records: one per entry
    /// cleared, plus the counters and lists taken or removed.
    pub open spec fn clean_writes(&self, s: u32) -> int {
        let n = self.nodes;
        nested_count(n.subnet_nodes_data@, s) + 4
            + index_count(n.peer_id_subnet_node_id@, s) + index_count(n.bootnode_peer_id_subnet_node_id@, s)
            + index_count(n.client_peer_id_subnet_node_id@, s) + index_count(n.bootnode_subnet_node_id@, s)
            + index_count(n.unique_param_subnet_node_id@, s)
            + nested_count(n.hotkey_subnet_node_id@, s) + nested_count(n.subnet_node_id_hotkey@, s)
            + ((self.subnet_node_reputation@.len() - self.subnet_node_reputation@.remove_keys(subnet_keys(s)).len()) as u32)
            + nested_count(n.subnet_node_consecutive_included_epochs@, s)
            + nested_count(n.registered_subnet_nodes_data@, s)
            + nested_count(n.subnet_elected_validator@, s) + nested_count(n.node_slot_index@, s)
            + 4
    }

    /// Weight of clearing subnet `s`'s node records at `db`'s prices: five
    /// reads, `clean_writes` writes, and computation for the election slot
    /// list and the registration queue.
    pub open spec fn clean_weight(&self, s: u32, db: DbWeight) -> Weight {
        let ops = list_ops(list_count(self.nodes.subnet_node_election_slots@, s))
            + list_ops(list_count(self.nodes.subnet_node_queue@, s));
        weight_add(
            weight_add(reads_writes_weight(db, 5, 0), reads_writes_weight(db, 0, self.clean_writes(s) as u64)),
            computational_weight(ops as u64),
        )
    }

    /// Clear the node records of subnet `subnet_id` (called when the subnet is
    /// removed) and return the weight of doing so at `db`'s prices. The
    /// network-wide active node count drops by the subnet's, and the
    /// network-wide electable node count by the subnet's election slots; the
    /// network-wide node count is left as it is.
    pub fn clean_subnet_nodes(&mut self, subnet_id: u32, db: DbWeight) -> (r: Weight)
        ensures
            r == old(self).clean_weight(subnet_id, db),
            final(self).nodes_cleaned(*old(self), subnet_id),
            final(self).nodes.emergency_subnet_node_election == old(self).nodes.emergency_subnet_node_election,
            final(self).registry_frame(*old(self)),
            final(self).meta == old(self).meta,
            final(self).subnets_data@ == old(self).subnets_data@,
            final(self).subnet_min_stake_balance@ == old(self).subnet_min_stake_balance@,
            final(self).subnet_max_stake_balance@ == old(self).subnet_max_stake_balance@,
    {
        let s = subnet_id;
        let ghost o = *self;
        let reputations_removed = remove_subnet_keys(&mut self.subnet_node_reputation, s);
        let weight = self.clear_weight(s, db, reputations_removed as u32);
        proof {
            assert(self.nodes == o.nodes);
        }
        map_remove(&mut self.nodes.subnet_nodes_data, s);
        let total_nodes = map_get(&self.nodes.total_active_subnet_nodes, s, 0);
        map_remove(&mut self.nodes.total_active_subnet_nodes, s);
        self.nodes.total_active_nodes = self.nodes.total_active_nodes.saturating_sub(total_nodes);
        map_remove(&mut self.nodes.total_subnet_nodes, s);
        map_remove(&mut self.nodes.total_subnet_node_uids, s);
        map_remove(&mut self.nodes.peer_id_subnet_node_id, s);
        map_remove(&mut self.nodes.bootnode_peer_id_subnet_node_id, s);
        map_remove(&mut self.nodes.client_peer_id_subnet_node_id, s);
        map_remove(&mut self.nodes.bootnode_subnet_node_id, s);
        map_remove(&mut self.nodes.unique_param_subnet_node_id, s);
        map_remove(&mut self.nodes.hotkey_subnet_node_id, s);
        map_remove(&mut self.nodes.subnet_node_id_hotkey, s);
        map_remove(&mut self.nodes.subnet_node_consecutive_included_epochs, s);
        map_remove(&mut self.nodes.registered_subnet_nodes_data, s);
        map_remove(&mut self.nodes.subnet_elected_validator, s);
        map_remove(&mut self.nodes.node_slot_index, s);
        let electable_nodes = list_len(&self.nodes.subnet_node_election_slots, s);
        self.nodes.total_electable_nodes = self.nodes.total_electable_nodes.saturating_sub(electable_nodes);
        map_remove(&mut self.nodes.subnet_node_election_slots, s);
        map_remove(&mut self.nodes.subnet_node_queue, s);
        map_remove(&mut self.nodes.total_subnet_electable_nodes, s);
        weight
    }

    /// The weight `clean_weight` of clearing subnet `s`'s node records, counted
    /// in the order the records are cleared; `reputations_removed` is the count
    /// of node reputations of the subnet.
    #[verifier::rlimit(40)]
    fn clear_weight(&self, s: u32, db: DbWeight, reputations_removed: u32) -> (r: Weight)
        ensures
            ({
                let n = self.nodes;
                let writes = nested_count(n.subnet_nodes_data@, s) + 4
                    + index_count(n.peer_id_subnet_node_id@, s) + index_count(n.bootnode_peer_id_subnet_node_id@, s)
                    + index_count(n.client_peer_id_subnet_node_id@, s) + index_count(n.bootnode_subnet_node_id@, s)
                    + index_count(n.unique_param_subnet_node_id@, s)
                    + nested_count(n.hotkey_subnet_node_id@, s) + nested_count(n.subnet_node_id_hotkey@, s)
                    + reputations_removed
                    + nested_count(n.subnet_node_consecutive_included_epochs@, s)
                    + nested_count(n.registered_subnet_nodes_data@, s)
                    + nested_count(n.subnet_elected_validator@, s) + nested_count(n.node_slot_index@, s)
                    + 4;
                let ops = list_ops(list_count(n.subnet_node_election_slots@, s)) + list_ops(list_count(n.subnet_node_queue@, s));
                r == weight_add(
                    weight_add(reads_writes_weight(db, 5, 0), reads_writes_weight(db, 0, writes as u64)),
                    computational_weight(ops as u64),
                )
            }),
    {
        let mut acc = WeightAccumulator::new();
        acc.add_clear_prefix(nested_entries(&self.nodes.subnet_nodes_data, s) as u32);
        acc.add_take();
        acc.add_mutate();
        acc.add_remove();
        acc.add_remove();
        acc.add_clear_prefix(index_len(&self.nodes.peer_id_subnet_node_id, s));
        acc.add_clear_prefix(index_len(&self.nodes.bootnode_peer_id_subnet_node_id, s));
        acc.add_clear_prefix(index_len(&self.nodes.client_peer_id_subnet_node_id, s));
        acc.add_clear_prefix(index_len(&self.nodes.bootnode_subnet_node_id, s));
        acc.add_clear_prefix(index_len(&self.nodes.unique_param_subnet_node_id, s));
        acc.add_clear_prefix(nested_entries(&self.nodes.hotkey_subnet_node_id, s) as u32);
        acc.add_clear_prefix(nested_entries(&self.nodes.subnet_node_id_hotkey, s) as u32);
        acc.add_clear_prefix(reputations_removed);
        acc.add_clear_prefix(nested_entries(&self.nodes.subnet_node_consecutive_included_epochs, s) as u32);
        acc.add_clear_prefix(nested_entries(&self.nodes.registered_subnet_nodes_data, s) as u32);
        acc.add_clear_prefix(nested_entries(&self.nodes.subnet_elected_validator, s) as u32);
        acc.add_clear_prefix(nested_entries(&self.nodes.node_slot_index, s) as u32);
        let electable_nodes = list_len(&self.nodes.subnet_node_election_slots, s);
        acc.add_take();
        if electable_nodes > 1 {
            acc.add_computational_weight(electable_nodes as u64 * 1000);
        }
        let queued = list_len(&self.nodes.subnet_node_queue, s);
        acc.add_take();
        if queued > 1 {
            acc.add_computational_weight(queued as u64 * 1000);
        }
        acc.add_mutate();
        acc.add_remove();
        proof {
            let n = self.nodes;
            assert(acc.total_reads == 5);
            assert(acc.total_writes == nested_count(n.subnet_nodes_data@, s) + 4
                + index_count(n.peer_id_subnet_node_id@, s) + index_count(n.bootnode_peer_id_subnet_node_id@, s)
                + index_count(n.client_peer_id_subnet_node_id@, s) + index_count(n.bootnode_subnet_node_id@, s)
                + index_count(n.unique_param_subnet_node_id@, s)
                + nested_count(n.hotkey_subnet_node_id@, s) + nested_count(n.subnet_node_id_hotkey@, s)
                + reputations_removed
                + nested_count(n.subnet_node_consecutive_included_epochs@, s)
                + nested_count(n.registered_subnet_nodes_data@, s)
                + nested_count(n.subnet_elected_validator@, s) + nested_count(n.node_slot_index@, s)
                + 4);
            assert(acc.computational_ops == list_ops(list_count(n.subnet_node_election_slots@, s))
                + list_ops(list_count(n.subnet_node_queue@, s)));
        }
        acc.finalize(db)
    }

    /// The subnet records of `final` follow those of `o` by dropping subnet `s`,
    /// whose data was `d`.
    pub open spec fn subnet_records_dropped(&self, o: Network, s: u32, d: SubnetData) -> bool {
        let m = self.meta;
        let p = o.meta;
        &&& self.subnets_data@ == o.subnets_data@.remove(s)
        &&& m.subnet_name.as_map() == p.subnet_name.as_map().remove(d.name@)
        &&& m.subnet_repo.as_map() == p.subnet_repo.as_map().remove(d.repo@)
        &&& m.subnet_owner@ == p.subnet_owner@.remove(s)
        &&& m.pending_subnet_owner@ == p.pending_subnet_owner@.remove(s)
        &&& m.subnet_registration_epoch@ == p.subnet_registration_epoch@.remove(s)
        &&& m.previous_subnet_pause_epoch@ == p.previous_subnet_pause_epoch@.remove(s)
        &&& self.subnet_min_stake_balance@ == o.subnet_min_stake_balance@.remove(s)
        &&& self.subnet_max_stake_balance@ == o.subnet_max_stake_balance@.remove(s)
        &&& m.subnet_delegate_stake_rewards_percentage@ == p.subnet_delegate_stake_rewards_percentage@.remove(s)
        &&& m.last_subnet_delegate_stake_rewards_update@ == p.last_subnet_delegate_stake_rewards_update@.remove(s)
        &&& m.subnet_registration_initial_coldkeys@ == p.subnet_registration_initial_coldkeys@.remove(s)
        &&& m.initial_coldkey_data@ == p.initial_coldkey_data@.remove(s)
        &&& m.max_registered_nodes@ == p.max_registered_nodes@.remove(s)
        &&& m.subnet_key_types@ == p.subnet_key_types@.remove(s)
        &&& m.subnet_bootnodes@ == p.subnet_bootnodes@.remove(s)
        &&& m.subnet_id_friendly_uid@ == p.subnet_id_friendly_uid@.remove(s)
        &&& m.friendly_uid_subnet_id@ == if p.subnet_id_friendly_uid@.contains_key(s) {
            p.friendly_uid_subnet_id@.remove(p.subnet_id_friendly_uid@[s])
        } else {
            p.friendly_uid_subnet_id@
        }
        &&& m.total_subnet_uids == p.total_subnet_uids
        &&& m.total_active_subnets == if d.state == SubnetState::Active {
            sat_sub_u32(p.total_active_subnets, 1)
        } else {
            p.total_active_subnets
        }
        &&& m.prev_subnet_activation_epoch == p.prev_subnet_activation_epoch
        &&& m.last_registration_cost == p.last_registration_cost
        &&& m.last_subnet_registration_block == p.last_subnet_registration_block
        &&& self.slot_released(o, s)
    }

    /// The epoch slot a new subnet gets: the lowest slot after the designated
    /// ones and within the epoch that no subnet holds, if there is one.
    pub open spec fn next_slot(&self) -> Option<u32> {
        first_free_slot(self.meta.assigned_slots@, self.params.designated_epoch_slots as int, self.epoch_length as int)
    }

    /// Give subnet `subnet_id` the slot `next_slot`, recording it both ways and
    /// as assigned; `NoAvailableSlots`, with nothing changed, when every slot is
    /// taken.
    pub fn assign_subnet_slot(&mut self, subnet_id: u32) -> (r: Result<u32, NetworkError>)
        ensures
            match old(self).next_slot() {
                None => r == Err::<u32, NetworkError>(NetworkError::NoAvailableSlots) && *final(self) == *old(self),
                Some(sl) => {
                    &&& r == Ok::<u32, NetworkError>(sl)
                    &&& old(self).params.designated_epoch_slots <= sl < old(self).epoch_length
                    &&& final(self).meta.subnet_slot@ == old(self).meta.subnet_slot@.insert(subnet_id, sl)
                    &&& final(self).meta.slot_assignment@ == old(self).meta.slot_assignment@.insert(sl, subnet_id)
                    &&& final(self).meta.assigned_slots@ == old(self).meta.assigned_slots@.insert(sl)
                    &&& final(self).meta == (SubnetsMeta {
                        subnet_slot: final(self).meta.subnet_slot,
                        slot_assignment: final(self).meta.slot_assignment,
                        assigned_slots: final(self).meta.assigned_slots,
                        ..old(self).meta
                    })
                    &&& *final(self) == (Network { meta: final(self).meta, ..*old(self) })
                },
            },
    {
        let lo = self.params.designated_epoch_slots;
        let hi = self.epoch_length;
        let mut i = lo;
        while i < hi
            invariant
                *self == *old(self),
                lo <= i,
                lo == self.params.designated_epoch_slots,
                hi == self.epoch_length,
                first_free_slot(self.meta.assigned_slots@, lo as int, hi as int)
                    == first_free_slot(self.meta.assigned_slots@, i as int, hi as int),
            decreases hi - i,
        {
            if !self.meta.assigned_slots.contains(&i) {
                proof {
                    assert(first_free_slot(self.meta.assigned_slots@, i as int, hi as int) == Some(i));
                }
                self.meta.subnet_slot.insert(subnet_id, i);
                self.meta.slot_assignment.insert(i, subnet_id);
                self.meta.assigned_slots.insert(i);
                return Ok(i);
            }
            i = i + 1;
        }
        proof {
            assert(first_free_slot(self.meta.assigned_slots@, i as int, hi as int) == None::<u32>);
        }
        Err(NetworkError::NoAvailableSlots)
    }

    /// `self` follows `o` by releasing the epoch slot of subnet `s`, if it has one.
    pub open spec fn slot_released(&self, o: Network, s: u32) -> bool {
        let p = o.meta;
        let m = self.meta;
        &&& m.subnet_slot@ == p.subnet_slot@.remove(s)
        &&& p.subnet_slot@.contains_key(s) ==> {
            &&& m.slot_assignment@ == p.slot_assignment@.remove(p.subnet_slot@[s])
            &&& m.assigned_slots@ == p.assigned_slots@.remove(p.subnet_slot@[s])
        }
        &&& !p.subnet_slot@.contains_key(s) ==> m.slot_assignment@ == p.slot_assignment@ && m.assigned_slots@ == p.assigned_slots@
    }

    /// Release the epoch slot of subnet `subnet_id`, if it has one, for reuse.
    pub fn free_slot_of_subnet(&mut self, subnet_id: u32)
        ensures
            final(self).slot_released(*old(self), subnet_id),
            final(self).meta == (SubnetsMeta {
                subnet_slot: final(self).meta.subnet_slot,
                slot_assignment: final(self).meta.slot_assignment,
                assigned_slots: final(self).meta.assigned_slots,
                ..old(self).meta
            }),
            *final(self) == (Network { meta: final(self).meta, ..*old(self) }),
    {
        match self.meta.subnet_slot.remove(&subnet_id) {
            Some(slot) => {
                self.meta.slot_assignment.remove(&slot);
                self.meta.assigned_slots.remove(&slot);
            },
            None => {},
        }
    }

    /// Remove subnet `subnet_id` and clear its records and node records,
    /// releasing its epoch slot. Returns the weight of doing so.
    pub fn do_remove_subnet(&mut self, subnet_id: u32, reason: SubnetRemovalReason, db: DbWeight) -> (r: Weight)
        requires
            old(self).wf(),
        ensures
            final(self).wf(),
            r == old(self).removal_weight(subnet_id, db),
            final(self).subnet_removed(*old(self), subnet_id),
    {
        let s = subnet_id;
        let mut weight = db.reads_writes(1, 0);
        if !self.subnets_data.contains_key(&s) {
            return weight;
        }
        let ghost o = *self;
        let subnet = match self.subnets_data.remove(&s) {
            Some(d) => d,
            None => return weight,
        };
        let ghost d = subnet;
        self.meta.subnet_name.remove(&subnet.name);
        self.meta.subnet_repo.remove(&subnet.repo);
        map_remove(&mut self.meta.subnet_owner, s);
        map_remove(&mut self.meta.pending_subnet_owner, s);
        map_remove(&mut self.meta.subnet_registration_epoch, s);
        map_remove(&mut self.meta.previous_subnet_pause_epoch, s);
        map_remove(&mut self.subnet_min_stake_balance, s);
        map_remove(&mut self.subnet_max_stake_balance, s);
        map_remove(&mut self.meta.subnet_delegate_stake_rewards_percentage, s);
        map_remove(&mut self.meta.last_subnet_delegate_stake_rewards_update, s);
        map_remove(&mut self.meta.subnet_registration_initial_coldkeys, s);
        map_remove(&mut self.meta.initial_coldkey_data, s);
        map_remove(&mut self.meta.max_registered_nodes, s);
        map_remove(&mut self.meta.subnet_key_types, s);
        map_remove(&mut self.meta.subnet_bootnodes, s);
        match self.meta.subnet_id_friendly_uid.remove(&s) {
            Some(friendly_uid) => {
                map_remove(&mut self.meta.friendly_uid_subnet_id, friendly_uid);
                weight = add_weight(weight, db.reads_writes(0, 1));
            },
            None => {},
        }
        weight = add_weight(weight, db.reads_writes(1, 26));
        self.free_slot_of_subnet(s);
        weight = add_weight(weight, db.reads_writes(1, 3));
        if subnet.state == SubnetState::Active {
            self.meta.total_active_subnets = self.meta.total_active_subnets.saturating_sub(1);
            weight = add_weight(weight, db.reads_writes(1, 1));
        }
        map_remove(&mut self.nodes.emergency_subnet_node_election, s);
        proof {
            assert(self.nodes == NodesMeta { emergency_subnet_node_election: self.nodes.emergency_subnet_node_election, ..o.nodes });
            assert(self.subnet_node_reputation == o.subnet_node_reputation);
            assert(self.clean_weight(s, db) == o.clean_weight(s, db));
        }
        let cleaned = self.clean_subnet_nodes(s, db);
        proof {
            let n = *self;
            assert forall|t: u32, i: u32| #[trigger] flat(n.nodes.subnet_nodes_data@).contains_key((t, i))
                implies i <= get_or(n.nodes.total_subnet_node_uids@, t, 0u32) by {
                assert(flat(o.nodes.subnet_nodes_data@).contains_key((t, i)));
            }
            assert forall|t: u32, i: u32| #[trigger] flat(n.nodes.registered_subnet_nodes_data@).contains_key((t, i))
                implies i <= get_or(n.nodes.total_subnet_node_uids@, t, 0u32) by {
                assert(flat(o.nodes.registered_subnet_nodes_data@).contains_key((t, i)));
            }
        }
        add_weight(weight, cleaned)
    }

    /// The state after removing subnet `s` from `o`: unchanged when it does not
    /// exist, else its records and node records dropped and nothing else touched.
    pub open spec fn subnet_removed(&self, o: Network, s: u32) -> bool {
        &&& !o.subnets_data@.contains_key(s) ==> *self == o
        &&& o.subnets_data@.contains_key(s) ==> {
            &&& self.subnet_records_dropped(o, s, o.subnets_data@[s])
            &&& self.nodes_cleaned(o, s)
            &&& self.nodes.emergency_subnet_node_election@ == o.nodes.emergency_subnet_node_election@.remove(s)
            &&& self.registry_frame(o)
        }
    }

    /// Remove subnet `subnet_id` when the block's weight budget allows it:
    /// after the read of the node count, `removal_weight` (the runtime's weight
    /// for removing a subnet with that many nodes) must still fit in `meter`;
    /// then the subnet is removed and the weight of the removal is consumed.
    pub fn try_do_remove_subnet(
        &mut self,
        meter: &mut WeightMeter,
        subnet_id: u32,
        reason: SubnetRemovalReason,
        db: DbWeight,
        removal_weight: Weight,
    )
        requires
            old(self).wf(),
        ensures
            final(self).wf(),
            final(meter).limit == old(meter).limit,
            ({
                let read = weight_add(old(meter).consumed, reads_writes_weight(db, 1, 0));
                if weight_fits(read, removal_weight, old(meter).limit) {
                    &&& final(meter).consumed == weight_add(read, old(self).removal_weight(subnet_id, db))
                    &&& final(self).subnet_removed(*old(self), subnet_id)
                } else {
                    &&& final(meter).consumed == read
                    &&& *final(self) == *old(self)
                }
            }),
    {
        meter.consume(db.reads_writes(1, 0));
        if !meter.can_consume(removal_weight) {
            return;
        }
        let weight = self.do_remove_subnet(subnet_id, reason, db);
        meter.consume(weight);
    }

    /// Weight of removing subnet `s` at `db`'s prices: the read of its data,
    /// then, when it exists, the friendly id write, the parameter and slot
    /// writes, the active subnet count update, and clearing its nodes.
    pub open spec fn removal_weight(&self, s: u32, db: DbWeight) -> Weight {
        let read = reads_writes_weight(db, 1, 0);
        if !self.subnets_data@.contains_key(s) {
            read
        } else {
            let w1 = if self.meta.subnet_id_friendly_uid@.contains_key(s) {
                weight_add(read, reads_writes_weight(db, 0, 1))
            } else {
                read
            };
            let w2 = weight_add(weight_add(w1, reads_writes_weight(db, 1, 26)), reads_writes_weight(db, 1, 3));
            let w3 = if self.subnets_data@[s].state == SubnetState::Active {
                weight_add(w2, reads_writes_weight(db, 1, 1))
            } else {
                w2
            };
            weight_add(w3, self.clean_weight(s, db))
        }
    }

    /// Why registering a subnet with `data` for at most `max_cost` is refused
    /// before any write, if it is; `cost` is the current registration cost and
    /// `funds` the currency's answer for taking it from the owner.
    pub open spec fn register_subnet_error(&self, data: RegistrationSubnetData, max_cost: u128, cost: u128, funds: WithdrawCheck)
        -> Option<NetworkError>
    {
        let p = self.params;
        if self.meta.subnet_name.as_map().contains_key(data.name@) {
            Some(NetworkError::SubnetNameExist)
        } else if self.subnets_data@.len() >= (if p.max_subnets == u32::MAX { u32::MAX as int } else { p.max_subnets + 1 }) {
            Some(NetworkError::MaxSubnets)
        } else if self.meta.subnet_repo.as_map().contains_key(data.repo@) {
            Some(NetworkError::SubnetRepoExist)
        } else if data.bootnodes@.len() == 0 {
            Some(NetworkError::BootnodesEmpty)
        } else if (data.bootnodes@.len() as u32) > p.max_bootnodes {
            Some(NetworkError::TooManyBootnodes)
        } else if data.min_stake < p.min_subnet_min_stake || data.min_stake > p.max_subnet_min_stake {
            Some(NetworkError::InvalidSubnetMinStake)
        } else if data.max_stake > p.network_max_stake_balance {
            Some(NetworkError::InvalidSubnetMaxStake)
        } else if data.min_stake > data.max_stake {
            Some(NetworkError::InvalidSubnetStakeParameters)
        } else if data.delegate_stake_percentage < p.min_delegate_stake_percentage
            || data.delegate_stake_percentage > p.max_delegate_stake_percentage
            || data.delegate_stake_percentage > PERCENTAGE_FACTOR {
            Some(NetworkError::InvalidMinDelegateStakePercentage)
        } else if !((forall|k: u64| #[trigger] data.initial_coldkeys@.contains_key(k) ==> data.initial_coldkeys@[k] >= 1)
            && (data.initial_coldkeys@.len() as u32) >= p.min_subnet_nodes) {
            Some(NetworkError::InvalidSubnetRegistrationInitialColdkeys)
        } else if max_cost < cost {
            Some(NetworkError::CostGreaterThanMaxCost)
        } else if cost > 0 && funds == WithdrawCheck::NotEnough {
            Some(NetworkError::NotEnoughBalanceToRegisterSubnet)
        } else if cost > 0 && funds == WithdrawCheck::WithdrawFails {
            Some(NetworkError::BalanceWithdrawalError)
        } else {
            None
        }
    }

    /// `final` follows `o` by a subnet registration that returned `r` (see `do_register_subnet`).
    pub open spec fn subnet_registration(&self, o: Network, owner: u64, max_cost: u128, subnet_registration_data: RegistrationSubnetData, block: u32, epoch: u32, cost: u128, funds: WithdrawCheck, r: Result<u32, NetworkError>) -> bool {
        match o.register_subnet_error(subnet_registration_data, max_cost, cost, funds) {
            Some(e) => r == Err::<u32, NetworkError>(e) && *self == o,
            None => {
                let id = if o.meta.total_subnet_uids == u32::MAX { u32::MAX } else { (o.meta.total_subnet_uids + 1) as u32 };
                let next_cost = next_registration_cost(cost, o.params.new_registration_cost_multiplier);
                match o.next_slot() {
                    None => {
                        &&& r == Err::<u32, NetworkError>(NetworkError::NoAvailableSlots)
                        &&& *self == (Network {
                            meta: SubnetsMeta {
                                total_subnet_uids: id,
                                last_registration_cost: next_cost,
                                last_subnet_registration_block: block,
                                ..o.meta
                            },
                            ..o
                        })
                    },
                    Some(sl) => {
                        let d = subnet_registration_data;
                        let friendly = (sat_sub_u32(sl, o.params.designated_epoch_slots) + 1) as u32;
                        let m = self.meta;
                        let p = o.meta;
                        &&& r == Ok::<u32, NetworkError>(id)
                        &&& m.total_subnet_uids == id
                        &&& self.subnets_data@ == o.subnets_data@.insert(
                            id,
                            (SubnetData {
                                id,
                                friendly_id: friendly,
                                name: d.name,
                                repo: d.repo,
                                description: d.description,
                                misc: d.misc,
                                state: SubnetState::Registered,
                                start_epoch: u32::MAX,
                            }),
                        )
                        &&& m.subnet_id_friendly_uid@ == p.subnet_id_friendly_uid@.insert(id, friendly)
                        &&& m.friendly_uid_subnet_id@ == p.friendly_uid_subnet_id@.insert(friendly, id)
                        &&& m.subnet_owner@ == p.subnet_owner@.insert(id, owner)
                        &&& self.subnet_min_stake_balance@ == o.subnet_min_stake_balance@.insert(id, d.min_stake)
                        &&& self.subnet_max_stake_balance@ == o.subnet_max_stake_balance@.insert(id, d.max_stake)
                        &&& m.subnet_delegate_stake_rewards_percentage@
                            == p.subnet_delegate_stake_rewards_percentage@.insert(id, d.delegate_stake_percentage)
                        &&& m.last_subnet_delegate_stake_rewards_update@ == p.last_subnet_delegate_stake_rewards_update@.insert(id, block)
                        &&& m.subnet_registration_initial_coldkeys@ == p.subnet_registration_initial_coldkeys@.insert(id, d.initial_coldkeys)
                        &&& m.subnet_bootnodes@ == p.subnet_bootnodes@.insert(id, d.bootnodes)
                        &&& m.subnet_name.as_map() == p.subnet_name.as_map().insert(d.name@, id)
                        &&& m.subnet_repo.as_map() == p.subnet_repo.as_map().insert(d.repo@, id)
                        &&& m.subnet_key_types@ == p.subnet_key_types@.insert(id, d.key_types)
                        &&& m.subnet_registration_epoch@ == p.subnet_registration_epoch@.insert(id, epoch)
                        &&& m.pending_subnet_owner@ == p.pending_subnet_owner@
                        &&& m.initial_coldkey_data@ == p.initial_coldkey_data@
                        &&& m.max_registered_nodes@ == p.max_registered_nodes@
                        &&& m.total_active_subnets == p.total_active_subnets
                        &&& m.previous_subnet_pause_epoch@ == p.previous_subnet_pause_epoch@
                        &&& m.prev_subnet_activation_epoch == p.prev_subnet_activation_epoch
                        &&& m.last_registration_cost == next_cost
                        &&& m.last_subnet_registration_block == block
                        &&& m.subnet_slot@ == p.subnet_slot@.insert(id, sl)
                        &&& m.slot_assignment@ == p.slot_assignment@.insert(sl, id)
                        &&& m.assigned_slots@ == p.assigned_slots@.insert(sl)
                        &&& self.nodes == o.nodes
                        &&& self.subnet_node_reputation@ == o.subnet_node_reputation@
                        &&& self.registry_frame(o)
                    },
                }
            },
        }
    }

    /// Register a subnet for `owner` at `block` of `epoch`. `cost` is the current
    /// registration cost, `funds` what the currency answers for moving it from the
    /// owner to the treasury (the caller moves it on success when `cost > 0`), and
    /// `slot` what the slot allocator returned for the new subnet id. The subnet
    /// starts `Registered`, with the next subnet id.
    pub fn do_register_subnet(
        &mut self,
        owner: u64,
        max_cost: u128,
        subnet_registration_data: RegistrationSubnetData,
        block: u32,
        epoch: u32,
        cost: u128,
        funds: WithdrawCheck,
    ) -> (r: Result<u32, NetworkError>)
        requires
            old(self).wf(),
            old(self).subnets_data@.len() < usize::MAX,
        ensures
            final(self).wf(),
            final(self).subnet_registration(*old(self), owner, max_cost, subnet_registration_data, block, epoch, cost, funds, r),

    {
        let data = subnet_registration_data;
        let p = self.params;
        if self.meta.subnet_name.contains_key(&data.name) {
            return Err(NetworkError::SubnetNameExist);
        }
        let max_total: u32 = p.max_subnets.saturating_add(1);
        if !(self.subnets_data.len() < max_total as usize) {
            return Err(NetworkError::MaxSubnets);
        }
        if self.meta.subnet_repo.contains_key(&data.repo) {
            return Err(NetworkError::SubnetRepoExist);
        }
        if data.bootnodes.len() == 0 {
            return Err(NetworkError::BootnodesEmpty);
        }
        if data.bootnodes.len() as u32 > p.max_bootnodes {
            return Err(NetworkError::TooManyBootnodes);
        }
        if data.min_stake < p.min_subnet_min_stake || data.min_stake > p.max_subnet_min_stake {
            return Err(NetworkError::InvalidSubnetMinStake);
        }
        if data.max_stake > p.network_max_stake_balance {
            return Err(NetworkError::InvalidSubnetMaxStake);
        }
        if data.min_stake > data.max_stake {
            return Err(NetworkError::InvalidSubnetStakeParameters);
        }
        if data.delegate_stake_percentage < p.min_delegate_stake_percentage
            || data.delegate_stake_percentage > p.max_delegate_stake_percentage
            || data.delegate_stake_percentage > PERCENTAGE_FACTOR {
            return Err(NetworkError::InvalidMinDelegateStakePercentage);
        }
        if !(all_at_least_one(&data.initial_coldkeys) && data.initial_coldkeys.len() as u32 >= p.min_subnet_nodes) {
            return Err(NetworkError::InvalidSubnetRegistrationInitialColdkeys);
        }
        if max_cost < cost {
            return Err(NetworkError::CostGreaterThanMaxCost);
        }
        if cost > 0 {
            if funds == WithdrawCheck::NotEnough {
                return Err(NetworkError::NotEnoughBalanceToRegisterSubnet);
            }
            if funds == WithdrawCheck::WithdrawFails {
                return Err(NetworkError::BalanceWithdrawalError);
            }
        }
        self.meta.last_registration_cost = match checked_mul_div(cost, p.new_registration_cost_multiplier, 0, PERCENTAGE_FACTOR, 0) {
            Some(c) => c,
            None => u128::MAX,
        };
        self.meta.last_subnet_registration_block = block;
        let subnet_id = self.meta.total_subnet_uids.saturating_add(1);
        self.meta.total_subnet_uids = subnet_id;
        let slot = match self.assign_subnet_slot(subnet_id) {
            Ok(sl) => sl,
            Err(e) => return Err(e),
        };
        let friendly_uid = slot.saturating_sub(p.designated_epoch_slots) + 1;
        map_set(&mut self.meta.subnet_id_friendly_uid, subnet_id, friendly_uid);
        map_set(&mut self.meta.friendly_uid_subnet_id, friendly_uid, subnet_id);
        let RegistrationSubnetData {
            name,
            repo,
            description,
            misc,
            min_stake,
            max_stake,
            delegate_stake_percentage,
            initial_coldkeys,
            key_types,
            bootnodes,
        } = data;
        let name_key = clone_bytes(&name);
        let repo_key = clone_bytes(&repo);
        let subnet_data = SubnetData {
            id: subnet_id,
            friendly_id: friendly_uid,
            name,
            repo,
            description,
            misc,
            state: SubnetState::Registered,
            start_epoch: u32::MAX,
        };
        self.subnets_data.insert(subnet_id, subnet_data);
        map_set(&mut self.meta.subnet_owner, subnet_id, owner);
        map_set(&mut self.subnet_min_stake_balance, subnet_id, min_stake);
        map_set(&mut self.subnet_max_stake_balance, subnet_id, max_stake);
        map_set(&mut self.meta.subnet_delegate_stake_rewards_percentage, subnet_id, delegate_stake_percentage);
        map_set(&mut self.meta.last_subnet_delegate_stake_rewards_update, subnet_id, block);
        self.meta.subnet_registration_initial_coldkeys.insert(subnet_id, initial_coldkeys);
        self.meta.subnet_bootnodes.insert(subnet_id, bootnodes);
        self.meta.subnet_name.insert(name_key, subnet_id);
        self.meta.subnet_repo.insert(repo_key, subnet_id);
        self.meta.subnet_key_types.insert(subnet_id, key_types);
        map_set(&mut self.meta.subnet_registration_epoch, subnet_id, epoch);
        Ok(subnet_id)
    }

    /// Whether subnet `s` has waited the minimum registration epochs at `epoch`.
    pub open spec fn past_min_registration(&self, s: u32, epoch: u32) -> bool {
        self.meta.subnet_registration_epoch@.contains_key(s) && {
            let e = self.meta.subnet_registration_epoch@[s] as int + self.params.min_subnet_registration_epochs as int;
            (if e > u32::MAX { u32::MAX as int } else { e }) <= epoch
        }
    }

    /// `final` follows `o` by an activation attempt of subnet `s` that returned
    /// `r` (see `do_activate_subnet`).
    pub open spec fn subnet_activation(
        &self,
        o: Network,
        s: u32,
        epoch: u32,
        block: u32,
        in_registration_period: bool,
        in_enactment_period: bool,
        can_be_active: bool,
        reason: Option<SubnetRemovalReason>,
        r: Result<ActivationOutcome, NetworkError>,
    ) -> bool {
        &&& !o.subnets_data@.contains_key(s) ==>
                r == Err::<ActivationOutcome, NetworkError>(NetworkError::InvalidSubnetId) && *self == o
        &&& o.subnets_data@.contains_key(s) ==> {
            let d = o.subnets_data@[s];
            let removal = if !in_registration_period && !in_enactment_period {
                Some(SubnetRemovalReason::EnactmentPeriod)
            } else if !can_be_active && !in_registration_period && in_enactment_period {
                reason
            } else {
                None
            };
            if d.state != SubnetState::Registered {
                r == Err::<ActivationOutcome, NetworkError>(NetworkError::SubnetActivatedAlready) && *self == o
            } else if !o.past_min_registration(s, epoch) {
                r == Err::<ActivationOutcome, NetworkError>(NetworkError::MinSubnetRegistrationEpochsNotMet)
                    && *self == o
            } else if removal is Some {
                &&& r == Ok::<ActivationOutcome, NetworkError>(ActivationOutcome::Removed(removal->Some_0))
                &&& self.subnet_records_dropped(o, s, d)
                &&& self.nodes_cleaned(o, s)
                &&& self.registry_frame(o)
            } else if !can_be_active && in_registration_period {
                r == Err::<ActivationOutcome, NetworkError>(NetworkError::SubnetActivationConditionsNotMetYet)
                    && *self == o
            } else {
                let m = self.meta;
                let p = o.meta;
                &&& r == Ok::<ActivationOutcome, NetworkError>(ActivationOutcome::Activated)
                &&& self.subnets_data@ == o.subnets_data@.insert(
                    s,
                    (SubnetData { state: SubnetState::Active, start_epoch: (epoch + 1) as u32, ..d }),
                )
                &&& m.total_active_subnets == p.total_active_subnets + 1
                &&& m.subnet_registration_epoch@ == p.subnet_registration_epoch@.remove(s)
                &&& m.subnet_registration_initial_coldkeys@ == p.subnet_registration_initial_coldkeys@.remove(s)
                &&& m.initial_coldkey_data@ == p.initial_coldkey_data@.remove(s)
                &&& m.last_subnet_delegate_stake_rewards_update@ == p.last_subnet_delegate_stake_rewards_update@.insert(s, block)
                &&& m.previous_subnet_pause_epoch@ == p.previous_subnet_pause_epoch@.insert(s, epoch)
                &&& m.prev_subnet_activation_epoch == epoch
                &&& m.subnet_name == p.subnet_name
                &&& m.subnet_repo == p.subnet_repo
                &&& m.subnet_owner == p.subnet_owner
                &&& m.pending_subnet_owner == p.pending_subnet_owner
                &&& m.subnet_delegate_stake_rewards_percentage == p.subnet_delegate_stake_rewards_percentage
                &&& m.subnet_bootnodes == p.subnet_bootnodes
                &&& m.subnet_key_types == p.subnet_key_types
                &&& m.max_registered_nodes == p.max_registered_nodes
                &&& m.subnet_id_friendly_uid == p.subnet_id_friendly_uid
                &&& m.friendly_uid_subnet_id == p.friendly_uid_subnet_id
                &&& m.total_subnet_uids == p.total_subnet_uids
                &&& self.nodes == o.nodes
                &&& self.subnet_node_reputation@ == o.subnet_node_reputation@
                &&& self.subnet_min_stake_balance@ == o.subnet_min_stake_balance@
                &&& self.subnet_max_stake_balance@ == o.subnet_max_stake_balance@
                &&& self.registry_frame(o)
            }
        }
    }

    /// Activate registered subnet `subnet_id` at `block` of `epoch`, or remove it
    /// when its time is up. `in_registration_period`, `in_enactment_period`,
    /// `can_be_active` and `reason` are what the subnet's period and activation
    /// requirement checks answer at `epoch`.
    pub fn do_activate_subnet(
        &mut self,
        subnet_id: u32,
        epoch: u32,
        block: u32,
        in_registration_period: bool,
        in_enactment_period: bool,
        can_be_active: bool,
        reason: Option<SubnetRemovalReason>,
        db: DbWeight,
    ) -> (r: Result<ActivationOutcome, NetworkError>)
        requires
            old(self).wf(),
            epoch < u32::MAX,
            old(self).meta.total_active_subnets < u32::MAX,
        ensures
            final(self).wf(),
            final(self).subnet_activation(*old(self), subnet_id, epoch, block, in_registration_period, in_enactment_period, can_be_active, reason, r),

    {
        let state = match self.subnets_data.get(&subnet_id) {
            Some(d) => d.state,
            None => return Err(NetworkError::InvalidSubnetId),
        };
        if state != SubnetState::Registered {
            return Err(NetworkError::SubnetActivatedAlready);
        }
        let past_min_registration_epochs = match self.meta.subnet_registration_epoch.get(&subnet_id) {
            Some(registered_epoch) => registered_epoch.saturating_add(self.params.min_subnet_registration_epochs) <= epoch,
            None => false,
        };
        if !past_min_registration_epochs {
            return Err(NetworkError::MinSubnetRegistrationEpochsNotMet);
        }
        if !in_registration_period && !in_enactment_period {
            self.do_remove_subnet(subnet_id, SubnetRemovalReason::EnactmentPeriod, db);
            return Ok(ActivationOutcome::Removed(SubnetRemovalReason::EnactmentPeriod));
        }
        if !can_be_active && in_registration_period {
            return Err(NetworkError::SubnetActivationConditionsNotMetYet);
        }
        if !can_be_active && in_enactment_period {
            match reason {
                Some(removal_reason) => {
                    self.do_remove_subnet(subnet_id, removal_reason, db);
                    return Ok(ActivationOutcome::Removed(removal_reason));
                },
                None => {},
            }
        }
        let mut subnet = match self.subnets_data.remove(&subnet_id) {
            Some(d) => d,
            None => return Err(NetworkError::InvalidSubnetId),
        };
        subnet.state = SubnetState::Active;
        subnet.start_epoch = epoch + 1;
        self.subnets_data.insert(subnet_id, subnet);
        self.meta.total_active_subnets = self.meta.total_active_subnets + 1;
        map_remove(&mut self.meta.subnet_registration_epoch, subnet_id);
        map_remove(&mut self.meta.subnet_registration_initial_coldkeys, subnet_id);
        map_remove(&mut self.meta.initial_coldkey_data, subnet_id);
        map_set(&mut self.meta.last_subnet_delegate_stake_rewards_update, subnet_id, block);
        map_set(&mut self.meta.previous_subnet_pause_epoch, subnet_id, epoch);
        self.meta.prev_subnet_activation_epoch = epoch;
        proof {
            let d = old(self).subnets_data@[subnet_id];
            assert(self.subnets_data@ =~= old(self).subnets_data@.insert(
                subnet_id,
                SubnetData { state: SubnetState::Active, start_epoch: (epoch + 1) as u32, ..d },
            ));
        }
        Ok(ActivationOutcome::Activated)
    }
}

} // verus!
