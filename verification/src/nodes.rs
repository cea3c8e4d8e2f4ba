//! Subnet node registration and activation, and coldkey updates.

use vstd::prelude::*;
use std::collections::BTreeMap;
use crate::types::{
    PERCENTAGE_FACTOR, NetworkError, SubnetState, SubnetNode, SubnetNodeClass, SubnetNodeClassification, Reputation,
    NodeRegistrationChecks, spec_default_reputation, DefaultColdkeyReputation,
};
use crate::names::bytes_eq;
use crate::subnets::clone_bytes;
use crate::network::{Network, WithdrawCheck, DEFAULT_SUBNET_MIN_STAKE, DEFAULT_SUBNET_MAX_STAKE, sat_add, get_or, map_get, map_set};
use crate::registry::{flat, nested_insert, nested_remove, index_of, index_insert, index_contains, index_get, NodesMeta, KeysMeta, SubnetsMeta};
use std::collections::BTreeSet;
use crate::hooks::{Weight, WeightMeter, DbWeight, weight_fits, weight_add, reads_writes_weight};

verus! {

/// `x + 1` capped at `u32::MAX`.
pub open spec fn sat_inc(x: u32) -> u32 {
    if x == u32::MAX { x } else { (x + 1) as u32 }
}

/// A reputation with one more lifetime node and one more active node (saturating).
pub open spec fn with_node_added(r: Reputation) -> Reputation {
    Reputation {
        lifetime_node_count: sat_inc(r.lifetime_node_count),
        total_active_nodes: sat_inc(r.total_active_nodes),
        ..r
    }
}

/// `m` with the entries under `a` and `b` exchanged (an absent entry moves as
/// absence).
pub open spec fn swap_keys<K, V>(m: Map<K, V>, a: K, b: K) -> Map<K, V> {
    let m1 = if m.contains_key(b) { m.insert(a, m[b]) } else { m.remove(a) };
    if m.contains_key(a) { m1.insert(b, m[a]) } else { m1.remove(b) }
}

/// Exchange the entries under `a` and `b`.
pub fn map_swap<K: Ord + Copy, V>(m: &mut BTreeMap<K, V>, a: K, b: K)
    requires
        vstd::laws_cmp::obeys_cmp::<K>(),
    ensures
        final(m)@ == swap_keys(old(m)@, a, b),
{
    let va = m.remove(&a);
    let vb = m.remove(&b);
    match vb {
        Some(v) => {
            m.insert(a, v);
        },
        None => {},
    }
    match va {
        Some(v) => {
            m.insert(b, v);
        },
        None => {},
    }
    proof {
        assert(m@ =~= swap_keys(old(m)@, a, b));
    }
}

/// A copy of an optional byte string.
pub fn clone_opt_bytes(v: &Option<Vec<u8>>) -> (r: Option<Vec<u8>>)
    ensures
        opt_view(r) == opt_view(*v),
{
    match v {
        Some(b) => Some(clone_bytes(b)),
        None => None,
    }
}

/// An optional byte string as a sequence.
pub open spec fn opt_view(v: Option<Vec<u8>>) -> Option<Seq<u8>> {
    match v {
        Some(b) => Some(b@),
        None => None,
    }
}

/// The contents of a node record, byte strings as sequences.
pub open spec fn node_view(n: SubnetNode) -> (u32, u64, Seq<u8>, Seq<u8>, Seq<u8>, Option<Seq<u8>>, SubnetNodeClassification, u128, u32, Option<Seq<u8>>, Option<Seq<u8>>) {
    (
        n.id,
        n.hotkey,
        n.peer_id@,
        n.bootnode_peer_id@,
        n.client_peer_id@,
        opt_view(n.bootnode),
        n.classification,
        n.delegate_reward_rate,
        n.last_delegate_reward_rate_update,
        opt_view(n.unique),
        opt_view(n.non_unique),
    )
}

/// A copy of a node record.
pub fn clone_node(n: &SubnetNode) -> (r: SubnetNode)
    ensures
        node_view(r) == node_view(*n),
{
    SubnetNode {
        id: n.id,
        hotkey: n.hotkey,
        peer_id: clone_bytes(&n.peer_id),
        bootnode_peer_id: clone_bytes(&n.bootnode_peer_id),
        client_peer_id: clone_bytes(&n.client_peer_id),
        bootnode: clone_opt_bytes(&n.bootnode),
        classification: n.classification,
        delegate_reward_rate: n.delegate_reward_rate,
        last_delegate_reward_rate_update: n.last_delegate_reward_rate_update,
        unique: clone_opt_bytes(&n.unique),
        non_unique: clone_opt_bytes(&n.non_unique),
    }
}

/// Node ids of `coldkey` in subnet `s`.
pub open spec fn coldkey_nodes_of(m: Map<u64, BTreeMap<u32, BTreeSet<u32>>>, coldkey: u64, s: u32) -> Set<u32> {
    if m.contains_key(coldkey) && m[coldkey]@.contains_key(s) {
        m[coldkey]@[s]@
    } else {
        Set::empty()
    }
}

/// Record node `id` of subnet `s` as one of `coldkey`'s.
pub fn add_coldkey_node(m: &mut BTreeMap<u64, BTreeMap<u32, BTreeSet<u32>>>, coldkey: u64, s: u32, id: u32)
    ensures
        forall|c: u64, t: u32| #[trigger] coldkey_nodes_of(final(m)@, c, t) == if c == coldkey && t == s {
            coldkey_nodes_of(old(m)@, c, t).insert(id)
        } else {
            coldkey_nodes_of(old(m)@, c, t)
        },
{
    let mut per_subnet = match m.remove(&coldkey) {
        Some(x) => x,
        None => BTreeMap::new(),
    };
    let mut ids = match per_subnet.remove(&s) {
        Some(x) => x,
        None => BTreeSet::new(),
    };
    ids.insert(id);
    per_subnet.insert(s, ids);
    m.insert(coldkey, per_subnet);
    proof {
        assert forall|c: u64, t: u32| #[trigger] coldkey_nodes_of(m@, c, t) == if c == coldkey && t == s {
            coldkey_nodes_of(old(m)@, c, t).insert(id)
        } else {
            coldkey_nodes_of(old(m)@, c, t)
        } by {
            if c == coldkey && t == s {
                assert(coldkey_nodes_of(m@, c, t) =~= coldkey_nodes_of(old(m)@, c, t).insert(id));
            }
        }
    }
}

/// The hotkeys of `coldkey`.
pub open spec fn hotkeys_of(m: Map<u64, BTreeSet<u64>>, coldkey: u64) -> Set<u64> {
    if m.contains_key(coldkey) { m[coldkey]@ } else { Set::empty() }
}

/// Nodes waiting in subnet `s`'s registration queue.
pub open spec fn queue_of(m: Map<u32, Vec<SubnetNode>>, s: u32) -> Seq<SubnetNode> {
    if m.contains_key(s) { m[s]@ } else { Seq::empty() }
}

/// Node ids holding election slots in subnet `s`.
pub open spec fn slots_of(m: Map<u32, Vec<u32>>, s: u32) -> Seq<u32> {
    if m.contains_key(s) { m[s]@ } else { Seq::empty() }
}

/// Whether `x` occurs in `v`.
fn ids_contain(v: &Vec<u32>, x: u32) -> (r: bool)
    ensures
        r == v@.contains(x),
{
    let mut i: usize = 0;
    while i < v.len()
        invariant
            i <= v@.len(),
            forall|j: int| 0 <= j < i ==> v@[j] != x,
        decreases v.len() - i,
    {
        if v[i] == x {
            assert(v@[i as int] == x);
            return true;
        }
        i = i + 1;
    }
    false
}

impl Network {
    /// Whether `peer` is, in subnet `s`, held by no node other than `node_id`
    /// as a peer id, bootnode peer id or client peer id, and by no overwatch
    /// node other than `overwatch_node_id` as its peer id.
    pub open spec fn peer_owned_or_free(&self, s: u32, node_id: u32, overwatch_node_id: u32, peer: Seq<u8>) -> bool {
        let a = index_of(self.nodes.peer_id_subnet_node_id@, s);
        let b = index_of(self.nodes.bootnode_peer_id_subnet_node_id@, s);
        let c = index_of(self.nodes.client_peer_id_subnet_node_id@, s);
        let d = index_of(self.ow.peer_id_overwatch_node_id@, s);
        &&& a.contains_key(peer) ==> a[peer] == node_id
        &&& b.contains_key(peer) ==> b[peer] == node_id
        &&& c.contains_key(peer) ==> c[peer] == node_id
        &&& d.contains_key(peer) ==> d[peer] == overwatch_node_id
    }

    /// Whether `bootnode` is, in subnet `s`, held by no node other than `node_id`.
    pub open spec fn bootnode_owned_or_free(&self, s: u32, node_id: u32, bootnode: Seq<u8>) -> bool {
        let b = index_of(self.nodes.bootnode_subnet_node_id@, s);
        b.contains_key(bootnode) ==> b[bootnode] == node_id
    }

    /// `peer_owned_or_free(subnet_id, subnet_node_id, overwatch_node_id, peer_id)`.
    pub fn is_owner_of_peer_or_ownerless(&self, subnet_id: u32, subnet_node_id: u32, overwatch_node_id: u32, peer_id: &Vec<u8>) -> (r: bool)
        requires
            self.wf(),
        ensures
            r == self.peer_owned_or_free(subnet_id, subnet_node_id, overwatch_node_id, peer_id@),
    {
        let a = match index_get(&self.nodes.peer_id_subnet_node_id, subnet_id, peer_id) {
            Some(id) => id == subnet_node_id,
            None => true,
        };
        let b = match index_get(&self.nodes.bootnode_peer_id_subnet_node_id, subnet_id, peer_id) {
            Some(id) => id == subnet_node_id,
            None => true,
        };
        let c = match index_get(&self.nodes.client_peer_id_subnet_node_id, subnet_id, peer_id) {
            Some(id) => id == subnet_node_id,
            None => true,
        };
        let d = match index_get(&self.ow.peer_id_overwatch_node_id, subnet_id, peer_id) {
            Some(id) => id == overwatch_node_id,
            None => true,
        };
        a && b && c && d
    }

    /// `bootnode_owned_or_free(subnet_id, subnet_node_id, bootnode)`.
    pub fn is_owner_of_bootnode_or_ownerless(&self, subnet_id: u32, subnet_node_id: u32, bootnode: &Vec<u8>) -> (r: bool)
        requires
            self.wf(),
        ensures
            r == self.bootnode_owned_or_free(subnet_id, subnet_node_id, bootnode@),
    {
        match index_get(&self.nodes.bootnode_subnet_node_id, subnet_id, bootnode) {
            Some(id) => id == subnet_node_id,
            None => true,
        }
    }

    /// Whether node `id` can take an election slot of subnet `s`: it holds
    /// none yet and not every slot is taken.
    pub open spec fn election_slot_free(&self, s: u32, id: u32) -> bool {
        &&& !slots_of(self.nodes.subnet_node_election_slots@, s).contains(id)
        &&& slots_of(self.nodes.subnet_node_election_slots@, s).len() < self.params.max_subnet_nodes
    }

    /// `self` follows `o` by node `id` taking the next election slot of subnet
    /// `s`, and being counted as electable in the subnet and the network.
    pub open spec fn slot_taken(&self, o: Network, s: u32, id: u32) -> bool {
        &&& forall|t: u32| #[trigger] slots_of(self.nodes.subnet_node_election_slots@, t) == if t == s {
            slots_of(o.nodes.subnet_node_election_slots@, t).push(id)
        } else {
            slots_of(o.nodes.subnet_node_election_slots@, t)
        }
        &&& self.nodes.total_subnet_electable_nodes@ == o.nodes.total_subnet_electable_nodes@.insert(
            s,
            sat_inc(get_or(o.nodes.total_subnet_electable_nodes@, s, 0u32)),
        )
        &&& self.nodes.total_electable_nodes == sat_inc(o.nodes.total_electable_nodes)
    }

    /// The election slots and electable counts equal those of `o`.
    pub open spec fn same_slots(&self, o: Network) -> bool {
        &&& self.nodes.subnet_node_election_slots == o.nodes.subnet_node_election_slots
        &&& self.nodes.total_subnet_electable_nodes == o.nodes.total_subnet_electable_nodes
        &&& self.nodes.total_electable_nodes == o.nodes.total_electable_nodes
    }

    /// `election_slot_free(s, id)`.
    pub fn election_slot_is_free(&self, s: u32, id: u32) -> (r: bool)
        ensures
            r == self.election_slot_free(s, id),
    {
        match self.nodes.subnet_node_election_slots.get(&s) {
            Some(v) => !ids_contain(v, id) && (v.len() as u64) < (self.params.max_subnet_nodes as u64),
            None => 0 < self.params.max_subnet_nodes,
        }
    }

    /// Give node `id` the next election slot of subnet `s` and count it as
    /// electable, when it holds none yet and a slot is free; returns whether it
    /// did. Nothing changes when it did not.
    pub fn insert_node_into_election_slot(&mut self, s: u32, id: u32) -> (r: bool)
        ensures
            r == old(self).election_slot_free(s, id),
            r ==> final(self).slot_taken(*old(self), s, id),
            !r ==> *final(self) == *old(self),
            final(self).nodes == (NodesMeta {
                subnet_node_election_slots: final(self).nodes.subnet_node_election_slots,
                total_subnet_electable_nodes: final(self).nodes.total_subnet_electable_nodes,
                total_electable_nodes: final(self).nodes.total_electable_nodes,
                ..old(self).nodes
            }),
            *final(self) == (Network { nodes: final(self).nodes, ..*old(self) }),
    {
        if !self.election_slot_is_free(s, id) {
            return false;
        }
        let ghost o = *self;
        let mut slots = match self.nodes.subnet_node_election_slots.remove(&s) {
            Some(v) => v,
            None => Vec::new(),
        };
        slots.push(id);
        self.nodes.subnet_node_election_slots.insert(s, slots);
        let c = map_get(&self.nodes.total_subnet_electable_nodes, s, 0);
        map_set(&mut self.nodes.total_subnet_electable_nodes, s, c.saturating_add(1));
        self.nodes.total_electable_nodes = self.nodes.total_electable_nodes.saturating_add(1);
        proof {
            assert forall|t: u32| #[trigger] slots_of(self.nodes.subnet_node_election_slots@, t) == if t == s {
                slots_of(o.nodes.subnet_node_election_slots@, t).push(id)
            } else {
                slots_of(o.nodes.subnet_node_election_slots@, t)
            } by {
                if t == s {
                    assert(slots_of(self.nodes.subnet_node_election_slots@, t) =~= slots_of(o.nodes.subnet_node_election_slots@, t).push(id));
                }
            }
        }
        true
    }
}

impl Network {
    /// Whether a node can be activated for a subnet in `state`; `queue` tells
    /// whether it comes from the registration queue.
    pub open spec fn activation_allowed(state: SubnetState, queue: bool) -> bool {
        !((state == SubnetState::Registered && queue) || (state == SubnetState::Active && !queue) || state == SubnetState::Paused)
    }

    /// The node as activated at `subnet_epoch`: when the subnet is still
    /// registering and the node did not come from the queue, a `Validator`
    /// starting on the current subnet epoch, else `Idle` starting on the next
    /// one (capped at `u32::MAX`).
    pub open spec fn activated_node(node: SubnetNode, state: SubnetState, queue: bool, subnet_epoch: u32) -> SubnetNode {
        let registering = state == SubnetState::Registered && !queue;
        SubnetNode {
            classification: SubnetNodeClassification {
                node_class: if registering { SubnetNodeClass::Validator } else { SubnetNodeClass::Idle },
                start_epoch: if registering { subnet_epoch } else { sat_inc(subnet_epoch) },
            },
            ..node
        }
    }

    /// Activate `subnet_node` of subnet `subnet_id` at `subnet_epoch`: it leaves
    /// the registered nodes and joins the active nodes, the active counts grow and
    /// its coldkey's reputation counts one more node. A node entering as
    /// `Validator` also takes an election slot (see
    /// `insert_node_into_election_slot`). Returns whether the node was handled.
    pub fn do_activate_subnet_node(
        &mut self,
        meter: &mut WeightMeter,
        db: DbWeight,
        subnet_id: u32,
        subnet_state: SubnetState,
        subnet_node: SubnetNode,
        subnet_epoch: u32,
        queue: bool,
    ) -> (r: bool)
        requires
            get_or(old(self).nodes.total_active_subnet_nodes@, subnet_id, 0u32) < u32::MAX,
            old(self).nodes.total_active_nodes < u32::MAX,
        ensures
            final(meter).limit == old(meter).limit,
            ({
                let id = subnet_node.id;
                let fits = weight_fits(old(meter).consumed, reads_writes_weight(db, 5, 1), old(meter).limit);
                let node1 = Network::activated_node(subnet_node, subnet_state, queue, subnet_epoch);
                let validator = subnet_state == SubnetState::Registered && !queue;
                let owner = get_or(old(self).keys.hotkey_owner@, subnet_node.hotkey, 0u64);
                let rep = get_or(old(self).keys.coldkey_reputation@, owner, spec_default_reputation());
                if !Network::activation_allowed(subnet_state, queue) || !fits {
                    !r && *final(self) == *old(self) && *final(meter) == *old(meter)
                } else if queue && subnet_node.classification.node_class != SubnetNodeClass::Registered {
                    r && *final(self) == *old(self) && *final(meter) == *old(meter)
                } else if validator && !old(self).election_slot_free(subnet_id, id) {
                    &&& !r
                    &&& flat(final(self).nodes.registered_subnet_nodes_data@)
                        == flat(old(self).nodes.registered_subnet_nodes_data@).remove((subnet_id, id))
                    &&& final(self).nodes.subnet_nodes_data@ == old(self).nodes.subnet_nodes_data@
                    &&& final(self).same_slots(*old(self))
                    &&& final(self).nodes.total_active_subnet_nodes@ == old(self).nodes.total_active_subnet_nodes@
                    &&& final(self).nodes.total_active_nodes == old(self).nodes.total_active_nodes
                    &&& final(self).keys == old(self).keys
                    &&& *final(meter) == *old(meter)
                } else {
                    &&& r
                    &&& flat(final(self).nodes.registered_subnet_nodes_data@)
                        == flat(old(self).nodes.registered_subnet_nodes_data@).remove((subnet_id, id))
                    &&& flat(final(self).nodes.subnet_nodes_data@) == flat(old(self).nodes.subnet_nodes_data@).insert((subnet_id, id), node1)
                    &&& final(self).nodes.total_active_subnet_nodes@ == old(self).nodes.total_active_subnet_nodes@.insert(
                        subnet_id,
                        (get_or(old(self).nodes.total_active_subnet_nodes@, subnet_id, 0u32) + 1) as u32,
                    )
                    &&& final(self).nodes.total_active_nodes == old(self).nodes.total_active_nodes + 1
                    &&& final(self).keys.coldkey_reputation@ == old(self).keys.coldkey_reputation@.insert(owner, with_node_added(rep))
                    &&& final(self).keys.hotkey_owner == old(self).keys.hotkey_owner
                    &&& final(self).keys.coldkey_hotkeys == old(self).keys.coldkey_hotkeys
                    &&& final(self).keys.hotkey_subnet_id == old(self).keys.hotkey_subnet_id
                    &&& final(self).keys.coldkey_subnet_nodes == old(self).keys.coldkey_subnet_nodes
                    &&& final(self).keys.account_subnet_stake == old(self).keys.account_subnet_stake
                    &&& final(meter).consumed == weight_add(old(meter).consumed, reads_writes_weight(db, 4, 4))
                    &&& validator ==> final(self).slot_taken(*old(self), subnet_id, id)
                    &&& !validator ==> final(self).same_slots(*old(self))
                }
            }),
            final(self).nodes == (NodesMeta {
                registered_subnet_nodes_data: final(self).nodes.registered_subnet_nodes_data,
                subnet_nodes_data: final(self).nodes.subnet_nodes_data,
                total_active_subnet_nodes: final(self).nodes.total_active_subnet_nodes,
                total_active_nodes: final(self).nodes.total_active_nodes,
                subnet_node_election_slots: final(self).nodes.subnet_node_election_slots,
                total_subnet_electable_nodes: final(self).nodes.total_subnet_electable_nodes,
                total_electable_nodes: final(self).nodes.total_electable_nodes,
                ..old(self).nodes
            }),
            final(self).keys == (KeysMeta { coldkey_reputation: final(self).keys.coldkey_reputation, ..old(self).keys }),
            *final(self) == (Network { nodes: final(self).nodes, keys: final(self).keys, ..*old(self) }),
    {
        if subnet_state == SubnetState::Registered && queue
            || subnet_state == SubnetState::Active && !queue
            || subnet_state == SubnetState::Paused {
            return false;
        }
        if !meter.can_consume(db.reads_writes(5, 1)) {
            return false;
        }
        if queue && subnet_node.classification.node_class != SubnetNodeClass::Registered {
            return true;
        }
        let mut subnet_node = subnet_node;
        let id = subnet_node.id;
        nested_remove(&mut self.nodes.registered_subnet_nodes_data, subnet_id, id);
        subnet_node.classification.node_class = SubnetNodeClass::Idle;
        subnet_node.classification.start_epoch = subnet_epoch.saturating_add(1);
        if subnet_state == SubnetState::Registered && !queue {
            subnet_node.classification.node_class = SubnetNodeClass::Validator;
            subnet_node.classification.start_epoch = subnet_epoch;
            if !self.insert_node_into_election_slot(subnet_id, id) {
                return false;
            }
        }
        let hotkey = subnet_node.hotkey;
        nested_insert(&mut self.nodes.subnet_nodes_data, subnet_id, id, subnet_node);
        let active = map_get(&self.nodes.total_active_subnet_nodes, subnet_id, 0);
        map_set(&mut self.nodes.total_active_subnet_nodes, subnet_id, active + 1);
        self.nodes.total_active_nodes = self.nodes.total_active_nodes + 1;
        let owner = map_get(&self.keys.hotkey_owner, hotkey, 0);
        let rep = match self.keys.coldkey_reputation.get(&owner) {
            Some(r) => *r,
            None => DefaultColdkeyReputation(),
        };
        let rep1 = Reputation {
            lifetime_node_count: rep.lifetime_node_count.saturating_add(1),
            total_active_nodes: rep.total_active_nodes.saturating_add(1),
            ..rep
        };
        map_set(&mut self.keys.coldkey_reputation, owner, rep1);
        meter.consume(db.reads_writes(4, 4));
        true
    }

    /// Activate a node registering while its subnet is still registering: the
    /// subnet must have room for another active node, and the node takes an
    /// election slot.
    pub fn perform_activate_subnet_node(
        &mut self,
        db: DbWeight,
        subnet_id: u32,
        subnet_state: SubnetState,
        subnet_node: SubnetNode,
        subnet_epoch: u32,
    ) -> (r: Result<(), NetworkError>)
        requires
            old(self).nodes.total_active_nodes < u32::MAX,
        ensures
            ({
                let id = subnet_node.id;
                let count = get_or(old(self).nodes.total_active_subnet_nodes@, subnet_id, 0u32);
                let owner = get_or(old(self).keys.hotkey_owner@, subnet_node.hotkey, 0u64);
                let rep = get_or(old(self).keys.coldkey_reputation@, owner, spec_default_reputation());
                if !(count < old(self).params.max_subnet_nodes) {
                    r == Err::<(), NetworkError>(NetworkError::MaxRegisteredNodes) && *final(self) == *old(self)
                } else if subnet_state != SubnetState::Registered {
                    r == Err::<(), NetworkError>(NetworkError::ElectionSlotInsertFail) && *final(self) == *old(self)
                } else if !old(self).election_slot_free(subnet_id, id) {
                    &&& r == Err::<(), NetworkError>(NetworkError::ElectionSlotInsertFail)
                    &&& flat(final(self).nodes.registered_subnet_nodes_data@)
                        == flat(old(self).nodes.registered_subnet_nodes_data@).remove((subnet_id, id))
                    &&& final(self).nodes.subnet_nodes_data@ == old(self).nodes.subnet_nodes_data@
                    &&& final(self).keys == old(self).keys
                    &&& final(self).same_slots(*old(self))
                } else {
                    &&& r is Ok
                    &&& flat(final(self).nodes.registered_subnet_nodes_data@)
                        == flat(old(self).nodes.registered_subnet_nodes_data@).remove((subnet_id, id))
                    &&& flat(final(self).nodes.subnet_nodes_data@) == flat(old(self).nodes.subnet_nodes_data@).insert(
                        (subnet_id, id),
                        Network::activated_node(subnet_node, subnet_state, false, subnet_epoch),
                    )
                    &&& final(self).nodes.total_active_subnet_nodes@
                        == old(self).nodes.total_active_subnet_nodes@.insert(subnet_id, (count + 1) as u32)
                    &&& final(self).nodes.total_active_nodes == old(self).nodes.total_active_nodes + 1
                    &&& final(self).keys.coldkey_reputation@ == old(self).keys.coldkey_reputation@.insert(owner, with_node_added(rep))
                    &&& final(self).keys.hotkey_owner == old(self).keys.hotkey_owner
                    &&& final(self).keys.coldkey_hotkeys == old(self).keys.coldkey_hotkeys
                    &&& final(self).keys.hotkey_subnet_id == old(self).keys.hotkey_subnet_id
                    &&& final(self).keys.coldkey_subnet_nodes == old(self).keys.coldkey_subnet_nodes
                    &&& final(self).keys.account_subnet_stake == old(self).keys.account_subnet_stake
                    &&& final(self).slot_taken(*old(self), subnet_id, id)
                }
            }),
            final(self).nodes == (NodesMeta {
                registered_subnet_nodes_data: final(self).nodes.registered_subnet_nodes_data,
                subnet_nodes_data: final(self).nodes.subnet_nodes_data,
                total_active_subnet_nodes: final(self).nodes.total_active_subnet_nodes,
                total_active_nodes: final(self).nodes.total_active_nodes,
                subnet_node_election_slots: final(self).nodes.subnet_node_election_slots,
                total_subnet_electable_nodes: final(self).nodes.total_subnet_electable_nodes,
                total_electable_nodes: final(self).nodes.total_electable_nodes,
                ..old(self).nodes
            }),
            final(self).keys == (KeysMeta { coldkey_reputation: final(self).keys.coldkey_reputation, ..old(self).keys }),
            *final(self) == (Network { nodes: final(self).nodes, keys: final(self).keys, ..*old(self) }),
    {
        let count = map_get(&self.nodes.total_active_subnet_nodes, subnet_id, 0);
        if !(count < self.params.max_subnet_nodes) {
            return Err(NetworkError::MaxRegisteredNodes);
        }
        let mut meter = WeightMeter::with_limit(Weight { ref_time: u64::MAX, proof_size: u64::MAX });
        if !self.do_activate_subnet_node(&mut meter, db, subnet_id, subnet_state, subnet_node, subnet_epoch, false) {
            return Err(NetworkError::ElectionSlotInsertFail);
        }
        Ok(())
    }

    /// Why registering `hotkey` as a node of subnet `s` for `coldkey` is refused
    /// before any write, if it is.
    pub open spec fn register_node_error(
        &self,
        coldkey: u64,
        s: u32,
        hotkey: u64,
        peer: Seq<u8>,
        bootnode_peer: Seq<u8>,
        client_peer: Seq<u8>,
        bootnode: Option<Seq<u8>>,
        max_burn_amount: u128,
        delegate_reward_rate: u128,
        stake_to_be_added: u128,
        c: NodeRegistrationChecks,
    ) -> Option<NetworkError> {
        let whitelist = self.meta.subnet_registration_initial_coldkeys@;
        if !self.subnets_data@.contains_key(s) {
            Some(NetworkError::InvalidSubnetId)
        } else if coldkey == hotkey {
            Some(NetworkError::ColdkeyMatchesHotkey)
        } else if self.subnets_data@[s].state == SubnetState::Paused {
            Some(NetworkError::SubnetIsPaused)
        } else if self.keys.hotkey_owner@.contains_key(hotkey) || self.keys.hotkey_subnet_id@.contains_key(hotkey) {
            Some(NetworkError::HotkeyHasOwner)
        } else if peer == bootnode_peer || peer == client_peer || bootnode_peer == client_peer {
            Some(NetworkError::PeerIdsMustBeUnique)
        } else if c.in_enactment {
            Some(NetworkError::SubnetMustBeRegisteringOrActivated)
        } else if whitelist.contains_key(s) && !whitelist[s]@.contains_key(coldkey) {
            Some(NetworkError::ColdkeyRegistrationWhitelist)
        } else if whitelist.contains_key(s)
            && get_or(flat(self.meta.initial_coldkey_data@), (s, coldkey), 0u32) >= whitelist[s]@[coldkey] {
            Some(NetworkError::MaxRegisteredNodes)
        } else if queue_of(self.nodes.subnet_node_queue@, s).len() >= get_or(self.meta.max_registered_nodes@, s, 64u32) {
            Some(NetworkError::MaxRegisteredNodes)
        } else if !c.peer_id_valid {
            Some(NetworkError::InvalidPeerId)
        } else if !c.client_peer_id_valid {
            Some(NetworkError::InvalidClientPeerId)
        } else if !c.bootnode_peer_id_valid {
            Some(NetworkError::InvalidBootnodePeerId)
        } else if !self.peer_owned_or_free(s, 0, 0, peer) {
            Some(NetworkError::PeerIdExist)
        } else if !self.peer_owned_or_free(s, 0, 0, bootnode_peer) {
            Some(NetworkError::BootnodePeerIdExist)
        } else if !self.peer_owned_or_free(s, 0, 0, client_peer) {
            Some(NetworkError::ClientPeerIdExist)
        } else if bootnode is Some && !self.bootnode_owned_or_free(s, 0, bootnode->Some_0) {
            Some(NetworkError::BootnodeExist)
        } else if get_or(self.keys.account_subnet_stake@, (hotkey, s), 0u128) != 0 {
            Some(NetworkError::MustUnstakeToRegister)
        } else if hotkeys_of(self.keys.coldkey_hotkeys@, coldkey).contains(hotkey) {
            Some(NetworkError::HotkeyAlreadyRegisteredToColdkey)
        } else if delegate_reward_rate > PERCENTAGE_FACTOR {
            Some(NetworkError::InvalidDelegateRewardRate)
        } else if c.burn_amount > max_burn_amount {
            Some(NetworkError::MaxBurnAmountExceeded)
        } else if !c.burn_ok {
            Some(NetworkError::BalanceBurnError)
        } else if stake_to_be_added < self.min_stake_of(s) {
            Some(NetworkError::MinStakeNotReached)
        } else if stake_to_be_added > self.max_stake_of(s) {
            Some(NetworkError::MaxStakeReached)
        } else if c.stake_funds == WithdrawCheck::NotEnough {
            Some(NetworkError::NotEnoughBalanceToStake)
        } else if c.stake_funds == WithdrawCheck::WithdrawFails {
            Some(NetworkError::BalanceWithdrawalError)
        } else {
            None
        }
    }

    /// The record a node registration stores for node `id`.
    pub open spec fn registered_node(
        id: u32,
        hotkey: u64,
        peer_id: Vec<u8>,
        bootnode_peer_id: Vec<u8>,
        client_peer_id: Vec<u8>,
        bootnode: Option<Vec<u8>>,
        delegate_reward_rate: u128,
        unique: Option<Vec<u8>>,
        non_unique: Option<Vec<u8>>,
        c: NodeRegistrationChecks,
    ) -> SubnetNode {
        SubnetNode {
            id,
            hotkey,
            peer_id,
            bootnode_peer_id,
            client_peer_id,
            bootnode,
            classification: SubnetNodeClassification {
                node_class: SubnetNodeClass::Registered,
                start_epoch: (c.subnet_epoch + 1) as u32,
            },
            delegate_reward_rate,
            last_delegate_reward_rate_update: if delegate_reward_rate > 0 { c.block } else { 0 },
            unique,
            non_unique,
        }
    }

    /// `final` follows `o` by a node registration that returned `r` (see `do_register_subnet_node`).
    pub open spec fn node_registration(&self, o: Network, coldkey: u64, subnet_id: u32, hotkey: u64, peer_id: Vec<u8>, bootnode_peer_id: Vec<u8>, client_peer_id: Vec<u8>, bootnode: Option<Vec<u8>>, delegate_reward_rate: u128, stake_to_be_added: u128, unique: Option<Vec<u8>>, non_unique: Option<Vec<u8>>, max_burn_amount: u128, checks: NodeRegistrationChecks, r: Result<(), NetworkError>) -> bool {
        match o.register_node_error(
            coldkey,
            subnet_id,
            hotkey,
            peer_id@,
            bootnode_peer_id@,
            client_peer_id@,
            opt_view(bootnode),
            max_burn_amount,
            delegate_reward_rate,
            stake_to_be_added,
            checks,
        ) {
            Some(e) => r == Err::<(), NetworkError>(e) && *self == o,
            None => {
                let s = subnet_id;
                let id = (get_or(o.nodes.total_subnet_node_uids@, s, 0u32) + 1) as u32;
                let o = o;
                let n = *self;
                let node = Network::registered_node(
                    id,
                    hotkey,
                    peer_id,
                    bootnode_peer_id,
                    client_peer_id,
                    bootnode,
                    delegate_reward_rate,
                    unique,
                    non_unique,
                    checks,
                );
                let taken = unique is Some && index_of(o.nodes.unique_param_subnet_node_id@, s).contains_key(unique->Some_0@);
                let registering = o.subnets_data@[s].state == SubnetState::Registered;
                &&& n.nodes.total_subnet_node_uids@ == o.nodes.total_subnet_node_uids@.insert(s, id)
                &&& taken ==> r == Err::<(), NetworkError>(NetworkError::SubnetNodeUniqueParamTaken)
                &&& !taken && !registering ==> {
                    &&& r is Ok
                    &&& flat(n.nodes.registered_subnet_nodes_data@)
                        == flat(o.nodes.registered_subnet_nodes_data@).insert((s, id), node)
                    &&& queue_of(n.nodes.subnet_node_queue@, s).len() == queue_of(o.nodes.subnet_node_queue@, s).len() + 1
                    &&& queue_of(n.nodes.subnet_node_queue@, s).drop_last() == queue_of(o.nodes.subnet_node_queue@, s)
                    &&& node_view(queue_of(n.nodes.subnet_node_queue@, s).last()) == node_view(node)
                    &&& n.nodes.subnet_nodes_data@ == o.nodes.subnet_nodes_data@
                    &&& !flat(n.nodes.subnet_nodes_data@).contains_key((s, id))
                    &&& n.same_slots(o)
                    &&& n.nodes.total_active_subnet_nodes == o.nodes.total_active_subnet_nodes
                    &&& n.nodes.total_active_nodes == o.nodes.total_active_nodes
                    &&& n.keys.coldkey_reputation == o.keys.coldkey_reputation
                    &&& n.meta == o.meta
                }
                &&& !taken && registering ==> {
                    let count = get_or(o.nodes.total_active_subnet_nodes@, s, 0u32);
                    if !(count < o.params.max_subnet_nodes) {
                        r == Err::<(), NetworkError>(NetworkError::MaxRegisteredNodes)
                    } else if !o.election_slot_free(s, id) {
                        r == Err::<(), NetworkError>(NetworkError::ElectionSlotInsertFail)
                    } else {
                        &&& r is Ok
                        &&& n.slot_taken(o, s, id)
                        &&& slots_of(n.nodes.subnet_node_election_slots@, s).contains(id)
                        &&& flat(n.nodes.subnet_nodes_data@) == flat(o.nodes.subnet_nodes_data@).insert(
                            (s, id),
                            Network::activated_node(node, SubnetState::Registered, false, checks.subnet_epoch),
                        )
                        &&& n.nodes.total_active_subnet_nodes@ == o.nodes.total_active_subnet_nodes@.insert(s, (count + 1) as u32)
                        &&& n.nodes.total_active_nodes == o.nodes.total_active_nodes + 1
                        &&& flat(n.meta.initial_coldkey_data@) == flat(o.meta.initial_coldkey_data@).insert(
                            (s, coldkey),
                            (get_or(flat(o.meta.initial_coldkey_data@), (s, coldkey), 0u32) + 1) as u32,
                        )
                        &&& n.meta == (SubnetsMeta { initial_coldkey_data: n.meta.initial_coldkey_data, ..o.meta })
                        &&& n.keys.coldkey_reputation@ == o.keys.coldkey_reputation@.insert(
                            coldkey,
                            with_node_added(get_or(o.keys.coldkey_reputation@, coldkey, spec_default_reputation())),
                        )
                        &&& flat(n.nodes.registered_subnet_nodes_data@) == flat(o.nodes.registered_subnet_nodes_data@).remove((s, id))
                        &&& n.nodes.subnet_node_queue == o.nodes.subnet_node_queue
                    }
                }
                &&& r is Ok ==> {
                    &&& n.nodes.total_subnet_nodes@ == o.nodes.total_subnet_nodes@.insert(
                        s,
                        (get_or(o.nodes.total_subnet_nodes@, s, 0u32) + 1) as u32,
                    )
                    &&& n.nodes.total_nodes == o.nodes.total_nodes + 1
                    &&& n.keys.account_subnet_stake@ == o.keys.account_subnet_stake@.insert((hotkey, s), stake_to_be_added)
                    &&& n.total_subnet_stake@ == o.total_subnet_stake@.insert(
                        s,
                        sat_add(get_or(o.total_subnet_stake@, s, 0u128), stake_to_be_added),
                    )
                    &&& n.total_stake == sat_add(o.total_stake, stake_to_be_added)
                    &&& flat(n.nodes.hotkey_subnet_node_id@) == flat(o.nodes.hotkey_subnet_node_id@).insert((s, hotkey), id)
                    &&& flat(n.nodes.subnet_node_id_hotkey@) == flat(o.nodes.subnet_node_id_hotkey@).insert((s, id), hotkey)
                    &&& n.keys.hotkey_subnet_id@ == o.keys.hotkey_subnet_id@.insert(hotkey, s)
                    &&& n.keys.hotkey_owner@ == o.keys.hotkey_owner@.insert(hotkey, coldkey)
                    &&& hotkeys_of(n.keys.coldkey_hotkeys@, coldkey) == hotkeys_of(o.keys.coldkey_hotkeys@, coldkey).insert(hotkey)
                    &&& coldkey_nodes_of(n.keys.coldkey_subnet_nodes@, coldkey, s)
                        == coldkey_nodes_of(o.keys.coldkey_subnet_nodes@, coldkey, s).insert(id)
                    &&& index_of(n.nodes.peer_id_subnet_node_id@, s) == index_of(o.nodes.peer_id_subnet_node_id@, s).insert(peer_id@, id)
                    &&& index_of(n.nodes.bootnode_peer_id_subnet_node_id@, s)
                        == index_of(o.nodes.bootnode_peer_id_subnet_node_id@, s).insert(bootnode_peer_id@, id)
                    &&& index_of(n.nodes.client_peer_id_subnet_node_id@, s)
                        == index_of(o.nodes.client_peer_id_subnet_node_id@, s).insert(client_peer_id@, id)
                    &&& index_of(n.nodes.bootnode_subnet_node_id@, s) == match bootnode {
                        Some(b) => index_of(o.nodes.bootnode_subnet_node_id@, s).insert(b@, id),
                        None => index_of(o.nodes.bootnode_subnet_node_id@, s),
                    }
                    &&& index_of(n.nodes.unique_param_subnet_node_id@, s) == match unique {
                        Some(u) => index_of(o.nodes.unique_param_subnet_node_id@, s).insert(u@, id),
                        None => index_of(o.nodes.unique_param_subnet_node_id@, s),
                    }
                    &&& n.subnets_data@ == o.subnets_data@
                    &&& n.nodes == (NodesMeta {
                        subnet_nodes_data: n.nodes.subnet_nodes_data,
                        registered_subnet_nodes_data: n.nodes.registered_subnet_nodes_data,
                        total_active_subnet_nodes: n.nodes.total_active_subnet_nodes,
                        total_active_nodes: n.nodes.total_active_nodes,
                        total_subnet_nodes: n.nodes.total_subnet_nodes,
                        total_nodes: n.nodes.total_nodes,
                        total_subnet_node_uids: n.nodes.total_subnet_node_uids,
                        peer_id_subnet_node_id: n.nodes.peer_id_subnet_node_id,
                        bootnode_peer_id_subnet_node_id: n.nodes.bootnode_peer_id_subnet_node_id,
                        client_peer_id_subnet_node_id: n.nodes.client_peer_id_subnet_node_id,
                        bootnode_subnet_node_id: n.nodes.bootnode_subnet_node_id,
                        unique_param_subnet_node_id: n.nodes.unique_param_subnet_node_id,
                        hotkey_subnet_node_id: n.nodes.hotkey_subnet_node_id,
                        subnet_node_id_hotkey: n.nodes.subnet_node_id_hotkey,
                        subnet_node_queue: n.nodes.subnet_node_queue,
                        subnet_node_election_slots: n.nodes.subnet_node_election_slots,
                        total_subnet_electable_nodes: n.nodes.total_subnet_electable_nodes,
                        total_electable_nodes: n.nodes.total_electable_nodes,
                        ..o.nodes
                    })
                    &&& n.keys == (KeysMeta {
                        hotkey_owner: n.keys.hotkey_owner,
                        hotkey_subnet_id: n.keys.hotkey_subnet_id,
                        coldkey_hotkeys: n.keys.coldkey_hotkeys,
                        coldkey_subnet_nodes: n.keys.coldkey_subnet_nodes,
                        coldkey_reputation: n.keys.coldkey_reputation,
                        account_subnet_stake: n.keys.account_subnet_stake,
                        ..o.keys
                    })
                    &&& n == (Network {
                        nodes: n.nodes,
                        keys: n.keys,
                        meta: n.meta,
                        total_subnet_stake: n.total_subnet_stake,
                        total_stake: n.total_stake,
                        ..o
                    })
                }
            },
        }
    }

    /// Why a node registration that passed `register_node_error` is refused
    /// once its writes have begun, if it is: the unique parameter is taken, or,
    /// for a subnet still registering, the subnet is full or the new node id
    /// cannot take an election slot.
    pub open spec fn late_register_node_error(&self, s: u32, unique: Option<Vec<u8>>)
        -> Option<NetworkError>
    {
        if unique is Some && index_of(self.nodes.unique_param_subnet_node_id@, s).contains_key(unique->Some_0@) {
            Some(NetworkError::SubnetNodeUniqueParamTaken)
        } else if self.subnets_data@[s].state == SubnetState::Registered {
            if !(get_or(self.nodes.total_active_subnet_nodes@, s, 0u32) < self.params.max_subnet_nodes) {
                Some(NetworkError::MaxRegisteredNodes)
            } else if !self.election_slot_free(s, (get_or(self.nodes.total_subnet_node_uids@, s, 0u32) + 1) as u32) {
                Some(NetworkError::ElectionSlotInsertFail)
            } else {
                None
            }
        } else {
            None
        }
    }

    /// `late_register_node_error` of subnet `s`, which exists.
    pub fn late_register_node_check(&self, s: u32, unique: &Option<Vec<u8>>)
        -> (r: Option<NetworkError>)
        requires
            self.subnets_data@.contains_key(s),
            get_or(self.nodes.total_subnet_node_uids@, s, 0u32) < u32::MAX,
        ensures
            r == self.late_register_node_error(s, *unique),
    {
        let taken = match unique {
            Some(u) => index_contains(&self.nodes.unique_param_subnet_node_id, s, u),
            None => false,
        };
        if taken {
            return Some(NetworkError::SubnetNodeUniqueParamTaken);
        }
        let state = match self.subnets_data.get(&s) {
            Some(d) => d.state,
            None => return None,
        };
        if state == SubnetState::Registered {
            if !(map_get(&self.nodes.total_active_subnet_nodes, s, 0) < self.params.max_subnet_nodes) {
                return Some(NetworkError::MaxRegisteredNodes);
            }
            if !self.election_slot_is_free(s, map_get(&self.nodes.total_subnet_node_uids, s, 0) + 1) {
                return Some(NetworkError::ElectionSlotInsertFail);
            }
        }
        None
    }

    /// The checks of a node registration made before anything is written:
    /// `Err` with the first refusal of `register_node_error`, else `Ok`.
    pub fn register_node_precheck(
        &self,
        coldkey: u64,
        subnet_id: u32,
        hotkey: u64,
        peer_id: &Vec<u8>,
        bootnode_peer_id: &Vec<u8>,
        client_peer_id: &Vec<u8>,
        bootnode: &Option<Vec<u8>>,
        max_burn_amount: u128,
        delegate_reward_rate: u128,
        stake_to_be_added: u128,
        checks: NodeRegistrationChecks,
    ) -> (r: Result<(), NetworkError>)
        requires
            self.wf(),
        ensures
            r == match self.register_node_error(
                coldkey,
                subnet_id,
                hotkey,
                peer_id@,
                bootnode_peer_id@,
                client_peer_id@,
                opt_view(*bootnode),
                max_burn_amount,
                delegate_reward_rate,
                stake_to_be_added,
                checks,
            ) {
                Some(e) => Err::<(), NetworkError>(e),
                None => Ok(()),
            },
    {
        let s = subnet_id;
        let state = match self.subnets_data.get(&s) {
            Some(d) => d.state,
            None => return Err(NetworkError::InvalidSubnetId),
        };
        if coldkey == hotkey {
            return Err(NetworkError::ColdkeyMatchesHotkey);
        }
        if state == SubnetState::Paused {
            return Err(NetworkError::SubnetIsPaused);
        }
        if self.keys.hotkey_owner.contains_key(&hotkey) || self.keys.hotkey_subnet_id.contains_key(&hotkey) {
            return Err(NetworkError::HotkeyHasOwner);
        }
        if bytes_eq(peer_id, bootnode_peer_id) || bytes_eq(peer_id, client_peer_id)
            || bytes_eq(bootnode_peer_id, client_peer_id) {
            return Err(NetworkError::PeerIdsMustBeUnique);
        }
        if checks.in_enactment {
            return Err(NetworkError::SubnetMustBeRegisteringOrActivated);
        }
        match self.meta.subnet_registration_initial_coldkeys.get(&s) {
            Some(coldkey_map) => match coldkey_map.get(&coldkey) {
                Some(max_registrations) => {
                    let current: u32 = match self.meta.initial_coldkey_data.get(&s) {
                        Some(m) => match m.get(&coldkey) {
                            Some(c) => *c,
                            None => 0,
                        },
                        None => 0,
                    };
                    if current >= *max_registrations {
                        return Err(NetworkError::MaxRegisteredNodes);
                    }
                },
                None => return Err(NetworkError::ColdkeyRegistrationWhitelist),
            },
            None => {},
        }
        let queue_len: usize = match self.nodes.subnet_node_queue.get(&s) {
            Some(q) => q.len(),
            None => 0,
        };
        if queue_len >= map_get(&self.meta.max_registered_nodes, s, 64) as usize {
            return Err(NetworkError::MaxRegisteredNodes);
        }
        if !checks.peer_id_valid {
            return Err(NetworkError::InvalidPeerId);
        }
        if !checks.client_peer_id_valid {
            return Err(NetworkError::InvalidClientPeerId);
        }
        if !checks.bootnode_peer_id_valid {
            return Err(NetworkError::InvalidBootnodePeerId);
        }
        if !self.is_owner_of_peer_or_ownerless(s, 0, 0, peer_id) {
            return Err(NetworkError::PeerIdExist);
        }
        if !self.is_owner_of_peer_or_ownerless(s, 0, 0, bootnode_peer_id) {
            return Err(NetworkError::BootnodePeerIdExist);
        }
        if !self.is_owner_of_peer_or_ownerless(s, 0, 0, client_peer_id) {
            return Err(NetworkError::ClientPeerIdExist);
        }
        match bootnode {
            Some(b) => {
                if !self.is_owner_of_bootnode_or_ownerless(s, 0, b) {
                    return Err(NetworkError::BootnodeExist);
                }
            },
            None => {},
        }
        if map_get(&self.keys.account_subnet_stake, (hotkey, s), 0) != 0 {
            return Err(NetworkError::MustUnstakeToRegister);
        }
        let has_hotkey = match self.keys.coldkey_hotkeys.get(&coldkey) {
            Some(set) => set.contains(&hotkey),
            None => false,
        };
        if has_hotkey {
            return Err(NetworkError::HotkeyAlreadyRegisteredToColdkey);
        }
        if delegate_reward_rate > PERCENTAGE_FACTOR {
            return Err(NetworkError::InvalidDelegateRewardRate);
        }
        if checks.burn_amount > max_burn_amount {
            return Err(NetworkError::MaxBurnAmountExceeded);
        }
        if !checks.burn_ok {
            return Err(NetworkError::BalanceBurnError);
        }
        if stake_to_be_added < map_get(&self.subnet_min_stake_balance, s, DEFAULT_SUBNET_MIN_STAKE) {
            return Err(NetworkError::MinStakeNotReached);
        }
        if stake_to_be_added > map_get(&self.subnet_max_stake_balance, s, DEFAULT_SUBNET_MAX_STAKE) {
            return Err(NetworkError::MaxStakeReached);
        }
        if checks.stake_funds == WithdrawCheck::NotEnough {
            return Err(NetworkError::NotEnoughBalanceToStake);
        }
        if checks.stake_funds == WithdrawCheck::WithdrawFails {
            return Err(NetworkError::BalanceWithdrawalError);
        }
        Ok(())
    }

    /// Register `hotkey` as a node of subnet `subnet_id` for `coldkey`, with a
    /// delegate reward rate of at most 100% and `stake_to_be_added` of initial
    /// stake, within the subnet's stake range. `checks` holds the answers of the
    /// peer-id, burn and withdrawal checks made outside this library. While the
    /// subnet registers, the node is activated at once as a validator and takes
    /// an election slot; otherwise it joins the registration queue.
    pub fn do_register_subnet_node(
        &mut self,
        db: DbWeight,
        coldkey: u64,
        subnet_id: u32,
        hotkey: u64,
        peer_id: Vec<u8>,
        bootnode_peer_id: Vec<u8>,
        client_peer_id: Vec<u8>,
        bootnode: Option<Vec<u8>>,
        delegate_reward_rate: u128,
        stake_to_be_added: u128,
        unique: Option<Vec<u8>>,
        non_unique: Option<Vec<u8>>,
        max_burn_amount: u128,
        checks: NodeRegistrationChecks,
    ) -> (r: Result<(), NetworkError>)
        requires
            old(self).wf(),
            get_or(old(self).nodes.total_subnet_node_uids@, subnet_id, 0u32) < u32::MAX,
            get_or(old(self).nodes.total_subnet_nodes@, subnet_id, 0u32) < u32::MAX,
            old(self).nodes.total_nodes < u32::MAX,
            old(self).nodes.total_active_nodes < u32::MAX,
            checks.subnet_epoch < u32::MAX,
            get_or(flat(old(self).meta.initial_coldkey_data@), (subnet_id, coldkey), 0u32) < u32::MAX,
        ensures
            final(self).wf(),
            final(self).node_registration(*old(self), coldkey, subnet_id, hotkey, peer_id, bootnode_peer_id, client_peer_id, bootnode, delegate_reward_rate, stake_to_be_added, unique, non_unique, max_burn_amount, checks, r),

    {
        let s = subnet_id;
        let pre = self.register_node_precheck(
            coldkey,
            subnet_id,
            hotkey,
            &peer_id,
            &bootnode_peer_id,
            &client_peer_id,
            &bootnode,
            max_burn_amount,
            delegate_reward_rate,
            stake_to_be_added,
            checks,
        );
        if pre.is_err() {
            return pre;
        }
        let state = match self.subnets_data.get(&s) {
            Some(d) => d.state,
            None => return Err(NetworkError::InvalidSubnetId),
        };
        let account_stake = map_get(&self.keys.account_subnet_stake, (hotkey, s), 0);
        map_set(&mut self.keys.account_subnet_stake, (hotkey, s), account_stake + stake_to_be_added);
        let subnet_stake = map_get(&self.total_subnet_stake, s, 0);
        map_set(&mut self.total_subnet_stake, s, subnet_stake.saturating_add(stake_to_be_added));
        self.total_stake = self.total_stake.saturating_add(stake_to_be_added);
        let last_delegate_reward_rate_update: u32 = if delegate_reward_rate > 0 { checks.block } else { 0 };
        let subnet_node_id = map_get(&self.nodes.total_subnet_node_uids, s, 0) + 1;
        map_set(&mut self.nodes.total_subnet_node_uids, s, subnet_node_id);
        match &unique {
            Some(u) => {
                if index_contains(&self.nodes.unique_param_subnet_node_id, s, u) {
                    return Err(NetworkError::SubnetNodeUniqueParamTaken);
                }
                index_insert(&mut self.nodes.unique_param_subnet_node_id, s, clone_bytes(u), subnet_node_id);
            },
            None => {},
        }
        nested_insert(&mut self.nodes.hotkey_subnet_node_id, s, hotkey, subnet_node_id);
        nested_insert(&mut self.nodes.subnet_node_id_hotkey, s, subnet_node_id, hotkey);
        map_set(&mut self.keys.hotkey_subnet_id, hotkey, s);
        map_set(&mut self.keys.hotkey_owner, hotkey, coldkey);
        let mut hotkeys = match self.keys.coldkey_hotkeys.remove(&coldkey) {
            Some(h) => h,
            None => BTreeSet::new(),
        };
        hotkeys.insert(hotkey);
        self.keys.coldkey_hotkeys.insert(coldkey, hotkeys);
        add_coldkey_node(&mut self.keys.coldkey_subnet_nodes, coldkey, s, subnet_node_id);
        index_insert(&mut self.nodes.peer_id_subnet_node_id, s, clone_bytes(&peer_id), subnet_node_id);
        index_insert(&mut self.nodes.bootnode_peer_id_subnet_node_id, s, clone_bytes(&bootnode_peer_id), subnet_node_id);
        index_insert(&mut self.nodes.client_peer_id_subnet_node_id, s, clone_bytes(&client_peer_id), subnet_node_id);
        match &bootnode {
            Some(b) => {
                index_insert(&mut self.nodes.bootnode_subnet_node_id, s, clone_bytes(b), subnet_node_id);
            },
            None => {},
        }
        let subnet_node = SubnetNode {
            id: subnet_node_id,
            hotkey,
            peer_id,
            bootnode_peer_id,
            client_peer_id,
            bootnode,
            classification: SubnetNodeClassification {
                node_class: SubnetNodeClass::Registered,
                start_epoch: checks.subnet_epoch + 1,
            },
            delegate_reward_rate,
            last_delegate_reward_rate_update,
            unique,
            non_unique,
        };
        let total = map_get(&self.nodes.total_subnet_nodes, s, 0);
        map_set(&mut self.nodes.total_subnet_nodes, s, total + 1);
        self.nodes.total_nodes = self.nodes.total_nodes + 1;
        if state == SubnetState::Registered {
            let activated = self.perform_activate_subnet_node(
                db,
                s,
                state,
                subnet_node,
                checks.subnet_epoch,
            );
            if activated.is_err() {
                return activated;
            }
            proof {
                let sl = slots_of(self.nodes.subnet_node_election_slots@, s);
                assert(sl[sl.len() - 1] == subnet_node_id);
            }
            let current: u32 = match self.meta.initial_coldkey_data.get(&s) {
                Some(m) => match m.get(&coldkey) {
                    Some(c) => *c,
                    None => 0,
                },
                None => 0,
            };
            nested_insert(&mut self.meta.initial_coldkey_data, s, coldkey, current + 1);
        } else {
            let queued = clone_node(&subnet_node);
            nested_insert(&mut self.nodes.registered_subnet_nodes_data, s, subnet_node_id, subnet_node);
            let mut queue = match self.nodes.subnet_node_queue.remove(&s) {
                Some(q) => q,
                None => Vec::new(),
            };
            let ghost q0 = queue@;
            queue.push(queued);
            self.nodes.subnet_node_queue.insert(s, queue);
            proof {
                assert(queue_of(self.nodes.subnet_node_queue@, s).drop_last() =~= q0);
            }
        }
        Ok(())
    }

    /// Hand the hotkey `hotkey` of `curr_coldkey` over to `new_coldkey` (the
    /// `update_coldkey` call): the hotkey's owner becomes `new_coldkey`, and the
    /// unbonding ledger, hotkey set, reputation and node records of the two
    /// coldkeys are exchanged.
    pub fn update_coldkey(&mut self, curr_coldkey: u64, hotkey: u64, new_coldkey: u64) -> (r: Result<(), NetworkError>)
        ensures
            ({
                let o = *old(self);
                let n = *final(self);
                if o.tx_pause {
                    r == Err::<(), NetworkError>(NetworkError::Paused) && n == o
                } else if hotkey == new_coldkey {
                    r == Err::<(), NetworkError>(NetworkError::ColdkeyMatchesHotkey) && n == o
                } else if !o.keys.hotkey_owner@.contains_key(hotkey) || o.keys.hotkey_owner@[hotkey] != curr_coldkey {
                    r == Err::<(), NetworkError>(NetworkError::NotKeyOwner) && n == o
                } else {
                    &&& r is Ok
                    &&& n.keys.hotkey_owner@ == o.keys.hotkey_owner@.insert(hotkey, new_coldkey)
                    &&& n.stake_unbonding_ledger@ == swap_keys(o.stake_unbonding_ledger@, curr_coldkey, new_coldkey)
                    &&& n.keys.coldkey_hotkeys@ == swap_keys(o.keys.coldkey_hotkeys@, curr_coldkey, new_coldkey)
                    &&& n.keys.coldkey_reputation@ == swap_keys(o.keys.coldkey_reputation@, curr_coldkey, new_coldkey)
                    &&& n.keys.coldkey_subnet_nodes@ == swap_keys(o.keys.coldkey_subnet_nodes@, curr_coldkey, new_coldkey)
                    &&& n.keys.hotkey_subnet_id == o.keys.hotkey_subnet_id
                    &&& n.keys.account_subnet_stake == o.keys.account_subnet_stake
                    &&& n.total_unbonding_balance == o.total_unbonding_balance
                    &&& n.pending_deposits == o.pending_deposits
                    &&& n.meta == o.meta
                    &&& n.nodes == o.nodes
                    &&& n.subnets_data@ == o.subnets_data@
                    &&& n.subnet_node_reputation@ == o.subnet_node_reputation@
                    &&& n.subnet_min_stake_balance@ == o.subnet_min_stake_balance@
                    &&& n.subnet_max_stake_balance@ == o.subnet_max_stake_balance@
                    &&& n.same_subnet_pool(o)
                    &&& n.same_validator_pool(o)
                    &&& n.same_node_pool(o)
                    &&& n.same_node_stake(o)
                    &&& n.same_overwatch_stake(o)
                    &&& n.same_delegate_account(o)
                    &&& n.same_swap_queue(o)
                    &&& n.same_rate_limit(o)
                }
            }),
    {
        if self.tx_pause {
            return Err(NetworkError::Paused);
        }
        if hotkey == new_coldkey {
            return Err(NetworkError::ColdkeyMatchesHotkey);
        }
        let owner: u64 = match self.keys.hotkey_owner.get(&hotkey) {
            Some(c) => *c,
            None => return Err(NetworkError::NotKeyOwner),
        };
        if owner != curr_coldkey {
            return Err(NetworkError::NotKeyOwner);
        }
        map_set(&mut self.keys.hotkey_owner, hotkey, new_coldkey);
        map_swap(&mut self.stake_unbonding_ledger, curr_coldkey, new_coldkey);
        map_swap(&mut self.keys.coldkey_hotkeys, curr_coldkey, new_coldkey);
        map_swap(&mut self.keys.coldkey_reputation, curr_coldkey, new_coldkey);
        map_swap(&mut self.keys.coldkey_subnet_nodes, curr_coldkey, new_coldkey);
        Ok(())
    }
}

} // verus!
