//! Read-only views of accounts' stakes.

use vstd::prelude::*;
use crate::types::{
    DelegateStakeInfo, NodeDelegateStakeInfo, SubnetNodeClass, SubnetNode, class_of_rank, spec_has_classification,
    SubnetInfo, SubnetNodeInfo, SubnetNodeStakeInfo, OverwatchNodeInfo, Reputation, PERCENTAGE_FACTOR, spec_default_reputation, DefaultColdkeyReputation,
    KeyType,
};
use crate::subnets::clone_bytes;
use crate::nodes::{clone_opt_bytes, opt_view, hotkeys_of, coldkey_nodes_of};
use std::collections::BTreeSet;
use crate::registry::nested_get;
use crate::network::{Network, get_or, map_get, DEFAULT_SUBNET_MIN_STAKE, DEFAULT_SUBNET_MAX_STAKE};
use crate::names::{NameIndex, bytes_eq};
use crate::registry::{flat, index_of, index_get, family_distinct};
use std::collections::BTreeMap;
use crate::math::{convert_to_balance, spec_convert_to_balance};

verus! {

/// A list of byte strings as a sequence of sequences.
pub open spec fn bytes_list_view(v: Seq<Vec<u8>>) -> Seq<Seq<u8>> {
    Seq::new(v.len(), |j: int| v[j]@)
}

/// A copy of a list of key types.
pub fn copy_key_types(v: &Vec<KeyType>) -> (r: Vec<KeyType>)
    ensures
        r@ == v@,
{
    let mut r: Vec<KeyType> = Vec::new();
    let mut i: usize = 0;
    while i < v.len()
        invariant
            i <= v@.len(),
            r@ == v@.take(i as int),
        decreases v.len() - i,
    {
        r.push(v[i]);
        i = i + 1;
        proof {
            assert(r@ =~= v@.take(i as int));
        }
    }
    proof {
        assert(v@.take(v@.len() as int) =~= v@);
    }
    r
}

/// A copy of a list of byte strings.
pub fn copy_bytes_list(v: &Vec<Vec<u8>>) -> (r: Vec<Vec<u8>>)
    ensures
        bytes_list_view(r@) == bytes_list_view(v@),
{
    let mut r: Vec<Vec<u8>> = Vec::new();
    let mut i: usize = 0;
    while i < v.len()
        invariant
            i <= v@.len(),
            r@.len() == i,
            bytes_list_view(r@) == bytes_list_view(v@.take(i as int)),
        decreases v.len() - i,
    {
        let ghost r0 = r@;
        let b = clone_bytes(&v[i]);
        r.push(b);
        proof {
            let t0 = v@.take(i as int);
            let t1 = v@.take(i as int + 1);
            assert(t1 =~= t0.push(v@[i as int]));
            assert forall|j: int| 0 <= j < r@.len() implies #[trigger] bytes_list_view(r@)[j] == bytes_list_view(t1)[j] by {
                if j < r0.len() {
                    assert(r@[j] == r0[j]);
                    assert(bytes_list_view(r0)[j] == bytes_list_view(t0)[j]);
                    assert(t1[j] == t0[j]);
                }
            }
            assert(bytes_list_view(r@) =~= bytes_list_view(t1));
        }
        i = i + 1;
    }
    proof {
        assert(v@.take(v@.len() as int) =~= v@);
    }
    r
}

impl Network {
    /// Balance `shares` of node `n` of subnet `s`'s delegate pool redeem for.
    pub open spec fn node_redeem_amount(&self, s: u32, n: u32, shares: u128) -> u128 {
        spec_convert_to_balance(
            shares,
            get_or(self.total_node_delegate_stake_shares@, (s, n), 0u128),
            get_or(self.total_node_delegate_stake_balance@, (s, n), 0u128),
        )
    }

    /// The delegate stake of `account_id` in each subnet where it holds shares,
    /// one entry per subnet, with what the shares redeem for.
    pub fn get_delegate_stakes(&self, account_id: u64) -> (r: Vec<DelegateStakeInfo>)
        ensures
            forall|i: int| 0 <= i < r@.len() ==> {
                let e = #[trigger] r@[i];
                &&& self.account_subnet_delegate_stake_shares@.contains_key((account_id, e.subnet_id))
                &&& e.shares == self.account_subnet_delegate_stake_shares@[(account_id, e.subnet_id)]
                &&& e.balance == self.subnet_redeem_amount(e.subnet_id, e.shares)
            },
            forall|i: int, j: int| 0 <= i < j < r@.len() ==> (#[trigger] r@[i]).subnet_id != (#[trigger] r@[j]).subnet_id,
            forall|s: u32| #[trigger] self.account_subnet_delegate_stake_shares@.contains_key((account_id, s)) ==>
                exists|i: int| 0 <= i < r@.len() && (#[trigger] r@[i]).subnet_id == s,
    {
        let m = &self.account_subnet_delegate_stake_shares;
        let mut out: Vec<DelegateStakeInfo> = Vec::new();
        for (k, v) in it: m.iter()
            invariant
                m == &self.account_subnet_delegate_stake_shares,
                it.seq().no_duplicates(),
                forall|x: int| 0 <= x < it.seq().len() ==> m@.contains_key(*(#[trigger] it.seq()[x]).0)
                    && m@[*it.seq()[x].0] == *it.seq()[x].1,
                forall|i: int| 0 <= i < out@.len() ==> {
                    let e = #[trigger] out@[i];
                    &&& m@.contains_key((account_id, e.subnet_id))
                    &&& e.shares == m@[(account_id, e.subnet_id)]
                    &&& e.balance == self.subnet_redeem_amount(e.subnet_id, e.shares)
                    &&& exists|x: int| 0 <= x < it.index() && *it.seq()[x].0 == (account_id, e.subnet_id)
                },
                forall|i: int, j: int| 0 <= i < j < out@.len() ==> (#[trigger] out@[i]).subnet_id != (#[trigger] out@[j]).subnet_id,
                forall|s: u32| #[trigger] m@.contains_key((account_id, s))
                    && !(exists|i: int| 0 <= i < out@.len() && out@[i].subnet_id == s) ==>
                    exists|x: int| it.index() <= x < it.seq().len() && *it.seq()[x].0 == (account_id, s),
        {
            let ghost idx = it.index();
            let ghost out0 = out@;
            proof {
                assert(*it.seq()[idx].0 == *k);
                assert(*it.seq()[idx].1 == *v);
            }
            if k.0 == account_id {
                let subnet_id = k.1;
                let shares = *v;
                let total_shares = map_get(&self.total_subnet_delegate_stake_shares, subnet_id, 0);
                let total_balance = map_get(&self.total_subnet_delegate_stake_balance, subnet_id, 0);
                let balance = convert_to_balance(shares, total_shares, total_balance);
                proof {
                    assert forall|i: int| 0 <= i < out@.len() implies out@[i].subnet_id != subnet_id by {
                        let e = out@[i];
                        let x = choose|x: int| 0 <= x < idx && *it.seq()[x].0 == (account_id, e.subnet_id);
                        if e.subnet_id == subnet_id {
                            assert(*it.seq()[x].1 == m@[(account_id, subnet_id)]);
                            assert(it.seq()[x] == it.seq()[idx]);
                        }
                    }
                }
                out.push(DelegateStakeInfo { subnet_id, shares, balance });
                proof {
                    let n = out@.len() - 1;
                    assert(out@[n].subnet_id == subnet_id);
                }
            }
            proof {
                assert forall|i: int| 0 <= i < out@.len() implies
                    exists|x: int| 0 <= x < idx + 1 && *it.seq()[x].0 == (account_id, (#[trigger] out@[i]).subnet_id) by {
                    if k.0 == account_id && i == out@.len() - 1 {
                        assert(*it.seq()[idx].0 == (account_id, out@[i].subnet_id));
                    } else {
                        let x = choose|x: int| 0 <= x < idx && *it.seq()[x].0 == (account_id, out@[i].subnet_id);
                    }
                }
                assert forall|s: u32| #[trigger] m@.contains_key((account_id, s))
                    && !(exists|i: int| 0 <= i < out@.len() && out@[i].subnet_id == s) implies
                    exists|x: int| idx + 1 <= x < it.seq().len() && *it.seq()[x].0 == (account_id, s) by {
                    assert forall|i: int| 0 <= i < out0.len() implies out0[i].subnet_id != s by {
                        assert(out@[i] == out0[i]);
                    }
                    assert(!(exists|i: int| 0 <= i < out0.len() && out0[i].subnet_id == s));
                    let x = choose|x: int| idx <= x < it.seq().len() && *it.seq()[x].0 == (account_id, s);
                    if x == idx {
                        assert(k.0 == account_id);
                        assert(out@[out@.len() - 1].subnet_id == s);
                    }
                }
            }
        }
        proof {
            assert forall|s: u32| #[trigger] m@.contains_key((account_id, s)) implies
                exists|i: int| 0 <= i < out@.len() && (#[trigger] out@[i]).subnet_id == s by {
                if !(exists|i: int| 0 <= i < out@.len() && out@[i].subnet_id == s) {
                    assert(m@.contains_key((account_id, s)));
                }
            }
        }
        out
    }

    /// The delegate stake of `account_id` in each subnet node where it holds
    /// shares, one entry per node, with what the shares redeem for.
    pub fn get_node_delegate_stakes(&self, account_id: u64) -> (r: Vec<NodeDelegateStakeInfo>)
        ensures
            forall|i: int| 0 <= i < r@.len() ==> {
                let e = #[trigger] r@[i];
                &&& self.account_node_delegate_stake_shares@.contains_key((account_id, e.subnet_id, e.subnet_node_id))
                &&& e.shares == self.account_node_delegate_stake_shares@[(account_id, e.subnet_id, e.subnet_node_id)]
                &&& e.balance == self.node_redeem_amount(e.subnet_id, e.subnet_node_id, e.shares)
            },
            forall|i: int, j: int| 0 <= i < j < r@.len() ==> ((#[trigger] r@[i]).subnet_id, r@[i].subnet_node_id) != ((#[trigger] r@[j]).subnet_id, r@[j].subnet_node_id),
            forall|s: u32, n: u32| #[trigger] self.account_node_delegate_stake_shares@.contains_key((account_id, s, n)) ==>
                exists|i: int| 0 <= i < r@.len() && (#[trigger] r@[i]).subnet_id == s && r@[i].subnet_node_id == n,
    {
        let m = &self.account_node_delegate_stake_shares;
        let mut out: Vec<NodeDelegateStakeInfo> = Vec::new();
        for (k, v) in it: m.iter()
            invariant
                m == &self.account_node_delegate_stake_shares,
                it.seq().no_duplicates(),
                forall|x: int| 0 <= x < it.seq().len() ==> m@.contains_key(*(#[trigger] it.seq()[x]).0)
                    && m@[*it.seq()[x].0] == *it.seq()[x].1,
                forall|i: int| 0 <= i < out@.len() ==> {
                    let e = #[trigger] out@[i];
                    &&& m@.contains_key((account_id, e.subnet_id, e.subnet_node_id))
                    &&& e.shares == m@[(account_id, e.subnet_id, e.subnet_node_id)]
                    &&& e.balance == self.node_redeem_amount(e.subnet_id, e.subnet_node_id, e.shares)
                    &&& exists|x: int| 0 <= x < it.index() && *it.seq()[x].0 == (account_id, e.subnet_id, e.subnet_node_id)
                },
                forall|i: int, j: int| 0 <= i < j < out@.len() ==> ((#[trigger] out@[i]).subnet_id, out@[i].subnet_node_id) != ((#[trigger] out@[j]).subnet_id, out@[j].subnet_node_id),
                forall|s: u32, n: u32| #[trigger] m@.contains_key((account_id, s, n))
                    && !(exists|i: int| 0 <= i < out@.len() && out@[i].subnet_id == s && out@[i].subnet_node_id == n) ==>
                    exists|x: int| it.index() <= x < it.seq().len() && *it.seq()[x].0 == (account_id, s, n),
        {
            let ghost idx = it.index();
            let ghost out0 = out@;
            proof {
                assert(*it.seq()[idx].0 == *k);
                assert(*it.seq()[idx].1 == *v);
            }
            if k.0 == account_id {
                let subnet_id = k.1;
                let subnet_node_id = k.2;
                let shares = *v;
                let total_shares = map_get(&self.total_node_delegate_stake_shares, (subnet_id, subnet_node_id), 0);
                let total_balance = map_get(&self.total_node_delegate_stake_balance, (subnet_id, subnet_node_id), 0);
                let balance = convert_to_balance(shares, total_shares, total_balance);
                proof {
                    assert forall|i: int| 0 <= i < out@.len() implies (out@[i].subnet_id, out@[i].subnet_node_id) != (subnet_id, subnet_node_id) by {
                        let e = out@[i];
                        let x = choose|x: int| 0 <= x < idx && *it.seq()[x].0 == (account_id, e.subnet_id, e.subnet_node_id);
                        if e.subnet_id == subnet_id && e.subnet_node_id == subnet_node_id {
                            assert(*it.seq()[x].1 == m@[(account_id, subnet_id, subnet_node_id)]);
                            assert(it.seq()[x] == it.seq()[idx]);
                        }
                    }
                }
                out.push(NodeDelegateStakeInfo { subnet_id, subnet_node_id, shares, balance });
                proof {
                    let n = out@.len() - 1;
                    assert(out@[n].subnet_id == subnet_id && out@[n].subnet_node_id == subnet_node_id);
                }
            }
            proof {
                assert forall|i: int| 0 <= i < out@.len() implies
                    exists|x: int| 0 <= x < idx + 1 && *it.seq()[x].0 == (account_id, (#[trigger] out@[i]).subnet_id, out@[i].subnet_node_id) by {
                    if k.0 == account_id && i == out@.len() - 1 {
                        assert(*it.seq()[idx].0 == (account_id, out@[i].subnet_id, out@[i].subnet_node_id));
                    } else {
                        let x = choose|x: int| 0 <= x < idx && *it.seq()[x].0 == (account_id, out@[i].subnet_id, out@[i].subnet_node_id);
                    }
                }
                assert forall|s: u32, n: u32| #[trigger] m@.contains_key((account_id, s, n))
                    && !(exists|i: int| 0 <= i < out@.len() && out@[i].subnet_id == s && out@[i].subnet_node_id == n) implies
                    exists|x: int| idx + 1 <= x < it.seq().len() && *it.seq()[x].0 == (account_id, s, n) by {
                    assert forall|i: int| 0 <= i < out0.len() implies !(out0[i].subnet_id == s && out0[i].subnet_node_id == n) by {
                        assert(out@[i] == out0[i]);
                    }
                    assert(!(exists|i: int| 0 <= i < out0.len() && out0[i].subnet_id == s && out0[i].subnet_node_id == n));
                    let x = choose|x: int| idx <= x < it.seq().len() && *it.seq()[x].0 == (account_id, s, n);
                    if x == idx {
                        assert(k.0 == account_id);
                        assert(out@[out@.len() - 1].subnet_id == s && out@[out@.len() - 1].subnet_node_id == n);
                    }
                }
            }
        }
        proof {
            assert forall|s: u32, n: u32| #[trigger] m@.contains_key((account_id, s, n)) implies
                exists|i: int| 0 <= i < out@.len() && (#[trigger] out@[i]).subnet_id == s && out@[i].subnet_node_id == n by {
                if !(exists|i: int| 0 <= i < out@.len() && out@[i].subnet_id == s && out@[i].subnet_node_id == n) {
                    assert(m@.contains_key((account_id, s, n)));
                }
            }
        }
        out
    }

    /// Whether the node that `peer` names in `family` for subnet `s` is active
    /// (or, when `class` is `Registered`, registered), holds `class` at `epoch` and
    /// has at least `min_stake` staked.
    pub open spec fn staked_peer(&self, family: Map<u32, NameIndex>, s: u32, peer: Seq<u8>, class: SubnetNodeClass, epoch: u32, min_stake: u128) -> bool {
        let idx = index_of(family, s);
        idx.contains_key(peer) && {
            let id = idx[peer];
            let active = flat(self.nodes.subnet_nodes_data@);
            let registered = flat(self.nodes.registered_subnet_nodes_data@);
            let node = if active.contains_key((s, id)) {
                Some(active[(s, id)])
            } else if class == SubnetNodeClass::Registered && registered.contains_key((s, id)) {
                Some(registered[(s, id)])
            } else {
                None::<SubnetNode>
            };
            node is Some && spec_has_classification(node->Some_0.classification, class, epoch)
                && get_or(self.keys.account_subnet_stake@, (node->Some_0.hotkey, s), 0u128) >= min_stake
        }
    }

    /// Whether `peer` proves stake in subnet `s` at `current_subnet_epoch`.
    pub open spec fn spec_proof_of_stake(&self, s: u32, peer: Seq<u8>, min_class: u8, min_stake: Option<u128>, epoch: u32) -> bool {
        let class = class_of_rank(min_class as nat);
        let min = match min_stake {
            Some(m) => m,
            None => get_or(self.subnet_min_stake_balance@, s, DEFAULT_SUBNET_MIN_STAKE),
        };
        &&& self.subnets_data@.contains_key(s)
        &&& min_class <= 3
        &&& {
            ||| self.staked_peer(self.nodes.peer_id_subnet_node_id@, s, peer, class, epoch, min)
            ||| self.staked_peer(self.nodes.bootnode_peer_id_subnet_node_id@, s, peer, class, epoch, min)
            ||| self.staked_peer(self.nodes.client_peer_id_subnet_node_id@, s, peer, class, epoch, min)
            ||| index_of(self.ow.peer_id_overwatch_node_id@, s).contains_key(peer)
            ||| (self.meta.subnet_bootnodes@.contains_key(s)
                && exists|i: int| 0 <= i < self.meta.subnet_bootnodes@[s]@.len() && (#[trigger] self.meta.subnet_bootnodes@[s]@[i])@ == peer)
        }
    }

    fn check_peer_mapping(
        &self,
        family: &BTreeMap<u32, NameIndex>,
        subnet_id: u32,
        peer_id: &Vec<u8>,
        class: SubnetNodeClass,
        epoch: u32,
        min_stake: u128,
    ) -> (r: bool)
        requires
            family_distinct(family@),
        ensures
            r == self.staked_peer(family@, subnet_id, peer_id@, class, epoch, min_stake),
    {
        let id = match index_get(family, subnet_id, peer_id) {
            Some(i) => i,
            None => return false,
        };
        let active: Option<&SubnetNode> = match self.nodes.subnet_nodes_data.get(&subnet_id) {
            Some(m) => m.get(&id),
            None => None,
        };
        let node: Option<&SubnetNode> = match active {
            Some(n) => Some(n),
            None => {
                if class == SubnetNodeClass::Registered {
                    match self.nodes.registered_subnet_nodes_data.get(&subnet_id) {
                        Some(m) => m.get(&id),
                        None => None,
                    }
                } else {
                    None
                }
            },
        };
        match node {
            Some(n) => n.has_classification(&class, epoch)
                && map_get(&self.keys.account_subnet_stake, (n.hotkey, subnet_id), 0) >= min_stake,
            None => false,
        }
    }

    /// Whether `peer_id` proves stake in subnet `subnet_id`: it is the peer,
    /// bootnode peer or client peer of a node of class at least `min_class` at
    /// `current_subnet_epoch` with at least `min_stake` (default: the subnet's
    /// minimum) staked, the peer of an overwatch node, or a subnet bootnode.
    pub fn proof_of_stake(
        &self,
        subnet_id: u32,
        peer_id: &Vec<u8>,
        min_class: u8,
        min_stake: Option<u128>,
        current_subnet_epoch: u32,
    ) -> (r: bool)
        requires
            self.wf(),
        ensures
            r == self.spec_proof_of_stake(subnet_id, peer_id@, min_class, min_stake, current_subnet_epoch),
    {
        if !self.subnets_data.contains_key(&subnet_id) {
            return false;
        }
        let class = match SubnetNodeClass::from_repr(min_class) {
            Some(c) => c,
            None => return false,
        };
        let min = match min_stake {
            Some(m) => m,
            None => map_get(&self.subnet_min_stake_balance, subnet_id, DEFAULT_SUBNET_MIN_STAKE),
        };
        if self.check_peer_mapping(&self.nodes.peer_id_subnet_node_id, subnet_id, peer_id, class, current_subnet_epoch, min)
            || self.check_peer_mapping(&self.nodes.bootnode_peer_id_subnet_node_id, subnet_id, peer_id, class, current_subnet_epoch, min)
            || self.check_peer_mapping(&self.nodes.client_peer_id_subnet_node_id, subnet_id, peer_id, class, current_subnet_epoch, min) {
            return true;
        }
        let ow = match self.ow.peer_id_overwatch_node_id.get(&subnet_id) {
            Some(i) => i.contains_key(peer_id),
            None => false,
        };
        if ow {
            return true;
        }
        match self.meta.subnet_bootnodes.get(&subnet_id) {
            Some(list) => {
                let mut i: usize = 0;
                while i < list.len()
                    invariant
                        self.subnets_data@.contains_key(subnet_id),
                        min_class <= 3,
                        self.meta.subnet_bootnodes@.contains_key(subnet_id),
                        list == &self.meta.subnet_bootnodes@[subnet_id],
                        i <= list@.len(),
                        forall|j: int| 0 <= j < i ==> (#[trigger] list@[j])@ != peer_id@,
                    decreases list@.len() - i,
                {
                    if bytes_eq(&list[i], peer_id) {
                        proof {
                            assert((self.meta.subnet_bootnodes@[subnet_id]@[i as int])@ == peer_id@);
                        }
                        return true;
                    }
                    i = i + 1;
                }
                false
            },
            None => false,
        }
    }

    /// Whether `i` describes subnet `s` as stored.
    pub open spec fn subnet_info_matches(&self, s: u32, i: SubnetInfo) -> bool {
        let d = self.subnets_data@[s];
        let m = self.meta;
        &&& i.id == d.id
        &&& i.friendly_id == if m.subnet_id_friendly_uid@.contains_key(s) { Some(m.subnet_id_friendly_uid@[s]) } else { None::<u32> }
        &&& i.name@ == d.name@
        &&& i.repo@ == d.repo@
        &&& i.description@ == d.description@
        &&& i.misc@ == d.misc@
        &&& i.state == d.state
        &&& i.start_epoch == d.start_epoch
        &&& i.min_stake == get_or(self.subnet_min_stake_balance@, s, DEFAULT_SUBNET_MIN_STAKE)
        &&& i.max_stake == get_or(self.subnet_max_stake_balance@, s, DEFAULT_SUBNET_MAX_STAKE)
        &&& i.delegate_stake_percentage == get_or(m.subnet_delegate_stake_rewards_percentage@, s, 100_000_000_000_000_000u128)
        &&& i.last_delegate_stake_rewards_update == get_or(m.last_subnet_delegate_stake_rewards_update@, s, 0u32)
        &&& (i.initial_coldkeys is Some) == m.subnet_registration_initial_coldkeys@.contains_key(s)
        &&& i.initial_coldkeys is Some ==> i.initial_coldkeys->Some_0@ == m.subnet_registration_initial_coldkeys@[s]@
        &&& (i.initial_coldkey_data is Some) == m.initial_coldkey_data@.contains_key(s)
        &&& i.initial_coldkey_data is Some ==> i.initial_coldkey_data->Some_0@ == m.initial_coldkey_data@[s]@
        &&& i.max_registered_nodes == get_or(m.max_registered_nodes@, s, 64u32)
        &&& i.owner == if m.subnet_owner@.contains_key(s) { Some(m.subnet_owner@[s]) } else { None::<u64> }
        &&& i.pending_owner == if m.pending_subnet_owner@.contains_key(s) { Some(m.pending_subnet_owner@[s]) } else { None::<u64> }
        &&& i.registration_epoch == if m.subnet_registration_epoch@.contains_key(s) { Some(m.subnet_registration_epoch@[s]) } else { None::<u32> }
        &&& i.prev_pause_epoch == get_or(m.previous_subnet_pause_epoch@, s, 0u32)
        &&& i.key_types@ == if m.subnet_key_types@.contains_key(s) { m.subnet_key_types@[s]@ } else { Seq::<KeyType>::empty() }
        &&& bytes_list_view(i.bootnodes@) == if m.subnet_bootnodes@.contains_key(s) {
            bytes_list_view(m.subnet_bootnodes@[s]@)
        } else {
            Seq::<Seq<u8>>::empty()
        }
        &&& i.total_nodes == get_or(self.nodes.total_subnet_nodes@, s, 0u32)
        &&& i.total_active_nodes == get_or(self.nodes.total_active_subnet_nodes@, s, 0u32)
        &&& i.total_electable_nodes == get_or(self.nodes.total_subnet_electable_nodes@, s, 0u32)
        &&& i.total_subnet_stake == get_or(self.total_subnet_stake@, s, 0u128)
        &&& i.total_subnet_delegate_stake_shares == get_or(self.total_subnet_delegate_stake_shares@, s, 0u128)
        &&& i.total_subnet_delegate_stake_balance == get_or(self.total_subnet_delegate_stake_balance@, s, 0u128)
    }

    /// What is stored of subnet `subnet_id`, or `None` when it does not exist.
    pub fn get_subnet_info(&self, subnet_id: u32) -> (r: Option<SubnetInfo>)
        ensures
            (r is Some) == self.subnets_data@.contains_key(subnet_id),
            r is Some ==> self.subnet_info_matches(subnet_id, r->Some_0),
    {
        let s = subnet_id;
        let d = match self.subnets_data.get(&s) {
            Some(d) => d,
            None => return None,
        };
        let m = &self.meta;
        let initial_coldkeys = match m.subnet_registration_initial_coldkeys.get(&s) {
            Some(c) => Some(c.clone()),
            None => None,
        };
        let initial_coldkey_data = match m.initial_coldkey_data.get(&s) {
            Some(c) => Some(c.clone()),
            None => None,
        };
        Some(SubnetInfo {
            id: d.id,
            friendly_id: match m.subnet_id_friendly_uid.get(&s) {
                Some(f) => Some(*f),
                None => None,
            },
            name: clone_bytes(&d.name),
            repo: clone_bytes(&d.repo),
            description: clone_bytes(&d.description),
            misc: clone_bytes(&d.misc),
            state: d.state,
            start_epoch: d.start_epoch,
            min_stake: map_get(&self.subnet_min_stake_balance, s, DEFAULT_SUBNET_MIN_STAKE),
            max_stake: map_get(&self.subnet_max_stake_balance, s, DEFAULT_SUBNET_MAX_STAKE),
            delegate_stake_percentage: map_get(&m.subnet_delegate_stake_rewards_percentage, s, 100_000_000_000_000_000),
            last_delegate_stake_rewards_update: map_get(&m.last_subnet_delegate_stake_rewards_update, s, 0),
            initial_coldkeys,
            initial_coldkey_data,
            max_registered_nodes: map_get(&m.max_registered_nodes, s, 64),
            owner: match m.subnet_owner.get(&s) {
                Some(o) => Some(*o),
                None => None,
            },
            pending_owner: match m.pending_subnet_owner.get(&s) {
                Some(o) => Some(*o),
                None => None,
            },
            registration_epoch: match m.subnet_registration_epoch.get(&s) {
                Some(e) => Some(*e),
                None => None,
            },
            prev_pause_epoch: map_get(&m.previous_subnet_pause_epoch, s, 0),
            key_types: match m.subnet_key_types.get(&s) {
                Some(k) => copy_key_types(k),
                None => Vec::new(),
            },
            bootnodes: match m.subnet_bootnodes.get(&s) {
                Some(b) => copy_bytes_list(b),
                None => {
                    let e: Vec<Vec<u8>> = Vec::new();
                    proof {
                        assert(bytes_list_view(e@) =~= Seq::<Seq<u8>>::empty());
                    }
                    e
                },
            },
            total_nodes: map_get(&self.nodes.total_subnet_nodes, s, 0),
            total_active_nodes: map_get(&self.nodes.total_active_subnet_nodes, s, 0),
            total_electable_nodes: map_get(&self.nodes.total_subnet_electable_nodes, s, 0),
            total_subnet_stake: map_get(&self.total_subnet_stake, s, 0),
            total_subnet_delegate_stake_shares: map_get(&self.total_subnet_delegate_stake_shares, s, 0),
            total_subnet_delegate_stake_balance: map_get(&self.total_subnet_delegate_stake_balance, s, 0),
        })
    }

    /// The record of node `n` of subnet `s`: the active one, else the
    /// registered one.
    pub open spec fn node_record(&self, s: u32, n: u32) -> Option<SubnetNode> {
        let active = flat(self.nodes.subnet_nodes_data@);
        let registered = flat(self.nodes.registered_subnet_nodes_data@);
        if active.contains_key((s, n)) {
            Some(active[(s, n)])
        } else if registered.contains_key((s, n)) {
            Some(registered[(s, n)])
        } else {
            None
        }
    }

    /// Whether `i` describes node `n` of subnet `s` as stored.
    pub open spec fn node_info_matches(&self, s: u32, n: u32, i: SubnetNodeInfo) -> bool {
        let node = self.node_record(s, n)->Some_0;
        let coldkey = get_or(self.keys.hotkey_owner@, node.hotkey, 0u64);
        let slot = flat(self.nodes.node_slot_index@);
        &&& i.subnet_id == s
        &&& i.subnet_node_id == n
        &&& i.coldkey == coldkey
        &&& i.hotkey == node.hotkey
        &&& i.peer_id@ == node.peer_id@
        &&& i.bootnode_peer_id@ == node.bootnode_peer_id@
        &&& i.client_peer_id@ == node.client_peer_id@
        &&& opt_view(i.bootnode) == opt_view(node.bootnode)
        &&& i.classification == node.classification
        &&& i.delegate_reward_rate == node.delegate_reward_rate
        &&& i.last_delegate_reward_rate_update == node.last_delegate_reward_rate_update
        &&& opt_view(i.unique) == opt_view(node.unique)
        &&& opt_view(i.non_unique) == opt_view(node.non_unique)
        &&& i.stake_balance == get_or(self.keys.account_subnet_stake@, (node.hotkey, s), 0u128)
        &&& i.total_node_delegate_stake_shares == get_or(self.total_node_delegate_stake_shares@, (s, n), 0u128)
        &&& i.node_delegate_stake_balance == get_or(self.total_node_delegate_stake_balance@, (s, n), 0u128)
        &&& i.coldkey_reputation == get_or(self.keys.coldkey_reputation@, coldkey, spec_default_reputation())
        &&& i.subnet_node_reputation == get_or(self.subnet_node_reputation@, (s, n), PERCENTAGE_FACTOR)
        &&& i.node_slot_index == if slot.contains_key((s, n)) { Some(slot[(s, n)]) } else { None::<u32> }
        &&& i.consecutive_included_epochs == get_or(flat(self.nodes.subnet_node_consecutive_included_epochs@), (s, n), 0u32)
    }

    /// What is stored of node `subnet_node_id` of subnet `subnet_id` (active or
    /// registered), or `None` when there is no such node.
    pub fn get_subnet_node_info(&self, subnet_id: u32, subnet_node_id: u32) -> (r: Option<SubnetNodeInfo>)
        ensures
            (r is Some) == (self.node_record(subnet_id, subnet_node_id) is Some),
            r is Some ==> self.node_info_matches(subnet_id, subnet_node_id, r->Some_0),
    {
        let s = subnet_id;
        let n = subnet_node_id;
        let active: Option<&SubnetNode> = match self.nodes.subnet_nodes_data.get(&s) {
            Some(m) => m.get(&n),
            None => None,
        };
        let node: &SubnetNode = match active {
            Some(x) => x,
            None => match self.nodes.registered_subnet_nodes_data.get(&s) {
                Some(m) => match m.get(&n) {
                    Some(x) => x,
                    None => return None,
                },
                None => return None,
            },
        };
        let coldkey = map_get(&self.keys.hotkey_owner, node.hotkey, 0);
        let rep = match self.keys.coldkey_reputation.get(&coldkey) {
            Some(r) => *r,
            None => DefaultColdkeyReputation(),
        };
        Some(SubnetNodeInfo {
            subnet_id: s,
            subnet_node_id: n,
            coldkey,
            hotkey: node.hotkey,
            peer_id: clone_bytes(&node.peer_id),
            bootnode_peer_id: clone_bytes(&node.bootnode_peer_id),
            client_peer_id: clone_bytes(&node.client_peer_id),
            bootnode: clone_opt_bytes(&node.bootnode),
            classification: node.classification,
            delegate_reward_rate: node.delegate_reward_rate,
            last_delegate_reward_rate_update: node.last_delegate_reward_rate_update,
            unique: clone_opt_bytes(&node.unique),
            non_unique: clone_opt_bytes(&node.non_unique),
            stake_balance: map_get(&self.keys.account_subnet_stake, (node.hotkey, s), 0),
            total_node_delegate_stake_shares: map_get(&self.total_node_delegate_stake_shares, (s, n), 0),
            node_delegate_stake_balance: map_get(&self.total_node_delegate_stake_balance, (s, n), 0),
            coldkey_reputation: rep,
            subnet_node_reputation: map_get(&self.subnet_node_reputation, (s, n), PERCENTAGE_FACTOR),
            node_slot_index: nested_get(&self.nodes.node_slot_index, s, n),
            consecutive_included_epochs: match nested_get(&self.nodes.subnet_node_consecutive_included_epochs, s, n) {
                Some(c) => c,
                None => 0,
            },
        })
    }

    /// The node elected validator of subnet `subnet_id` at `subnet_epoch`, if any.
    pub fn get_elected_validator_info(&self, subnet_id: u32, subnet_epoch: u32) -> (r: Option<SubnetNodeInfo>)
        ensures
            ({
                let elected = flat(self.nodes.subnet_elected_validator@);
                if elected.contains_key((subnet_id, subnet_epoch)) {
                    let n = elected[(subnet_id, subnet_epoch)];
                    &&& (r is Some) == (self.node_record(subnet_id, n) is Some)
                    &&& r is Some ==> self.node_info_matches(subnet_id, n, r->Some_0)
                } else {
                    r is None
                }
            }),
    {
        match nested_get(&self.nodes.subnet_elected_validator, subnet_id, subnet_epoch) {
            Some(n) => self.get_subnet_node_info(subnet_id, n),
            None => None,
        }
    }

    /// The nodes a subnet's validators and attestors are drawn from: the
    /// emergency validator set while there is one, else the election slots.
    pub open spec fn election_listing(&self, s: u32) -> Seq<u32> {
        let emergency = self.nodes.emergency_subnet_node_election@;
        let slots = self.nodes.subnet_node_election_slots@;
        if emergency.contains_key(s) {
            emergency[s]@
        } else if slots.contains_key(s) {
            slots[s]@
        } else {
            Seq::empty()
        }
    }

    /// The nodes of `ids` that have a record in subnet `s`, in order.
    pub open spec fn recorded_nodes(&self, s: u32, ids: Seq<u32>) -> Seq<u32> {
        ids.filter(|n: u32| self.node_record(s, n) is Some)
    }

    /// Node infos of the nodes `ids` of subnet `s` that have a record, in order.
    fn infos_of_nodes(&self, s: u32, ids: &Vec<u32>) -> (r: Vec<SubnetNodeInfo>)
        ensures
            r@.len() == self.recorded_nodes(s, ids@).len(),
            forall|i: int| 0 <= i < r@.len() ==> self.node_info_matches(s, self.recorded_nodes(s, ids@)[i], #[trigger] r@[i]),
    {
        let mut out: Vec<SubnetNodeInfo> = Vec::new();
        let ghost pred = |n: u32| self.node_record(s, n) is Some;
        proof {
            reveal(Seq::filter);
            assert(ids@.take(0) =~= Seq::<u32>::empty());
        }
        for i in 0..ids.len()
            invariant
                pred == (|n: u32| self.node_record(s, n) is Some),
                out@.len() == ids@.take(i as int).filter(pred).len(),
                forall|j: int| 0 <= j < out@.len() ==> self.node_info_matches(s, ids@.take(i as int).filter(pred)[j], #[trigger] out@[j]),
        {
            proof {
                reveal(Seq::filter);
                assert(ids@.take(i + 1).drop_last() =~= ids@.take(i as int));
                assert(ids@.take(i + 1).last() == ids@[i as int]);
            }
            match self.get_subnet_node_info(s, ids[i]) {
                Some(info) => {
                    out.push(info);
                },
                None => {},
            }
        }
        proof {
            assert(ids@.take(ids@.len() as int) =~= ids@);
        }
        out
    }

    /// Info of each node among subnet `subnet_id`'s current validator and
    /// attestor candidates (see `election_listing`) that has a record, in order.
    pub fn get_validators_and_attestors(&self, subnet_id: u32) -> (r: Vec<SubnetNodeInfo>)
        ensures
            r@.len() == self.recorded_nodes(subnet_id, self.election_listing(subnet_id)).len(),
            forall|i: int| 0 <= i < r@.len() ==>
                self.node_info_matches(subnet_id, self.recorded_nodes(subnet_id, self.election_listing(subnet_id))[i], #[trigger] r@[i]),
    {
        match self.nodes.emergency_subnet_node_election.get(&subnet_id) {
            Some(ids) => self.infos_of_nodes(subnet_id, ids),
            None => match self.nodes.subnet_node_election_slots.get(&subnet_id) {
                Some(ids) => self.infos_of_nodes(subnet_id, ids),
                None => {
                    proof {
                        reveal(Seq::filter);
                        assert(self.recorded_nodes(subnet_id, Seq::<u32>::empty()) =~= Seq::<u32>::empty());
                    }
                    Vec::new()
                },
            },
        }
    }

    /// Whether `r` lists the subnets `ids`, one info each, in order.
    pub open spec fn lists_subnets(&self, ids: Seq<u32>, r: Seq<SubnetInfo>) -> bool {
        &&& r.len() == ids.len()
        &&& forall|i: int| 0 <= i < r.len() ==> self.subnet_info_matches(#[trigger] ids[i], r[i])
    }

    /// The info of every subnet, each subnet once.
    pub fn get_all_subnets_info(&self) -> (r: Vec<SubnetInfo>)
        ensures
            exists|ids: Seq<u32>| {
                &&& ids.no_duplicates()
                &&& #[trigger] ids.to_set() == self.subnets_data@.dom()
                &&& self.lists_subnets(ids, r@)
            },
    {
        let m = &self.subnets_data;
        let mut out: Vec<SubnetInfo> = Vec::new();
        let ghost mut ids: Seq<u32> = Seq::empty();
        for (k, v) in it: m.iter()
            invariant
                m == &self.subnets_data,
                it.seq().no_duplicates(),
                forall|x: int| 0 <= x < it.seq().len() ==> m@.contains_key(*(#[trigger] it.seq()[x]).0)
                    && m@[*it.seq()[x].0] == *it.seq()[x].1,
                ids.len() == it.index(),
                forall|x: int| 0 <= x < ids.len() ==> #[trigger] ids[x] == *it.seq()[x].0,
                self.lists_subnets(ids, out@),
                ids.no_duplicates(),
                forall|s: u32| #[trigger] m@.contains_key(s) && !ids.contains(s) ==>
                    exists|x: int| it.index() <= x < it.seq().len() && *it.seq()[x].0 == s,
        {
            let ghost idx = it.index();
            let ghost ids0 = ids;
            proof {
                assert(*it.seq()[idx].0 == *k);
                assert(*it.seq()[idx].1 == *v);
            }
            let info = self.get_subnet_info(*k);
            match info {
                Some(i) => {
                    out.push(i);
                },
                None => {},
            }
            proof {
                assert(!ids0.contains(*k)) by {
                    if ids0.contains(*k) {
                        let y = choose|y: int| 0 <= y < ids0.len() && ids0[y] == *k;
                        assert(*it.seq()[y].0 == *it.seq()[idx].0);
                        assert(it.seq()[y] == it.seq()[idx]);
                    }
                }
                ids = ids.push(*k);
                assert forall|s: u32| #[trigger] m@.contains_key(s) && !ids.contains(s) implies
                    exists|x: int| idx + 1 <= x < it.seq().len() && *it.seq()[x].0 == s by {
                    if ids0.contains(s) {
                        let y = choose|y: int| 0 <= y < ids0.len() && ids0[y] == s;
                        assert(ids[y] == s);
                    }
                    let x = choose|x: int| idx <= x < it.seq().len() && *it.seq()[x].0 == s;
                    if x == idx {
                        assert(ids[ids.len() - 1] == s);
                    }
                }
            }
        }
        proof {
            assert(ids.to_set() =~= m@.dom()) by {
                assert forall|s: u32| m@.contains_key(s) implies ids.to_set().contains(s) by {
                    if !ids.contains(s) {
                        assert(m@.contains_key(s));
                    }
                }
            }
        }
        out
    }

    /// Hotkey -> node id of the nodes of subnet `s`.
    pub open spec fn hotkey_nodes(&self, s: u32) -> Map<u64, u32> {
        let m = self.nodes.hotkey_subnet_node_id@;
        if m.contains_key(s) { m[s]@ } else { Map::empty() }
    }

    /// Hotkeys of `hotkeys` (hotkey -> node id of subnet `s`) whose node has a record.
    pub open spec fn recorded_hotkeys(&self, s: u32, hotkeys: Map<u64, u32>) -> Set<u64> {
        Set::new(|h: u64| hotkeys.contains_key(h) && self.node_record(s, hotkeys[h]) is Some)
    }

    /// Whether `r` lists the nodes of subnet `s` under the hotkeys `hs`
    /// (through `hotkeys`), one info each, in order.
    pub open spec fn lists_hotkey_nodes(&self, s: u32, hotkeys: Map<u64, u32>, hs: Seq<u64>, r: Seq<SubnetNodeInfo>) -> bool {
        &&& r.len() == hs.len()
        &&& forall|i: int| 0 <= i < r.len() ==> self.node_info_matches(s, hotkeys[#[trigger] hs[i]], r[i])
    }

    /// Node infos of the nodes under `hotkeys` (hotkey -> node id of subnet `s`)
    /// that have a record, one per hotkey.
    fn infos_of_hotkey_nodes(&self, s: u32, hotkeys: &BTreeMap<u64, u32>) -> (r: Vec<SubnetNodeInfo>)
        ensures
            exists|hs: Seq<u64>| {
                &&& hs.no_duplicates()
                &&& #[trigger] hs.to_set() == self.recorded_hotkeys(s, hotkeys@)
                &&& self.lists_hotkey_nodes(s, hotkeys@, hs, r@)
            },
    {
        let m = hotkeys;
        let mut out: Vec<SubnetNodeInfo> = Vec::new();
        let ghost mut hs: Seq<u64> = Seq::empty();
        for (k, v) in it: m.iter()
            invariant
                it.seq().no_duplicates(),
                forall|x: int| 0 <= x < it.seq().len() ==> m@.contains_key(*(#[trigger] it.seq()[x]).0)
                    && m@[*it.seq()[x].0] == *it.seq()[x].1,
                forall|x: int| it.index() <= x < it.seq().len() ==> !hs.contains(*(#[trigger] it.seq()[x]).0),
                forall|i: int| 0 <= i < hs.len() ==> self.recorded_hotkeys(s, m@).contains(#[trigger] hs[i]),
                self.lists_hotkey_nodes(s, m@, hs, out@),
                hs.no_duplicates(),
                forall|h: u64| #[trigger] self.recorded_hotkeys(s, m@).contains(h) && !hs.contains(h) ==>
                    exists|x: int| it.index() <= x < it.seq().len() && *it.seq()[x].0 == h,
        {
            let ghost idx = it.index();
            let ghost hs0 = hs;
            proof {
                assert(*it.seq()[idx].0 == *k);
                assert(*it.seq()[idx].1 == *v);
            }
            match self.get_subnet_node_info(s, *v) {
                Some(info) => {
                    out.push(info);
                    proof {
                        assert(!hs0.contains(*it.seq()[idx].0));
                        hs = hs.push(*k);
                        assert(self.recorded_hotkeys(s, m@).contains(*k));
                    }
                },
                None => {},
            }
            proof {
                assert forall|x: int| idx + 1 <= x < it.seq().len() implies !hs.contains(*(#[trigger] it.seq()[x]).0) by {
                    assert(!hs0.contains(*it.seq()[x].0));
                    if *it.seq()[x].0 == *k {
                        assert(it.seq()[x] == it.seq()[idx]);
                    }
                    if hs.contains(*it.seq()[x].0) {
                        let y = choose|y: int| 0 <= y < hs.len() && hs[y] == *it.seq()[x].0;
                        if y < hs0.len() {
                            assert(hs0[y] == hs[y]);
                        }
                    }
                }
                assert forall|h: u64| #[trigger] self.recorded_hotkeys(s, m@).contains(h) && !hs.contains(h) implies
                    exists|x: int| idx + 1 <= x < it.seq().len() && *it.seq()[x].0 == h by {
                    if hs0.contains(h) {
                        let y = choose|y: int| 0 <= y < hs0.len() && hs0[y] == h;
                        assert(hs[y] == h);
                    }
                    let x = choose|x: int| idx <= x < it.seq().len() && *it.seq()[x].0 == h;
                    if x == idx {
                        assert(hs[hs.len() - 1] == h);
                    }
                }
            }
        }
        proof {
            assert(hs.to_set() =~= self.recorded_hotkeys(s, m@)) by {
                assert forall|h: u64| self.recorded_hotkeys(s, m@).contains(h) implies hs.to_set().contains(h) by {
                    if !hs.contains(h) {
                        assert(self.recorded_hotkeys(s, m@).contains(h));
                    }
                }
            }
        }
        out
    }

    /// The info of every node of subnet `subnet_id` that has a record, one per
    /// node hotkey of the subnet.
    pub fn get_subnet_nodes_info(&self, subnet_id: u32) -> (r: Vec<SubnetNodeInfo>)
        ensures
            exists|hs: Seq<u64>| {
                &&& hs.no_duplicates()
                &&& #[trigger] hs.to_set() == self.recorded_hotkeys(subnet_id, self.hotkey_nodes(subnet_id))
                &&& self.lists_hotkey_nodes(subnet_id, self.hotkey_nodes(subnet_id), hs, r@)
            },
    {
        match self.nodes.hotkey_subnet_node_id.get(&subnet_id) {
            Some(hotkeys) => self.infos_of_hotkey_nodes(subnet_id, hotkeys),
            None => {
                proof {
                    let hs = Seq::<u64>::empty();
                    assert(hs.to_set() =~= self.recorded_hotkeys(subnet_id, self.hotkey_nodes(subnet_id)));
                    assert(self.lists_hotkey_nodes(subnet_id, self.hotkey_nodes(subnet_id), hs, Seq::<SubnetNodeInfo>::empty()));
                }
                Vec::new()
            },
        }
    }

    /// (subnet, hotkey) of every node with a record under a node hotkey of an
    /// existing subnet.
    pub open spec fn recorded_network_nodes(&self) -> Set<(u32, u64)> {
        Set::new(|p: (u32, u64)|
            self.subnets_data@.contains_key(p.0) && self.recorded_hotkeys(p.0, self.hotkey_nodes(p.0)).contains(p.1))
    }

    /// Whether `r` lists the nodes under the (subnet, hotkey) pairs `ps`, one
    /// info each, in order.
    pub open spec fn lists_network_nodes(&self, ps: Seq<(u32, u64)>, r: Seq<SubnetNodeInfo>) -> bool {
        &&& r.len() == ps.len()
        &&& forall|i: int| 0 <= i < r.len() ==>
            self.node_info_matches(ps[i].0, self.hotkey_nodes(ps[i].0)[(#[trigger] ps[i]).1], r[i])
    }

    /// The info of every node of every subnet that has a record, one per node
    /// hotkey.
    pub fn get_all_subnet_nodes_info(&self) -> (r: Vec<SubnetNodeInfo>)
        ensures
            exists|ps: Seq<(u32, u64)>| {
                &&& ps.no_duplicates()
                &&& #[trigger] ps.to_set() == self.recorded_network_nodes()
                &&& self.lists_network_nodes(ps, r@)
            },
    {
        let m = &self.subnets_data;
        let mut out: Vec<SubnetNodeInfo> = Vec::new();
        let ghost mut ps: Seq<(u32, u64)> = Seq::empty();
        let ghost target = self.recorded_network_nodes();
        for (k, v) in it: m.iter()
            invariant
                m == &self.subnets_data,
                target == self.recorded_network_nodes(),
                it.seq().no_duplicates(),
                forall|x: int| 0 <= x < it.seq().len() ==> m@.contains_key(*(#[trigger] it.seq()[x]).0)
                    && m@[*it.seq()[x].0] == *it.seq()[x].1,
                self.lists_network_nodes(ps, out@),
                ps.no_duplicates(),
                forall|i: int| 0 <= i < ps.len() ==> target.contains(#[trigger] ps[i]),
                forall|x: int, i: int| it.index() <= x < it.seq().len() && 0 <= i < ps.len() ==>
                    (#[trigger] ps[i]).0 != *(#[trigger] it.seq()[x]).0,
                forall|p: (u32, u64)| #[trigger] target.contains(p) && !ps.contains(p) ==>
                    exists|x: int| it.index() <= x < it.seq().len() && *it.seq()[x].0 == p.0,
        {
            let ghost idx = it.index();
            let ghost ps0 = ps;
            let ghost out0 = out@;
            let s: u32 = *k;
            proof {
                assert(*it.seq()[idx].0 == *k);
                assert(*it.seq()[idx].1 == *v);
            }
            let mut infos = self.get_subnet_nodes_info(s);
            let ghost hs = choose|hs: Seq<u64>| {
                &&& hs.no_duplicates()
                &&& #[trigger] hs.to_set() == self.recorded_hotkeys(s, self.hotkey_nodes(s))
                &&& self.lists_hotkey_nodes(s, self.hotkey_nodes(s), hs, infos@)
            };
            let ghost added = hs.map_values(|h: u64| (s, h));
            out.append(&mut infos);
            proof {
                ps = ps0 + added;
                assert forall|i: int| 0 <= i < out@.len() implies
                    self.node_info_matches(ps[i].0, self.hotkey_nodes(ps[i].0)[(#[trigger] ps[i]).1], out@[i]) by {
                    if i >= ps0.len() {
                        let j = i - ps0.len();
                        assert(ps[i] == added[j]);
                        assert(hs[j] == added[j].1);
                    } else {
                        assert(ps[i] == ps0[i]);
                        assert(out@[i] == out0[i]);
                    }
                }
                assert forall|i: int, j: int| 0 <= i < j < ps.len() implies ps[i] != ps[j] by {
                    if j >= ps0.len() && i < ps0.len() {
                        assert(ps0[i].0 != *it.seq()[idx].0);
                        assert(ps[j] == added[j - ps0.len()]);
                    } else if i >= ps0.len() {
                        assert(ps[i] == added[i - ps0.len()]);
                        assert(ps[j] == added[j - ps0.len()]);
                    } else {
                        assert(ps[i] == ps0[i] && ps[j] == ps0[j]);
                    }
                }
                assert forall|i: int| 0 <= i < ps.len() implies target.contains(#[trigger] ps[i]) by {
                    if i >= ps0.len() {
                        let j = i - ps0.len();
                        assert(ps[i] == added[j]);
                        assert(hs.to_set().contains(hs[j]));
                    } else {
                        assert(ps[i] == ps0[i]);
                    }
                }
                assert forall|x: int, i: int| idx + 1 <= x < it.seq().len() && 0 <= i < ps.len() implies
                    (#[trigger] ps[i]).0 != *(#[trigger] it.seq()[x]).0 by {
                    if *it.seq()[x].0 == s {
                        assert(it.seq()[x] == it.seq()[idx]);
                    }
                    if i >= ps0.len() {
                        assert(ps[i] == added[i - ps0.len()]);
                    } else {
                        assert(ps[i] == ps0[i]);
                    }
                }
                assert forall|p: (u32, u64)| #[trigger] target.contains(p) && !ps.contains(p) implies
                    exists|x: int| idx + 1 <= x < it.seq().len() && *it.seq()[x].0 == p.0 by {
                    if ps0.contains(p) {
                        let y = choose|y: int| 0 <= y < ps0.len() && ps0[y] == p;
                        assert(ps[y] == p);
                    }
                    if p.0 == s {
                        assert(hs.to_set().contains(p.1));
                        let y = choose|y: int| 0 <= y < hs.len() && hs[y] == p.1;
                        assert(ps[ps0.len() + y] == added[y]);
                    }
                    let x = choose|x: int| idx <= x < it.seq().len() && *it.seq()[x].0 == p.0;
                }
            }
        }
        proof {
            assert(ps.to_set() =~= target) by {
                assert forall|p: (u32, u64)| target.contains(p) implies ps.to_set().contains(p) by {
                    if !ps.contains(p) {
                        assert(target.contains(p));
                    }
                }
            }
        }
        out
    }

    /// (subnet, node id) of the node with a record that hotkey `h` runs, if any.
    pub open spec fn hotkey_node(&self, h: u64) -> Option<(u32, u32)> {
        let subnet_of = self.keys.hotkey_subnet_id@;
        if subnet_of.contains_key(h) {
            let s = subnet_of[h];
            let nodes = self.hotkey_nodes(s);
            if nodes.contains_key(h) && self.node_record(s, nodes[h]) is Some {
                Some((s, nodes[h]))
            } else {
                None
            }
        } else {
            None
        }
    }

    /// Hotkeys of `coldkey` that run a node with a record.
    pub open spec fn coldkey_node_hotkeys(&self, coldkey: u64) -> Set<u64> {
        Set::new(|h: u64| hotkeys_of(self.keys.coldkey_hotkeys@, coldkey).contains(h) && self.hotkey_node(h) is Some)
    }

    /// Whether `r` lists the nodes run by the hotkeys `hs`, one info each, in order.
    pub open spec fn lists_hotkeys_nodes(&self, hs: Seq<u64>, r: Seq<SubnetNodeInfo>) -> bool {
        &&& r.len() == hs.len()
        &&& forall|i: int| 0 <= i < r.len() ==> {
            let p = self.hotkey_node(#[trigger] hs[i])->Some_0;
            self.node_info_matches(p.0, p.1, r[i])
        }
    }

    /// The info of every node with a record run by a hotkey of `coldkey`, one
    /// per hotkey.
    pub fn get_coldkey_subnet_nodes_info(&self, coldkey: u64) -> (r: Vec<SubnetNodeInfo>)
        ensures
            exists|hs: Seq<u64>| {
                &&& hs.no_duplicates()
                &&& #[trigger] hs.to_set() == self.coldkey_node_hotkeys(coldkey)
                &&& self.lists_hotkeys_nodes(hs, r@)
            },
    {
        let ghost target = self.coldkey_node_hotkeys(coldkey);
        let hotkeys: &BTreeSet<u64> = match self.keys.coldkey_hotkeys.get(&coldkey) {
            Some(h) => h,
            None => {
                proof {
                    let hs = Seq::<u64>::empty();
                    assert(hs.to_set() =~= target);
                    assert(self.lists_hotkeys_nodes(hs, Seq::<SubnetNodeInfo>::empty()));
                }
                return Vec::new();
            },
        };
        let mut out: Vec<SubnetNodeInfo> = Vec::new();
        let ghost mut hs: Seq<u64> = Seq::empty();
        for h in it: hotkeys.iter()
            invariant
                target == self.coldkey_node_hotkeys(coldkey),
                hotkeys@ == hotkeys_of(self.keys.coldkey_hotkeys@, coldkey),
                it.seq().no_duplicates(),
                it.seq().unref().to_set() == hotkeys@,
                forall|x: int| it.index() <= x < it.seq().len() ==> !hs.contains(*(#[trigger] it.seq()[x])),
                forall|i: int| 0 <= i < hs.len() ==> target.contains(#[trigger] hs[i]),
                self.lists_hotkeys_nodes(hs, out@),
                hs.no_duplicates(),
                forall|g: u64| #[trigger] target.contains(g) && !hs.contains(g) ==>
                    exists|x: int| it.index() <= x < it.seq().len() && *it.seq()[x] == g,
        {
            let ghost idx = it.index();
            let ghost hs0 = hs;
            let hotkey: u64 = *h;
            proof {
                assert(*it.seq()[idx] == hotkey);
                assert(it.seq().unref()[idx] == hotkey);
                assert(it.seq().unref().to_set().contains(hotkey));
            }
            let subnet: Option<u32> = match self.keys.hotkey_subnet_id.get(&hotkey) {
                Some(s) => Some(*s),
                None => None,
            };
            match subnet {
                Some(s) => {
                    let node: Option<u32> = match self.nodes.hotkey_subnet_node_id.get(&s) {
                        Some(inner) => match inner.get(&hotkey) {
                            Some(n) => Some(*n),
                            None => None,
                        },
                        None => None,
                    };
                    match node {
                        Some(n) => {
                            match self.get_subnet_node_info(s, n) {
                                Some(info) => {
                                    out.push(info);
                                    proof {
                                        assert(!hs0.contains(*it.seq()[idx]));
                                        hs = hs.push(hotkey);
                                        assert(target.contains(hotkey));
                                    }
                                },
                                None => {},
                            }
                        },
                        None => {},
                    }
                },
                None => {},
            }
            proof {
                assert(hs.len() > hs0.len() ==> hs[hs.len() - 1] == hotkey);
                assert(hs.len() == hs0.len() ==> !target.contains(hotkey));
                assert forall|x: int| idx + 1 <= x < it.seq().len() implies !hs.contains(*(#[trigger] it.seq()[x])) by {
                    assert(!hs0.contains(*it.seq()[x]));
                    if *it.seq()[x] == hotkey {
                        assert(it.seq()[x] == it.seq()[idx]);
                    }
                    if hs.contains(*it.seq()[x]) {
                        let y = choose|y: int| 0 <= y < hs.len() && hs[y] == *it.seq()[x];
                        if y < hs0.len() {
                            assert(hs0[y] == hs[y]);
                        }
                    }
                }
                assert forall|g: u64| #[trigger] target.contains(g) && !hs.contains(g) implies
                    exists|x: int| idx + 1 <= x < it.seq().len() && *it.seq()[x] == g by {
                    if hs0.contains(g) {
                        let y = choose|y: int| 0 <= y < hs0.len() && hs0[y] == g;
                        assert(hs[y] == g);
                    }
                    let x = choose|x: int| idx <= x < it.seq().len() && *it.seq()[x] == g;
                }
            }
        }
        proof {
            assert(hs.to_set() =~= target) by {
                assert forall|g: u64| target.contains(g) implies hs.to_set().contains(g) by {
                    if !hs.contains(g) {
                        assert(target.contains(g));
                    }
                }
            }
        }
        out
    }

    /// The stake entry of node `n` of subnet `s`, which has a hotkey.
    pub open spec fn node_stake_info(&self, s: u32, n: u32) -> SubnetNodeStakeInfo {
        let hotkey = flat(self.nodes.subnet_node_id_hotkey@)[(s, n)];
        SubnetNodeStakeInfo {
            subnet_id: Some(s),
            subnet_node_id: Some(n),
            hotkey: hotkey,
            balance: get_or(self.keys.account_subnet_stake@, (hotkey, s), 0u128),
        }
    }

    /// Nodes of `ids` in subnet `s` that have a hotkey.
    pub open spec fn keyed_nodes(&self, s: u32, ids: Set<u32>) -> Set<u32> {
        Set::new(|n: u32| ids.contains(n) && flat(self.nodes.subnet_node_id_hotkey@).contains_key((s, n)))
    }

    /// Stake entries of the nodes `ids` of subnet `s` that have a hotkey.
    fn node_stakes_in_subnet(&self, s: u32, ids: &BTreeSet<u32>) -> (r: Vec<SubnetNodeStakeInfo>)
        ensures
            exists|ns: Seq<u32>| {
                &&& ns.no_duplicates()
                &&& #[trigger] ns.to_set() == self.keyed_nodes(s, ids@)
                &&& r@.len() == ns.len()
                &&& forall|i: int| 0 <= i < ns.len() ==> r@[i] == self.node_stake_info(s, #[trigger] ns[i])
            },
    {
        let ghost target = self.keyed_nodes(s, ids@);
        let mut out: Vec<SubnetNodeStakeInfo> = Vec::new();
        let ghost mut ns: Seq<u32> = Seq::empty();
        for id in it: ids.iter()
            invariant
                target == self.keyed_nodes(s, ids@),
                it.seq().no_duplicates(),
                it.seq().unref().to_set() == ids@,
                forall|x: int| it.index() <= x < it.seq().len() ==> !ns.contains(*(#[trigger] it.seq()[x])),
                forall|i: int| 0 <= i < ns.len() ==> target.contains(#[trigger] ns[i]),
                out@.len() == ns.len(),
                forall|i: int| 0 <= i < ns.len() ==> out@[i] == self.node_stake_info(s, #[trigger] ns[i]),
                ns.no_duplicates(),
                forall|g: u32| #[trigger] target.contains(g) && !ns.contains(g) ==>
                    exists|x: int| it.index() <= x < it.seq().len() && *it.seq()[x] == g,
        {
            let ghost idx = it.index();
            let ghost ns0 = ns;
            let n: u32 = *id;
            proof {
                assert(*it.seq()[idx] == n);
                assert(it.seq().unref()[idx] == n);
                assert(it.seq().unref().to_set().contains(n));
            }
            match nested_get(&self.nodes.subnet_node_id_hotkey, s, n) {
                Some(hotkey) => {
                    let balance = map_get(&self.keys.account_subnet_stake, (hotkey, s), 0);
                    out.push(SubnetNodeStakeInfo {
                        subnet_id: Some(s),
                        subnet_node_id: Some(n),
                        hotkey,
                        balance,
                    });
                    proof {
                        assert(!ns0.contains(*it.seq()[idx]));
                        ns = ns.push(n);
                        assert(target.contains(n));
                    }
                },
                None => {},
            }
            proof {
                assert(ns.len() > ns0.len() ==> ns[ns.len() - 1] == n);
                assert(ns.len() == ns0.len() ==> !target.contains(n));
                assert forall|x: int| idx + 1 <= x < it.seq().len() implies !ns.contains(*(#[trigger] it.seq()[x])) by {
                    assert(!ns0.contains(*it.seq()[x]));
                    if *it.seq()[x] == n {
                        assert(it.seq()[x] == it.seq()[idx]);
                    }
                    if ns.contains(*it.seq()[x]) {
                        let y = choose|y: int| 0 <= y < ns.len() && ns[y] == *it.seq()[x];
                        if y < ns0.len() {
                            assert(ns0[y] == ns[y]);
                        }
                    }
                }
                assert forall|g: u32| #[trigger] target.contains(g) && !ns.contains(g) implies
                    exists|x: int| idx + 1 <= x < it.seq().len() && *it.seq()[x] == g by {
                    if ns0.contains(g) {
                        let y = choose|y: int| 0 <= y < ns0.len() && ns0[y] == g;
                        assert(ns[y] == g);
                    }
                    let x = choose|x: int| idx <= x < it.seq().len() && *it.seq()[x] == g;
                }
            }
        }
        proof {
            assert(ns.to_set() =~= target) by {
                assert forall|g: u32| target.contains(g) implies ns.to_set().contains(g) by {
                    if !ns.contains(g) {
                        assert(target.contains(g));
                    }
                }
            }
        }
        out
    }

    /// (subnet, node) pairs recorded as `coldkey`'s nodes that have a hotkey.
    pub open spec fn coldkey_keyed_nodes(&self, coldkey: u64) -> Set<(u32, u32)> {
        Set::new(|p: (u32, u32)|
            coldkey_nodes_of(self.keys.coldkey_subnet_nodes@, coldkey, p.0).contains(p.1)
                && flat(self.nodes.subnet_node_id_hotkey@).contains_key(p))
    }

    /// The stake of every node recorded as `coldkey`'s that has a hotkey, one
    /// entry per node.
    pub fn get_coldkey_stakes(&self, coldkey: u64) -> (r: Vec<SubnetNodeStakeInfo>)
        ensures
            exists|ps: Seq<(u32, u32)>| {
                &&& ps.no_duplicates()
                &&& #[trigger] ps.to_set() == self.coldkey_keyed_nodes(coldkey)
                &&& r@.len() == ps.len()
                &&& forall|i: int| 0 <= i < ps.len() ==> r@[i] == self.node_stake_info((#[trigger] ps[i]).0, ps[i].1)
            },
    {
        let ghost target = self.coldkey_keyed_nodes(coldkey);
        let m: &BTreeMap<u32, BTreeSet<u32>> = match self.keys.coldkey_subnet_nodes.get(&coldkey) {
            Some(m) => m,
            None => {
                proof {
                    let ps = Seq::<(u32, u32)>::empty();
                    assert(ps.to_set() =~= target);
                }
                return Vec::new();
            },
        };
        let mut out: Vec<SubnetNodeStakeInfo> = Vec::new();
        let ghost mut ps: Seq<(u32, u32)> = Seq::empty();
        for (k, v) in it: m.iter()
            invariant
                target == self.coldkey_keyed_nodes(coldkey),
                self.keys.coldkey_subnet_nodes@.contains_key(coldkey),
                m@ == self.keys.coldkey_subnet_nodes@[coldkey]@,
                it.seq().no_duplicates(),
                forall|x: int| 0 <= x < it.seq().len() ==> m@.contains_key(*(#[trigger] it.seq()[x]).0)
                    && m@[*it.seq()[x].0] == *it.seq()[x].1,
                out@.len() == ps.len(),
                forall|i: int| 0 <= i < ps.len() ==> out@[i] == self.node_stake_info((#[trigger] ps[i]).0, ps[i].1),
                ps.no_duplicates(),
                forall|i: int| 0 <= i < ps.len() ==> target.contains(#[trigger] ps[i]),
                forall|x: int, i: int| it.index() <= x < it.seq().len() && 0 <= i < ps.len() ==>
                    (#[trigger] ps[i]).0 != *(#[trigger] it.seq()[x]).0,
                forall|p: (u32, u32)| #[trigger] target.contains(p) && !ps.contains(p) ==>
                    exists|x: int| it.index() <= x < it.seq().len() && *it.seq()[x].0 == p.0,
        {
            let ghost idx = it.index();
            let ghost ps0 = ps;
            let ghost out0 = out@;
            let s: u32 = *k;
            proof {
                assert(*it.seq()[idx].0 == *k);
                assert(*it.seq()[idx].1 == *v);
                assert(coldkey_nodes_of(self.keys.coldkey_subnet_nodes@, coldkey, s) == v@);
            }
            let mut stakes = self.node_stakes_in_subnet(s, v);
            let ghost ns = choose|ns: Seq<u32>| {
                &&& ns.no_duplicates()
                &&& #[trigger] ns.to_set() == self.keyed_nodes(s, v@)
                &&& stakes@.len() == ns.len()
                &&& forall|i: int| 0 <= i < ns.len() ==> stakes@[i] == self.node_stake_info(s, #[trigger] ns[i])
            };
            let ghost added = ns.map_values(|n: u32| (s, n));
            out.append(&mut stakes);
            proof {
                ps = ps0 + added;
                assert forall|i: int| 0 <= i < ps.len() implies out@[i] == self.node_stake_info((#[trigger] ps[i]).0, ps[i].1) by {
                    if i >= ps0.len() {
                        let j = i - ps0.len();
                        assert(ps[i] == added[j]);
                    } else {
                        assert(ps[i] == ps0[i]);
                        assert(out@[i] == out0[i]);
                    }
                }
                assert forall|i: int, j: int| 0 <= i < j < ps.len() implies ps[i] != ps[j] by {
                    if j >= ps0.len() && i < ps0.len() {
                        assert(ps0[i].0 != *it.seq()[idx].0);
                        assert(ps[j] == added[j - ps0.len()]);
                    } else if i >= ps0.len() {
                        assert(ps[i] == added[i - ps0.len()]);
                        assert(ps[j] == added[j - ps0.len()]);
                    } else {
                        assert(ps[i] == ps0[i] && ps[j] == ps0[j]);
                    }
                }
                assert forall|i: int| 0 <= i < ps.len() implies target.contains(#[trigger] ps[i]) by {
                    if i >= ps0.len() {
                        let j = i - ps0.len();
                        assert(ps[i] == added[j]);
                        assert(ns.to_set().contains(ns[j]));
                    } else {
                        assert(ps[i] == ps0[i]);
                    }
                }
                assert forall|x: int, i: int| idx + 1 <= x < it.seq().len() && 0 <= i < ps.len() implies
                    (#[trigger] ps[i]).0 != *(#[trigger] it.seq()[x]).0 by {
                    if *it.seq()[x].0 == s {
                        assert(it.seq()[x] == it.seq()[idx]);
                    }
                    if i >= ps0.len() {
                        assert(ps[i] == added[i - ps0.len()]);
                    } else {
                        assert(ps[i] == ps0[i]);
                    }
                }
                assert forall|p: (u32, u32)| #[trigger] target.contains(p) && !ps.contains(p) implies
                    exists|x: int| idx + 1 <= x < it.seq().len() && *it.seq()[x].0 == p.0 by {
                    if ps0.contains(p) {
                        let y = choose|y: int| 0 <= y < ps0.len() && ps0[y] == p;
                        assert(ps[y] == p);
                    }
                    if p.0 == s {
                        assert(self.keyed_nodes(s, v@).contains(p.1));
                        assert(ns.to_set().contains(p.1));
                        let y = choose|y: int| 0 <= y < ns.len() && ns[y] == p.1;
                        assert(ps[ps0.len() + y] == added[y]);
                    }
                    let x = choose|x: int| idx <= x < it.seq().len() && *it.seq()[x].0 == p.0;
                }
            }
        }
        proof {
            assert(ps.to_set() =~= target) by {
                assert forall|p: (u32, u32)| target.contains(p) implies ps.to_set().contains(p) by {
                    if !ps.contains(p) {
                        assert(target.contains(p));
                        assert(m@.contains_key(p.0));
                    }
                }
            }
        }
        out
    }

    /// Whether `i` describes overwatch node `id`, which has a hotkey, as stored.
    pub open spec fn overwatch_info_matches(&self, id: u32, i: OverwatchNodeInfo) -> bool {
        let ow = self.ow;
        let hotkey = ow.overwatch_node_id_hotkey@[id];
        let coldkey = get_or(self.keys.hotkey_owner@, hotkey, 0u64);
        &&& i.overwatch_node_id == id
        &&& i.coldkey == coldkey
        &&& i.hotkey == Some(hotkey)
        &&& i.peer_ids@ == if ow.overwatch_node_index@.contains_key(id) {
            ow.overwatch_node_index@[id]@
        } else {
            Map::<u32, Vec<u8>>::empty()
        }
        &&& i.reputation == get_or(self.keys.coldkey_reputation@, coldkey, spec_default_reputation())
        &&& i.account_overwatch_stake == get_or(ow.account_overwatch_stake@, hotkey, 0u128)
    }

    /// What is stored of overwatch node `overwatch_node_id`, or `None` when it
    /// has no hotkey.
    pub fn get_overwatch_node_info(&self, overwatch_node_id: u32) -> (r: Option<OverwatchNodeInfo>)
        ensures
            (r is Some) == self.ow.overwatch_node_id_hotkey@.contains_key(overwatch_node_id),
            r is Some ==> self.overwatch_info_matches(overwatch_node_id, r->Some_0),
    {
        let hotkey: u64 = match self.ow.overwatch_node_id_hotkey.get(&overwatch_node_id) {
            Some(h) => *h,
            None => return None,
        };
        let coldkey = map_get(&self.keys.hotkey_owner, hotkey, 0);
        let peer_ids: BTreeMap<u32, Vec<u8>> = match self.ow.overwatch_node_index.get(&overwatch_node_id) {
            Some(m) => m.clone(),
            None => BTreeMap::new(),
        };
        let reputation: Reputation = match self.keys.coldkey_reputation.get(&coldkey) {
            Some(r) => *r,
            None => DefaultColdkeyReputation(),
        };
        Some(OverwatchNodeInfo {
            overwatch_node_id,
            coldkey,
            hotkey: Some(hotkey),
            peer_ids,
            reputation,
            account_overwatch_stake: map_get(&self.ow.account_overwatch_stake, hotkey, 0),
        })
    }

    /// Overwatch nodes that exist and have a hotkey.
    pub open spec fn listed_overwatch_nodes(&self) -> Set<u32> {
        Set::new(|id: u32| self.ow.overwatch_nodes@.contains_key(id) && self.ow.overwatch_node_id_hotkey@.contains_key(id))
    }

    /// The info of every overwatch node that has a hotkey, each node once.
    pub fn get_all_overwatch_nodes_info(&self) -> (r: Vec<OverwatchNodeInfo>)
        ensures
            exists|ids: Seq<u32>| {
                &&& ids.no_duplicates()
                &&& #[trigger] ids.to_set() == self.listed_overwatch_nodes()
                &&& r@.len() == ids.len()
                &&& forall|i: int| 0 <= i < ids.len() ==> self.overwatch_info_matches(#[trigger] ids[i], r@[i])
            },
    {
        let m = &self.ow.overwatch_nodes;
        let ghost target = self.listed_overwatch_nodes();
        let mut out: Vec<OverwatchNodeInfo> = Vec::new();
        let ghost mut ids: Seq<u32> = Seq::empty();
        for (k, v) in it: m.iter()
            invariant
                m == &self.ow.overwatch_nodes,
                target == self.listed_overwatch_nodes(),
                it.seq().no_duplicates(),
                forall|x: int| 0 <= x < it.seq().len() ==> m@.contains_key(*(#[trigger] it.seq()[x]).0)
                    && m@[*it.seq()[x].0] == *it.seq()[x].1,
                forall|x: int| it.index() <= x < it.seq().len() ==> !ids.contains(*(#[trigger] it.seq()[x]).0),
                forall|i: int| 0 <= i < ids.len() ==> target.contains(#[trigger] ids[i]),
                out@.len() == ids.len(),
                forall|i: int| 0 <= i < ids.len() ==> self.overwatch_info_matches(#[trigger] ids[i], out@[i]),
                ids.no_duplicates(),
                forall|g: u32| #[trigger] target.contains(g) && !ids.contains(g) ==>
                    exists|x: int| it.index() <= x < it.seq().len() && *it.seq()[x].0 == g,
        {
            let ghost idx = it.index();
            let ghost ids0 = ids;
            let id: u32 = *k;
            proof {
                assert(*it.seq()[idx].0 == id);
                assert(*it.seq()[idx].1 == *v);
            }
            match self.get_overwatch_node_info(id) {
                Some(info) => {
                    out.push(info);
                    proof {
                        assert(!ids0.contains(*it.seq()[idx].0));
                        ids = ids.push(id);
                        assert(target.contains(id));
                    }
                },
                None => {},
            }
            proof {
                assert(ids.len() > ids0.len() ==> ids[ids.len() - 1] == id);
                assert(ids.len() == ids0.len() ==> !target.contains(id));
                assert forall|x: int| idx + 1 <= x < it.seq().len() implies !ids.contains(*(#[trigger] it.seq()[x]).0) by {
                    assert(!ids0.contains(*it.seq()[x].0));
                    if *it.seq()[x].0 == id {
                        assert(it.seq()[x] == it.seq()[idx]);
                    }
                    if ids.contains(*it.seq()[x].0) {
                        let y = choose|y: int| 0 <= y < ids.len() && ids[y] == *it.seq()[x].0;
                        if y < ids0.len() {
                            assert(ids0[y] == ids[y]);
                        }
                    }
                }
                assert forall|g: u32| #[trigger] target.contains(g) && !ids.contains(g) implies
                    exists|x: int| idx + 1 <= x < it.seq().len() && *it.seq()[x].0 == g by {
                    if ids0.contains(g) {
                        let y = choose|y: int| 0 <= y < ids0.len() && ids0[y] == g;
                        assert(ids[y] == g);
                    }
                    let x = choose|x: int| idx <= x < it.seq().len() && *it.seq()[x].0 == g;
                }
            }
        }
        proof {
            assert(ids.to_set() =~= target) by {
                assert forall|g: u32| target.contains(g) implies ids.to_set().contains(g) by {
                    if !ids.contains(g) {
                        assert(target.contains(g));
                    }
                }
            }
        }
        out
    }
}

} // verus!
