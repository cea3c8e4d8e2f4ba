//! Overwatch nodes: qualification of validators and registration.

use vstd::prelude::*;
use crate::types::{NetworkError, PERCENTAGE_FACTOR, SubnetNodeClass, spec_has_classification};
use std::collections::{BTreeMap, BTreeSet};
use crate::network::{Network, WithdrawCheck, get_or, map_get, map_set, map_remove};
use crate::registry::{OverwatchMeta, flat, nested_insert, index_of, index_insert};
use crate::subnets::clone_bytes;

verus! {

/// Share of active subnets (1e18 = 100%) in which a validator has an active
/// node: capped at 100%.
pub open spec fn diversification(active_unique_node_count: u32, total_active_subnets: u32) -> u128 {
    if active_unique_node_count >= total_active_subnets {
        PERCENTAGE_FACTOR
    } else {
        (active_unique_node_count as int * PERCENTAGE_FACTOR as int / total_active_subnets as int) as u128
    }
}

impl Network {
    /// Whether node `id` of subnet `s` is active and classified at least
    /// `Validator` at subnet epoch `epoch`.
    pub open spec fn node_classified(&self, s: u32, id: u32, epoch: u32) -> bool {
        let active = flat(self.nodes.subnet_nodes_data@);
        active.contains_key((s, id))
            && spec_has_classification(active[(s, id)].classification, SubnetNodeClass::Validator, epoch)
    }

    /// Whether one of the node ids `ids` of subnet `s` is classified at `epoch`.
    pub open spec fn has_classified_node(&self, s: u32, ids: Set<u32>, epoch: u32) -> bool {
        exists|i: u32| ids.contains(i) && #[trigger] self.node_classified(s, i, epoch)
    }

    /// The node ids of validator `v`, by subnet.
    pub open spec fn validator_nodes(&self, v: u32) -> Map<u32, BTreeSet<u32>> {
        if self.validator_subnet_nodes@.contains_key(v) { self.validator_subnet_nodes@[v]@ } else { Map::empty() }
    }

    /// The subnets in which validator `v` has a node classified at the
    /// subnet's epoch in `subnet_epochs` (0 for a subnet it does not list).
    pub open spec fn classified_subnets(&self, v: u32, subnet_epochs: Map<u32, u32>) -> Set<u32> {
        let m = self.validator_nodes(v);
        Set::new(|s: u32| m.contains_key(s) && self.has_classified_node(s, m[s]@, get_or(subnet_epochs, s, 0u32)))
    }

    /// The number of `classified_subnets`, capped at `u32::MAX`.
    pub open spec fn classified_subnet_count(&self, v: u32, subnet_epochs: Map<u32, u32>) -> u32 {
        let n = self.classified_subnets(v, subnet_epochs).len();
        if n > u32::MAX { u32::MAX } else { n as u32 }
    }

    /// `node_classified(s, id, epoch)`.
    fn node_is_classified(&self, s: u32, id: u32, epoch: u32) -> (r: bool)
        ensures
            r == self.node_classified(s, id, epoch),
    {
        match self.nodes.subnet_nodes_data.get(&s) {
            Some(m) => match m.get(&id) {
                Some(node) => node.has_classification(&SubnetNodeClass::Validator, epoch),
                None => false,
            },
            None => false,
        }
    }

    /// `has_classified_node(s, ids, epoch)`.
    fn any_node_classified(&self, s: u32, ids: &BTreeSet<u32>, epoch: u32) -> (r: bool)
        ensures
            r == self.has_classified_node(s, ids@, epoch),
    {
        for id in it: ids.iter()
            invariant
                it.seq().no_duplicates(),
                it.seq().unref().to_set() == ids@,
                forall|i: u32| #[trigger] ids@.contains(i) ==> !self.node_classified(s, i, epoch)
                    || exists|x: int| it.index() <= x < it.seq().len() && *it.seq()[x] == i,
        {
            let ghost idx = it.index();
            proof {
                assert(*it.seq()[idx] == *id);
                assert(it.seq().unref()[idx] == *id);
                assert(it.seq().unref().to_set().contains(*id));
            }
            if self.node_is_classified(s, *id, epoch) {
                return true;
            }
            proof {
                assert forall|i: u32| #[trigger] ids@.contains(i) implies !self.node_classified(s, i, epoch)
                    || exists|x: int| idx + 1 <= x < it.seq().len() && *it.seq()[x] == i by {
                    if self.node_classified(s, i, epoch) {
                        let x = choose|x: int| idx <= x < it.seq().len() && *it.seq()[x] == i;
                        assert(x != idx);
                    }
                }
            }
        }
        false
    }

    /// How many subnets validator `validator_id` has a node classified in, at
    /// each subnet's epoch in `subnet_epochs` (capped at `u32::MAX`).
    pub fn active_unique_node_count(&self, validator_id: u32, subnet_epochs: &BTreeMap<u32, u32>) -> (r: u32)
        ensures
            r == self.classified_subnet_count(validator_id, subnet_epochs@),
    {
        let ghost target = self.classified_subnets(validator_id, subnet_epochs@);
        let m: &BTreeMap<u32, BTreeSet<u32>> = match self.validator_subnet_nodes.get(&validator_id) {
            Some(m) => m,
            None => {
                proof {
                    assert(target =~= Set::<u32>::empty());
                }
                return 0;
            },
        };
        let mut count: u32 = 0;
        let ghost mut ss: Seq<u32> = Seq::empty();
        for (k, v) in it: m.iter()
            invariant
                m@ == self.validator_nodes(validator_id),
                target == self.classified_subnets(validator_id, subnet_epochs@),
                it.seq().no_duplicates(),
                forall|x: int| 0 <= x < it.seq().len() ==> m@.contains_key(*(#[trigger] it.seq()[x]).0)
                    && m@[*it.seq()[x].0] == *it.seq()[x].1,
                forall|t: u32| #[trigger] m@.contains_key(t) ==> (ss.contains(t) == target.contains(t))
                    || exists|x: int| it.index() <= x < it.seq().len() && *it.seq()[x].0 == t,
                forall|t: u32| #[trigger] m@.contains_key(t) && ss.contains(t) ==>
                    !exists|x: int| it.index() <= x < it.seq().len() && *it.seq()[x].0 == t,
                forall|i: int| 0 <= i < ss.len() ==> target.contains(#[trigger] ss[i]),
                ss.no_duplicates(),
                count == if ss.len() > u32::MAX { u32::MAX as int } else { ss.len() as int },
        {
            let ghost idx = it.index();
            let ghost ss0 = ss;
            proof {
                assert(*it.seq()[idx].0 == *k);
                assert(*it.seq()[idx].1 == *v);
            }
            let epoch = map_get(subnet_epochs, *k, 0);
            if self.any_node_classified(*k, v, epoch) {
                count = count.saturating_add(1);
                proof {
                    assert(!ss0.contains(*k));
                    ss = ss.push(*k);
                    assert(target.contains(*k));
                }
            } else {
                proof {
                    assert(!target.contains(*k));
                }
            }
            proof {
                assert forall|t: u32| #[trigger] m@.contains_key(t) implies (ss.contains(t) == target.contains(t))
                    || exists|x: int| idx + 1 <= x < it.seq().len() && *it.seq()[x].0 == t by {
                    if t != *k {
                        assert(ss.contains(t) == ss0.contains(t)) by {
                            if ss.contains(t) {
                                let y = choose|y: int| 0 <= y < ss.len() && ss[y] == t;
                                if y < ss0.len() {
                                    assert(ss0[y] == t);
                                }
                            }
                            if ss0.contains(t) {
                                let y = choose|y: int| 0 <= y < ss0.len() && ss0[y] == t;
                                assert(ss[y] == t);
                            }
                        }
                        if !(ss0.contains(t) == target.contains(t)) {
                            let x = choose|x: int| idx <= x < it.seq().len() && *it.seq()[x].0 == t;
                            assert(x != idx);
                        }
                    } else {
                        if ss.len() > ss0.len() {
                            assert(ss[ss.len() - 1] == t);
                        }
                    }
                }
                assert forall|t: u32| #[trigger] m@.contains_key(t) && ss.contains(t) implies
                    !exists|x: int| idx + 1 <= x < it.seq().len() && *it.seq()[x].0 == t by {
                    if exists|x: int| idx + 1 <= x < it.seq().len() && *it.seq()[x].0 == t {
                        let x = choose|x: int| idx + 1 <= x < it.seq().len() && *it.seq()[x].0 == t;
                        if t == *k {
                            assert(it.seq()[x] == it.seq()[idx]);
                        } else {
                            let y = choose|y: int| 0 <= y < ss.len() && ss[y] == t;
                            if y < ss0.len() {
                                assert(ss0[y] == t);
                            }
                        }
                    }
                }
                assert forall|i: int| 0 <= i < ss.len() implies target.contains(#[trigger] ss[i]) by {
                    if i < ss0.len() {
                        assert(ss[i] == ss0[i]);
                    }
                }
            }
        }
        proof {
            assert(ss.to_set() =~= target) by {
                assert forall|t: u32| target.contains(t) implies ss.to_set().contains(t) by {
                    assert(m@.contains_key(t));
                }
                assert forall|t: u32| ss.to_set().contains(t) implies target.contains(t) by {
                    let i = choose|i: int| 0 <= i < ss.len() && ss[i] == t;
                }
            }
            ss.unique_seq_to_set();
        }
        count
    }

    /// Whether validator `v` qualifies for an overwatch node at `current_epoch`:
    /// it has a reputation, is old enough, scores high enough, validates in
    /// enough of the active subnets and attests often enough.
    pub open spec fn overwatch_qualified(&self, v: u32, current_epoch: u32, active_unique_node_count: u32) -> bool {
        let ow = self.ow;
        ow.validator_reputation@.contains_key(v) && {
            let rep = ow.validator_reputation@[v];
            let age = if current_epoch >= rep.start_epoch { current_epoch - rep.start_epoch } else { 0int };
            &&& current_epoch > ow.min_age
            &&& age >= ow.min_age
            &&& rep.score >= ow.min_rep_score
            &&& diversification(active_unique_node_count, self.meta.total_active_subnets) >= ow.min_diversification_ratio
            &&& rep.average_attestation >= ow.min_avg_attestation_ratio
        }
    }

    /// Whether validator `validator_id` qualifies for an overwatch node at
    /// `current_epoch`, counting the subnets in which it has a node classified
    /// at the subnet's current epoch in `subnet_epochs`.
    pub fn is_validator_overwatch_qualified(&self, validator_id: u32, current_epoch: u32, subnet_epochs: &BTreeMap<u32, u32>) -> (r: bool)
        ensures
            r == self.overwatch_qualified(validator_id, current_epoch, self.classified_subnet_count(validator_id, subnet_epochs@)),
    {
        let reputation = match self.ow.validator_reputation.get(&validator_id) {
            Some(rep) => *rep,
            None => return false,
        };
        let min_age = self.ow.min_age;
        if current_epoch <= min_age {
            return false;
        }
        let age = current_epoch.saturating_sub(reputation.start_epoch);
        if age < min_age {
            return false;
        }
        if reputation.score < self.ow.min_rep_score {
            return false;
        }
        let active_unique_node_count = self.active_unique_node_count(validator_id, subnet_epochs);
        let total = self.meta.total_active_subnets;
        let div: u128 = if active_unique_node_count >= total {
            PERCENTAGE_FACTOR
        } else {
            assert(active_unique_node_count as u128 * PERCENTAGE_FACTOR <= u32::MAX as u128 * PERCENTAGE_FACTOR) by (nonlinear_arith)
                requires active_unique_node_count <= u32::MAX;
            (active_unique_node_count as u128 * PERCENTAGE_FACTOR) / (total as u128)
        };
        if div < self.ow.min_diversification_ratio {
            return false;
        }
        if reputation.average_attestation < self.ow.min_avg_attestation_ratio {
            return false;
        }
        true
    }

    /// Why the initial stake of new overwatch node `uid` of validator `v` is
    /// refused, if it is.
    pub open spec fn overwatch_stake_refusal(&self, coldkey: u64, v: u32, uid: u32, amount: u128, funds: WithdrawCheck) -> Option<NetworkError> {
        if !self.validator_coldkey@.contains_key(v) {
            Some(NetworkError::InvalidValidatorId)
        } else if self.validator_coldkey@[v] != coldkey {
            Some(NetworkError::NotKeyOwner)
        } else if amount == 0 {
            Some(NetworkError::InvalidAmount)
        } else if sat_add_stake(get_or(self.overwatch_node_stake_balance@, uid, 0u128), amount) < self.overwatch_min_stake_balance {
            Some(NetworkError::MinStakeNotReached)
        } else if funds == WithdrawCheck::NotEnough {
            Some(NetworkError::NotEnoughBalanceToStake)
        } else if funds == WithdrawCheck::WithdrawFails {
            Some(NetworkError::BalanceWithdrawalError)
        } else {
            None
        }
    }

    /// Why `coldkey` may not register an overwatch node, if so, before any write.
    pub open spec fn register_overwatch_error(&self, coldkey: u64, current_overwatch_epoch: u32, current_epoch: u32, subnet_epochs: Map<u32, u32>)
        -> Option<NetworkError>
    {
        let ow = self.ow;
        if !ow.coldkey_validator_id@.contains_key(coldkey) {
            Some(NetworkError::NotKeyOwner)
        } else if !get_or(ow.overwatch_validator_whitelist@, ow.coldkey_validator_id@[coldkey], false) {
            Some(NetworkError::ColdkeyBlacklisted)
        } else if current_overwatch_epoch == 0 {
            Some(NetworkError::OverwatchEpochIsZero)
        } else if ow.total_overwatch_nodes >= ow.max_overwatch_nodes {
            Some(NetworkError::MaxOverwatchNodes)
        } else if !self.overwatch_qualified(
            ow.coldkey_validator_id@[coldkey],
            current_epoch,
            self.classified_subnet_count(ow.coldkey_validator_id@[coldkey], subnet_epochs),
        ) {
            Some(NetworkError::ColdkeyNotOverwatchQualified)
        } else {
            None
        }
    }

    /// `final` follows `o` by the registration of an overwatch node for
    /// `coldkey`'s validator with an initial stake of `stake_to_be_added`,
    /// refused by no check before its writes, that returned `r`.
    pub open spec fn overwatch_registration(&self, o: Network, coldkey: u64, stake_to_be_added: u128, funds: WithdrawCheck, r: Result<(), NetworkError>) -> bool {
        let n = *self;
        let uid = (o.ow.total_overwatch_node_uids + 1) as u32;
        let v = o.ow.coldkey_validator_id@[coldkey];
        &&& n.ow.total_overwatch_node_uids == uid
        &&& n.overwatch_node_validator_id@ == o.overwatch_node_validator_id@.insert(uid, v)
        &&& match o.overwatch_stake_refusal(coldkey, v, uid, stake_to_be_added, funds) {
            Some(e) => r == Err::<(), NetworkError>(e),
            None => r is Ok,
        }
        &&& r is Ok ==> {
            &&& n.ow.overwatch_nodes@ == o.ow.overwatch_nodes@.insert(uid, coldkey)
            &&& n.ow.total_overwatch_nodes == o.ow.total_overwatch_nodes + 1
            &&& n.overwatch_stake_moved(o, uid, stake_to_be_added, true)
        }
        &&& r is Err ==> {
            &&& n.ow.overwatch_nodes == o.ow.overwatch_nodes
            &&& n.ow.total_overwatch_nodes == o.ow.total_overwatch_nodes
            &&& n.same_overwatch_stake(o)
        }
        &&& n.ow == (OverwatchMeta {
            total_overwatch_node_uids: n.ow.total_overwatch_node_uids,
            overwatch_nodes: n.ow.overwatch_nodes,
            total_overwatch_nodes: n.ow.total_overwatch_nodes,
            ..o.ow
        })
        &&& n == (Network {
            ow: n.ow,
            overwatch_node_validator_id: n.overwatch_node_validator_id,
            overwatch_node_stake_balance: n.overwatch_node_stake_balance,
            total_overwatch_node_stake_balance: n.total_overwatch_node_stake_balance,
            ..o
        })
    }

    /// Register an overwatch node for `coldkey`'s validator with an initial stake
    /// of `stake_to_be_added` (the caller withdraws it on success).
    pub fn do_register_overwatch_node(
        &mut self,
        coldkey: u64,
        stake_to_be_added: u128,
        funds: WithdrawCheck,
        current_overwatch_epoch: u32,
        current_epoch: u32,
        subnet_epochs: &BTreeMap<u32, u32>,
    ) -> (r: Result<(), NetworkError>)
        requires
            old(self).ow.total_overwatch_node_uids < u32::MAX,
            old(self).ow.total_overwatch_nodes < u32::MAX,
        ensures
            match old(self).register_overwatch_error(coldkey, current_overwatch_epoch, current_epoch, subnet_epochs@) {
                Some(e) => r == Err::<(), NetworkError>(e) && *final(self) == *old(self),
                None => final(self).overwatch_registration(*old(self), coldkey, stake_to_be_added, funds, r),
            },
    {
        let validator_id: u32 = match self.ow.coldkey_validator_id.get(&coldkey) {
            Some(v) => *v,
            None => return Err(NetworkError::NotKeyOwner),
        };
        if !map_get(&self.ow.overwatch_validator_whitelist, validator_id, false) {
            return Err(NetworkError::ColdkeyBlacklisted);
        }
        if current_overwatch_epoch == 0 {
            return Err(NetworkError::OverwatchEpochIsZero);
        }
        if self.ow.total_overwatch_nodes >= self.ow.max_overwatch_nodes {
            return Err(NetworkError::MaxOverwatchNodes);
        }
        if !self.is_validator_overwatch_qualified(validator_id, current_epoch, subnet_epochs) {
            return Err(NetworkError::ColdkeyNotOverwatchQualified);
        }
        self.ow.total_overwatch_node_uids = self.ow.total_overwatch_node_uids + 1;
        let current_uid = self.ow.total_overwatch_node_uids;
        map_set(&mut self.overwatch_node_validator_id, current_uid, validator_id);
        let staked = self.do_add_overwatch_node_stake(coldkey, current_uid, stake_to_be_added, funds);
        if staked.is_err() {
            return staked;
        }
        map_set(&mut self.ow.overwatch_nodes, current_uid, coldkey);
        self.ow.total_overwatch_nodes = self.ow.total_overwatch_nodes + 1;
        Ok(())
    }
}

/// `x + y` capped at `u128::MAX`.
pub open spec fn sat_add_stake(x: u128, y: u128) -> u128 {
    if x + y > u128::MAX { u128::MAX } else { (x + y) as u128 }
}

impl Network {
    /// Why `key` may not give an overwatch node the peer id of a subnet, if so:
    /// the subnet must exist, `node_keys` (the node's coldkey and hotkey, or
    /// why it has none) must hold `key`, and the peer id must be well formed
    /// (`peer_id_valid`) and held by no node or overwatch node of the subnet.
    pub open spec fn set_overwatch_peer_error(
        &self,
        key: u64,
        subnet_id: u32,
        node_keys: Result<(u64, u64), NetworkError>,
        peer_id_valid: bool,
        peer_id: Seq<u8>,
    ) -> Option<NetworkError> {
        if !self.subnets_data@.contains_key(subnet_id) {
            Some(NetworkError::InvalidSubnetId)
        } else {
            match node_keys {
                Err(e) => Some(e),
                Ok((coldkey, hotkey)) => if key != coldkey && key != hotkey {
                    Some(NetworkError::NotKeyOwner)
                } else if !peer_id_valid {
                    Some(NetworkError::InvalidPeerId)
                } else if !self.peer_owned_or_free(subnet_id, 0, 0, peer_id) {
                    Some(NetworkError::PeerIdExist)
                } else {
                    None
                },
            }
        }
    }

    /// Give overwatch node `overwatch_node_id` the peer id `peer_id` in subnet
    /// `subnet_id` (the `set_overwatch_node_peer_id` call), replacing the one it
    /// had there; see `set_overwatch_peer_error` for the other arguments.
    pub fn do_set_overwatch_node_peer_id(
        &mut self,
        key: u64,
        subnet_id: u32,
        overwatch_node_id: u32,
        peer_id: Vec<u8>,
        node_keys: Result<(u64, u64), NetworkError>,
        peer_id_valid: bool,
    ) -> (r: Result<(), NetworkError>)
        requires
            old(self).wf(),
        ensures
            final(self).wf(),
            match old(self).set_overwatch_peer_error(key, subnet_id, node_keys, peer_id_valid, peer_id@) {
                Some(e) => r == Err::<(), NetworkError>(e) && *final(self) == *old(self),
                None => {
                    let o = old(self).ow;
                    let m = final(self).ow;
                    &&& r is Ok
                    &&& index_of(m.peer_id_overwatch_node_id@, subnet_id)
                        == index_of(o.peer_id_overwatch_node_id@, subnet_id).insert(peer_id@, overwatch_node_id)
                    &&& m.peer_id_overwatch_node_id@.remove(subnet_id) == o.peer_id_overwatch_node_id@.remove(subnet_id)
                    &&& flat(m.overwatch_node_index@) == flat(o.overwatch_node_index@).insert((overwatch_node_id, subnet_id), peer_id)
                    &&& m == (OverwatchMeta {
                        peer_id_overwatch_node_id: m.peer_id_overwatch_node_id,
                        overwatch_node_index: m.overwatch_node_index,
                        ..o
                    })
                    &&& *final(self) == (Network { ow: m, ..*old(self) })
                },
            },
    {
        if !self.subnets_data.contains_key(&subnet_id) {
            return Err(NetworkError::InvalidSubnetId);
        }
        let (coldkey, hotkey): (u64, u64) = match node_keys {
            Ok(k) => k,
            Err(e) => return Err(e),
        };
        if key != coldkey && key != hotkey {
            return Err(NetworkError::NotKeyOwner);
        }
        if !peer_id_valid {
            return Err(NetworkError::InvalidPeerId);
        }
        if !self.is_owner_of_peer_or_ownerless(subnet_id, 0, 0, &peer_id) {
            return Err(NetworkError::PeerIdExist);
        }
        index_insert(&mut self.ow.peer_id_overwatch_node_id, subnet_id, clone_bytes(&peer_id), overwatch_node_id);
        nested_insert(&mut self.ow.overwatch_node_index, overwatch_node_id, subnet_id, peer_id);
        Ok(())
    }

    /// Set or clear the hotkey overwatch node `overwatch_node_id` acts with
    /// (the `update_overwatch_hotkey` call); without one the node acts with its
    /// validator's keys. `node_coldkey` is the coldkey of the node's validator,
    /// or why it has none; only that coldkey may do this.
    pub fn do_update_overwatch_hotkey(
        &mut self,
        coldkey: u64,
        overwatch_node_id: u32,
        new_hotkey: Option<u64>,
        node_coldkey: Result<u64, NetworkError>,
    ) -> (r: Result<(), NetworkError>)
        ensures
            match node_coldkey {
                Err(e) => r == Err::<(), NetworkError>(e) && *final(self) == *old(self),
                Ok(c) => if c != coldkey {
                    r == Err::<(), NetworkError>(NetworkError::NotKeyOwner) && *final(self) == *old(self)
                } else {
                    let o = old(self).ow;
                    let m = final(self).ow;
                    &&& r is Ok
                    &&& m.overwatch_node_id_hotkey@ == match new_hotkey {
                        Some(h) => o.overwatch_node_id_hotkey@.insert(overwatch_node_id, h),
                        None => o.overwatch_node_id_hotkey@.remove(overwatch_node_id),
                    }
                    &&& m == (OverwatchMeta { overwatch_node_id_hotkey: m.overwatch_node_id_hotkey, ..o })
                    &&& *final(self) == (Network { ow: m, ..*old(self) })
                },
            },
    {
        let validator_coldkey = match node_coldkey {
            Ok(c) => c,
            Err(e) => return Err(e),
        };
        if validator_coldkey != coldkey {
            return Err(NetworkError::NotKeyOwner);
        }
        match new_hotkey {
            Some(h) => {
                map_set(&mut self.ow.overwatch_node_id_hotkey, overwatch_node_id, h);
            },
            None => {
                map_remove(&mut self.ow.overwatch_node_id_hotkey, overwatch_node_id);
            },
        }
        Ok(())
    }

    /// `overwatch_stake_refusal`, computed before anything is written.
    fn overwatch_stake_check(&self, coldkey: u64, v: u32, uid: u32, amount: u128, funds: WithdrawCheck) -> (r: Option<NetworkError>)
        ensures
            r == self.overwatch_stake_refusal(coldkey, v, uid, amount, funds),
    {
        let owner: u64 = match self.validator_coldkey.get(&v) {
            Some(c) => *c,
            None => return Some(NetworkError::InvalidValidatorId),
        };
        if owner != coldkey {
            return Some(NetworkError::NotKeyOwner);
        }
        if amount == 0 {
            return Some(NetworkError::InvalidAmount);
        }
        if map_get(&self.overwatch_node_stake_balance, uid, 0).saturating_add(amount) < self.overwatch_min_stake_balance {
            return Some(NetworkError::MinStakeNotReached);
        }
        if funds == WithdrawCheck::NotEnough {
            return Some(NetworkError::NotEnoughBalanceToStake);
        }
        if funds == WithdrawCheck::WithdrawFails {
            return Some(NetworkError::BalanceWithdrawalError);
        }
        None
    }

    /// Register an overwatch node for `coldkey`'s validator (the
    /// `register_overwatch_node` call). The call is all or nothing: when it is
    /// refused, nothing is written, also when the initial stake is refused.
    pub fn register_overwatch_node(
        &mut self,
        coldkey: u64,
        stake_to_be_added: u128,
        funds: WithdrawCheck,
        current_overwatch_epoch: u32,
        current_epoch: u32,
        subnet_epochs: &BTreeMap<u32, u32>,
    ) -> (r: Result<(), NetworkError>)
        requires
            old(self).ow.total_overwatch_node_uids < u32::MAX,
            old(self).ow.total_overwatch_nodes < u32::MAX,
        ensures
            r is Err ==> *final(self) == *old(self),
            old(self).tx_pause ==> r == Err::<(), NetworkError>(NetworkError::Paused),
            !old(self).tx_pause ==> match old(self).register_overwatch_error(coldkey, current_overwatch_epoch, current_epoch, subnet_epochs@) {
                Some(e) => r == Err::<(), NetworkError>(e),
                None => {
                    let uid = (old(self).ow.total_overwatch_node_uids + 1) as u32;
                    let v = old(self).ow.coldkey_validator_id@[coldkey];
                    match old(self).overwatch_stake_refusal(coldkey, v, uid, stake_to_be_added, funds) {
                        Some(e) => r == Err::<(), NetworkError>(e),
                        None => r is Ok && final(self).overwatch_registration(*old(self), coldkey, stake_to_be_added, funds, r),
                    }
                },
            },
    {
        if self.tx_pause {
            return Err(NetworkError::Paused);
        }
        let validator_id: u32 = match self.ow.coldkey_validator_id.get(&coldkey) {
            Some(v) => *v,
            None => return Err(NetworkError::NotKeyOwner),
        };
        if !map_get(&self.ow.overwatch_validator_whitelist, validator_id, false) {
            return Err(NetworkError::ColdkeyBlacklisted);
        }
        if current_overwatch_epoch == 0 {
            return Err(NetworkError::OverwatchEpochIsZero);
        }
        if self.ow.total_overwatch_nodes >= self.ow.max_overwatch_nodes {
            return Err(NetworkError::MaxOverwatchNodes);
        }
        if !self.is_validator_overwatch_qualified(validator_id, current_epoch, subnet_epochs) {
            return Err(NetworkError::ColdkeyNotOverwatchQualified);
        }
        let uid = self.ow.total_overwatch_node_uids + 1;
        match self.overwatch_stake_check(coldkey, validator_id, uid, stake_to_be_added, funds) {
            Some(e) => return Err(e),
            None => {},
        }
        self.do_register_overwatch_node(coldkey, stake_to_be_added, funds, current_overwatch_epoch, current_epoch, subnet_epochs)
    }
}

} // verus!
