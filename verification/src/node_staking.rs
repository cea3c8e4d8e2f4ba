//! Node stake, overwatch node stake and delegate account balances.

use vstd::prelude::*;
use crate::types::NetworkError;
use crate::registry::{KeysMeta, flat, nested_get};
use crate::network::{
    Network, WithdrawCheck, get_or, sat_add, sat_sub, map_get, map_set, DEFAULT_SUBNET_MIN_STAKE,
    DEFAULT_SUBNET_MAX_STAKE,
};

verus! {

impl Network {
    /// Every group of state but the node stakes, the unbonding ledger and the
    /// rate-limit blocks equals that of `o`.
    pub open spec fn node_stake_frame(&self, o: Network) -> bool {
        &&& self.same_settings(o)
        &&& self.same_subnet_pool(o)
        &&& self.same_validator_pool(o)
        &&& self.same_node_pool(o)
        &&& self.same_overwatch_stake(o)
        &&& self.same_delegate_account(o)
        &&& self.same_swap_queue(o)
    }

    /// Node `n` of subnet `s` holds `amount` more stake (saturating), and so do
    /// the subnet and network totals.
    pub open spec fn node_stake_increased(&self, o: Network, n: u32, s: u32, amount: u128) -> bool {
        &&& self.node_subnet_stake@ == o.node_subnet_stake@.insert(
            (n, s),
            sat_add(get_or(o.node_subnet_stake@, (n, s), 0u128), amount),
        )
        &&& self.total_subnet_stake@ == o.total_subnet_stake@.insert(s, sat_add(get_or(o.total_subnet_stake@, s, 0u128), amount))
        &&& self.total_stake == sat_add(o.total_stake, amount)
    }

    /// Node `n` of subnet `s` holds `amount` less stake (floored at zero), and so
    /// do the subnet and network totals.
    pub open spec fn node_stake_decreased(&self, o: Network, n: u32, s: u32, amount: u128) -> bool {
        &&& self.node_subnet_stake@ == o.node_subnet_stake@.insert(
            (n, s),
            sat_sub(get_or(o.node_subnet_stake@, (n, s), 0u128), amount),
        )
        &&& self.total_subnet_stake@ == o.total_subnet_stake@.insert(s, sat_sub(get_or(o.total_subnet_stake@, s, 0u128), amount))
        &&& self.total_stake == sat_sub(o.total_stake, amount)
    }

    pub fn increase_node_stake(&mut self, subnet_node_id: u32, subnet_id: u32, amount: u128)
        ensures
            final(self).node_stake_increased(*old(self), subnet_node_id, subnet_id, amount),
            final(self).node_stake_frame(*old(self)),
            final(self).same_unbonding(*old(self)),
            final(self).same_rate_limit(*old(self)),
    {
        let n = map_get(&self.node_subnet_stake, (subnet_node_id, subnet_id), 0);
        map_set(&mut self.node_subnet_stake, (subnet_node_id, subnet_id), n.saturating_add(amount));
        let t = map_get(&self.total_subnet_stake, subnet_id, 0);
        map_set(&mut self.total_subnet_stake, subnet_id, t.saturating_add(amount));
        self.total_stake = self.total_stake.saturating_add(amount);
    }

    pub fn decrease_node_stake(&mut self, subnet_node_id: u32, subnet_id: u32, amount: u128)
        ensures
            final(self).node_stake_decreased(*old(self), subnet_node_id, subnet_id, amount),
            final(self).node_stake_frame(*old(self)),
            final(self).same_unbonding(*old(self)),
            final(self).same_rate_limit(*old(self)),
    {
        let n = map_get(&self.node_subnet_stake, (subnet_node_id, subnet_id), 0);
        map_set(&mut self.node_subnet_stake, (subnet_node_id, subnet_id), n.saturating_sub(amount));
        let t = map_get(&self.total_subnet_stake, subnet_id, 0);
        map_set(&mut self.total_subnet_stake, subnet_id, t.saturating_sub(amount));
        self.total_stake = self.total_stake.saturating_sub(amount);
    }

    /// Minimum node stake of subnet `s`.
    pub open spec fn min_stake_of(&self, s: u32) -> u128 {
        get_or(self.subnet_min_stake_balance@, s, DEFAULT_SUBNET_MIN_STAKE)
    }

    /// Maximum node stake of subnet `s`.
    pub open spec fn max_stake_of(&self, s: u32) -> u128 {
        get_or(self.subnet_max_stake_balance@, s, DEFAULT_SUBNET_MAX_STAKE)
    }

    /// Blocks a node or overwatch stake unbonding waits.
    pub open spec fn stake_cooldown_blocks(&self) -> u32 {
        (self.stake_cooldown_epochs * self.epoch_length) as u32
    }

    /// Why `coldkey` may not act on the stake of node `n` of subnet `s`, if so.
    pub open spec fn node_owner_error(&self, coldkey: u64, s: u32, n: u32) -> Option<NetworkError> {
        if !self.subnet_node_validator_id@.contains_key((s, n)) {
            Some(NetworkError::InvalidSubnetNodeId)
        } else if !self.validator_coldkey@.contains_key(self.subnet_node_validator_id@[(s, n)]) {
            Some(NetworkError::InvalidValidatorId)
        } else if self.validator_coldkey@[self.subnet_node_validator_id@[(s, n)]] != coldkey {
            Some(NetworkError::NotKeyOwner)
        } else {
            None
        }
    }

    /// The coldkey owning the validator of node `n` of subnet `s` must be `coldkey`.
    fn check_node_owner(&self, coldkey: u64, subnet_id: u32, subnet_node_id: u32) -> (r: Result<(), NetworkError>)
        ensures
            match self.node_owner_error(coldkey, subnet_id, subnet_node_id) {
                Some(e) => r == Err::<(), NetworkError>(e),
                None => r is Ok,
            },
    {
        let validator_id: u32 = match self.subnet_node_validator_id.get(&(subnet_id, subnet_node_id)) {
            Some(v) => *v,
            None => return Err(NetworkError::InvalidSubnetNodeId),
        };
        let owner: u64 = match self.validator_coldkey.get(&validator_id) {
            Some(c) => *c,
            None => return Err(NetworkError::InvalidValidatorId),
        };
        if coldkey != owner {
            return Err(NetworkError::NotKeyOwner);
        }
        Ok(())
    }

    /// Why adding `amount` of stake to node `n` of subnet `s` is refused, if it is.
    pub open spec fn add_node_stake_error(&self, coldkey: u64, s: u32, n: u32, amount: u128, funds: WithdrawCheck, block: u32)
        -> Option<NetworkError>
    {
        let after = sat_add(get_or(self.node_subnet_stake@, (n, s), 0u128), amount);
        if !self.subnets_data@.contains_key(s) {
            Some(NetworkError::InvalidSubnetId)
        } else if self.node_owner_error(coldkey, s, n) is Some {
            self.node_owner_error(coldkey, s, n)
        } else if amount == 0 {
            Some(NetworkError::InvalidAmount)
        } else if after < self.min_stake_of(s) {
            Some(NetworkError::MinStakeNotReached)
        } else if after > self.max_stake_of(s) {
            Some(NetworkError::MaxStakeReached)
        } else if funds == WithdrawCheck::NotEnough {
            Some(NetworkError::NotEnoughBalanceToStake)
        } else if self.spec_rate_limited(coldkey, block) {
            Some(NetworkError::TxRateLimitExceeded)
        } else if funds == WithdrawCheck::WithdrawFails {
            Some(NetworkError::BalanceWithdrawalError)
        } else {
            None
        }
    }

    /// Add `stake_to_be_added` of the coldkey's free balance to the stake of node
    /// `subnet_node_id` of subnet `subnet_id`, within the subnet's stake range.
    /// On success the caller withdraws the amount from `coldkey`.
    pub fn do_add_node_stake(
        &mut self,
        coldkey: u64,
        subnet_id: u32,
        subnet_node_id: u32,
        stake_to_be_added: u128,
        funds: WithdrawCheck,
        block: u32,
    ) -> (r: Result<(), NetworkError>)
        ensures
            match old(self).add_node_stake_error(coldkey, subnet_id, subnet_node_id, stake_to_be_added, funds, block) {
                Some(e) => r == Err::<(), NetworkError>(e) && *final(self) == *old(self),
                None => {
                    &&& r is Ok
                    &&& final(self).node_stake_increased(*old(self), subnet_node_id, subnet_id, stake_to_be_added)
                    &&& final(self).node_stake_frame(*old(self))
                    &&& final(self).same_unbonding(*old(self))
                    &&& final(self).last_tx_block@ == old(self).last_tx_block@.insert(coldkey, block)
                },
            },
    {
        if !self.subnets_data.contains_key(&subnet_id) {
            return Err(NetworkError::InvalidSubnetId);
        }
        let owner = self.check_node_owner(coldkey, subnet_id, subnet_node_id);
        if owner.is_err() {
            return owner;
        }
        if stake_to_be_added == 0 {
            return Err(NetworkError::InvalidAmount);
        }
        let node_stake = map_get(&self.node_subnet_stake, (subnet_node_id, subnet_id), 0);
        let after = node_stake.saturating_add(stake_to_be_added);
        if after < map_get(&self.subnet_min_stake_balance, subnet_id, DEFAULT_SUBNET_MIN_STAKE) {
            return Err(NetworkError::MinStakeNotReached);
        }
        if after > map_get(&self.subnet_max_stake_balance, subnet_id, DEFAULT_SUBNET_MAX_STAKE) {
            return Err(NetworkError::MaxStakeReached);
        }
        if funds == WithdrawCheck::NotEnough {
            return Err(NetworkError::NotEnoughBalanceToStake);
        }
        if self.exceeds_tx_rate_limit(self.get_last_tx_block(coldkey), block) {
            return Err(NetworkError::TxRateLimitExceeded);
        }
        if funds == WithdrawCheck::WithdrawFails {
            return Err(NetworkError::BalanceWithdrawalError);
        }
        self.increase_node_stake(subnet_node_id, subnet_id, stake_to_be_added);
        self.set_last_tx_block(coldkey, block);
        Ok(())
    }

    /// Why removing `amount` of stake from node `n` of subnet `s` is refused
    /// before anything changes, if it is.
    pub open spec fn remove_node_stake_error(&self, coldkey: u64, s: u32, n: u32, amount: u128, block: u32) -> Option<NetworkError> {
        let stake = get_or(self.node_subnet_stake@, (n, s), 0u128);
        if self.node_owner_error(coldkey, s, n) is Some {
            self.node_owner_error(coldkey, s, n)
        } else if amount == 0 {
            Some(NetworkError::AmountZero)
        } else if stake < amount {
            Some(NetworkError::NotEnoughStakeToWithdraw)
        } else if self.subnet_node_reputation@.contains_key((s, n)) && sat_sub(stake, amount) < self.min_stake_of(s) {
            Some(NetworkError::MinStakeNotReached)
        } else if self.spec_rate_limited(coldkey, block) {
            Some(NetworkError::TxRateLimitExceeded)
        } else {
            None
        }
    }

    /// Remove `stake_to_be_removed` from node `subnet_node_id` of subnet
    /// `subnet_id` into the coldkey's unbonding ledger. An active node keeps at
    /// least the subnet's minimum stake. Returns whether all stake of a node that
    /// is not active was removed, in which case the validator's subnet nodes are
    /// to be cleaned up.
    pub fn do_remove_node_stake(
        &mut self,
        coldkey: u64,
        subnet_id: u32,
        subnet_node_id: u32,
        stake_to_be_removed: u128,
        block: u32,
    ) -> (r: Result<bool, NetworkError>)
        requires
            old(self).stake_cooldown_epochs * old(self).epoch_length <= u32::MAX,
            old(self).ledger_of(coldkey).len() < u32::MAX,
            old(self).pending_deposits@.len() + old(self).ledger_of(coldkey).len() <= usize::MAX,
        ensures
            match old(self).remove_node_stake_error(coldkey, subnet_id, subnet_node_id, stake_to_be_removed, block) {
                Some(e) => r == Err::<bool, NetworkError>(e) && *final(self) == *old(self),
                None => {
                    let stake = get_or(old(self).node_subnet_stake@, (subnet_node_id, subnet_id), 0u128);
                    let clean = !old(self).subnet_node_reputation@.contains_key((subnet_id, subnet_node_id))
                        && stake_to_be_removed >= stake;
                    &&& final(self).node_stake_decreased(*old(self), subnet_node_id, subnet_id, stake_to_be_removed)
                    &&& final(self).node_stake_frame(*old(self))
                    &&& final(self).unbonding_added(
                        *old(self),
                        coldkey,
                        stake_to_be_removed,
                        old(self).stake_cooldown_blocks(),
                        block,
                        r is Ok,
                    )
                    &&& r is Ok ==> r == Ok::<bool, NetworkError>(clean)
                        && final(self).last_tx_block@ == old(self).last_tx_block@.insert(coldkey, block)
                    &&& r is Err ==> r == Err::<bool, NetworkError>(NetworkError::MaxUnlockingsReached)
                        && final(self).same_rate_limit(*old(self))
                },
            },
    {
        match self.check_node_owner(coldkey, subnet_id, subnet_node_id) {
            Ok(()) => {},
            Err(e) => return Err(e),
        }
        let is_subnet_node = self.subnet_node_reputation.contains_key(&(subnet_id, subnet_node_id));
        let node_stake = map_get(&self.node_subnet_stake, (subnet_node_id, subnet_id), 0);
        if stake_to_be_removed == 0 {
            return Err(NetworkError::AmountZero);
        }
        if node_stake < stake_to_be_removed {
            return Err(NetworkError::NotEnoughStakeToWithdraw);
        }
        let mut clean = false;
        if is_subnet_node {
            if node_stake.saturating_sub(stake_to_be_removed) < map_get(&self.subnet_min_stake_balance, subnet_id, DEFAULT_SUBNET_MIN_STAKE) {
                return Err(NetworkError::MinStakeNotReached);
            }
        } else if stake_to_be_removed >= node_stake {
            clean = true;
        }
        if self.exceeds_tx_rate_limit(self.get_last_tx_block(coldkey), block) {
            return Err(NetworkError::TxRateLimitExceeded);
        }
        self.decrease_node_stake(subnet_node_id, subnet_id, stake_to_be_removed);
        let cooldown = self.stake_cooldown_epochs * self.epoch_length;
        match self.add_balance_to_unbonding_ledger(coldkey, stake_to_be_removed, cooldown, block) {
            Ok(()) => {},
            Err(e) => return Err(e),
        }
        let ghost mid = *self;
        self.set_last_tx_block(coldkey, block);
        proof {
            assert forall|a: u64| a != coldkey implies #[trigger] self.ledger_of(a) == old(self).ledger_of(a) by {
                assert(mid.ledger_of(a) == old(self).ledger_of(a));
            }
        }
        Ok(clean)
    }

    /// Every group of state but the stake `hotkey`s hold in subnets, the subnet
    /// and network stake totals, the unbonding ledger and the rate-limit blocks
    /// equals that of `o`.
    pub open spec fn account_stake_frame(&self, o: Network) -> bool {
        &&& self.keys == (KeysMeta { account_subnet_stake: self.keys.account_subnet_stake, ..o.keys })
        &&& self.same_settings(Network { keys: self.keys, ..o })
        &&& self.node_subnet_stake@ == o.node_subnet_stake@
        &&& self.same_subnet_pool(o)
        &&& self.same_validator_pool(o)
        &&& self.same_node_pool(o)
        &&& self.same_overwatch_stake(o)
        &&& self.same_delegate_account(o)
        &&& self.same_swap_queue(o)
    }

    /// Why removing `amount` of the stake `hotkey` holds in subnet `s` is
    /// refused before anything changes, if it is; a subnet node
    /// (`is_subnet_node`) keeps at least the subnet's minimum stake.
    pub open spec fn remove_stake_error(&self, coldkey: u64, s: u32, hotkey: u64, is_subnet_node: bool, amount: u128, block: u32) -> Option<NetworkError> {
        let stake = get_or(self.keys.account_subnet_stake@, (hotkey, s), 0u128);
        if amount == 0 {
            Some(NetworkError::AmountZero)
        } else if stake < amount {
            Some(NetworkError::NotEnoughStakeToWithdraw)
        } else if is_subnet_node && stake - amount < self.min_stake_of(s) {
            Some(NetworkError::MinStakeNotReached)
        } else if self.spec_rate_limited(coldkey, block) {
            Some(NetworkError::TxRateLimitExceeded)
        } else {
            None
        }
    }

    /// `final` follows `o` by a removal of `amount` of `hotkey`'s stake in
    /// subnet `s` into `coldkey`'s unbonding ledger that returned `r`.
    pub open spec fn stake_removed(&self, o: Network, coldkey: u64, s: u32, hotkey: u64, is_subnet_node: bool, amount: u128, block: u32, r: Result<(), NetworkError>) -> bool {
        match o.remove_stake_error(coldkey, s, hotkey, is_subnet_node, amount, block) {
            Some(e) => r == Err::<(), NetworkError>(e) && *self == o,
            None => {
                let stake = get_or(o.keys.account_subnet_stake@, (hotkey, s), 0u128);
                &&& self.keys.account_subnet_stake@ == o.keys.account_subnet_stake@.insert((hotkey, s), (stake - amount) as u128)
                &&& self.total_subnet_stake@ == o.total_subnet_stake@.insert(s, sat_sub(get_or(o.total_subnet_stake@, s, 0u128), amount))
                &&& self.total_stake == sat_sub(o.total_stake, amount)
                &&& self.account_stake_frame(o)
                &&& self.unbonding_added(o, coldkey, amount, o.stake_cooldown_blocks(), block, r is Ok)
                &&& r is Ok ==> self.last_tx_block@ == o.last_tx_block@.insert(coldkey, block)
                &&& r is Err ==> r == Err::<(), NetworkError>(NetworkError::MaxUnlockingsReached)
                    && self.same_rate_limit(o)
            },
        }
    }

    /// Remove `stake_to_be_removed` of the stake `hotkey` holds in subnet
    /// `subnet_id` into `coldkey`'s unbonding ledger, after the stake cooldown.
    /// A subnet node (`is_subnet_node`) keeps at least the subnet's minimum
    /// stake; any other holder may remove all of it.
    pub fn do_remove_stake(
        &mut self,
        coldkey: u64,
        subnet_id: u32,
        hotkey: u64,
        is_subnet_node: bool,
        stake_to_be_removed: u128,
        block: u32,
    ) -> (r: Result<(), NetworkError>)
        requires
            old(self).stake_cooldown_epochs * old(self).epoch_length <= u32::MAX,
            old(self).ledger_of(coldkey).len() < u32::MAX,
            old(self).pending_deposits@.len() + old(self).ledger_of(coldkey).len() <= usize::MAX,
        ensures
            final(self).stake_removed(*old(self), coldkey, subnet_id, hotkey, is_subnet_node, stake_to_be_removed, block, r),
    {
        if stake_to_be_removed == 0 {
            return Err(NetworkError::AmountZero);
        }
        let stake = map_get(&self.keys.account_subnet_stake, (hotkey, subnet_id), 0);
        if stake < stake_to_be_removed {
            return Err(NetworkError::NotEnoughStakeToWithdraw);
        }
        if is_subnet_node
            && stake - stake_to_be_removed < map_get(&self.subnet_min_stake_balance, subnet_id, DEFAULT_SUBNET_MIN_STAKE) {
            return Err(NetworkError::MinStakeNotReached);
        }
        if self.exceeds_tx_rate_limit(self.get_last_tx_block(coldkey), block) {
            return Err(NetworkError::TxRateLimitExceeded);
        }
        let ghost o = *self;
        map_set(&mut self.keys.account_subnet_stake, (hotkey, subnet_id), stake - stake_to_be_removed);
        let t = map_get(&self.total_subnet_stake, subnet_id, 0);
        map_set(&mut self.total_subnet_stake, subnet_id, t.saturating_sub(stake_to_be_removed));
        self.total_stake = self.total_stake.saturating_sub(stake_to_be_removed);
        let ghost a = *self;
        proof {
            assert(a.ledger_of(coldkey) == o.ledger_of(coldkey));
            assert(a.unbonding_has_room(coldkey, block) == o.unbonding_has_room(coldkey, block));
        }
        let cooldown = self.stake_cooldown_epochs * self.epoch_length;
        match self.add_balance_to_unbonding_ledger(coldkey, stake_to_be_removed, cooldown, block) {
            Ok(()) => {},
            Err(e) => {
                proof {
                    assert(self.unbonding_added(o, coldkey, stake_to_be_removed, o.stake_cooldown_blocks(), block, false));
                }
                return Err(e);
            },
        }
        let ghost mid = *self;
        self.set_last_tx_block(coldkey, block);
        proof {
            assert forall|x: u64| x != coldkey implies #[trigger] self.ledger_of(x) == o.ledger_of(x) by {
                assert(mid.ledger_of(x) == a.ledger_of(x));
            }
            assert(self.unbonding_added(o, coldkey, stake_to_be_removed, o.stake_cooldown_blocks(), block, true));
        }
        Ok(())
    }

    /// Why the `remove_stake` call of `coldkey` on `hotkey`'s stake in subnet
    /// `s` is refused before the removal itself, if it is: the network is paused,
    /// the coldkey does not own the hotkey, or the hotkey's node in the subnet is
    /// the validator elected for `subnet_epoch`, or is an activated node that has
    /// not yet held its stake for the minimum active epochs.
    pub open spec fn remove_stake_gate_error(&self, coldkey: u64, s: u32, hotkey: u64, subnet_epoch: u32) -> Option<NetworkError> {
        let ids = flat(self.nodes.hotkey_subnet_node_id@);
        let n = ids[(s, hotkey)];
        let active = flat(self.nodes.subnet_nodes_data@);
        if self.tx_pause {
            Some(NetworkError::Paused)
        } else if get_or(self.keys.hotkey_owner@, hotkey, 0u64) != coldkey {
            Some(NetworkError::NotKeyOwner)
        } else if ids.contains_key((s, hotkey)) && flat(self.nodes.subnet_elected_validator@).contains_key((s, subnet_epoch))
            && flat(self.nodes.subnet_elected_validator@)[(s, subnet_epoch)] == n {
            Some(NetworkError::ElectedValidatorCannotUnstake)
        } else if ids.contains_key((s, hotkey)) && active.contains_key((s, n))
            && active[(s, n)].classification.start_epoch + self.params.min_active_node_stake_epochs > subnet_epoch {
            Some(NetworkError::MinActiveNodeStakeEpochs)
        } else {
            None
        }
    }

    /// Remove `stake_to_be_removed` of `hotkey`'s stake in subnet `subnet_id`
    /// (the `remove_stake` call) at `subnet_epoch`: refused as
    /// `remove_stake_gate_error` says, else a `do_remove_stake` in which a hotkey
    /// with a node in the subnet counts as a subnet node.
    pub fn remove_stake(
        &mut self,
        coldkey: u64,
        subnet_id: u32,
        hotkey: u64,
        stake_to_be_removed: u128,
        subnet_epoch: u32,
        block: u32,
    ) -> (r: Result<(), NetworkError>)
        requires
            old(self).stake_cooldown_epochs * old(self).epoch_length <= u32::MAX,
            old(self).ledger_of(coldkey).len() < u32::MAX,
            old(self).pending_deposits@.len() + old(self).ledger_of(coldkey).len() <= usize::MAX,
        ensures
            match old(self).remove_stake_gate_error(coldkey, subnet_id, hotkey, subnet_epoch) {
                Some(e) => r == Err::<(), NetworkError>(e) && *final(self) == *old(self),
                None => final(self).stake_removed(
                    *old(self),
                    coldkey,
                    subnet_id,
                    hotkey,
                    flat(old(self).nodes.hotkey_subnet_node_id@).contains_key((subnet_id, hotkey)),
                    stake_to_be_removed,
                    block,
                    r,
                ),
            },
    {
        if self.tx_pause {
            return Err(NetworkError::Paused);
        }
        if map_get(&self.keys.hotkey_owner, hotkey, 0) != coldkey {
            return Err(NetworkError::NotKeyOwner);
        }
        let is_subnet_node = match nested_get(&self.nodes.hotkey_subnet_node_id, subnet_id, hotkey) {
            Some(n) => {
                match nested_get(&self.nodes.subnet_elected_validator, subnet_id, subnet_epoch) {
                    Some(v) => {
                        if v == n {
                            return Err(NetworkError::ElectedValidatorCannotUnstake);
                        }
                    },
                    None => {},
                }
                let start: Option<u32> = match self.nodes.subnet_nodes_data.get(&subnet_id) {
                    Some(m) => match m.get(&n) {
                        Some(node) => Some(node.classification.start_epoch),
                        None => None,
                    },
                    None => None,
                };
                match start {
                    Some(e) => {
                        if e as u64 + self.params.min_active_node_stake_epochs as u64 > subnet_epoch as u64 {
                            return Err(NetworkError::MinActiveNodeStakeEpochs);
                        }
                    },
                    None => {},
                }
                true
            },
            None => false,
        };
        self.do_remove_stake(coldkey, subnet_id, hotkey, is_subnet_node, stake_to_be_removed, block)
    }

    /// Every group of state but the overwatch stakes, the unbonding ledger and
    /// the rate-limit blocks equals that of `o`.
    pub open spec fn overwatch_stake_frame(&self, o: Network) -> bool {
        &&& self.same_settings(o)
        &&& self.same_subnet_pool(o)
        &&& self.same_validator_pool(o)
        &&& self.same_node_pool(o)
        &&& self.same_node_stake(o)
        &&& self.same_delegate_account(o)
        &&& self.same_swap_queue(o)
    }

    /// `self` equals `o` but for the overwatch stakes.
    pub open spec fn only_overwatch_stake_changed(&self, o: Network) -> bool {
        *self == (Network {
            overwatch_node_stake_balance: self.overwatch_node_stake_balance,
            total_overwatch_node_stake_balance: self.total_overwatch_node_stake_balance,
            ..o
        })
    }

    /// Overwatch node `n` holds `amount` more stake, and so does the total
    /// (saturating); with `up == false`, `amount` less (floored at zero).
    pub open spec fn overwatch_stake_moved(&self, o: Network, n: u32, amount: u128, up: bool) -> bool {
        let b = get_or(o.overwatch_node_stake_balance@, n, 0u128);
        &&& self.overwatch_node_stake_balance@ == o.overwatch_node_stake_balance@.insert(
            n,
            if up { sat_add(b, amount) } else { sat_sub(b, amount) },
        )
        &&& self.total_overwatch_node_stake_balance == if up {
            sat_add(o.total_overwatch_node_stake_balance, amount)
        } else {
            sat_sub(o.total_overwatch_node_stake_balance, amount)
        }
    }

    pub fn increase_overwatch_node_stake(&mut self, overwatch_node_id: u32, amount: u128)
        ensures
            final(self).overwatch_stake_moved(*old(self), overwatch_node_id, amount, true),
            final(self).only_overwatch_stake_changed(*old(self)),
            final(self).overwatch_stake_frame(*old(self)),
            final(self).same_unbonding(*old(self)),
            final(self).same_rate_limit(*old(self)),
    {
        let b = map_get(&self.overwatch_node_stake_balance, overwatch_node_id, 0);
        map_set(&mut self.overwatch_node_stake_balance, overwatch_node_id, b.saturating_add(amount));
        self.total_overwatch_node_stake_balance = self.total_overwatch_node_stake_balance.saturating_add(amount);
    }

    pub fn decrease_overwatch_node_stake(&mut self, overwatch_node_id: u32, amount: u128)
        ensures
            final(self).overwatch_stake_moved(*old(self), overwatch_node_id, amount, false),
            final(self).only_overwatch_stake_changed(*old(self)),
            final(self).overwatch_stake_frame(*old(self)),
            final(self).same_unbonding(*old(self)),
            final(self).same_rate_limit(*old(self)),
    {
        let b = map_get(&self.overwatch_node_stake_balance, overwatch_node_id, 0);
        map_set(&mut self.overwatch_node_stake_balance, overwatch_node_id, b.saturating_sub(amount));
        self.total_overwatch_node_stake_balance = self.total_overwatch_node_stake_balance.saturating_sub(amount);
    }

    /// Why `coldkey` may not act on the stake of overwatch node `n`, if so.
    pub open spec fn overwatch_owner_error(&self, coldkey: u64, n: u32) -> Option<NetworkError> {
        if !self.overwatch_node_validator_id@.contains_key(n) {
            Some(NetworkError::InvalidSubnetNodeId)
        } else if !self.validator_coldkey@.contains_key(self.overwatch_node_validator_id@[n]) {
            Some(NetworkError::InvalidValidatorId)
        } else if self.validator_coldkey@[self.overwatch_node_validator_id@[n]] != coldkey {
            Some(NetworkError::NotKeyOwner)
        } else {
            None
        }
    }

    fn check_overwatch_owner(&self, coldkey: u64, overwatch_node_id: u32) -> (r: Result<(), NetworkError>)
        ensures
            match self.overwatch_owner_error(coldkey, overwatch_node_id) {
                Some(e) => r == Err::<(), NetworkError>(e),
                None => r is Ok,
            },
    {
        let validator_id: u32 = match self.overwatch_node_validator_id.get(&overwatch_node_id) {
            Some(v) => *v,
            None => return Err(NetworkError::InvalidSubnetNodeId),
        };
        let owner: u64 = match self.validator_coldkey.get(&validator_id) {
            Some(c) => *c,
            None => return Err(NetworkError::InvalidValidatorId),
        };
        if coldkey != owner {
            return Err(NetworkError::NotKeyOwner);
        }
        Ok(())
    }

    /// Why adding `amount` to overwatch node `n`'s stake is refused, if it is.
    pub open spec fn add_overwatch_stake_error(&self, coldkey: u64, n: u32, amount: u128, funds: WithdrawCheck) -> Option<NetworkError> {
        if self.overwatch_owner_error(coldkey, n) is Some {
            self.overwatch_owner_error(coldkey, n)
        } else if amount == 0 {
            Some(NetworkError::InvalidAmount)
        } else if sat_add(get_or(self.overwatch_node_stake_balance@, n, 0u128), amount) < self.overwatch_min_stake_balance {
            Some(NetworkError::MinStakeNotReached)
        } else if funds == WithdrawCheck::NotEnough {
            Some(NetworkError::NotEnoughBalanceToStake)
        } else if funds == WithdrawCheck::WithdrawFails {
            Some(NetworkError::BalanceWithdrawalError)
        } else {
            None
        }
    }

    /// Add free balance of `coldkey` to overwatch node `overwatch_node_id`'s
    /// stake; the result must reach the overwatch minimum. On success the caller
    /// withdraws the amount.
    pub fn do_add_overwatch_node_stake(
        &mut self,
        coldkey: u64,
        overwatch_node_id: u32,
        stake_to_be_added: u128,
        funds: WithdrawCheck,
    ) -> (r: Result<(), NetworkError>)
        ensures
            match old(self).add_overwatch_stake_error(coldkey, overwatch_node_id, stake_to_be_added, funds) {
                Some(e) => r == Err::<(), NetworkError>(e) && *final(self) == *old(self),
                None => {
                    &&& r is Ok
                    &&& final(self).overwatch_stake_moved(*old(self), overwatch_node_id, stake_to_be_added, true)
                    &&& final(self).overwatch_stake_frame(*old(self))
                    &&& final(self).only_overwatch_stake_changed(*old(self))
                    &&& final(self).same_unbonding(*old(self))
                    &&& final(self).same_rate_limit(*old(self))
                },
            },
    {
        let owner = self.check_overwatch_owner(coldkey, overwatch_node_id);
        if owner.is_err() {
            return owner;
        }
        if stake_to_be_added == 0 {
            return Err(NetworkError::InvalidAmount);
        }
        let b = map_get(&self.overwatch_node_stake_balance, overwatch_node_id, 0);
        if b.saturating_add(stake_to_be_added) < self.overwatch_min_stake_balance {
            return Err(NetworkError::MinStakeNotReached);
        }
        if funds == WithdrawCheck::NotEnough {
            return Err(NetworkError::NotEnoughBalanceToStake);
        }
        if funds == WithdrawCheck::WithdrawFails {
            return Err(NetworkError::BalanceWithdrawalError);
        }
        self.increase_overwatch_node_stake(overwatch_node_id, stake_to_be_added);
        Ok(())
    }

    /// Why removing `amount` from overwatch node `n`'s stake is refused before
    /// anything changes, if it is.
    pub open spec fn remove_overwatch_stake_error(&self, coldkey: u64, n: u32, is_overwatch_node: bool, amount: u128) -> Option<NetworkError> {
        let b = get_or(self.overwatch_node_stake_balance@, n, 0u128);
        if self.overwatch_owner_error(coldkey, n) is Some {
            self.overwatch_owner_error(coldkey, n)
        } else if amount == 0 {
            Some(NetworkError::AmountZero)
        } else if b < amount {
            Some(NetworkError::NotEnoughStakeToWithdraw)
        } else if is_overwatch_node && sat_sub(b, amount) < self.overwatch_min_stake_balance {
            Some(NetworkError::MinStakeNotReached)
        } else {
            None
        }
    }

    /// Remove stake of overwatch node `overwatch_node_id` into the coldkey's
    /// unbonding ledger; a live overwatch node keeps at least the minimum.
    pub fn do_remove_overwatch_node_stake(
        &mut self,
        coldkey: u64,
        overwatch_node_id: u32,
        is_overwatch_node: bool,
        stake_to_be_removed: u128,
        block: u32,
    ) -> (r: Result<(), NetworkError>)
        requires
            old(self).stake_cooldown_epochs * old(self).epoch_length <= u32::MAX,
            old(self).ledger_of(coldkey).len() < u32::MAX,
            old(self).pending_deposits@.len() + old(self).ledger_of(coldkey).len() <= usize::MAX,
        ensures
            match old(self).remove_overwatch_stake_error(coldkey, overwatch_node_id, is_overwatch_node, stake_to_be_removed) {
                Some(e) => r == Err::<(), NetworkError>(e) && *final(self) == *old(self),
                None => {
                    &&& final(self).overwatch_stake_moved(*old(self), overwatch_node_id, stake_to_be_removed, false)
                    &&& final(self).overwatch_stake_frame(*old(self))
                    &&& final(self).same_rate_limit(*old(self))
                    &&& final(self).unbonding_added(
                        *old(self),
                        coldkey,
                        stake_to_be_removed,
                        old(self).stake_cooldown_blocks(),
                        block,
                        r is Ok,
                    )
                    &&& r is Err ==> r == Err::<(), NetworkError>(NetworkError::MaxUnlockingsReached)
                },
            },
    {
        let owner = self.check_overwatch_owner(coldkey, overwatch_node_id);
        if owner.is_err() {
            return owner;
        }
        if stake_to_be_removed == 0 {
            return Err(NetworkError::AmountZero);
        }
        let b = map_get(&self.overwatch_node_stake_balance, overwatch_node_id, 0);
        if b < stake_to_be_removed {
            return Err(NetworkError::NotEnoughStakeToWithdraw);
        }
        if is_overwatch_node && b.saturating_sub(stake_to_be_removed) < self.overwatch_min_stake_balance {
            return Err(NetworkError::MinStakeNotReached);
        }
        self.decrease_overwatch_node_stake(overwatch_node_id, stake_to_be_removed);
        let cooldown = self.stake_cooldown_epochs * self.epoch_length;
        self.add_balance_to_unbonding_ledger(coldkey, stake_to_be_removed, cooldown, block)
    }

    /// The delegate account balance of `a` moved by `amount` (up saturating,
    /// down floored at zero), and so did the total.
    pub open spec fn delegate_account_moved(&self, o: Network, a: u64, amount: u128, up: bool) -> bool {
        let b = get_or(o.account_delegate_stake@, a, 0u128);
        &&& self.account_delegate_stake@ == o.account_delegate_stake@.insert(
            a,
            if up { sat_add(b, amount) } else { sat_sub(b, amount) },
        )
        &&& self.total_account_delegate_stake == if up {
            sat_add(o.total_account_delegate_stake, amount)
        } else {
            sat_sub(o.total_account_delegate_stake, amount)
        }
    }

    /// Every group of state but the delegate account balances, the unbonding
    /// ledger and the rate-limit blocks equals that of `o`.
    pub open spec fn delegate_account_frame(&self, o: Network) -> bool {
        &&& self.same_settings(o)
        &&& self.same_subnet_pool(o)
        &&& self.same_validator_pool(o)
        &&& self.same_node_pool(o)
        &&& self.same_node_stake(o)
        &&& self.same_overwatch_stake(o)
        &&& self.same_swap_queue(o)
    }

    pub fn increase_delegate_account_balance(&mut self, account_id: u64, amount: u128)
        ensures
            final(self).delegate_account_moved(*old(self), account_id, amount, true),
            final(self).delegate_account_frame(*old(self)),
            final(self).same_unbonding(*old(self)),
            final(self).same_rate_limit(*old(self)),
    {
        let b = map_get(&self.account_delegate_stake, account_id, 0);
        map_set(&mut self.account_delegate_stake, account_id, b.saturating_add(amount));
        self.total_account_delegate_stake = self.total_account_delegate_stake.saturating_add(amount);
    }

    pub fn decrease_delegate_account_balance(&mut self, account_id: u64, amount: u128)
        ensures
            final(self).delegate_account_moved(*old(self), account_id, amount, false),
            final(self).delegate_account_frame(*old(self)),
            final(self).same_unbonding(*old(self)),
            final(self).same_rate_limit(*old(self)),
    {
        let b = map_get(&self.account_delegate_stake, account_id, 0);
        map_set(&mut self.account_delegate_stake, account_id, b.saturating_sub(amount));
        self.total_account_delegate_stake = self.total_account_delegate_stake.saturating_sub(amount);
    }

    /// Move `amount_to_remove` of the account's delegate balance into its
    /// unbonding ledger.
    pub fn do_remove_delegate_balance(&mut self, account_id: u64, amount_to_remove: u128, block: u32)
        -> (r: Result<(), NetworkError>)
        requires
            old(self).stake_cooldown_epochs * old(self).epoch_length <= u32::MAX,
            old(self).ledger_of(account_id).len() < u32::MAX,
            old(self).pending_deposits@.len() + old(self).ledger_of(account_id).len() <= usize::MAX,
        ensures
            ({
                let b = get_or(old(self).account_delegate_stake@, account_id, 0u128);
                if amount_to_remove == 0 {
                    r == Err::<(), NetworkError>(NetworkError::AmountZero) && *final(self) == *old(self)
                } else if b < amount_to_remove {
                    r == Err::<(), NetworkError>(NetworkError::NotEnoughStakeToWithdraw) && *final(self) == *old(self)
                } else {
                    &&& final(self).delegate_account_moved(*old(self), account_id, amount_to_remove, false)
                    &&& final(self).delegate_account_frame(*old(self))
                    &&& final(self).same_rate_limit(*old(self))
                    &&& final(self).unbonding_added(
                        *old(self),
                        account_id,
                        amount_to_remove,
                        old(self).stake_cooldown_blocks(),
                        block,
                        r is Ok,
                    )
                    &&& r is Err ==> r == Err::<(), NetworkError>(NetworkError::MaxUnlockingsReached)
                }
            }),
    {
        let b = map_get(&self.account_delegate_stake, account_id, 0);
        if amount_to_remove == 0 {
            return Err(NetworkError::AmountZero);
        }
        if b < amount_to_remove {
            return Err(NetworkError::NotEnoughStakeToWithdraw);
        }
        self.decrease_delegate_account_balance(account_id, amount_to_remove);
        let cooldown = self.stake_cooldown_epochs * self.epoch_length;
        self.add_balance_to_unbonding_ledger(account_id, amount_to_remove, cooldown, block)
    }
}

} // verus!
