//! Subnet delegate stake: accounts deposit balance into a per-subnet pool and
//! receive shares of it.

use vstd::prelude::*;
use crate::types::{NetworkError, QueuedSwapCall, MIN_LIQUIDITY, MAX_SWAP_QUEUE_LEN};
use crate::network::{
    Network, WithdrawCheck, get_or, sat_add, sat_sub, sat_add_i128, sat_sub_i128, as_flow,
    map_get, map_set, saturating_add_i128, saturating_sub_i128, balance_as_flow,
};
use crate::math::{convert_to_shares, convert_to_balance, spec_convert_to_balance};
use crate::registry::flat;
use crate::pools::{pool_credited, pool_debited, seeded, deposit_shares};

verus! {

impl Network {
    /// Subnet delegate pool `s` and account `a` were credited `amount` and `shares`
    /// starting from the pool maps `ts0` and the rest of `o`.
    pub open spec fn subnet_pool_credited_from(
        &self,
        o: Network,
        ts0: Map<u32, u128>,
        a: u64,
        s: u32,
        amount: u128,
        shares: u128,
    ) -> bool {
        &&& pool_credited(
            ts0,
            o.total_subnet_delegate_stake_balance@,
            o.account_subnet_delegate_stake_shares@,
            self.total_subnet_delegate_stake_shares@,
            self.total_subnet_delegate_stake_balance@,
            self.account_subnet_delegate_stake_shares@,
            s,
            (a, s),
            amount,
            shares,
        )
        &&& self.total_delegate_stake == sat_add(o.total_delegate_stake, amount)
        &&& self.subnet_net_flow@ == o.subnet_net_flow@.insert(
            s,
            sat_add_i128(get_or(o.subnet_net_flow@, s, 0i128), as_flow(amount)),
        )
    }

    /// Subnet delegate pool `s` and account `a` were debited `amount` and `shares`.
    pub open spec fn subnet_pool_debited(&self, o: Network, a: u64, s: u32, amount: u128, shares: u128) -> bool {
        &&& pool_debited(
            o.total_subnet_delegate_stake_shares@,
            o.total_subnet_delegate_stake_balance@,
            o.account_subnet_delegate_stake_shares@,
            self.total_subnet_delegate_stake_shares@,
            self.total_subnet_delegate_stake_balance@,
            self.account_subnet_delegate_stake_shares@,
            s,
            (a, s),
            amount,
            shares,
        )
        &&& self.total_delegate_stake == sat_sub(o.total_delegate_stake, amount)
        &&& self.subnet_net_flow@ == o.subnet_net_flow@.insert(
            s,
            sat_sub_i128(get_or(o.subnet_net_flow@, s, 0i128), as_flow(amount)),
        )
    }

    /// Every group of state but the subnet delegate pools, the unbonding ledger,
    /// the swap queue and the rate-limit blocks equals that of `o`.
    pub open spec fn subnet_pool_frame(&self, o: Network) -> bool {
        &&& self.same_settings(o)
        &&& self.same_validator_pool(o)
        &&& self.same_node_pool(o)
        &&& self.same_node_stake(o)
        &&& self.same_overwatch_stake(o)
        &&& self.same_delegate_account(o)
    }

    /// Every group of state but the subnet delegate pools equals that of `o`.
    pub open spec fn only_subnet_pool_changed(&self, o: Network) -> bool {
        &&& self.subnet_pool_frame(o)
        &&& self.same_unbonding(o)
        &&& self.same_swap_queue(o)
        &&& self.same_rate_limit(o)
    }

    /// What a deposit of `amount` into subnet `s`'s pool returns: the amount and
    /// the shares minted, or an error when it would mint no shares.
    pub open spec fn subnet_deposit_result(&self, s: u32, amount: u128) -> (Result<(), NetworkError>, u128, u128) {
        let shares = deposit_shares(self.total_subnet_delegate_stake_shares@, self.total_subnet_delegate_stake_balance@, s, amount);
        if shares == 0 {
            (Err(NetworkError::CouldNotConvertToShares), 0u128, 0u128)
        } else {
            (Ok(()), amount, shares)
        }
    }

    /// The subnet pool fields of `final` follow `o` by a deposit of `amount` into
    /// subnet `s`'s pool for account `a`: an empty pool first receives
    /// `MIN_LIQUIDITY` dead shares; nothing else changes when the deposit would
    /// mint no shares.
    pub open spec fn subnet_deposited(&self, o: Network, a: u64, s: u32, amount: u128) -> bool {
        let ts0 = o.total_subnet_delegate_stake_shares@;
        let shares = deposit_shares(ts0, o.total_subnet_delegate_stake_balance@, s, amount);
        &&& shares == 0 ==> {
            &&& self.total_subnet_delegate_stake_shares@ == seeded(ts0, s)
            &&& self.total_subnet_delegate_stake_balance@ == o.total_subnet_delegate_stake_balance@
            &&& self.account_subnet_delegate_stake_shares@ == o.account_subnet_delegate_stake_shares@
            &&& self.total_delegate_stake == o.total_delegate_stake
            &&& self.subnet_net_flow@ == o.subnet_net_flow@
        }
        &&& shares != 0 ==> self.subnet_pool_credited_from(o, seeded(ts0, s), a, s, amount, shares)
    }

    /// Credit an account with `shares` and the subnet pool with `amount`.
    pub fn increase_account_delegate_stake(&mut self, account_id: u64, subnet_id: u32, amount: u128, shares: u128)
        ensures
            final(self).subnet_pool_credited_from(
                *old(self),
                old(self).total_subnet_delegate_stake_shares@,
                account_id,
                subnet_id,
                amount,
                shares,
            ),
            final(self).only_subnet_pool_changed(*old(self)),
    {
        let acc = map_get(&self.account_subnet_delegate_stake_shares, (account_id, subnet_id), 0);
        map_set(&mut self.account_subnet_delegate_stake_shares, (account_id, subnet_id), acc.saturating_add(shares));
        let bal = map_get(&self.total_subnet_delegate_stake_balance, subnet_id, 0);
        map_set(&mut self.total_subnet_delegate_stake_balance, subnet_id, bal.saturating_add(amount));
        let tot = map_get(&self.total_subnet_delegate_stake_shares, subnet_id, 0);
        map_set(&mut self.total_subnet_delegate_stake_shares, subnet_id, tot.saturating_add(shares));
        self.total_delegate_stake = self.total_delegate_stake.saturating_add(amount);
        let flow = map_get(&self.subnet_net_flow, subnet_id, 0);
        let delta = balance_as_flow(amount);
        map_set(&mut self.subnet_net_flow, subnet_id, saturating_add_i128(flow, delta));
    }

    /// Debit an account by `shares` and the subnet pool by `amount`.
    pub fn decrease_account_delegate_stake(&mut self, account_id: u64, subnet_id: u32, amount: u128, shares: u128)
        ensures
            final(self).subnet_pool_debited(*old(self), account_id, subnet_id, amount, shares),
            final(self).only_subnet_pool_changed(*old(self)),
    {
        let acc = map_get(&self.account_subnet_delegate_stake_shares, (account_id, subnet_id), 0);
        map_set(&mut self.account_subnet_delegate_stake_shares, (account_id, subnet_id), acc.saturating_sub(shares));
        let bal = map_get(&self.total_subnet_delegate_stake_balance, subnet_id, 0);
        map_set(&mut self.total_subnet_delegate_stake_balance, subnet_id, bal.saturating_sub(amount));
        let tot = map_get(&self.total_subnet_delegate_stake_shares, subnet_id, 0);
        map_set(&mut self.total_subnet_delegate_stake_shares, subnet_id, tot.saturating_sub(shares));
        self.total_delegate_stake = self.total_delegate_stake.saturating_sub(amount);
        let flow = map_get(&self.subnet_net_flow, subnet_id, 0);
        let delta = balance_as_flow(amount);
        map_set(&mut self.subnet_net_flow, subnet_id, saturating_sub_i128(flow, delta));
    }

    /// Deposit `amount` into subnet `subnet_id`'s pool for `account_id`; an empty
    /// pool first receives `MIN_LIQUIDITY` dead shares. Fails, after that seeding,
    /// when the deposit would mint no shares. Returns the amount and the shares.
    pub fn handle_increase_account_delegate_stake(&mut self, account_id: u64, subnet_id: u32, amount: u128)
        -> (r: (Result<(), NetworkError>, u128, u128))
        ensures
            r == old(self).subnet_deposit_result(subnet_id, amount),
            final(self).subnet_deposited(*old(self), account_id, subnet_id, amount),
            final(self).only_subnet_pool_changed(*old(self)),
    {
        let current = map_get(&self.total_subnet_delegate_stake_shares, subnet_id, 0);
        let total_shares = if current == 0 {
            map_set(&mut self.total_subnet_delegate_stake_shares, subnet_id, 0u128.saturating_add(MIN_LIQUIDITY));
            0
        } else {
            current
        };
        let total_balance = map_get(&self.total_subnet_delegate_stake_balance, subnet_id, 0);
        let shares = convert_to_shares(amount, total_shares, total_balance);
        if shares == 0 {
            return (Err(NetworkError::CouldNotConvertToShares), 0, 0);
        }
        self.increase_account_delegate_stake(account_id, subnet_id, amount, shares);
        (Ok(()), amount, shares)
    }

    /// Why a delegate stake deposit of `amount` by `account_id` at `block` is
    /// refused before it touches any pool, if it is. `swap` deposits move stake
    /// already held by the network and skip the balance checks.
    pub open spec fn add_delegate_error(&self, account_id: u64, amount: u128, swap: bool, funds: WithdrawCheck, block: u32) -> Option<NetworkError> {
        if amount < self.min_delegate_stake_deposit {
            Some(NetworkError::MinDelegateStakeDepositNotReached)
        } else if !swap && funds == WithdrawCheck::NotEnough {
            Some(NetworkError::NotEnoughBalanceToStake)
        } else if self.spec_rate_limited(account_id, block) {
            Some(NetworkError::TxRateLimitExceeded)
        } else if !swap && funds == WithdrawCheck::WithdrawFails {
            Some(NetworkError::BalanceWithdrawalError)
        } else {
            None
        }
    }

    /// Add `delegate_stake_to_be_added` to subnet `subnet_id`'s delegate pool for
    /// `account_id` at `block`. `funds` is what the currency answers for a
    /// withdrawal of that amount from the account; on success (and when not
    /// `swap`) the caller withdraws it. Returns the amount and the shares minted.
    pub fn perform_do_add_delegate_stake(
        &mut self,
        account_id: u64,
        subnet_id: u32,
        delegate_stake_to_be_added: u128,
        swap: bool,
        funds: WithdrawCheck,
        block: u32,
    ) -> (r: (Result<(), NetworkError>, u128, u128))
        ensures
            match old(self).add_delegate_error(account_id, delegate_stake_to_be_added, swap, funds, block) {
                Some(e) => r == (Err::<(), NetworkError>(e), 0u128, 0u128) && *final(self) == *old(self),
                None => {
                    &&& r == old(self).subnet_deposit_result(subnet_id, delegate_stake_to_be_added)
                    &&& final(self).subnet_deposited(*old(self), account_id, subnet_id, delegate_stake_to_be_added)
                    &&& final(self).only_subnet_pool_changed(*old(self))
                },
            },
    {
        if delegate_stake_to_be_added < self.min_delegate_stake_deposit {
            return (Err(NetworkError::MinDelegateStakeDepositNotReached), 0, 0);
        }
        if !swap && funds == WithdrawCheck::NotEnough {
            return (Err(NetworkError::NotEnoughBalanceToStake), 0, 0);
        }
        if self.exceeds_tx_rate_limit(self.get_last_tx_block(account_id), block) {
            return (Err(NetworkError::TxRateLimitExceeded), 0, 0);
        }
        if !swap && funds == WithdrawCheck::WithdrawFails {
            return (Err(NetworkError::BalanceWithdrawalError), 0, 0);
        }
        self.handle_increase_account_delegate_stake(account_id, subnet_id, delegate_stake_to_be_added)
    }

    /// `final` follows `o` by a delegate stake deposit from the account's free balance that returned `r`.
    pub open spec fn delegate_stake_added(&self, o: Network, account_id: u64, subnet_id: u32, delegate_stake_to_be_added: u128, funds: WithdrawCheck, block: u32, r: Result<(), NetworkError>) -> bool {
        match o.add_delegate_error(account_id, delegate_stake_to_be_added, false, funds, block) {
            Some(e) => r == Err::<(), NetworkError>(e) && *self == o,
            None => {
                let res = o.subnet_deposit_result(subnet_id, delegate_stake_to_be_added);
                &&& r == res.0
                &&& self.subnet_deposited(o, account_id, subnet_id, delegate_stake_to_be_added)
                &&& self.subnet_pool_frame(o)
                &&& self.same_unbonding(o)
                &&& self.same_swap_queue(o)
                &&& r is Ok ==> self.last_tx_block@ == o.last_tx_block@.insert(account_id, block)
                &&& r is Err ==> self.same_rate_limit(o)
            },
        }
    }

    /// Deposit into a subnet delegate pool from the account's free balance and
    /// record `block` as its last rate-limited transaction.
    pub fn do_add_delegate_stake(
        &mut self,
        account_id: u64,
        subnet_id: u32,
        delegate_stake_to_be_added: u128,
        funds: WithdrawCheck,
        block: u32,
    ) -> (r: Result<(), NetworkError>)
        ensures
            final(self).delegate_stake_added(*old(self), account_id, subnet_id, delegate_stake_to_be_added, funds, block, r),

    {
        let (result, _balance, _shares) = self.perform_do_add_delegate_stake(
            account_id,
            subnet_id,
            delegate_stake_to_be_added,
            false,
            funds,
            block,
        );
        if result.is_err() {
            return result;
        }
        self.set_last_tx_block(account_id, block);
        Ok(())
    }

    /// Transactions are refused while the network is paused.
    pub fn is_paused(&self) -> (r: Result<(), NetworkError>)
        ensures
            r == if self.tx_pause { Err::<(), NetworkError>(NetworkError::Paused) } else { Ok(()) },
    {
        if self.tx_pause {
            Err(NetworkError::Paused)
        } else {
            Ok(())
        }
    }

    /// Delegate stake to an existing subnet (the `add_to_delegate_stake` call).
    /// The call is all or nothing: when it is refused, nothing is written, also
    /// when the deposit would mint no shares.
    pub fn add_to_delegate_stake(
        &mut self,
        account_id: u64,
        subnet_id: u32,
        stake_to_be_added: u128,
        funds: WithdrawCheck,
        block: u32,
    ) -> (r: Result<(), NetworkError>)
        ensures
            r is Err ==> *final(self) == *old(self),
            old(self).tx_pause ==> r == Err::<(), NetworkError>(NetworkError::Paused),
            !old(self).tx_pause && !old(self).subnets_data@.contains_key(subnet_id) ==>
                r == Err::<(), NetworkError>(NetworkError::InvalidSubnetId),
            !old(self).tx_pause && old(self).subnets_data@.contains_key(subnet_id) ==>
                match old(self).add_delegate_error(account_id, stake_to_be_added, false, funds, block) {
                    Some(e) => r == Err::<(), NetworkError>(e),
                    None => if deposit_shares(
                        old(self).total_subnet_delegate_stake_shares@,
                        old(self).total_subnet_delegate_stake_balance@,
                        subnet_id,
                        stake_to_be_added,
                    ) == 0 {
                        r == Err::<(), NetworkError>(NetworkError::CouldNotConvertToShares)
                    } else {
                        r is Ok && final(self).delegate_stake_added(*old(self), account_id, subnet_id, stake_to_be_added, funds, block, r)
                    },
                },
    {
        let paused = self.is_paused();
        if paused.is_err() {
            return paused;
        }
        if !self.subnets_data.contains_key(&subnet_id) {
            return Err(NetworkError::InvalidSubnetId);
        }
        if stake_to_be_added < self.min_delegate_stake_deposit {
            return Err(NetworkError::MinDelegateStakeDepositNotReached);
        }
        if funds == WithdrawCheck::NotEnough {
            return Err(NetworkError::NotEnoughBalanceToStake);
        }
        if self.exceeds_tx_rate_limit(self.get_last_tx_block(account_id), block) {
            return Err(NetworkError::TxRateLimitExceeded);
        }
        if funds == WithdrawCheck::WithdrawFails {
            return Err(NetworkError::BalanceWithdrawalError);
        }
        let total_shares = map_get(&self.total_subnet_delegate_stake_shares, subnet_id, 0);
        let total_balance = map_get(&self.total_subnet_delegate_stake_balance, subnet_id, 0);
        if convert_to_shares(stake_to_be_added, total_shares, total_balance) == 0 {
            return Err(NetworkError::CouldNotConvertToShares);
        }
        self.do_add_delegate_stake(account_id, subnet_id, stake_to_be_added, funds, block)
    }

    /// Balance that `shares` of subnet `s`'s pool redeem for.
    pub open spec fn subnet_redeem_amount(&self, s: u32, shares: u128) -> u128 {
        spec_convert_to_balance(
            shares,
            get_or(self.total_subnet_delegate_stake_shares@, s, 0u128),
            get_or(self.total_subnet_delegate_stake_balance@, s, 0u128),
        )
    }

    /// Blocks a subnet delegate stake unbonding waits.
    pub open spec fn delegate_cooldown_blocks(&self) -> u32 {
        (self.delegate_stake_cooldown_epochs * self.epoch_length) as u32
    }

    /// Why removing `shares` of subnet `s`'s pool for `a` at `block` is refused
    /// before anything changes, if it is.
    pub open spec fn remove_delegate_error(&self, a: u64, s: u32, shares: u128, block: u32) -> Option<NetworkError> {
        if shares == 0 {
            Some(NetworkError::SharesZero)
        } else if get_or(self.account_subnet_delegate_stake_shares@, (a, s), 0u128) < shares {
            Some(NetworkError::NotEnoughStakeToWithdraw)
        } else if self.spec_rate_limited(a, block) {
            Some(NetworkError::TxRateLimitExceeded)
        } else {
            None
        }
    }

    /// Redeem `delegate_stake_shares_to_be_removed` shares of subnet `subnet_id`'s
    /// pool for `account_id`. With `add_to_ledger` the balance goes to the
    /// unbonding ledger for the delegate cooldown; otherwise the caller moves it
    /// elsewhere. Returns the balance and the shares removed. When the ledger is
    /// full the pool has still been debited; `remove_delegate_stake` checks for
    /// room before it starts.
    pub fn perform_do_remove_delegate_stake(
        &mut self,
        account_id: u64,
        subnet_id: u32,
        delegate_stake_shares_to_be_removed: u128,
        add_to_ledger: bool,
        block: u32,
    ) -> (r: (Result<(), NetworkError>, u128, u128))
        requires
            add_to_ledger ==> old(self).delegate_stake_cooldown_epochs * old(self).epoch_length <= u32::MAX,
            add_to_ledger ==> old(self).ledger_of(account_id).len() < u32::MAX,
            add_to_ledger ==> old(self).pending_deposits@.len() + old(self).ledger_of(account_id).len() <= usize::MAX,
        ensures
            match old(self).remove_delegate_error(account_id, subnet_id, delegate_stake_shares_to_be_removed, block) {
                Some(e) => r == (Err::<(), NetworkError>(e), 0u128, 0u128) && *final(self) == *old(self),
                None => {
                    let shares = delegate_stake_shares_to_be_removed;
                    let amount = old(self).subnet_redeem_amount(subnet_id, shares);
                    &&& final(self).subnet_pool_debited(*old(self), account_id, subnet_id, amount, shares)
                    &&& final(self).subnet_pool_frame(*old(self))
                    &&& final(self).same_swap_queue(*old(self))
                    &&& final(self).same_rate_limit(*old(self))
                    &&& add_to_ledger ==> {
                        &&& final(self).unbonding_added(
                            *old(self),
                            account_id,
                            amount,
                            old(self).delegate_cooldown_blocks(),
                            block,
                            r.0 is Ok,
                        )
                        &&& r.0 is Ok ==> r == (Ok::<(), NetworkError>(()), amount, shares)
                        &&& r.0 is Err ==> r == (Err::<(), NetworkError>(NetworkError::MaxUnlockingsReached), 0u128, 0u128)
                    }
                    &&& !add_to_ledger ==> r == (Ok::<(), NetworkError>(()), amount, shares) && final(self).same_unbonding(*old(self))
                },
            },
    {
        if delegate_stake_shares_to_be_removed == 0 {
            return (Err(NetworkError::SharesZero), 0, 0);
        }
        let account_shares = map_get(&self.account_subnet_delegate_stake_shares, (account_id, subnet_id), 0);
        if account_shares < delegate_stake_shares_to_be_removed {
            return (Err(NetworkError::NotEnoughStakeToWithdraw), 0, 0);
        }
        let total_shares = map_get(&self.total_subnet_delegate_stake_shares, subnet_id, 0);
        let total_balance = map_get(&self.total_subnet_delegate_stake_balance, subnet_id, 0);
        let amount = convert_to_balance(delegate_stake_shares_to_be_removed, total_shares, total_balance);
        if self.exceeds_tx_rate_limit(self.get_last_tx_block(account_id), block) {
            return (Err(NetworkError::TxRateLimitExceeded), 0, 0);
        }
        self.decrease_account_delegate_stake(account_id, subnet_id, amount, delegate_stake_shares_to_be_removed);
        if add_to_ledger {
            let cooldown = self.delegate_stake_cooldown_epochs * self.epoch_length;
            let result = self.add_balance_to_unbonding_ledger(account_id, amount, cooldown, block);
            if result.is_err() {
                return (result, 0, 0);
            }
        }
        (Ok(()), amount, delegate_stake_shares_to_be_removed)
    }

    /// `final` follows `o` by a removal of delegate stake into the unbonding ledger that returned `r`.
    pub open spec fn delegate_stake_removed(&self, o: Network, account_id: u64, subnet_id: u32, delegate_stake_shares_to_be_removed: u128, block: u32, r: Result<(), NetworkError>) -> bool {
        match o.remove_delegate_error(account_id, subnet_id, delegate_stake_shares_to_be_removed, block) {
            Some(e) => r == Err::<(), NetworkError>(e) && *self == o,
            None => {
                let shares = delegate_stake_shares_to_be_removed;
                let amount = o.subnet_redeem_amount(subnet_id, shares);
                &&& self.subnet_pool_debited(o, account_id, subnet_id, amount, shares)
                &&& self.subnet_pool_frame(o)
                &&& self.same_swap_queue(o)
                &&& self.unbonding_added(
                    o,
                    account_id,
                    amount,
                    o.delegate_cooldown_blocks(),
                    block,
                    r is Ok,
                )
                &&& r is Err ==> r == Err::<(), NetworkError>(NetworkError::MaxUnlockingsReached)
                    && self.same_rate_limit(o)
                &&& r is Ok ==> self.last_tx_block@ == o.last_tx_block@.insert(account_id, block)
            },
        }
    }

    /// Remove subnet delegate stake into the unbonding ledger and record `block`
    /// as the account's last rate-limited transaction.
    pub fn do_remove_delegate_stake(
        &mut self,
        account_id: u64,
        subnet_id: u32,
        delegate_stake_shares_to_be_removed: u128,
        block: u32,
    ) -> (r: Result<(), NetworkError>)
        requires
            old(self).delegate_stake_cooldown_epochs * old(self).epoch_length <= u32::MAX,
            old(self).ledger_of(account_id).len() < u32::MAX,
            old(self).pending_deposits@.len() + old(self).ledger_of(account_id).len() <= usize::MAX,
        ensures
            final(self).delegate_stake_removed(*old(self), account_id, subnet_id, delegate_stake_shares_to_be_removed, block, r),

    {
        let (result, _amount, _shares) = self.perform_do_remove_delegate_stake(
            account_id,
            subnet_id,
            delegate_stake_shares_to_be_removed,
            true,
            block,
        );
        if result.is_err() {
            return result;
        }
        let ghost mid = *self;
        self.set_last_tx_block(account_id, block);
        proof {
            assert forall|a: u64| a != account_id implies #[trigger] self.ledger_of(a) == old(self).ledger_of(a) by {
                assert(mid.ledger_of(a) == old(self).ledger_of(a));
            }
        }
        Ok(())
    }

    /// `final` follows `o` by a swap of delegate stake into the queue that returned `r`.
    pub open spec fn delegate_stake_swapped(&self, o: Network, account_id: u64, from_subnet_id: u32, to_subnet_id: u32, delegate_stake_shares_to_swap: u128, block: u32, r: Result<(), NetworkError>) -> bool {
        if o.swap_queue_full() {
            r == Err::<(), NetworkError>(NetworkError::SwapQueueFull) && *self == o
        } else { match o.remove_delegate_error(account_id, from_subnet_id, delegate_stake_shares_to_swap, block) {
            Some(e) => r == Err::<(), NetworkError>(e) && *self == o,
            None => {
                let shares = delegate_stake_shares_to_swap;
                let amount = o.subnet_redeem_amount(from_subnet_id, shares);
                &&& r is Ok
                &&& self.subnet_pool_debited(o, account_id, from_subnet_id, amount, shares)
                &&& self.subnet_pool_frame(o)
                &&& self.same_unbonding(o)
                &&& self.same_rate_limit(o)
                &&& self.swap_queued(
                    o,
                    QueuedSwapCall::SwapToSubnetDelegateStake { account_id, to_subnet_id, balance: amount },
                    block,
                )
            },
        } }
    }

    /// Swap subnet delegate stake from `from_subnet_id` to `to_subnet_id`: the
    /// shares are redeemed now and the balance is queued for the destination pool.
    /// A full swap queue refuses the swap before anything changes.
    pub fn do_swap_delegate_stake(
        &mut self,
        account_id: u64,
        from_subnet_id: u32,
        to_subnet_id: u32,
        delegate_stake_shares_to_swap: u128,
        block: u32,
    ) -> (r: Result<(), NetworkError>)
        ensures
            final(self).delegate_stake_swapped(*old(self), account_id, from_subnet_id, to_subnet_id, delegate_stake_shares_to_swap, block, r),

    {
        if self.swap_queue_order.len() >= MAX_SWAP_QUEUE_LEN {
            return Err(NetworkError::SwapQueueFull);
        }
        let (result, balance, _shares) = self.perform_do_remove_delegate_stake(
            account_id,
            from_subnet_id,
            delegate_stake_shares_to_swap,
            false,
            block,
        );
        if result.is_err() {
            return result;
        }
        let call = QueuedSwapCall::SwapToSubnetDelegateStake { account_id, to_subnet_id, balance };
        self.queue_swap(account_id, call, block)
    }

    /// `final` follows `o` by a transfer of delegate stake shares that returned `r`.
    pub open spec fn delegate_stake_transferred(&self, o: Network, account_id: u64, subnet_id: u32, to_account_id: u64, delegate_stake_shares_to_transfer: u128, r: Result<(), NetworkError>) -> bool {
        ({
            let shares = delegate_stake_shares_to_transfer;
            let amount = o.subnet_redeem_amount(subnet_id, shares);
            let acc0 = o.account_subnet_delegate_stake_shares@;
            let acc1 = acc0.insert((account_id, subnet_id), sat_sub(get_or(acc0, (account_id, subnet_id), 0u128), shares));
            let ts0 = o.total_subnet_delegate_stake_shares@;
            let ts1 = ts0.insert(subnet_id, sat_sub(get_or(ts0, subnet_id, 0u128), shares));
            let tb0 = o.total_subnet_delegate_stake_balance@;
            let flow0 = o.subnet_net_flow@;
            if account_id == to_account_id {
                r == Err::<(), NetworkError>(NetworkError::TransferToSelfNotAllowed) && *self == o
            } else if shares == 0 {
                r == Err::<(), NetworkError>(NetworkError::NotEnoughStakeToWithdraw) && *self == o
            } else if amount < o.min_delegate_stake_deposit {
                r == Err::<(), NetworkError>(NetworkError::MinDelegateStakeDepositNotReached) && *self == o
            } else if get_or(acc0, (account_id, subnet_id), 0u128) < shares {
                r == Err::<(), NetworkError>(NetworkError::NotEnoughStakeToWithdraw) && *self == o
            } else {
                &&& r is Ok
                &&& self.account_subnet_delegate_stake_shares@ == acc1.insert(
                    (to_account_id, subnet_id),
                    sat_add(get_or(acc1, (to_account_id, subnet_id), 0u128), shares),
                )
                &&& self.total_subnet_delegate_stake_shares@ == ts1.insert(
                    subnet_id,
                    sat_add(get_or(ts1, subnet_id, 0u128), shares),
                )
                &&& self.total_subnet_delegate_stake_balance@ == tb0.insert(subnet_id, get_or(tb0, subnet_id, 0u128))
                &&& self.total_delegate_stake == o.total_delegate_stake
                &&& self.subnet_net_flow@ == flow0.insert(subnet_id, get_or(flow0, subnet_id, 0i128))
                &&& self.only_subnet_pool_changed(o)
            }
        })
    }

    /// Move `shares` of subnet `subnet_id`'s pool from `account_id` to
    /// `to_account_id`; the pool balance is untouched. The sender must hold
    /// at least the shares it transfers.
    pub fn do_transfer_delegate_stake(
        &mut self,
        account_id: u64,
        subnet_id: u32,
        to_account_id: u64,
        delegate_stake_shares_to_transfer: u128,
    ) -> (r: Result<(), NetworkError>)
        ensures
            final(self).delegate_stake_transferred(*old(self), account_id, subnet_id, to_account_id, delegate_stake_shares_to_transfer, r),

    {
        if account_id == to_account_id {
            return Err(NetworkError::TransferToSelfNotAllowed);
        }
        if delegate_stake_shares_to_transfer == 0 {
            return Err(NetworkError::NotEnoughStakeToWithdraw);
        }
        let total_shares = map_get(&self.total_subnet_delegate_stake_shares, subnet_id, 0);
        let total_balance = map_get(&self.total_subnet_delegate_stake_balance, subnet_id, 0);
        let amount = convert_to_balance(delegate_stake_shares_to_transfer, total_shares, total_balance);
        if amount < self.min_delegate_stake_deposit {
            return Err(NetworkError::MinDelegateStakeDepositNotReached);
        }
        if map_get(&self.account_subnet_delegate_stake_shares, (account_id, subnet_id), 0) < delegate_stake_shares_to_transfer {
            return Err(NetworkError::NotEnoughStakeToWithdraw);
        }
        let ghost o = *self;
        self.decrease_account_delegate_stake(account_id, subnet_id, 0, delegate_stake_shares_to_transfer);
        let ghost mid = *self;
        self.increase_account_delegate_stake(to_account_id, subnet_id, 0, delegate_stake_shares_to_transfer);
        proof {
            assert(as_flow(0) == 0i128);
            let f0 = get_or(o.subnet_net_flow@, subnet_id, 0i128);
            assert(get_or(mid.subnet_net_flow@, subnet_id, 0i128) == f0);
            assert(get_or(mid.total_subnet_delegate_stake_balance@, subnet_id, 0u128)
                == get_or(o.total_subnet_delegate_stake_balance@, subnet_id, 0u128));
            assert(mid.total_subnet_delegate_stake_balance@.insert(
                subnet_id,
                get_or(o.total_subnet_delegate_stake_balance@, subnet_id, 0u128),
            ) =~= o.total_subnet_delegate_stake_balance@.insert(
                subnet_id,
                get_or(o.total_subnet_delegate_stake_balance@, subnet_id, 0u128),
            ));
            assert(mid.subnet_net_flow@.insert(subnet_id, f0) =~= o.subnet_net_flow@.insert(subnet_id, f0));
        }
        Ok(())
    }

    /// Add `amount` to subnet `subnet_id`'s pool balance without minting shares
    /// (rewards and donations). A pool without balance or shares first receives
    /// `MIN_LIQUIDITY` dead shares. Net flow is not counted.
    pub fn do_increase_delegate_stake(&mut self, subnet_id: u32, amount: u128)
        ensures
            ({
                let ts0 = old(self).total_subnet_delegate_stake_shares@;
                let tb0 = old(self).total_subnet_delegate_stake_balance@;
                let empty = get_or(tb0, subnet_id, 0u128) == 0 || get_or(ts0, subnet_id, 0u128) == 0;
                &&& final(self).total_subnet_delegate_stake_shares@ == if empty {
                    ts0.insert(subnet_id, sat_add(get_or(ts0, subnet_id, 0u128), MIN_LIQUIDITY))
                } else {
                    ts0
                }
                &&& final(self).total_subnet_delegate_stake_balance@ == tb0.insert(
                    subnet_id,
                    sat_add(get_or(tb0, subnet_id, 0u128), amount),
                )
                &&& final(self).total_delegate_stake == sat_add(old(self).total_delegate_stake, amount)
                &&& final(self).account_subnet_delegate_stake_shares@ == old(self).account_subnet_delegate_stake_shares@
                &&& final(self).subnet_net_flow@ == old(self).subnet_net_flow@
            }),
            final(self).only_subnet_pool_changed(*old(self)),
    {
        let balance = map_get(&self.total_subnet_delegate_stake_balance, subnet_id, 0);
        let shares = map_get(&self.total_subnet_delegate_stake_shares, subnet_id, 0);
        if balance == 0 || shares == 0 {
            map_set(&mut self.total_subnet_delegate_stake_shares, subnet_id, shares.saturating_add(MIN_LIQUIDITY));
        }
        map_set(&mut self.total_subnet_delegate_stake_balance, subnet_id, balance.saturating_add(amount));
        self.total_delegate_stake = self.total_delegate_stake.saturating_add(amount);
    }

    /// Balance the shares of `account_id` in subnet `subnet_id`'s pool redeem for.
    pub fn convert_account_shares_to_balance(&self, account_id: u64, subnet_id: u32) -> (r: u128)
        ensures
            r == self.subnet_redeem_amount(
                subnet_id,
                get_or(self.account_subnet_delegate_stake_shares@, (account_id, subnet_id), 0u128),
            ),
    {
        let shares = map_get(&self.account_subnet_delegate_stake_shares, (account_id, subnet_id), 0);
        if shares == 0 {
            return 0;
        }
        let total_shares = map_get(&self.total_subnet_delegate_stake_shares, subnet_id, 0);
        let total_balance = map_get(&self.total_subnet_delegate_stake_balance, subnet_id, 0);
        convert_to_balance(shares, total_shares, total_balance)
    }

    /// Remove subnet delegate stake into the unbonding ledger (the
    /// `remove_delegate_stake` call). The call is all or nothing: when it is
    /// refused, nothing is written, also when the ledger has no room.
    pub fn remove_delegate_stake(&mut self, account_id: u64, subnet_id: u32, shares_to_be_removed: u128, block: u32)
        -> (r: Result<(), NetworkError>)
        requires
            old(self).delegate_stake_cooldown_epochs * old(self).epoch_length <= u32::MAX,
            old(self).ledger_of(account_id).len() < u32::MAX,
            old(self).pending_deposits@.len() + old(self).ledger_of(account_id).len() <= usize::MAX,
        ensures
            r is Err ==> *final(self) == *old(self),
            old(self).tx_pause ==> r == Err::<(), NetworkError>(NetworkError::Paused),
            !old(self).tx_pause ==> match old(self).remove_delegate_error(account_id, subnet_id, shares_to_be_removed, block) {
                Some(e) => r == Err::<(), NetworkError>(e),
                None => if old(self).unbonding_has_room(account_id, block) {
                    r is Ok && final(self).delegate_stake_removed(*old(self), account_id, subnet_id, shares_to_be_removed, block, r)
                } else {
                    r == Err::<(), NetworkError>(NetworkError::MaxUnlockingsReached)
                },
            },
    {
        let paused = self.is_paused();
        if paused.is_err() {
            return paused;
        }
        if shares_to_be_removed == 0 {
            return Err(NetworkError::SharesZero);
        }
        if map_get(&self.account_subnet_delegate_stake_shares, (account_id, subnet_id), 0) < shares_to_be_removed {
            return Err(NetworkError::NotEnoughStakeToWithdraw);
        }
        if self.exceeds_tx_rate_limit(self.get_last_tx_block(account_id), block) {
            return Err(NetworkError::TxRateLimitExceeded);
        }
        if !self.unbonding_room(account_id, block) {
            return Err(NetworkError::MaxUnlockingsReached);
        }
        self.do_remove_delegate_stake(account_id, subnet_id, shares_to_be_removed, block)
    }

    /// Swap subnet delegate stake to an existing subnet (the `swap_delegate_stake` call).
    pub fn swap_delegate_stake(
        &mut self,
        account_id: u64,
        from_subnet_id: u32,
        to_subnet_id: u32,
        delegate_stake_shares_to_swap: u128,
        block: u32,
    ) -> (r: Result<(), NetworkError>)
        ensures
            old(self).tx_pause ==> r == Err::<(), NetworkError>(NetworkError::Paused) && *final(self) == *old(self),
            !old(self).tx_pause && !old(self).subnets_data@.contains_key(to_subnet_id) ==>
                r == Err::<(), NetworkError>(NetworkError::InvalidSubnetId) && *final(self) == *old(self),
            !old(self).tx_pause && old(self).subnets_data@.contains_key(to_subnet_id) ==>
                final(self).delegate_stake_swapped(
                    *old(self),
                    account_id,
                    from_subnet_id,
                    to_subnet_id,
                    delegate_stake_shares_to_swap,
                    block,
                    r,
                ),
    {
        let paused = self.is_paused();
        if paused.is_err() {
            return paused;
        }
        if !self.subnets_data.contains_key(&to_subnet_id) {
            return Err(NetworkError::InvalidSubnetId);
        }
        self.do_swap_delegate_stake(account_id, from_subnet_id, to_subnet_id, delegate_stake_shares_to_swap, block)
    }

    /// Transfer delegate stake shares to another account (the
    /// `transfer_delegate_stake` call).
    pub fn transfer_delegate_stake(
        &mut self,
        account_id: u64,
        subnet_id: u32,
        to_account_id: u64,
        delegate_stake_shares_to_transfer: u128,
    ) -> (r: Result<(), NetworkError>)
        ensures
            old(self).tx_pause ==> r == Err::<(), NetworkError>(NetworkError::Paused) && *final(self) == *old(self),
            !old(self).tx_pause ==>
                final(self).delegate_stake_transferred(
                    *old(self),
                    account_id,
                    subnet_id,
                    to_account_id,
                    delegate_stake_shares_to_transfer,
                    r,
                ),
    {
        let paused = self.is_paused();
        if paused.is_err() {
            return paused;
        }
        self.do_transfer_delegate_stake(account_id, subnet_id, to_account_id, delegate_stake_shares_to_transfer)
    }

    /// Why a donation of `amount` to subnet `subnet_id` is refused, if it is.
    pub open spec fn donate_error(&self, subnet_id: u32, amount: u128, funds: WithdrawCheck) -> Option<NetworkError> {
        if self.tx_pause {
            Some(NetworkError::Paused)
        } else if !self.subnets_data@.contains_key(subnet_id) {
            Some(NetworkError::InvalidSubnetId)
        } else if amount < self.min_delegate_stake_deposit {
            Some(NetworkError::MinDelegateStake)
        } else if funds == WithdrawCheck::NotEnough {
            Some(NetworkError::NotEnoughBalance)
        } else if funds == WithdrawCheck::WithdrawFails {
            Some(NetworkError::BalanceWithdrawalError)
        } else {
            None
        }
    }

    /// Donate `amount` of free balance to subnet `subnet_id`'s delegate pool
    /// (the `donate_delegate_stake` call): the pool balance grows, no shares are
    /// minted. On success the caller withdraws `amount` from `account_id`.
    pub fn donate_delegate_stake(&mut self, account_id: u64, subnet_id: u32, amount: u128, funds: WithdrawCheck)
        -> (r: Result<(), NetworkError>)
        ensures
            match old(self).donate_error(subnet_id, amount, funds) {
                Some(e) => r == Err::<(), NetworkError>(e) && *final(self) == *old(self),
                None => {
                    let ts0 = old(self).total_subnet_delegate_stake_shares@;
                    let tb0 = old(self).total_subnet_delegate_stake_balance@;
                    let empty = get_or(tb0, subnet_id, 0u128) == 0 || get_or(ts0, subnet_id, 0u128) == 0;
                    &&& r is Ok
                    &&& final(self).total_subnet_delegate_stake_shares@ == if empty {
                        ts0.insert(subnet_id, sat_add(get_or(ts0, subnet_id, 0u128), MIN_LIQUIDITY))
                    } else {
                        ts0
                    }
                    &&& final(self).total_subnet_delegate_stake_balance@ == tb0.insert(
                        subnet_id,
                        sat_add(get_or(tb0, subnet_id, 0u128), amount),
                    )
                    &&& final(self).total_delegate_stake == sat_add(old(self).total_delegate_stake, amount)
                    &&& final(self).account_subnet_delegate_stake_shares@ == old(self).account_subnet_delegate_stake_shares@
                    &&& final(self).subnet_net_flow@ == old(self).subnet_net_flow@
                    &&& final(self).only_subnet_pool_changed(*old(self))
                },
            },
    {
        let paused = self.is_paused();
        if paused.is_err() {
            return paused;
        }
        if !self.subnets_data.contains_key(&subnet_id) {
            return Err(NetworkError::InvalidSubnetId);
        }
        if amount < self.min_delegate_stake_deposit {
            return Err(NetworkError::MinDelegateStake);
        }
        if funds == WithdrawCheck::NotEnough {
            return Err(NetworkError::NotEnoughBalance);
        }
        if funds == WithdrawCheck::WithdrawFails {
            return Err(NetworkError::BalanceWithdrawalError);
        }
        self.do_increase_delegate_stake(subnet_id, amount);
        Ok(())
    }

    /// What a deposit of `amount` into the delegate pool of node `k` (subnet,
    /// node) returns: the amount and the shares minted, or an error when it
    /// would mint no shares.
    pub open spec fn node_deposit_result(&self, k: (u32, u32), amount: u128) -> (Result<(), NetworkError>, u128, u128) {
        let shares = deposit_shares(self.total_node_delegate_stake_shares@, self.total_node_delegate_stake_balance@, k, amount);
        if shares == 0 {
            (Err(NetworkError::CouldNotConvertToShares), 0u128, 0u128)
        } else {
            (Ok(()), amount, shares)
        }
    }

    /// The node pool fields of `self` follow `o` by a deposit of `amount` into
    /// node `k`'s pool for account `a`: an empty pool first receives
    /// `MIN_LIQUIDITY` dead shares; nothing else changes when the deposit would
    /// mint no shares.
    pub open spec fn node_deposited(&self, o: Network, a: u64, k: (u32, u32), amount: u128) -> bool {
        let ts0 = o.total_node_delegate_stake_shares@;
        let shares = deposit_shares(ts0, o.total_node_delegate_stake_balance@, k, amount);
        &&& shares == 0 ==> {
            &&& self.total_node_delegate_stake_shares@ == seeded(ts0, k)
            &&& self.total_node_delegate_stake_balance@ == o.total_node_delegate_stake_balance@
            &&& self.account_node_delegate_stake_shares@ == o.account_node_delegate_stake_shares@
            &&& self.total_node_delegate_stake == o.total_node_delegate_stake
        }
        &&& shares != 0 ==> {
            &&& pool_credited(
                seeded(ts0, k),
                o.total_node_delegate_stake_balance@,
                o.account_node_delegate_stake_shares@,
                self.total_node_delegate_stake_shares@,
                self.total_node_delegate_stake_balance@,
                self.account_node_delegate_stake_shares@,
                k,
                (a, k.0, k.1),
                amount,
                shares,
            )
            &&& self.total_node_delegate_stake == sat_add(o.total_node_delegate_stake, amount)
        }
    }

    /// `self` equals `o` but for the node delegate pools.
    pub open spec fn only_node_pool_changed(&self, o: Network) -> bool {
        *self == (Network {
            total_node_delegate_stake_shares: self.total_node_delegate_stake_shares,
            total_node_delegate_stake_balance: self.total_node_delegate_stake_balance,
            account_node_delegate_stake_shares: self.account_node_delegate_stake_shares,
            total_node_delegate_stake: self.total_node_delegate_stake,
            ..o
        })
    }

    /// Deposit `amount` into the delegate pool of node `subnet_node_id` of
    /// subnet `subnet_id` for `account_id`; an empty pool first receives
    /// `MIN_LIQUIDITY` dead shares. Fails, after that seeding, when the deposit
    /// would mint no shares. Returns the amount and the shares.
    pub fn handle_increase_account_node_delegate_stake_shares(
        &mut self,
        account_id: u64,
        subnet_id: u32,
        subnet_node_id: u32,
        amount: u128,
    ) -> (r: (Result<(), NetworkError>, u128, u128))
        ensures
            r == old(self).node_deposit_result((subnet_id, subnet_node_id), amount),
            final(self).node_deposited(*old(self), account_id, (subnet_id, subnet_node_id), amount),
            final(self).only_node_pool_changed(*old(self)),
    {
        let k = (subnet_id, subnet_node_id);
        let current = map_get(&self.total_node_delegate_stake_shares, k, 0);
        let total_shares = if current == 0 {
            map_set(&mut self.total_node_delegate_stake_shares, k, 0u128.saturating_add(MIN_LIQUIDITY));
            0
        } else {
            current
        };
        let total_balance = map_get(&self.total_node_delegate_stake_balance, k, 0);
        let shares = convert_to_shares(amount, total_shares, total_balance);
        if shares == 0 {
            return (Err(NetworkError::CouldNotConvertToShares), 0, 0);
        }
        let ak = (account_id, subnet_id, subnet_node_id);
        let acc = map_get(&self.account_node_delegate_stake_shares, ak, 0);
        map_set(&mut self.account_node_delegate_stake_shares, ak, acc.saturating_add(shares));
        let bal = map_get(&self.total_node_delegate_stake_balance, k, 0);
        map_set(&mut self.total_node_delegate_stake_balance, k, bal.saturating_add(amount));
        let tot = map_get(&self.total_node_delegate_stake_shares, k, 0);
        map_set(&mut self.total_node_delegate_stake_shares, k, tot.saturating_add(shares));
        self.total_node_delegate_stake = self.total_node_delegate_stake.saturating_add(amount);
        (Ok(()), amount, shares)
    }

    /// Add `amount` to the delegate pool of node `subnet_node_id` of subnet
    /// `subnet_id` without minting shares (rewards and donations). A pool
    /// without balance or shares first receives `MIN_LIQUIDITY` dead shares.
    pub fn do_increase_node_delegate_stake(&mut self, subnet_id: u32, subnet_node_id: u32, amount: u128)
        ensures
            ({
                let k = (subnet_id, subnet_node_id);
                let ts0 = old(self).total_node_delegate_stake_shares@;
                let tb0 = old(self).total_node_delegate_stake_balance@;
                let empty = get_or(tb0, k, 0u128) == 0 || get_or(ts0, k, 0u128) == 0;
                &&& final(self).total_node_delegate_stake_shares@ == if empty {
                    ts0.insert(k, sat_add(get_or(ts0, k, 0u128), MIN_LIQUIDITY))
                } else {
                    ts0
                }
                &&& final(self).total_node_delegate_stake_balance@ == tb0.insert(k, sat_add(get_or(tb0, k, 0u128), amount))
                &&& final(self).total_node_delegate_stake == sat_add(old(self).total_node_delegate_stake, amount)
            }),
            *final(self) == (Network {
                total_node_delegate_stake_shares: final(self).total_node_delegate_stake_shares,
                total_node_delegate_stake_balance: final(self).total_node_delegate_stake_balance,
                total_node_delegate_stake: final(self).total_node_delegate_stake,
                ..*old(self)
            }),
    {
        let k = (subnet_id, subnet_node_id);
        let balance = map_get(&self.total_node_delegate_stake_balance, k, 0);
        let shares = map_get(&self.total_node_delegate_stake_shares, k, 0);
        if balance == 0 || shares == 0 {
            map_set(&mut self.total_node_delegate_stake_shares, k, shares.saturating_add(MIN_LIQUIDITY));
        }
        map_set(&mut self.total_node_delegate_stake_balance, k, balance.saturating_add(amount));
        self.total_node_delegate_stake = self.total_node_delegate_stake.saturating_add(amount);
    }

    /// Why a donation of `amount` to node `n` of subnet `s` is refused, if it is.
    pub open spec fn donate_node_error(&self, s: u32, n: u32, amount: u128, funds: WithdrawCheck) -> Option<NetworkError> {
        if self.tx_pause {
            Some(NetworkError::Paused)
        } else if !flat(self.nodes.subnet_nodes_data@).contains_key((s, n)) {
            Some(NetworkError::InvalidSubnetNodeId)
        } else if amount < self.min_delegate_stake_deposit {
            Some(NetworkError::MinDelegateStake)
        } else if funds == WithdrawCheck::NotEnough {
            Some(NetworkError::NotEnoughBalance)
        } else if funds == WithdrawCheck::WithdrawFails {
            Some(NetworkError::BalanceWithdrawalError)
        } else {
            None
        }
    }

    /// Donate `amount` of free balance to the delegate pool of active node
    /// `subnet_node_id` of subnet `subnet_id` (the `donate_node_delegate_stake`
    /// call): the pool balance grows, no shares are minted. On success the
    /// caller withdraws `amount` from `account_id`.
    pub fn donate_node_delegate_stake(
        &mut self,
        account_id: u64,
        subnet_id: u32,
        subnet_node_id: u32,
        amount: u128,
        funds: WithdrawCheck,
    ) -> (r: Result<(), NetworkError>)
        ensures
            match old(self).donate_node_error(subnet_id, subnet_node_id, amount, funds) {
                Some(e) => r == Err::<(), NetworkError>(e) && *final(self) == *old(self),
                None => {
                    let k = (subnet_id, subnet_node_id);
                    let ts0 = old(self).total_node_delegate_stake_shares@;
                    let tb0 = old(self).total_node_delegate_stake_balance@;
                    let empty = get_or(tb0, k, 0u128) == 0 || get_or(ts0, k, 0u128) == 0;
                    &&& r is Ok
                    &&& final(self).total_node_delegate_stake_shares@ == if empty {
                        ts0.insert(k, sat_add(get_or(ts0, k, 0u128), MIN_LIQUIDITY))
                    } else {
                        ts0
                    }
                    &&& final(self).total_node_delegate_stake_balance@ == tb0.insert(k, sat_add(get_or(tb0, k, 0u128), amount))
                    &&& final(self).total_node_delegate_stake == sat_add(old(self).total_node_delegate_stake, amount)
                    &&& *final(self) == (Network {
                        total_node_delegate_stake_shares: final(self).total_node_delegate_stake_shares,
                        total_node_delegate_stake_balance: final(self).total_node_delegate_stake_balance,
                        total_node_delegate_stake: final(self).total_node_delegate_stake,
                        ..*old(self)
                    })
                },
            },
    {
        let paused = self.is_paused();
        if paused.is_err() {
            return paused;
        }
        let exists = match self.nodes.subnet_nodes_data.get(&subnet_id) {
            Some(m) => m.contains_key(&subnet_node_id),
            None => false,
        };
        if !exists {
            return Err(NetworkError::InvalidSubnetNodeId);
        }
        if amount < self.min_delegate_stake_deposit {
            return Err(NetworkError::MinDelegateStake);
        }
        if funds == WithdrawCheck::NotEnough {
            return Err(NetworkError::NotEnoughBalance);
        }
        if funds == WithdrawCheck::WithdrawFails {
            return Err(NetworkError::BalanceWithdrawalError);
        }
        self.do_increase_node_delegate_stake(subnet_id, subnet_node_id, amount);
        Ok(())
    }
}

} // verus!
