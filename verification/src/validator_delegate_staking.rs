//! Validator delegate stake: accounts deposit balance into a per-validator
//! pool and receive shares of it.

use vstd::prelude::*;
use crate::types::{NetworkError, QueuedSwapCall, MIN_LIQUIDITY, MAX_SWAP_QUEUE_LEN};
use crate::network::{Network, WithdrawCheck, get_or, sat_add, sat_sub, map_get, map_set};
use crate::math::{convert_to_shares, convert_to_balance, spec_convert_to_balance};
use crate::pools::{pool_credited, pool_debited, seeded, deposit_shares};

verus! {

impl Network {
    /// Validator delegate pool `s` and account `a` were credited `amount` and `shares`
    /// starting from the pool maps `ts0` and the rest of `o`.
    pub open spec fn validator_pool_credited_from(
        &self,
        o: Network,
        ts0: Map<u32, u128>,
        a: u64,
        s: u32,
        amount: u128,
        shares: u128,
    ) -> bool {
        &&& pool_credited(
            ts0,
            o.validator_delegate_stake_balance@,
            o.account_validator_delegate_stake_shares@,
            self.validator_delegate_stake_shares@,
            self.validator_delegate_stake_balance@,
            self.account_validator_delegate_stake_shares@,
            s,
            (a, s),
            amount,
            shares,
        )
        &&& self.total_validator_delegate_stake_balance == sat_add(o.total_validator_delegate_stake_balance, amount)
    }

    /// Validator delegate pool `s` and account `a` were debited `amount` and `shares`.
    pub open spec fn validator_pool_debited(&self, o: Network, a: u64, s: u32, amount: u128, shares: u128) -> bool {
        &&& pool_debited(
            o.validator_delegate_stake_shares@,
            o.validator_delegate_stake_balance@,
            o.account_validator_delegate_stake_shares@,
            self.validator_delegate_stake_shares@,
            self.validator_delegate_stake_balance@,
            self.account_validator_delegate_stake_shares@,
            s,
            (a, s),
            amount,
            shares,
        )
        &&& self.total_validator_delegate_stake_balance == sat_sub(o.total_validator_delegate_stake_balance, amount)
    }

    /// Every group of state but the validator delegate pools, the unbonding ledger,
    /// the swap queue and the rate-limit blocks equals that of `o`.
    pub open spec fn validator_pool_frame(&self, o: Network) -> bool {
        &&& self.same_settings(o)
        &&& self.same_subnet_pool(o)
        &&& self.same_node_pool(o)
        &&& self.same_node_stake(o)
        &&& self.same_overwatch_stake(o)
        &&& self.same_delegate_account(o)
    }

    /// Every group of state but the validator delegate pools equals that of `o`.
    pub open spec fn only_validator_pool_changed(&self, o: Network) -> bool {
        &&& self.validator_pool_frame(o)
        &&& self.same_unbonding(o)
        &&& self.same_swap_queue(o)
        &&& self.same_rate_limit(o)
    }

    /// What a deposit of `amount` into validator `s`'s pool returns: the amount and
    /// the shares minted, or an error when it would mint no shares.
    pub open spec fn validator_deposit_result(&self, s: u32, amount: u128) -> (Result<(), NetworkError>, u128, u128) {
        let shares = deposit_shares(self.validator_delegate_stake_shares@, self.validator_delegate_stake_balance@, s, amount);
        if shares == 0 {
            (Err(NetworkError::CouldNotConvertToShares), 0u128, 0u128)
        } else {
            (Ok(()), amount, shares)
        }
    }

    /// The validator pool fields of `final` follow `o` by a deposit of `amount` into
    /// validator `s`'s pool for account `a`: an empty pool first receives
    /// `MIN_LIQUIDITY` dead shares; nothing else changes when the deposit would
    /// mint no shares.
    pub open spec fn validator_deposited(&self, o: Network, a: u64, s: u32, amount: u128) -> bool {
        let ts0 = o.validator_delegate_stake_shares@;
        let shares = deposit_shares(ts0, o.validator_delegate_stake_balance@, s, amount);
        &&& shares == 0 ==> {
            &&& self.validator_delegate_stake_shares@ == seeded(ts0, s)
            &&& self.validator_delegate_stake_balance@ == o.validator_delegate_stake_balance@
            &&& self.account_validator_delegate_stake_shares@ == o.account_validator_delegate_stake_shares@
            &&& self.total_validator_delegate_stake_balance == o.total_validator_delegate_stake_balance
        }
        &&& shares != 0 ==> self.validator_pool_credited_from(o, seeded(ts0, s), a, s, amount, shares)
    }

    /// Credit an account with `shares` and the validator pool with `amount`.
    pub fn increase_account_validator_delegate_stake(&mut self, account_id: u64, validator_id: u32, amount: u128, shares: u128)
        ensures
            final(self).validator_pool_credited_from(
                *old(self),
                old(self).validator_delegate_stake_shares@,
                account_id,
                validator_id,
                amount,
                shares,
            ),
            final(self).only_validator_pool_changed(*old(self)),
    {
        let acc = map_get(&self.account_validator_delegate_stake_shares, (account_id, validator_id), 0);
        map_set(&mut self.account_validator_delegate_stake_shares, (account_id, validator_id), acc.saturating_add(shares));
        let bal = map_get(&self.validator_delegate_stake_balance, validator_id, 0);
        map_set(&mut self.validator_delegate_stake_balance, validator_id, bal.saturating_add(amount));
        let tot = map_get(&self.validator_delegate_stake_shares, validator_id, 0);
        map_set(&mut self.validator_delegate_stake_shares, validator_id, tot.saturating_add(shares));
        self.total_validator_delegate_stake_balance = self.total_validator_delegate_stake_balance.saturating_add(amount);
    }

    /// Debit an account by `shares` and the validator pool by `amount`.
    pub fn decrease_account_validator_delegate_stake(&mut self, account_id: u64, validator_id: u32, amount: u128, shares: u128)
        ensures
            final(self).validator_pool_debited(*old(self), account_id, validator_id, amount, shares),
            final(self).only_validator_pool_changed(*old(self)),
    {
        let acc = map_get(&self.account_validator_delegate_stake_shares, (account_id, validator_id), 0);
        map_set(&mut self.account_validator_delegate_stake_shares, (account_id, validator_id), acc.saturating_sub(shares));
        let bal = map_get(&self.validator_delegate_stake_balance, validator_id, 0);
        map_set(&mut self.validator_delegate_stake_balance, validator_id, bal.saturating_sub(amount));
        let tot = map_get(&self.validator_delegate_stake_shares, validator_id, 0);
        map_set(&mut self.validator_delegate_stake_shares, validator_id, tot.saturating_sub(shares));
        self.total_validator_delegate_stake_balance = self.total_validator_delegate_stake_balance.saturating_sub(amount);
    }

    /// Deposit `amount` into validator `validator_id`'s pool for `account_id`; an empty
    /// pool first receives `MIN_LIQUIDITY` dead shares. Fails, after that seeding,
    /// when the deposit would mint no shares. Returns the amount and the shares.
    pub fn handle_increase_account_validator_delegate_stake(&mut self, account_id: u64, validator_id: u32, amount: u128)
        -> (r: (Result<(), NetworkError>, u128, u128))
        ensures
            r == old(self).validator_deposit_result(validator_id, amount),
            final(self).validator_deposited(*old(self), account_id, validator_id, amount),
            final(self).only_validator_pool_changed(*old(self)),
    {
        let current = map_get(&self.validator_delegate_stake_shares, validator_id, 0);
        let total_shares = if current == 0 {
            map_set(&mut self.validator_delegate_stake_shares, validator_id, 0u128.saturating_add(MIN_LIQUIDITY));
            0
        } else {
            current
        };
        let total_balance = map_get(&self.validator_delegate_stake_balance, validator_id, 0);
        let shares = convert_to_shares(amount, total_shares, total_balance);
        if shares == 0 {
            return (Err(NetworkError::CouldNotConvertToShares), 0, 0);
        }
        self.increase_account_validator_delegate_stake(account_id, validator_id, amount, shares);
        (Ok(()), amount, shares)
    }

    /// Add `delegate_stake_to_be_added` to validator `validator_id`'s delegate pool for
    /// `account_id` at `block`. `funds` is what the currency answers for a
    /// withdrawal of that amount from the account; on success (and when not
    /// `swap`) the caller withdraws it. Returns the amount and the shares minted.
    pub fn perform_do_add_validator_delegate_stake(
        &mut self,
        account_id: u64,
        validator_id: u32,
        delegate_stake_to_be_added: u128,
        swap: bool,
        funds: WithdrawCheck,
        block: u32,
    ) -> (r: (Result<(), NetworkError>, u128, u128))
        ensures
            match old(self).add_delegate_error(account_id, delegate_stake_to_be_added, swap, funds, block) {
                Some(e) => r == (Err::<(), NetworkError>(e), 0u128, 0u128) && *final(self) == *old(self),
                None => {
                    &&& r == old(self).validator_deposit_result(validator_id, delegate_stake_to_be_added)
                    &&& final(self).validator_deposited(*old(self), account_id, validator_id, delegate_stake_to_be_added)
                    &&& final(self).only_validator_pool_changed(*old(self))
                },
            },
    {
        if delegate_stake_to_be_added < self.min_delegate_stake_deposit {
            return (Err(NetworkError::MinDelegateStakeDepositNotReached), 0, 0);
        }
        if !swap && funds == WithdrawCheck::NotEnough {
            return (Err(NetworkError::NotEnoughBalanceToStake), 0, 0);
        }
        if self.exceeds_tx_rate_limit(self.get_last_tx_block(account_id), block) {
            return (Err(NetworkError::TxRateLimitExceeded), 0, 0);
        }
        if !swap && funds == WithdrawCheck::WithdrawFails {
            return (Err(NetworkError::BalanceWithdrawalError), 0, 0);
        }
        self.handle_increase_account_validator_delegate_stake(account_id, validator_id, delegate_stake_to_be_added)
    }

    /// `final` follows `o` by a delegate stake deposit from the account's free balance that returned `r`.
    pub open spec fn validator_delegate_stake_added(&self, o: Network, account_id: u64, validator_id: u32, delegate_stake_to_be_added: u128, funds: WithdrawCheck, block: u32, r: Result<(), NetworkError>) -> bool {
        match o.add_delegate_error(account_id, delegate_stake_to_be_added, false, funds, block) {
            Some(e) => r == Err::<(), NetworkError>(e) && *self == o,
            None => {
                let res = o.validator_deposit_result(validator_id, delegate_stake_to_be_added);
                &&& r == res.0
                &&& self.validator_deposited(o, account_id, validator_id, delegate_stake_to_be_added)
                &&& self.validator_pool_frame(o)
                &&& self.same_unbonding(o)
                &&& self.same_swap_queue(o)
                &&& r is Ok ==> self.last_tx_block@ == o.last_tx_block@.insert(account_id, block)
                &&& r is Err ==> self.same_rate_limit(o)
            },
        }
    }

    /// Deposit into a validator delegate pool from the account's free balance and
    /// record `block` as its last rate-limited transaction.
    pub fn do_add_validator_delegate_stake(
        &mut self,
        account_id: u64,
        validator_id: u32,
        delegate_stake_to_be_added: u128,
        funds: WithdrawCheck,
        block: u32,
    ) -> (r: Result<(), NetworkError>)
        ensures
            final(self).validator_delegate_stake_added(*old(self), account_id, validator_id, delegate_stake_to_be_added, funds, block, r),

    {
        let (result, _balance, _shares) = self.perform_do_add_validator_delegate_stake(
            account_id,
            validator_id,
            delegate_stake_to_be_added,
            false,
            funds,
            block,
        );
        if result.is_err() {
            return result;
        }
        self.set_last_tx_block(account_id, block);
        Ok(())
    }

    /// Balance that `shares` of validator `s`'s pool redeem for.
    pub open spec fn validator_redeem_amount(&self, s: u32, shares: u128) -> u128 {
        spec_convert_to_balance(
            shares,
            get_or(self.validator_delegate_stake_shares@, s, 0u128),
            get_or(self.validator_delegate_stake_balance@, s, 0u128),
        )
    }

    /// Why removing `shares` of validator `s`'s pool for `a` at `block` is refused
    /// before anything changes, if it is.
    pub open spec fn remove_validator_delegate_error(&self, a: u64, s: u32, shares: u128, block: u32) -> Option<NetworkError> {
        if shares == 0 {
            Some(NetworkError::SharesZero)
        } else if get_or(self.account_validator_delegate_stake_shares@, (a, s), 0u128) < shares {
            Some(NetworkError::NotEnoughStakeToWithdraw)
        } else if self.spec_rate_limited(a, block) {
            Some(NetworkError::TxRateLimitExceeded)
        } else {
            None
        }
    }

    /// Redeem `delegate_stake_shares_to_be_removed` shares of validator `validator_id`'s
    /// pool for `account_id`. With `add_to_ledger` the balance goes to the
    /// unbonding ledger for the delegate cooldown; otherwise the caller moves it
    /// elsewhere. Returns the balance and the shares removed. When the ledger is
    /// full the pool has still been debited (the dispatch layer reverts).
    pub fn perform_do_remove_validator_delegate_stake(
        &mut self,
        account_id: u64,
        validator_id: u32,
        delegate_stake_shares_to_be_removed: u128,
        add_to_ledger: bool,
        block: u32,
    ) -> (r: (Result<(), NetworkError>, u128, u128))
        requires
            add_to_ledger ==> old(self).delegate_stake_cooldown_epochs * old(self).epoch_length <= u32::MAX,
            add_to_ledger ==> old(self).ledger_of(account_id).len() < u32::MAX,
            add_to_ledger ==> old(self).pending_deposits@.len() + old(self).ledger_of(account_id).len() <= usize::MAX,
        ensures
            match old(self).remove_validator_delegate_error(account_id, validator_id, delegate_stake_shares_to_be_removed, block) {
                Some(e) => r == (Err::<(), NetworkError>(e), 0u128, 0u128) && *final(self) == *old(self),
                None => {
                    let shares = delegate_stake_shares_to_be_removed;
                    let amount = old(self).validator_redeem_amount(validator_id, shares);
                    &&& final(self).validator_pool_debited(*old(self), account_id, validator_id, amount, shares)
                    &&& final(self).validator_pool_frame(*old(self))
                    &&& final(self).same_swap_queue(*old(self))
                    &&& final(self).same_rate_limit(*old(self))
                    &&& add_to_ledger ==> {
                        &&& final(self).unbonding_added(
                            *old(self),
                            account_id,
                            amount,
                            old(self).delegate_cooldown_blocks(),
                            block,
                            r.0 is Ok,
                        )
                        &&& r.0 is Ok ==> r == (Ok::<(), NetworkError>(()), amount, shares)
                        &&& r.0 is Err ==> r == (Err::<(), NetworkError>(NetworkError::MaxUnlockingsReached), 0u128, 0u128)
                    }
                    &&& !add_to_ledger ==> r == (Ok::<(), NetworkError>(()), amount, shares) && final(self).same_unbonding(*old(self))
                },
            },
    {
        if delegate_stake_shares_to_be_removed == 0 {
            return (Err(NetworkError::SharesZero), 0, 0);
        }
        let account_shares = map_get(&self.account_validator_delegate_stake_shares, (account_id, validator_id), 0);
        if account_shares < delegate_stake_shares_to_be_removed {
            return (Err(NetworkError::NotEnoughStakeToWithdraw), 0, 0);
        }
        let total_shares = map_get(&self.validator_delegate_stake_shares, validator_id, 0);
        let total_balance = map_get(&self.validator_delegate_stake_balance, validator_id, 0);
        let amount = convert_to_balance(delegate_stake_shares_to_be_removed, total_shares, total_balance);
        if self.exceeds_tx_rate_limit(self.get_last_tx_block(account_id), block) {
            return (Err(NetworkError::TxRateLimitExceeded), 0, 0);
        }
        self.decrease_account_validator_delegate_stake(account_id, validator_id, amount, delegate_stake_shares_to_be_removed);
        if add_to_ledger {
            let cooldown = self.delegate_stake_cooldown_epochs * self.epoch_length;
            let result = self.add_balance_to_unbonding_ledger(account_id, amount, cooldown, block);
            if result.is_err() {
                return (result, 0, 0);
            }
        }
        (Ok(()), amount, delegate_stake_shares_to_be_removed)
    }

    /// `final` follows `o` by a removal of delegate stake into the unbonding ledger that returned `r`.
    pub open spec fn validator_delegate_stake_removed(&self, o: Network, account_id: u64, validator_id: u32, delegate_stake_shares_to_be_removed: u128, block: u32, r: Result<(), NetworkError>) -> bool {
        match o.remove_validator_delegate_error(account_id, validator_id, delegate_stake_shares_to_be_removed, block) {
            Some(e) => r == Err::<(), NetworkError>(e) && *self == o,
            None => {
                let shares = delegate_stake_shares_to_be_removed;
                let amount = o.validator_redeem_amount(validator_id, shares);
                &&& self.validator_pool_debited(o, account_id, validator_id, amount, shares)
                &&& self.validator_pool_frame(o)
                &&& self.same_swap_queue(o)
                &&& self.unbonding_added(
                    o,
                    account_id,
                    amount,
                    o.delegate_cooldown_blocks(),
                    block,
                    r is Ok,
                )
                &&& r is Err ==> r == Err::<(), NetworkError>(NetworkError::MaxUnlockingsReached)
                    && self.same_rate_limit(o)
                &&& r is Ok ==> self.last_tx_block@ == o.last_tx_block@.insert(account_id, block)
            },
        }
    }

    /// Remove validator delegate stake into the unbonding ledger and record `block`
    /// as the account's last rate-limited transaction.
    pub fn do_remove_validator_delegate_stake(
        &mut self,
        account_id: u64,
        validator_id: u32,
        delegate_stake_shares_to_be_removed: u128,
        block: u32,
    ) -> (r: Result<(), NetworkError>)
        requires
            old(self).delegate_stake_cooldown_epochs * old(self).epoch_length <= u32::MAX,
            old(self).ledger_of(account_id).len() < u32::MAX,
            old(self).pending_deposits@.len() + old(self).ledger_of(account_id).len() <= usize::MAX,
        ensures
            final(self).validator_delegate_stake_removed(*old(self), account_id, validator_id, delegate_stake_shares_to_be_removed, block, r),

    {
        let (result, _amount, _shares) = self.perform_do_remove_validator_delegate_stake(
            account_id,
            validator_id,
            delegate_stake_shares_to_be_removed,
            true,
            block,
        );
        if result.is_err() {
            return result;
        }
        let ghost mid = *self;
        self.set_last_tx_block(account_id, block);
        proof {
            assert forall|a: u64| a != account_id implies #[trigger] self.ledger_of(a) == old(self).ledger_of(a) by {
                assert(mid.ledger_of(a) == old(self).ledger_of(a));
            }
        }
        Ok(())
    }

    /// `final` follows `o` by a swap of delegate stake into the queue that returned `r`.
    pub open spec fn validator_delegate_stake_swapped(&self, o: Network, account_id: u64, from_validator_id: u32, to_validator_id: u32, delegate_stake_shares_to_swap: u128, block: u32, r: Result<(), NetworkError>) -> bool {
        if o.swap_queue_full() {
            r == Err::<(), NetworkError>(NetworkError::SwapQueueFull) && *self == o
        } else { match o.remove_validator_delegate_error(account_id, from_validator_id, delegate_stake_shares_to_swap, block) {
            Some(e) => r == Err::<(), NetworkError>(e) && *self == o,
            None => {
                let shares = delegate_stake_shares_to_swap;
                let amount = o.validator_redeem_amount(from_validator_id, shares);
                &&& r is Ok
                &&& self.validator_pool_debited(o, account_id, from_validator_id, amount, shares)
                &&& self.validator_pool_frame(o)
                &&& self.same_unbonding(o)
                &&& self.same_rate_limit(o)
                &&& self.swap_queued(
                    o,
                    QueuedSwapCall::SwapToValidatorDelegateStake { account_id, to_validator_id, balance: amount },
                    block,
                )
            },
        } }
    }

    /// Swap validator delegate stake from `from_validator_id` to `to_validator_id`: the
    /// shares are redeemed now and the balance is queued for the destination pool.
    pub fn do_swap_validator_delegate_stake(
        &mut self,
        account_id: u64,
        from_validator_id: u32,
        to_validator_id: u32,
        delegate_stake_shares_to_swap: u128,
        block: u32,
    ) -> (r: Result<(), NetworkError>)
        ensures
            final(self).validator_delegate_stake_swapped(*old(self), account_id, from_validator_id, to_validator_id, delegate_stake_shares_to_swap, block, r),

    {
        if self.swap_queue_order.len() >= MAX_SWAP_QUEUE_LEN {
            return Err(NetworkError::SwapQueueFull);
        }
        let (result, balance, _shares) = self.perform_do_remove_validator_delegate_stake(
            account_id,
            from_validator_id,
            delegate_stake_shares_to_swap,
            false,
            block,
        );
        if result.is_err() {
            return result;
        }
        let call = QueuedSwapCall::SwapToValidatorDelegateStake { account_id, to_validator_id, balance };
        self.queue_swap(account_id, call, block)
    }

    /// `final` follows `o` by a transfer of delegate stake shares that returned `r`.
    pub open spec fn validator_delegate_stake_transferred(&self, o: Network, account_id: u64, validator_id: u32, to_account_id: u64, delegate_stake_shares_to_transfer: u128, r: Result<(), NetworkError>) -> bool {
        ({
            let shares = delegate_stake_shares_to_transfer;
            let amount = o.validator_redeem_amount(validator_id, shares);
            let acc0 = o.account_validator_delegate_stake_shares@;
            let acc1 = acc0.insert((account_id, validator_id), sat_sub(get_or(acc0, (account_id, validator_id), 0u128), shares));
            let ts0 = o.validator_delegate_stake_shares@;
            let ts1 = ts0.insert(validator_id, sat_sub(get_or(ts0, validator_id, 0u128), shares));
            let tb0 = o.validator_delegate_stake_balance@;
            if account_id == to_account_id {
                r == Err::<(), NetworkError>(NetworkError::TransferToSelfNotAllowed) && *self == o
            } else if shares == 0 {
                r == Err::<(), NetworkError>(NetworkError::NotEnoughStakeToWithdraw) && *self == o
            } else if amount < o.min_delegate_stake_deposit {
                r == Err::<(), NetworkError>(NetworkError::MinDelegateStakeDepositNotReached) && *self == o
            } else if get_or(acc0, (account_id, validator_id), 0u128) < shares {
                r == Err::<(), NetworkError>(NetworkError::NotEnoughStakeToWithdraw) && *self == o
            } else {
                &&& r is Ok
                &&& self.account_validator_delegate_stake_shares@ == acc1.insert(
                    (to_account_id, validator_id),
                    sat_add(get_or(acc1, (to_account_id, validator_id), 0u128), shares),
                )
                &&& self.validator_delegate_stake_shares@ == ts1.insert(
                    validator_id,
                    sat_add(get_or(ts1, validator_id, 0u128), shares),
                )
                &&& self.validator_delegate_stake_balance@ == tb0.insert(validator_id, get_or(tb0, validator_id, 0u128))
                &&& self.total_validator_delegate_stake_balance == o.total_validator_delegate_stake_balance
                &&& self.only_validator_pool_changed(o)
            }
        })
    }

    /// Move `shares` of validator `validator_id`'s pool from `account_id` to
    /// `to_account_id`; the pool balance is untouched. The sender must hold
    /// at least the shares it transfers.
    pub fn do_transfer_validator_delegate_stake(
        &mut self,
        account_id: u64,
        validator_id: u32,
        to_account_id: u64,
        delegate_stake_shares_to_transfer: u128,
    ) -> (r: Result<(), NetworkError>)
        ensures
            final(self).validator_delegate_stake_transferred(*old(self), account_id, validator_id, to_account_id, delegate_stake_shares_to_transfer, r),

    {
        if account_id == to_account_id {
            return Err(NetworkError::TransferToSelfNotAllowed);
        }
        if delegate_stake_shares_to_transfer == 0 {
            return Err(NetworkError::NotEnoughStakeToWithdraw);
        }
        let total_shares = map_get(&self.validator_delegate_stake_shares, validator_id, 0);
        let total_balance = map_get(&self.validator_delegate_stake_balance, validator_id, 0);
        let amount = convert_to_balance(delegate_stake_shares_to_transfer, total_shares, total_balance);
        if amount < self.min_delegate_stake_deposit {
            return Err(NetworkError::MinDelegateStakeDepositNotReached);
        }
        if map_get(&self.account_validator_delegate_stake_shares, (account_id, validator_id), 0) < delegate_stake_shares_to_transfer {
            return Err(NetworkError::NotEnoughStakeToWithdraw);
        }
        let ghost o = *self;
        self.decrease_account_validator_delegate_stake(account_id, validator_id, 0, delegate_stake_shares_to_transfer);
        let ghost mid = *self;
        self.increase_account_validator_delegate_stake(to_account_id, validator_id, 0, delegate_stake_shares_to_transfer);
        proof {
            assert(get_or(mid.validator_delegate_stake_balance@, validator_id, 0u128)
                == get_or(o.validator_delegate_stake_balance@, validator_id, 0u128));
            assert(mid.validator_delegate_stake_balance@.insert(
                validator_id,
                get_or(o.validator_delegate_stake_balance@, validator_id, 0u128),
            ) =~= o.validator_delegate_stake_balance@.insert(
                validator_id,
                get_or(o.validator_delegate_stake_balance@, validator_id, 0u128),
            ));
        }
        Ok(())
    }

    /// Add `amount` to validator `validator_id`'s pool balance without minting shares
    /// (rewards and donations). A pool without balance or shares first receives
    /// `MIN_LIQUIDITY` dead shares.
    pub fn do_increase_validator_delegate_stake(&mut self, validator_id: u32, amount: u128)
        ensures
            ({
                let ts0 = old(self).validator_delegate_stake_shares@;
                let tb0 = old(self).validator_delegate_stake_balance@;
                let empty = get_or(tb0, validator_id, 0u128) == 0 || get_or(ts0, validator_id, 0u128) == 0;
                &&& final(self).validator_delegate_stake_shares@ == if empty {
                    ts0.insert(validator_id, sat_add(get_or(ts0, validator_id, 0u128), MIN_LIQUIDITY))
                } else {
                    ts0
                }
                &&& final(self).validator_delegate_stake_balance@ == tb0.insert(
                    validator_id,
                    sat_add(get_or(tb0, validator_id, 0u128), amount),
                )
                &&& final(self).total_validator_delegate_stake_balance == sat_add(old(self).total_validator_delegate_stake_balance, amount)
                &&& final(self).account_validator_delegate_stake_shares@ == old(self).account_validator_delegate_stake_shares@
            }),
            final(self).only_validator_pool_changed(*old(self)),
    {
        let balance = map_get(&self.validator_delegate_stake_balance, validator_id, 0);
        let shares = map_get(&self.validator_delegate_stake_shares, validator_id, 0);
        if balance == 0 || shares == 0 {
            map_set(&mut self.validator_delegate_stake_shares, validator_id, shares.saturating_add(MIN_LIQUIDITY));
        }
        map_set(&mut self.validator_delegate_stake_balance, validator_id, balance.saturating_add(amount));
        self.total_validator_delegate_stake_balance = self.total_validator_delegate_stake_balance.saturating_add(amount);
    }


    /// Move validator delegate stake of `from_validator_id` to subnet
    /// `to_subnet_id`: the shares are redeemed now and the balance is queued for
    /// the subnet pool.
    pub fn do_swap_from_validator_to_subnet(
        &mut self,
        account_id: u64,
        from_validator_id: u32,
        to_subnet_id: u32,
        node_delegate_stake_shares_to_swap: u128,
        block: u32,
    ) -> (r: Result<(), NetworkError>)
        ensures
            old(self).swap_queue_full() ==> r == Err::<(), NetworkError>(NetworkError::SwapQueueFull) && *final(self) == *old(self),
            !old(self).swap_queue_full() ==> match old(self).remove_validator_delegate_error(account_id, from_validator_id, node_delegate_stake_shares_to_swap, block) {
                Some(e) => r == Err::<(), NetworkError>(e) && *final(self) == *old(self),
                None => {
                    let shares = node_delegate_stake_shares_to_swap;
                    let amount = old(self).validator_redeem_amount(from_validator_id, shares);
                    &&& r is Ok
                    &&& final(self).validator_pool_debited(*old(self), account_id, from_validator_id, amount, shares)
                    &&& final(self).validator_pool_frame(*old(self))
                    &&& final(self).same_unbonding(*old(self))
                    &&& final(self).same_rate_limit(*old(self))
                    &&& final(self).swap_queued(
                        *old(self),
                        QueuedSwapCall::SwapToSubnetDelegateStake { account_id, to_subnet_id, balance: amount },
                        block,
                    )
                },
            },
    {
        if self.swap_queue_order.len() >= MAX_SWAP_QUEUE_LEN {
            return Err(NetworkError::SwapQueueFull);
        }
        let (result, balance, _shares) = self.perform_do_remove_validator_delegate_stake(
            account_id,
            from_validator_id,
            node_delegate_stake_shares_to_swap,
            false,
            block,
        );
        if result.is_err() {
            return result;
        }
        let call = QueuedSwapCall::SwapToSubnetDelegateStake { account_id, to_subnet_id, balance };
        self.queue_swap(account_id, call, block)
    }

    /// Move subnet delegate stake of `from_subnet_id` to validator
    /// `to_validator_id`: the shares are redeemed now and the balance is queued
    /// for the validator pool.
    pub fn do_swap_from_subnet_to_validator(
        &mut self,
        account_id: u64,
        from_subnet_id: u32,
        to_validator_id: u32,
        delegate_stake_shares_to_swap: u128,
        block: u32,
    ) -> (r: Result<(), NetworkError>)
        ensures
            old(self).swap_queue_full() ==> r == Err::<(), NetworkError>(NetworkError::SwapQueueFull) && *final(self) == *old(self),
            !old(self).swap_queue_full() ==> match old(self).remove_delegate_error(account_id, from_subnet_id, delegate_stake_shares_to_swap, block) {
                Some(e) => r == Err::<(), NetworkError>(e) && *final(self) == *old(self),
                None => {
                    let shares = delegate_stake_shares_to_swap;
                    let amount = old(self).subnet_redeem_amount(from_subnet_id, shares);
                    &&& r is Ok
                    &&& final(self).subnet_pool_debited(*old(self), account_id, from_subnet_id, amount, shares)
                    &&& final(self).subnet_pool_frame(*old(self))
                    &&& final(self).same_unbonding(*old(self))
                    &&& final(self).same_rate_limit(*old(self))
                    &&& final(self).swap_queued(
                        *old(self),
                        QueuedSwapCall::SwapToValidatorDelegateStake { account_id, to_validator_id, balance: amount },
                        block,
                    )
                },
            },
    {
        if self.swap_queue_order.len() >= MAX_SWAP_QUEUE_LEN {
            return Err(NetworkError::SwapQueueFull);
        }
        let (result, balance, _shares) = self.perform_do_remove_delegate_stake(
            account_id,
            from_subnet_id,
            delegate_stake_shares_to_swap,
            false,
            block,
        );
        if result.is_err() {
            return result;
        }
        let call = QueuedSwapCall::SwapToValidatorDelegateStake { account_id, to_validator_id, balance };
        self.queue_swap(account_id, call, block)
    }
}

} // verus!
