//! The swap queue: stake moved between pools waits here for an epoch before it
//! is deposited into its destination pool.

use vstd::prelude::*;
use crate::types::{NetworkError, QueuedSwapCall, QueuedSwapItem, MAX_SWAP_QUEUE_LEN, spec_queue_balance};
use crate::network::{Network, map_set};
use crate::registry::flat;

verus! {

/// `x + 1` capped at `u32::MAX`.
pub open spec fn next_id(x: u32) -> u32 {
    if x == u32::MAX { x } else { (x + 1) as u32 }
}

impl Network {
    /// Whether the execution order of the swap queue holds `MAX_SWAP_QUEUE_LEN`
    /// ids, so that no call can be queued.
    pub open spec fn swap_queue_full(&self) -> bool {
        self.swap_queue_order@.len() >= MAX_SWAP_QUEUE_LEN
    }

    /// Every group of state but the swap queue equals that of `o`.
    pub open spec fn only_swap_queue_changed(&self, o: Network) -> bool {
        &&& self.same_settings(o)
        &&& self.same_subnet_pool(o)
        &&& self.same_validator_pool(o)
        &&& self.same_node_pool(o)
        &&& self.same_node_stake(o)
        &&& self.same_overwatch_stake(o)
        &&& self.same_delegate_account(o)
        &&& self.same_unbonding(o)
        &&& self.same_rate_limit(o)
    }

    /// `final` follows `o` by queueing `call` at `block` under the next id.
    pub open spec fn swap_queued(&self, o: Network, call: QueuedSwapCall, block: u32) -> bool {
        let id = o.next_swap_queue_id;
        &&& self.swap_call_queue@ == o.swap_call_queue@.insert(
            id,
            (QueuedSwapItem { id, call, queued_at_block: block, execute_after_blocks: o.epoch_length }),
        )
        &&& self.swap_queue_order@ == o.swap_queue_order@.push(id)
        &&& self.next_swap_queue_id == next_id(id)
    }

    /// Queue `call` to run one epoch after `block`: the call is stored under the
    /// next id and its id joins the execution order. A full order refuses the
    /// call and nothing changes.
    pub fn queue_swap(&mut self, account_id: u64, call: QueuedSwapCall, block: u32) -> (r: Result<(), NetworkError>)
        ensures
            old(self).swap_queue_full() ==> r == Err::<(), NetworkError>(NetworkError::SwapQueueFull) && *final(self) == *old(self),
            !old(self).swap_queue_full() ==> r is Ok && final(self).swap_queued(*old(self), call, block),
            final(self).only_swap_queue_changed(*old(self)),
    {
        if self.swap_queue_order.len() >= MAX_SWAP_QUEUE_LEN {
            return Err(NetworkError::SwapQueueFull);
        }
        let id = self.next_swap_queue_id;
        let item = QueuedSwapItem { id, call, queued_at_block: block, execute_after_blocks: self.epoch_length };
        map_set(&mut self.swap_call_queue, id, item);
        self.swap_queue_order.push(id);
        self.next_swap_queue_id = self.next_swap_queue_id.saturating_add(1);
        Ok(())
    }

    /// Queue a deposit of `balance` into subnet `to_subnet_id`'s delegate pool.
    pub fn queue_to_subnet_delegate_stake(&mut self, account_id: u64, to_subnet_id: u32, balance: u128, block: u32)
        -> (r: Result<(), NetworkError>)
        ensures
            old(self).swap_queue_full() ==> r == Err::<(), NetworkError>(NetworkError::SwapQueueFull) && *final(self) == *old(self),
            !old(self).swap_queue_full() ==> r is Ok && final(self).swap_queued(
                *old(self),
                QueuedSwapCall::SwapToSubnetDelegateStake { account_id, to_subnet_id, balance },
                block,
            ),
            final(self).only_swap_queue_changed(*old(self)),
    {
        let call = QueuedSwapCall::SwapToSubnetDelegateStake { account_id, to_subnet_id, balance };
        self.queue_swap(account_id, call, block)
    }

    /// Outcome of redirecting queued call `id` to `new_call` on behalf of `key`:
    /// `None` when allowed, else the error.
    pub open spec fn update_swap_error(&self, key: u64, id: u32, new_call: QueuedSwapCall) -> Option<NetworkError> {
        if !self.swap_call_queue@.contains_key(id) {
            Some(NetworkError::SwapCallNotFound)
        } else {
            match new_call {
                QueuedSwapCall::SwapToSubnetDelegateStake { account_id, to_subnet_id, .. } => {
                    if account_id != key {
                        Some(NetworkError::NotKeyOwner)
                    } else if !self.subnets_data@.contains_key(to_subnet_id) {
                        Some(NetworkError::InvalidSubnetId)
                    } else {
                        None
                    }
                },
                QueuedSwapCall::SwapToValidatorDelegateStake { account_id, to_validator_id, .. } => {
                    if account_id != key {
                        Some(NetworkError::NotKeyOwner)
                    } else if !self.validator_coldkey@.contains_key(to_validator_id) {
                        Some(NetworkError::InvalidValidatorId)
                    } else {
                        None
                    }
                },
                QueuedSwapCall::SwapToNodeDelegateStake { account_id, to_subnet_id, to_subnet_node_id, .. } => {
                    if account_id != key {
                        Some(NetworkError::NotKeyOwner)
                    } else if !flat(self.nodes.subnet_nodes_data@).contains_key((to_subnet_id, to_subnet_node_id)) {
                        Some(NetworkError::InvalidSubnetNodeId)
                    } else {
                        None
                    }
                },
            }
        }
    }

    /// `new_call` with the balance replaced by `balance`.
    pub open spec fn with_balance(new_call: QueuedSwapCall, balance: u128) -> QueuedSwapCall {
        match new_call {
            QueuedSwapCall::SwapToSubnetDelegateStake { account_id, to_subnet_id, .. } =>
                QueuedSwapCall::SwapToSubnetDelegateStake { account_id, to_subnet_id, balance },
            QueuedSwapCall::SwapToValidatorDelegateStake { account_id, to_validator_id, .. } =>
                QueuedSwapCall::SwapToValidatorDelegateStake { account_id, to_validator_id, balance },
            QueuedSwapCall::SwapToNodeDelegateStake { account_id, to_subnet_id, to_subnet_node_id, .. } =>
                QueuedSwapCall::SwapToNodeDelegateStake { account_id, to_subnet_id, to_subnet_node_id, balance },
        }
    }

    /// Redirect queued call `id` to the destination of `new_call`. The balance of
    /// the queued call is kept; the balance in `new_call` is ignored.
    pub fn do_update_swap_queue(&mut self, key: u64, id: u32, new_call: QueuedSwapCall) -> (r: Result<(), NetworkError>)
        ensures
            match old(self).update_swap_error(key, id, new_call) {
                Some(e) => r == Err::<(), NetworkError>(e) && *final(self) == *old(self),
                None => {
                    let item = old(self).swap_call_queue@[id];
                    &&& r is Ok
                    &&& final(self).swap_call_queue@ == old(self).swap_call_queue@.insert(
                        id,
                        (QueuedSwapItem { call: Network::with_balance(new_call, spec_queue_balance(item.call)), ..item }),
                    )
                    &&& final(self).swap_queue_order@ == old(self).swap_queue_order@
                    &&& final(self).next_swap_queue_id == old(self).next_swap_queue_id
                    &&& final(self).only_swap_queue_changed(*old(self))
                },
            },
    {
        let item: QueuedSwapItem = match self.swap_call_queue.get(&id) {
            Some(i) => *i,
            None => return Err(NetworkError::SwapCallNotFound),
        };
        let call_balance = item.call.get_queue_balance();
        let call = match new_call {
            QueuedSwapCall::SwapToSubnetDelegateStake { account_id, to_subnet_id, .. } => {
                if account_id != key {
                    return Err(NetworkError::NotKeyOwner);
                }
                if !self.subnets_data.contains_key(&to_subnet_id) {
                    return Err(NetworkError::InvalidSubnetId);
                }
                QueuedSwapCall::SwapToSubnetDelegateStake { account_id, to_subnet_id, balance: call_balance }
            },
            QueuedSwapCall::SwapToValidatorDelegateStake { account_id, to_validator_id, .. } => {
                if account_id != key {
                    return Err(NetworkError::NotKeyOwner);
                }
                if !self.validator_coldkey.contains_key(&to_validator_id) {
                    return Err(NetworkError::InvalidValidatorId);
                }
                QueuedSwapCall::SwapToValidatorDelegateStake { account_id, to_validator_id, balance: call_balance }
            },
            QueuedSwapCall::SwapToNodeDelegateStake { account_id, to_subnet_id, to_subnet_node_id, .. } => {
                if account_id != key {
                    return Err(NetworkError::NotKeyOwner);
                }
                let exists = match self.nodes.subnet_nodes_data.get(&to_subnet_id) {
                    Some(m) => m.contains_key(&to_subnet_node_id),
                    None => false,
                };
                if !exists {
                    return Err(NetworkError::InvalidSubnetNodeId);
                }
                QueuedSwapCall::SwapToNodeDelegateStake { account_id, to_subnet_id, to_subnet_node_id, balance: call_balance }
            },
        };
        map_set(&mut self.swap_call_queue, id, QueuedSwapItem { call, ..item });
        Ok(())
    }
}

} // verus!
