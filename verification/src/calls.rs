//! Entry points that check the caller and the pause switch before handing over
//! to the logic, and the per-block schedule.

use vstd::prelude::*;
use std::collections::BTreeMap;
use crate::types::{
    ActivationOutcome, BlockStep, NetworkError, NodeRegistrationChecks, QueuedSwapCall, RegistrationSubnetData,
    SubnetRemovalReason,
};
use crate::network::{Network, WithdrawCheck, get_or};
use crate::hooks::DbWeight;
use crate::subnets::sat_sub_u32;
use crate::registry::flat;
use crate::nodes::opt_view;

verus! {

/// A balance as the currency's balance type, which is `u128`: always possible.
pub fn u128_to_balance(input: u128) -> (r: Option<u128>)
    ensures
        r == Some(input),
{
    Some(input)
}

/// `x * y` capped at `u32::MAX`.
pub open spec fn sat_mul_u32(x: u32, y: u32) -> u32 {
    if x * y > u32::MAX { u32::MAX } else { (x * y) as u32 }
}

impl Network {
    /// What block `block` initializes, besides the swap queue.
    pub open spec fn spec_block_step(&self, block: u32) -> BlockStep {
        let slot_assignment = self.meta.slot_assignment@;
        let e = self.epoch_length;
        let ow = sat_mul_u32(e, self.params.overwatch_epoch_length_multiplier);
        let epoch = (block / e) as u32;
        if self.tx_pause {
            BlockStep::Paused
        } else if block >= e && block % e == 0 {
            BlockStep::EpochPreliminaries { epoch }
        } else if block >= 1 && block - 1 >= ow && (block - 1) % (ow as int) == 0 {
            BlockStep::OverwatchRewards
        } else if block >= 2 && block - 2 >= e && (block - 2) % (e as int) == 0 {
            BlockStep::EmissionWeights { epoch }
        } else if slot_assignment.contains_key((block % e) as u32) {
            BlockStep::SubnetEmission { subnet_id: slot_assignment[(block % e) as u32], epoch }
        } else {
            BlockStep::Idle
        }
    }

    /// The schedule of block initialization: the first block of each epoch runs
    /// the epoch preliminaries, the block after an overwatch epoch starts the
    /// overwatch rewards, the block after that (of an epoch) the emission
    /// weights, and any other block whose slot is assigned the subnet's emission
    /// step. Blocks 0 and 1, which have no such earlier blocks, run no epoch
    /// step.
    pub fn block_step(&self, block: u32) -> (r: BlockStep)
        requires
            self.epoch_length > 0,
            self.params.overwatch_epoch_length_multiplier > 0,
        ensures
            r == self.spec_block_step(block),
    {
        if self.tx_pause {
            return BlockStep::Paused;
        }
        let epoch_length = self.epoch_length;
        let epoch_slot = block % epoch_length;
        let current_epoch = block / epoch_length;
        let overwatch_epoch_length = match epoch_length.checked_mul(self.params.overwatch_epoch_length_multiplier) {
            Some(v) => v,
            None => u32::MAX,
        };
        assert(overwatch_epoch_length > 0) by (nonlinear_arith)
            requires
                epoch_length > 0,
                self.params.overwatch_epoch_length_multiplier > 0,
                overwatch_epoch_length == sat_mul_u32(epoch_length, self.params.overwatch_epoch_length_multiplier);
        if block >= epoch_length && block % epoch_length == 0 {
            BlockStep::EpochPreliminaries { epoch: current_epoch }
        } else if block >= 1 && block - 1 >= overwatch_epoch_length && (block - 1) % overwatch_epoch_length == 0 {
            BlockStep::OverwatchRewards
        } else if block >= 2 && block - 2 >= epoch_length && (block - 2) % epoch_length == 0 {
            BlockStep::EmissionWeights { epoch: current_epoch }
        } else {
            match self.meta.slot_assignment.get(&epoch_slot) {
                Some(subnet_id) => BlockStep::SubnetEmission { subnet_id: *subnet_id, epoch: current_epoch },
                None => BlockStep::Idle,
            }
        }
    }

    /// Register a subnet (the `register_subnet` call). The call is all or
    /// nothing: when it is refused, nothing is written.
    pub fn register_subnet(
        &mut self,
        owner: u64,
        max_cost: u128,
        subnet_data: RegistrationSubnetData,
        block: u32,
        epoch: u32,
        cost: u128,
        funds: WithdrawCheck,
    ) -> (r: Result<u32, NetworkError>)
        requires
            old(self).wf(),
            old(self).subnets_data@.len() < usize::MAX,
        ensures
            final(self).wf(),
            r is Err ==> *final(self) == *old(self),
            old(self).tx_pause ==> r == Err::<u32, NetworkError>(NetworkError::Paused),
            !old(self).tx_pause ==> match old(self).register_subnet_error(subnet_data, max_cost, cost, funds) {
                Some(e) => r == Err::<u32, NetworkError>(e),
                None => match old(self).next_slot() {
                    None => r == Err::<u32, NetworkError>(NetworkError::NoAvailableSlots),
                    Some(_) => final(self).subnet_registration(
                        *old(self),
                        owner,
                        max_cost,
                        subnet_data,
                        block,
                        epoch,
                        cost,
                        funds,
                        r,
                    ),
                },
            },
    {
        if self.tx_pause {
            return Err(NetworkError::Paused);
        }
        let handed_out = self.meta.total_subnet_uids;
        let last_cost = self.meta.last_registration_cost;
        let last_block = self.meta.last_subnet_registration_block;
        let r = self.do_register_subnet(owner, max_cost, subnet_data, block, epoch, cost, funds);
        if r.is_err() {
            self.meta.total_subnet_uids = handed_out;
            self.meta.last_registration_cost = last_cost;
            self.meta.last_subnet_registration_block = last_block;
        }
        r
    }

    /// Activate a subnet on behalf of its owner (the `activate_subnet` call).
    pub fn activate_subnet(
        &mut self,
        coldkey: u64,
        subnet_id: u32,
        epoch: u32,
        block: u32,
        in_registration_period: bool,
        in_enactment_period: bool,
        can_be_active: bool,
        reason: Option<SubnetRemovalReason>,
        db: DbWeight,
    ) -> (r: Result<ActivationOutcome, NetworkError>)
        requires
            old(self).wf(),
            epoch < u32::MAX,
            old(self).meta.total_active_subnets < u32::MAX,
        ensures
            final(self).wf(),
            old(self).tx_pause ==> r == Err::<ActivationOutcome, NetworkError>(NetworkError::Paused) && *final(self) == *old(self),
            !old(self).tx_pause && !(old(self).meta.subnet_owner@.contains_key(subnet_id)
                && old(self).meta.subnet_owner@[subnet_id] == coldkey)
                ==> r == Err::<ActivationOutcome, NetworkError>(NetworkError::NotSubnetOwner) && *final(self) == *old(self),
            !old(self).tx_pause && old(self).meta.subnet_owner@.contains_key(subnet_id)
                && old(self).meta.subnet_owner@[subnet_id] == coldkey ==> final(self).subnet_activation(
                *old(self),
                subnet_id,
                epoch,
                block,
                in_registration_period,
                in_enactment_period,
                can_be_active,
                reason,
                r,
            ),
    {
        if self.tx_pause {
            return Err(NetworkError::Paused);
        }
        let is_owner = match self.meta.subnet_owner.get(&subnet_id) {
            Some(o) => *o == coldkey,
            None => false,
        };
        if !is_owner {
            return Err(NetworkError::NotSubnetOwner);
        }
        self.do_activate_subnet(subnet_id, epoch, block, in_registration_period, in_enactment_period, can_be_active, reason, db)
    }

    /// Register a subnet node (the `register_subnet_node` call); a burn fee
    /// above the caller's `max_burn_amount` is refused. The call is all or
    /// nothing: when it is refused, nothing is written.
    pub fn register_subnet_node(
        &mut self,
        db: DbWeight,
        coldkey: u64,
        subnet_id: u32,
        hotkey: u64,
        peer_id: Vec<u8>,
        bootnode_peer_id: Vec<u8>,
        client_peer_id: Vec<u8>,
        bootnode: Option<Vec<u8>>,
        delegate_reward_rate: u128,
        stake_to_be_added: u128,
        unique: Option<Vec<u8>>,
        non_unique: Option<Vec<u8>>,
        max_burn_amount: u128,
        checks: NodeRegistrationChecks,
    ) -> (r: Result<(), NetworkError>)
        requires
            old(self).wf(),
            get_or(old(self).nodes.total_subnet_node_uids@, subnet_id, 0u32) < u32::MAX,
            get_or(old(self).nodes.total_subnet_nodes@, subnet_id, 0u32) < u32::MAX,
            old(self).nodes.total_nodes < u32::MAX,
            old(self).nodes.total_active_nodes < u32::MAX,
            checks.subnet_epoch < u32::MAX,
            get_or(flat(old(self).meta.initial_coldkey_data@), (subnet_id, coldkey), 0u32) < u32::MAX,
        ensures
            final(self).wf(),
            r is Err ==> *final(self) == *old(self),
            old(self).tx_pause ==> r == Err::<(), NetworkError>(NetworkError::Paused),
            !old(self).tx_pause ==> match old(self).register_node_error(
                coldkey,
                subnet_id,
                hotkey,
                peer_id@,
                bootnode_peer_id@,
                client_peer_id@,
                opt_view(bootnode),
                max_burn_amount,
                delegate_reward_rate,
                stake_to_be_added,
                checks,
            ) {
                Some(e) => r == Err::<(), NetworkError>(e),
                None => match old(self).late_register_node_error(subnet_id, unique) {
                    Some(e) => r == Err::<(), NetworkError>(e),
                    None => r is Ok && final(self).node_registration(
                        *old(self),
                        coldkey,
                        subnet_id,
                        hotkey,
                        peer_id,
                        bootnode_peer_id,
                        client_peer_id,
                        bootnode,
                        delegate_reward_rate,
                        stake_to_be_added,
                        unique,
                        non_unique,
                        max_burn_amount,
                        checks,
                        r,
                    ),
                },
            },
    {
        if self.tx_pause {
            return Err(NetworkError::Paused);
        }
        let pre = self.register_node_precheck(
            coldkey,
            subnet_id,
            hotkey,
            &peer_id,
            &bootnode_peer_id,
            &client_peer_id,
            &bootnode,
            max_burn_amount,
            delegate_reward_rate,
            stake_to_be_added,
            checks,
        );
        if pre.is_err() {
            return pre;
        }
        match self.late_register_node_check(subnet_id, &unique) {
            Some(e) => return Err(e),
            None => {},
        }
        self.do_register_subnet_node(
            db,
            coldkey,
            subnet_id,
            hotkey,
            peer_id,
            bootnode_peer_id,
            client_peer_id,
            bootnode,
            delegate_reward_rate,
            stake_to_be_added,
            unique,
            non_unique,
            max_burn_amount,
            checks,
        )
    }

    /// Redirect a queued swap (the `update_swap_queue` call); not subject to
    /// the pause switch.
    pub fn update_swap_queue(&mut self, account_id: u64, id: u32, new_call: QueuedSwapCall) -> (r: Result<(), NetworkError>)
        ensures
            match old(self).update_swap_error(account_id, id, new_call) {
                Some(e) => r == Err::<(), NetworkError>(e) && *final(self) == *old(self),
                None => r is Ok && final(self).swap_call_queue@.contains_key(id)
                    && final(self).swap_call_queue@[id].call == Network::with_balance(
                        new_call,
                        crate::types::spec_queue_balance(old(self).swap_call_queue@[id].call),
                    ),
            },
    {
        self.do_update_swap_queue(account_id, id, new_call)
    }
}

} // verus!
