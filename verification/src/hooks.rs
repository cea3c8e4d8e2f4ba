//! Per-block execution of the swap queue under a weight budget.

use vstd::prelude::*;
use crate::types::{QueuedSwapCall, QueuedSwapItem};
use crate::network::{Network, get_or, sat_add, sat_add_i128, as_flow, map_remove};
use crate::math::spec_convert_to_shares;
use crate::pools::seeded;

verus! {

/// Two-dimensional execution weight: computation time and proof size.
#[derive(Clone, Copy, Debug, PartialEq, Eq, Structural)]
pub struct Weight {
    pub ref_time: u64,
    pub proof_size: u64,
}

/// `a + b`, each component capped at `u64::MAX`.
pub open spec fn weight_add(a: Weight, b: Weight) -> Weight {
    Weight {
        ref_time: if a.ref_time + b.ref_time > u64::MAX { u64::MAX } else { (a.ref_time + b.ref_time) as u64 },
        proof_size: if a.proof_size + b.proof_size > u64::MAX { u64::MAX } else { (a.proof_size + b.proof_size) as u64 },
    }
}

/// `a + b`, each component saturating.
pub fn add_weight(a: Weight, b: Weight) -> (r: Weight)
    ensures
        r == weight_add(a, b),
{
    Weight {
        ref_time: a.ref_time.saturating_add(b.ref_time),
        proof_size: a.proof_size.saturating_add(b.proof_size),
    }
}

/// Whether `consumed + w` stays within `limit` in both components.
pub open spec fn weight_fits(consumed: Weight, w: Weight, limit: Weight) -> bool {
    consumed.ref_time + w.ref_time <= limit.ref_time && consumed.proof_size + w.proof_size <= limit.proof_size
}

/// Weight consumed so far against a limit.
#[derive(Clone, Copy, Debug, PartialEq, Eq, Structural)]
pub struct WeightMeter {
    pub consumed: Weight,
    pub limit: Weight,
}

impl WeightMeter {
    /// A meter with nothing consumed.
    pub fn with_limit(limit: Weight) -> (r: WeightMeter)
        ensures
            r.limit == limit,
            r.consumed == (Weight { ref_time: 0, proof_size: 0 }),
    {
        WeightMeter { consumed: Weight { ref_time: 0, proof_size: 0 }, limit }
    }

    /// Whether `w` can still be consumed.
    pub fn can_consume(&self, w: Weight) -> (r: bool)
        ensures
            r == weight_fits(self.consumed, w, self.limit),
    {
        match self.consumed.ref_time.checked_add(w.ref_time) {
            Some(t) => match self.consumed.proof_size.checked_add(w.proof_size) {
                Some(p) => t <= self.limit.ref_time && p <= self.limit.proof_size,
                None => false,
            },
            None => false,
        }
    }

    /// Record `w` as consumed (saturating).
    pub fn consume(&mut self, w: Weight)
        ensures
            final(self).consumed == weight_add(old(self).consumed, w),
            final(self).limit == old(self).limit,
    {
        self.consumed = Weight {
            ref_time: self.consumed.ref_time.saturating_add(w.ref_time),
            proof_size: self.consumed.proof_size.saturating_add(w.proof_size),
        };
    }
}

/// Computation time of one storage read and one storage write.
#[derive(Clone, Copy, Debug, PartialEq, Eq, Structural)]
pub struct DbWeight {
    pub read: u64,
    pub write: u64,
}

/// `x * y` capped at `u64::MAX`.
pub open spec fn sat_mul_u64(x: u64, y: u64) -> u64 {
    if x * y > u64::MAX { u64::MAX } else { (x * y) as u64 }
}

/// Weight of `r` reads and `w` writes (saturating, no proof size).
pub open spec fn reads_writes_weight(d: DbWeight, r: u64, w: u64) -> Weight {
    let t = sat_mul_u64(d.read, r) + sat_mul_u64(d.write, w);
    Weight { ref_time: if t > u64::MAX { u64::MAX } else { t as u64 }, proof_size: 0 }
}

impl DbWeight {
    /// Weight of `r` reads and `w` writes.
    pub fn reads_writes(&self, r: u64, w: u64) -> (x: Weight)
        ensures
            x == reads_writes_weight(*self, r, w),
    {
        let a: u64 = match self.read.checked_mul(r) {
            Some(v) => v,
            None => u64::MAX,
        };
        let b: u64 = match self.write.checked_mul(w) {
            Some(v) => v,
            None => u64::MAX,
        };
        Weight { ref_time: a.saturating_add(b), proof_size: 0 }
    }
}

/// Weight of `ops` units of computation, 1000 time units each (saturating).
pub open spec fn computational_weight(ops: u64) -> Weight {
    Weight { ref_time: sat_mul_u64(1000, ops), proof_size: 0 }
}

/// Storage reads, storage writes and computation counted while clearing records.
#[derive(Clone, Copy, Debug, PartialEq, Eq, Structural)]
pub struct WeightAccumulator {
    pub total_reads: u64,
    pub total_writes: u64,
    pub computational_ops: u64,
}

impl WeightAccumulator {
    /// Nothing counted yet.
    pub fn new() -> (r: WeightAccumulator)
        ensures
            r == (WeightAccumulator { total_reads: 0, total_writes: 0, computational_ops: 0 }),
    {
        WeightAccumulator { total_reads: 0, total_writes: 0, computational_ops: 0 }
    }

    /// Count `ops` units of computation.
    pub fn add_computational_weight(&mut self, ops: u64)
        requires
            old(self).computational_ops + ops <= u64::MAX,
        ensures
            *final(self) == (WeightAccumulator { computational_ops: (old(self).computational_ops + ops) as u64, ..*old(self) }),
    {
        self.computational_ops = self.computational_ops + ops;
    }

    /// Count the writes of clearing `removed_count` entries.
    pub fn add_clear_prefix(&mut self, removed_count: u32)
        requires
            old(self).total_writes + removed_count <= u64::MAX,
        ensures
            *final(self) == (WeightAccumulator { total_writes: (old(self).total_writes + removed_count) as u64, ..*old(self) }),
    {
        self.total_writes = self.total_writes + removed_count as u64;
    }

    /// Count the write of removing one entry.
    pub fn add_remove(&mut self)
        requires
            old(self).total_writes < u64::MAX,
        ensures
            *final(self) == (WeightAccumulator { total_writes: (old(self).total_writes + 1) as u64, ..*old(self) }),
    {
        self.total_writes = self.total_writes + 1;
    }

    /// Count the read and write of taking one entry.
    pub fn add_take(&mut self)
        requires
            old(self).total_reads < u64::MAX,
            old(self).total_writes < u64::MAX,
        ensures
            *final(self) == (WeightAccumulator {
                total_reads: (old(self).total_reads + 1) as u64,
                total_writes: (old(self).total_writes + 1) as u64,
                ..*old(self)
            }),
    {
        self.total_reads = self.total_reads + 1;
        self.total_writes = self.total_writes + 1;
    }

    /// Count the read and write of updating one entry in place.
    pub fn add_mutate(&mut self)
        requires
            old(self).total_reads < u64::MAX,
            old(self).total_writes < u64::MAX,
        ensures
            *final(self) == (WeightAccumulator {
                total_reads: (old(self).total_reads + 1) as u64,
                total_writes: (old(self).total_writes + 1) as u64,
                ..*old(self)
            }),
    {
        self.total_reads = self.total_reads + 1;
        self.total_writes = self.total_writes + 1;
    }

    /// The weight of what was counted: reads and writes at `db`'s prices plus
    /// the computation (each step saturating).
    pub fn finalize(self, db: DbWeight) -> (r: Weight)
        ensures
            r == weight_add(
                weight_add(reads_writes_weight(db, self.total_reads, 0), reads_writes_weight(db, 0, self.total_writes)),
                computational_weight(self.computational_ops),
            ),
    {
        let reads = db.reads_writes(self.total_reads, 0);
        let writes = db.reads_writes(0, self.total_writes);
        let ops: u64 = match 1000u64.checked_mul(self.computational_ops) {
            Some(v) => v,
            None => u64::MAX,
        };
        let rw = Weight {
            ref_time: reads.ref_time.saturating_add(writes.ref_time),
            proof_size: reads.proof_size.saturating_add(writes.proof_size),
        };
        Weight {
            ref_time: rw.ref_time.saturating_add(ops),
            proof_size: rw.proof_size,
        }
    }
}

/// Weights of the storage accesses and deposits the swap queue performs.
#[derive(Clone, Copy, Debug, PartialEq, Eq, Structural)]
pub struct SwapWeights {
    /// Computation time of one storage read.
    pub db_read: u64,
    /// Computation time of one storage write.
    pub db_write: u64,
    /// Weight of a deposit into a subnet delegate pool.
    pub subnet_deposit: Weight,
    /// Weight of a deposit into a validator delegate pool.
    pub validator_deposit: Weight,
    /// Weight of a deposit into a node delegate pool.
    pub node_deposit: Weight,
}

/// Weight of one storage read.
pub open spec fn read_weight(w: SwapWeights) -> Weight {
    Weight { ref_time: w.db_read, proof_size: 0 }
}

/// Weight of one storage write.
pub open spec fn write_weight(w: SwapWeights) -> Weight {
    Weight { ref_time: w.db_write, proof_size: 0 }
}

/// Weight of one read and one write.
pub open spec fn read_write_weight(w: SwapWeights) -> Weight {
    Weight {
        ref_time: if w.db_read + w.db_write > u64::MAX { u64::MAX } else { (w.db_read + w.db_write) as u64 },
        proof_size: 0,
    }
}

/// Weight of executing a queued call.
pub open spec fn call_weight(w: SwapWeights, c: QueuedSwapCall) -> Weight {
    match c {
        QueuedSwapCall::SwapToSubnetDelegateStake { .. } => w.subnet_deposit,
        QueuedSwapCall::SwapToValidatorDelegateStake { .. } => w.validator_deposit,
        QueuedSwapCall::SwapToNodeDelegateStake { .. } => w.node_deposit,
    }
}

/// Overhead of one iteration of the swap loop.
pub open spec fn iteration_weight() -> Weight {
    Weight { ref_time: 1000, proof_size: 0 }
}

/// Weight consumed from `c` by running the calls `calls` from the head of the
/// swap queue, one loop iteration each: the iteration overhead, the queue order
/// read and write, the item read, the call, and the item removal.
pub open spec fn swap_run_weight(c: Weight, w: SwapWeights, calls: Seq<QueuedSwapCall>) -> Weight
    decreases calls.len(),
{
    if calls.len() == 0 {
        c
    } else {
        let before = swap_run_weight(c, w, calls.drop_last());
        weight_add(
            weight_add(
                weight_add(weight_add(weight_add(before, iteration_weight()), read_write_weight(w)), read_weight(w)),
                call_weight(w, calls.last()),
            ),
            write_weight(w),
        )
    }
}

/// Weight consumed from `c` by a loop iteration that runs no call: the
/// iteration overhead, the queue order read and write and, when the queue is
/// not empty, the item read.
pub open spec fn swap_stop_weight(c: Weight, w: SwapWeights, queue_not_empty: bool) -> Weight {
    let a = weight_add(weight_add(c, iteration_weight()), read_write_weight(w));
    if queue_not_empty { weight_add(a, read_weight(w)) } else { a }
}

/// The subnet, validator and node delegate pools as plain maps.
#[verifier::ext_equal]
pub struct DelegatePools {
    pub subnet_shares: Map<u32, u128>,
    pub subnet_balance: Map<u32, u128>,
    pub subnet_accounts: Map<(u64, u32), u128>,
    pub subnet_total: u128,
    pub subnet_flow: Map<u32, i128>,
    pub validator_shares: Map<u32, u128>,
    pub validator_balance: Map<u32, u128>,
    pub validator_accounts: Map<(u64, u32), u128>,
    pub validator_total: u128,
    pub node_shares: Map<(u32, u32), u128>,
    pub node_balance: Map<(u32, u32), u128>,
    pub node_accounts: Map<(u64, u32, u32), u128>,
    pub node_total: u128,
}

/// The pools after depositing the balance of `c` into its destination pool:
/// an empty pool is first seeded with dead shares; nothing more happens when
/// the deposit would mint no shares.
pub open spec fn pools_after_call(p: DelegatePools, c: QueuedSwapCall) -> DelegatePools {
    match c {
        QueuedSwapCall::SwapToSubnetDelegateStake { account_id, to_subnet_id, balance } => {
            let s = to_subnet_id;
            let shares = spec_convert_to_shares(balance, get_or(p.subnet_shares, s, 0u128), get_or(p.subnet_balance, s, 0u128));
            let ts1 = seeded(p.subnet_shares, s);
            if shares == 0 {
                DelegatePools { subnet_shares: ts1, ..p }
            } else {
                DelegatePools {
                    subnet_accounts: p.subnet_accounts.insert(
                        (account_id, s),
                        sat_add(get_or(p.subnet_accounts, (account_id, s), 0u128), shares),
                    ),
                    subnet_balance: p.subnet_balance.insert(s, sat_add(get_or(p.subnet_balance, s, 0u128), balance)),
                    subnet_shares: ts1.insert(s, sat_add(get_or(ts1, s, 0u128), shares)),
                    subnet_total: sat_add(p.subnet_total, balance),
                    subnet_flow: p.subnet_flow.insert(s, sat_add_i128(get_or(p.subnet_flow, s, 0i128), as_flow(balance))),
                    ..p
                }
            }
        },
        QueuedSwapCall::SwapToValidatorDelegateStake { account_id, to_validator_id, balance } => {
            let v = to_validator_id;
            let shares = spec_convert_to_shares(balance, get_or(p.validator_shares, v, 0u128), get_or(p.validator_balance, v, 0u128));
            let ts1 = seeded(p.validator_shares, v);
            if shares == 0 {
                DelegatePools { validator_shares: ts1, ..p }
            } else {
                DelegatePools {
                    validator_accounts: p.validator_accounts.insert(
                        (account_id, v),
                        sat_add(get_or(p.validator_accounts, (account_id, v), 0u128), shares),
                    ),
                    validator_balance: p.validator_balance.insert(v, sat_add(get_or(p.validator_balance, v, 0u128), balance)),
                    validator_shares: ts1.insert(v, sat_add(get_or(ts1, v, 0u128), shares)),
                    validator_total: sat_add(p.validator_total, balance),
                    ..p
                }
            }
        },
        QueuedSwapCall::SwapToNodeDelegateStake { account_id, to_subnet_id, to_subnet_node_id, balance } => {
            let k = (to_subnet_id, to_subnet_node_id);
            let ak = (account_id, to_subnet_id, to_subnet_node_id);
            let shares = spec_convert_to_shares(balance, get_or(p.node_shares, k, 0u128), get_or(p.node_balance, k, 0u128));
            let ts1 = seeded(p.node_shares, k);
            if shares == 0 {
                DelegatePools { node_shares: ts1, ..p }
            } else {
                DelegatePools {
                    node_accounts: p.node_accounts.insert(ak, sat_add(get_or(p.node_accounts, ak, 0u128), shares)),
                    node_balance: p.node_balance.insert(k, sat_add(get_or(p.node_balance, k, 0u128), balance)),
                    node_shares: ts1.insert(k, sat_add(get_or(ts1, k, 0u128), shares)),
                    node_total: sat_add(p.node_total, balance),
                    ..p
                }
            }
        },
    }
}

/// The pools after executing `calls` in order.
pub open spec fn pools_after_calls(p: DelegatePools, calls: Seq<QueuedSwapCall>) -> DelegatePools
    decreases calls.len(),
{
    if calls.len() == 0 {
        p
    } else {
        pools_after_call(pools_after_calls(p, calls.drop_last()), calls.last())
    }
}

/// Whether a queued item may run at `block`.
pub open spec fn swap_ready(item: QueuedSwapItem, block: u32) -> bool {
    (if block >= item.queued_at_block { block - item.queued_at_block } else { 0int }) >= item.execute_after_blocks
}

impl Network {
    /// The delegate pools of this state.
    pub open spec fn delegate_pools(&self) -> DelegatePools {
        DelegatePools {
            subnet_shares: self.total_subnet_delegate_stake_shares@,
            subnet_balance: self.total_subnet_delegate_stake_balance@,
            subnet_accounts: self.account_subnet_delegate_stake_shares@,
            subnet_total: self.total_delegate_stake,
            subnet_flow: self.subnet_net_flow@,
            validator_shares: self.validator_delegate_stake_shares@,
            validator_balance: self.validator_delegate_stake_balance@,
            validator_accounts: self.account_validator_delegate_stake_shares@,
            validator_total: self.total_validator_delegate_stake_balance,
            node_shares: self.total_node_delegate_stake_shares@,
            node_balance: self.total_node_delegate_stake_balance@,
            node_accounts: self.account_node_delegate_stake_shares@,
            node_total: self.total_node_delegate_stake,
        }
    }

    /// Every group of state but the delegate pools and the swap queue equals that of `o`.
    pub open spec fn swap_run_frame(&self, o: Network) -> bool {
        &&& self.same_settings(o)
        &&& self.same_node_stake(o)
        &&& self.same_overwatch_stake(o)
        &&& self.same_delegate_account(o)
        &&& self.same_unbonding(o)
        &&& self.same_rate_limit(o)
        &&& self.next_swap_queue_id == o.next_swap_queue_id
    }

    /// Execute one queued call if `meter` can afford it: its balance is deposited
    /// into its destination pool. Returns whether it ran. A deposit that mints no
    /// shares still counts as run (the balance is lost to the pool).
    pub fn execute_swap_call_internal(&mut self, queued_call: QueuedSwapCall, meter: &mut WeightMeter, weights: SwapWeights)
        -> (r: bool)
        ensures
            r == weight_fits(old(meter).consumed, call_weight(weights, queued_call), old(meter).limit),
            !r ==> *final(self) == *old(self) && *final(meter) == *old(meter),
            r ==> {
                &&& final(meter).consumed == weight_add(old(meter).consumed, call_weight(weights, queued_call))
                &&& final(meter).limit == old(meter).limit
                &&& final(self).delegate_pools() == pools_after_call(old(self).delegate_pools(), queued_call)
                &&& final(self).swap_run_frame(*old(self))
                &&& final(self).same_swap_queue(*old(self))
            },
    {
        match queued_call {
            QueuedSwapCall::SwapToSubnetDelegateStake { account_id, to_subnet_id, balance } => {
                if !meter.can_consume(weights.subnet_deposit) {
                    return false;
                }
                meter.consume(weights.subnet_deposit);
                let _ = self.handle_increase_account_delegate_stake(account_id, to_subnet_id, balance);
                proof {
                    assert(self.delegate_pools() =~= pools_after_call(old(self).delegate_pools(), queued_call));
                }
            },
            QueuedSwapCall::SwapToValidatorDelegateStake { account_id, to_validator_id, balance } => {
                if !meter.can_consume(weights.validator_deposit) {
                    return false;
                }
                meter.consume(weights.validator_deposit);
                let _ = self.handle_increase_account_validator_delegate_stake(account_id, to_validator_id, balance);
                proof {
                    assert(self.delegate_pools() =~= pools_after_call(old(self).delegate_pools(), queued_call));
                }
            },
            QueuedSwapCall::SwapToNodeDelegateStake { account_id, to_subnet_id, to_subnet_node_id, balance } => {
                if !meter.can_consume(weights.node_deposit) {
                    return false;
                }
                meter.consume(weights.node_deposit);
                let _ = self.handle_increase_account_node_delegate_stake_shares(
                    account_id,
                    to_subnet_id,
                    to_subnet_node_id,
                    balance,
                );
                proof {
                    assert(self.delegate_pools() =~= pools_after_call(old(self).delegate_pools(), queued_call));
                }
            },
        }
        true
    }

    /// Try the call at the head of the queue: it runs when its item exists, it
    /// has waited long enough at `block` and `meter` can afford it; it then leaves
    /// the queue. Returns whether it ran.
    fn execute_next_swap_call(&mut self, block: u32, meter: &mut WeightMeter, weights: SwapWeights) -> (r: bool)
        ensures
            final(meter).limit == old(meter).limit,
            old(self).swap_queue_order@.len() == 0 ==> !r && *final(self) == *old(self) && *final(meter) == *old(meter),
            old(self).swap_queue_order@.len() > 0 ==> {
                let id = old(self).swap_queue_order@[0];
                let queue = old(self).swap_call_queue@;
                let m1 = weight_add(old(meter).consumed, read_weight(weights));
                &&& r == (queue.contains_key(id) && swap_ready(queue[id], block)
                    && weight_fits(m1, call_weight(weights, queue[id].call), old(meter).limit))
                &&& !r ==> *final(self) == *old(self) && final(meter).consumed == m1
                &&& r ==> {
                    &&& final(self).swap_queue_order@ == old(self).swap_queue_order@.skip(1)
                    &&& final(self).swap_call_queue@ == queue.remove(id)
                    &&& final(self).delegate_pools() == pools_after_call(old(self).delegate_pools(), queue[id].call)
                    &&& final(self).swap_run_frame(*old(self))
                    &&& final(meter).consumed == weight_add(
                        weight_add(m1, call_weight(weights, queue[id].call)),
                        write_weight(weights),
                    )
                }
            },
    {
        if self.swap_queue_order.len() == 0 {
            return false;
        }
        let first_id = self.swap_queue_order[0];
        meter.consume(Weight { ref_time: weights.db_read, proof_size: 0 });
        let item: QueuedSwapItem = match self.swap_call_queue.get(&first_id) {
            Some(i) => *i,
            None => return false,
        };
        let blocks_passed = block.saturating_sub(item.queued_at_block);
        if blocks_passed >= item.execute_after_blocks {
            let is_ok = self.execute_swap_call_internal(item.call, meter, weights);
            if !is_ok {
                return false;
            }
            self.swap_queue_order.remove(0);
            map_remove(&mut self.swap_call_queue, first_id);
            meter.consume(Weight { ref_time: weights.db_write, proof_size: 0 });
            proof {
                assert(self.swap_queue_order@ =~= old(self).swap_queue_order@.skip(1));
            }
            return true;
        }
        false
    }

    /// Run ready calls from the head of the swap queue at `block`, in queue order,
    /// at most `max_swap_queue_calls_per_block` of them. Stops at the first call
    /// whose item is missing, that has not waited long enough, or that `meter`
    /// cannot afford.
    pub fn execute_ready_swap_calls(&mut self, block: u32, meter: &mut WeightMeter, weights: SwapWeights)
        ensures
            ({
                let k = old(self).swap_queue_order@.len() - final(self).swap_queue_order@.len();
                let ids = old(self).swap_queue_order@.take(k);
                let queue = old(self).swap_call_queue@;
                &&& 0 <= k <= old(self).max_swap_queue_calls_per_block
                &&& final(self).swap_queue_order@ == old(self).swap_queue_order@.skip(k)
                &&& ids.no_duplicates()
                &&& forall|i: int| 0 <= i < k ==> queue.contains_key(#[trigger] ids[i]) && swap_ready(queue[ids[i]], block)
                &&& final(self).swap_call_queue@ == queue.remove_keys(ids.to_set())
                &&& final(self).delegate_pools() == pools_after_calls(
                    old(self).delegate_pools(),
                    ids.map_values(|id: u32| queue[id].call),
                )
                &&& final(self).swap_run_frame(*old(self))
                &&& final(meter).limit == old(meter).limit
                &&& {
                    let run = swap_run_weight(
                        weight_add(old(meter).consumed, read_weight(weights)),
                        weights,
                        ids.map_values(|id: u32| queue[id].call),
                    );
                    final(meter).consumed == if k == old(self).max_swap_queue_calls_per_block {
                        run
                    } else {
                        swap_stop_weight(run, weights, k < old(self).swap_queue_order@.len())
                    }
                }
                &&& k < old(self).max_swap_queue_calls_per_block ==> {
                    ||| k == old(self).swap_queue_order@.len()
                    ||| {
                        let id = old(self).swap_queue_order@[k];
                        let rest = final(self).swap_call_queue@;
                        ||| !rest.contains_key(id)
                        ||| !swap_ready(rest[id], block)
                        ||| !weight_fits(final(meter).consumed, call_weight(weights, rest[id].call), final(meter).limit)
                    }
                }
            }),
    {
        meter.consume(Weight { ref_time: weights.db_read, proof_size: 0 });
        let max_executions = self.max_swap_queue_calls_per_block;
        let mut executed: u32 = 0;
        let mut go = true;
        let ghost order0 = old(self).swap_queue_order@;
        let ghost queue0 = old(self).swap_call_queue@;
        let ghost pools0 = old(self).delegate_pools();
        let ghost c0 = meter.consumed;
        while go && executed < max_executions
            invariant
                order0 == old(self).swap_queue_order@,
                queue0 == old(self).swap_call_queue@,
                pools0 == old(self).delegate_pools(),
                max_executions == old(self).max_swap_queue_calls_per_block,
                executed <= max_executions,
                executed <= order0.len(),
                self.swap_queue_order@ == order0.skip(executed as int),
                order0.take(executed as int).no_duplicates(),
                forall|i: int| 0 <= i < executed ==> queue0.contains_key(#[trigger] order0.take(executed as int)[i])
                    && swap_ready(queue0[order0.take(executed as int)[i]], block),
                self.swap_call_queue@ == queue0.remove_keys(order0.take(executed as int).to_set()),
                self.delegate_pools() == pools_after_calls(
                    pools0,
                    order0.take(executed as int).map_values(|id: u32| queue0[id].call),
                ),
                self.swap_run_frame(*old(self)),
                meter.limit == old(meter).limit,
                c0 == weight_add(old(meter).consumed, read_weight(weights)),
                !go ==> executed < max_executions,
                go ==> meter.consumed == swap_run_weight(c0, weights, order0.take(executed as int).map_values(|id: u32| queue0[id].call)),
                !go ==> meter.consumed == swap_stop_weight(
                    swap_run_weight(c0, weights, order0.take(executed as int).map_values(|id: u32| queue0[id].call)),
                    weights,
                    executed < order0.len(),
                ),
                !go ==> {
                    ||| executed == order0.len()
                    ||| {
                        let id = order0[executed as int];
                        let rest = self.swap_call_queue@;
                        ||| !rest.contains_key(id)
                        ||| !swap_ready(rest[id], block)
                        ||| !weight_fits(meter.consumed, call_weight(weights, rest[id].call), meter.limit)
                    }
                },
            decreases max_executions - executed, (if go { 1int } else { 0int }),
        {
            meter.consume(Weight { ref_time: 1000, proof_size: 0 });
            meter.consume(Weight { ref_time: weights.db_read.saturating_add(weights.db_write), proof_size: 0 });
            let ghost before = *self;
            let cont = self.execute_next_swap_call(block, meter, weights);
            if !cont {
                go = false;
                proof {
                    if executed < order0.len() {
                        assert(before.swap_queue_order@[0] == order0[executed as int]);
                    }
                }
            } else {
                proof {
                    let e = executed as int;
                    let id = order0[e];
                    assert(before.swap_queue_order@[0] == id);
                    let ids = order0.take(e);
                    let ids1 = order0.take(e + 1);
                    assert(ids1 =~= ids.push(id));
                    assert(!ids.contains(id)) by {
                        if ids.contains(id) {
                            let j = choose|j: int| 0 <= j < ids.len() && ids[j] == id;
                            assert(!before.swap_call_queue@.contains_key(id));
                        }
                    }
                    assert(before.swap_call_queue@[id] == queue0[id]);
                    assert forall|i: int| 0 <= i < e + 1 implies queue0.contains_key(#[trigger] ids1[i])
                        && swap_ready(queue0[ids1[i]], block) by {
                        if i < e {
                            assert(ids1[i] == ids[i]);
                        }
                    }
                    assert forall|x: u32| ids1.contains(x) <==> (ids.contains(x) || x == id) by {
                        if ids1.contains(x) {
                            let j = choose|j: int| 0 <= j < ids1.len() && ids1[j] == x;
                            if j < e {
                                assert(ids[j] == x);
                            }
                        }
                        if ids.contains(x) {
                            let j = choose|j: int| 0 <= j < ids.len() && ids[j] == x;
                            assert(ids1[j] == x);
                        }
                        if x == id {
                            assert(ids1[e] == x);
                        }
                    }
                    assert(self.swap_call_queue@ =~= queue0.remove_keys(ids1.to_set()));
                    let calls = ids.map_values(|id: u32| queue0[id].call);
                    let calls1 = ids1.map_values(|id: u32| queue0[id].call);
                    assert(calls1 =~= calls.push(queue0[id].call));
                    assert(calls1.drop_last() =~= calls);
                    assert(self.swap_queue_order@ =~= order0.skip(e + 1));
                }
                executed = executed + 1;
            }
        }
        proof {
            let k = executed as int;
            assert(old(self).swap_queue_order@.len() - self.swap_queue_order@.len() == k);
        }
    }
}

} // verus!
