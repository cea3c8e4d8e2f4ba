//! Verified core of a subnet network: subnet and node bookkeeping, staking
//! pools with share accounting, the unbonding ledger and the stake swap queue.

pub mod types;
pub mod math;
pub mod names;
pub mod registry;
pub mod subnets;
pub mod nodes;
pub mod overwatch;
pub mod calls;
pub mod info;
pub mod laws;
pub mod network;
pub mod pools;
pub mod delegate_staking;
pub mod validator_delegate_staking;
pub mod node_staking;
pub mod unbonding;
pub mod swap_queue;
pub mod hooks;
pub mod keys;
