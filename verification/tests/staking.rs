use pallet_network::math::{convert_to_balance, convert_to_shares};
use pallet_network::network::{Network, WithdrawCheck, PendingDeposit};
use pallet_network::registry::NetworkParams;
use pallet_network::types::{DefaultSubnetNode, NetworkError, QueuedSwapCall, SubnetData, SubnetState};
use pallet_network::hooks::{SwapWeights, Weight, WeightMeter};

fn network() -> Network {
    Network::new(10, 0, NetworkParams::defaults(3650, 3))
}

fn add_subnet(n: &mut Network, id: u32) {
    n.subnets_data.insert(
        id,
        SubnetData {
            id,
            friendly_id: id,
            name: vec![id as u8],
            repo: vec![id as u8],
            description: vec![],
            misc: vec![],
            state: SubnetState::Active,
            start_epoch: 0,
        },
    );
}

fn weights() -> SwapWeights {
    SwapWeights {
        db_read: 1,
        db_write: 1,
        subnet_deposit: Weight { ref_time: 1, proof_size: 0 },
        validator_deposit: Weight { ref_time: 1, proof_size: 0 },
        node_deposit: Weight { ref_time: 1, proof_size: 0 },
    }
}

#[test]
fn convert_to_shares_empty_pool_is_one_to_one() {
    assert_eq!(convert_to_shares(1000, 0, 0), 1000);
    assert_eq!(convert_to_balance(5, 0, 777), 5);
}

#[test]
fn convert_to_shares_uses_virtual_offsets() {
    // 100 * (1000 + 10) / (1000 + 1) = 100.89...
    assert_eq!(convert_to_shares(100, 1000, 1000), 100);
    // 100 * (1100 + 1) / (1100 + 10) = 99.18...
    assert_eq!(convert_to_balance(100, 1100, 1100), 99);
    // 3 * (7 + 10) / (0 + 1) = 51: the 256-bit product is not the input
    assert_eq!(convert_to_shares(3, 7, 0), 51);
}

#[test]
fn convert_caps_at_u128_max() {
    assert_eq!(convert_to_shares(u128::MAX, u128::MAX - 10, 0), u128::MAX);
    assert_eq!(convert_to_balance(u128::MAX, 1, u128::MAX - 1), u128::MAX);
}

#[test]
fn deposit_then_redeem_returns_at_most_the_deposit() {
    let (ts, tb, b) = (5_000u128, 7_000u128, 1_234u128);
    let shares = convert_to_shares(b, ts, tb);
    let back = convert_to_balance(shares, ts + shares, tb + b);
    assert!(back <= b);
}

#[test]
fn convert_is_monotonic() {
    assert!(convert_to_balance(10, 2000, 3000) <= convert_to_balance(11, 2000, 3000));
    assert!(convert_to_shares(10, 2000, 3000) <= convert_to_shares(11, 2000, 3000));
    assert!(convert_to_balance(10, 2000, 3000) <= convert_to_balance(10, 2000, 3001));
}

#[test]
fn first_delegate_deposit_seeds_dead_shares() {
    let mut n = network();
    add_subnet(&mut n, 1);
    let r = n.add_to_delegate_stake(7, 1, 1000, WithdrawCheck::Allowed, 5);
    assert_eq!(r, Ok(()));
    assert_eq!(n.account_subnet_delegate_stake_shares.get(&(7, 1)), Some(&1000));
    assert_eq!(n.total_subnet_delegate_stake_shares.get(&1), Some(&2000));
    assert_eq!(n.total_subnet_delegate_stake_balance.get(&1), Some(&1000));
    assert_eq!(n.total_delegate_stake, 1000);
    assert_eq!(n.subnet_net_flow.get(&1), Some(&1000));
    assert_eq!(n.last_tx_block.get(&7), Some(&5));
}

#[test]
fn delegate_deposit_errors() {
    let mut n = network();
    add_subnet(&mut n, 1);
    assert_eq!(n.add_to_delegate_stake(7, 2, 1000, WithdrawCheck::Allowed, 5), Err(NetworkError::InvalidSubnetId));
    assert_eq!(n.add_to_delegate_stake(7, 1, 999, WithdrawCheck::Allowed, 5), Err(NetworkError::MinDelegateStakeDepositNotReached));
    assert_eq!(n.add_to_delegate_stake(7, 1, 1000, WithdrawCheck::NotEnough, 5), Err(NetworkError::NotEnoughBalanceToStake));
    assert_eq!(n.add_to_delegate_stake(7, 1, 1000, WithdrawCheck::WithdrawFails, 5), Err(NetworkError::BalanceWithdrawalError));
    n.tx_pause = true;
    assert_eq!(n.add_to_delegate_stake(7, 1, 1000, WithdrawCheck::Allowed, 5), Err(NetworkError::Paused));
    assert_eq!(n.total_delegate_stake, 0);
}

#[test]
fn rate_limit_refuses_a_second_transaction() {
    let mut n = network();
    add_subnet(&mut n, 1);
    n.tx_rate_limit = 5;
    assert_eq!(n.add_to_delegate_stake(7, 1, 1000, WithdrawCheck::Allowed, 10), Ok(()));
    assert_eq!(n.add_to_delegate_stake(7, 1, 1000, WithdrawCheck::Allowed, 12), Err(NetworkError::TxRateLimitExceeded));
    assert_eq!(n.add_to_delegate_stake(7, 1, 1000, WithdrawCheck::Allowed, 16), Ok(()));
    assert!(n.exceeds_tx_rate_limit(16, 21));
    assert!(!n.exceeds_tx_rate_limit(16, 22));
    assert!(!n.exceeds_tx_rate_limit(0, 1));
}

#[test]
fn deposit_minting_no_shares_is_refused_after_seeding() {
    let mut n = network();
    add_subnet(&mut n, 1);
    n.total_subnet_delegate_stake_shares.insert(1, 1);
    n.total_subnet_delegate_stake_balance.insert(1, 1_000_000);
    // 1000 * 11 / 1_000_001 = 0
    let r = n.handle_increase_account_delegate_stake(7, 1, 1000);
    assert_eq!(r, (Err(NetworkError::CouldNotConvertToShares), 0, 0));
    assert_eq!(n.total_subnet_delegate_stake_balance.get(&1), Some(&1_000_000));
}

#[test]
fn remove_delegate_stake_goes_to_the_ledger_and_claims_after_cooldown() {
    let mut n = network();
    add_subnet(&mut n, 1);
    assert_eq!(n.add_to_delegate_stake(7, 1, 1000, WithdrawCheck::Allowed, 5), Ok(()));
    // 500 * (1000 + 1) / (2000 + 10) = 249
    assert_eq!(n.remove_delegate_stake(7, 1, 500, 6), Ok(()));
    assert_eq!(n.account_subnet_delegate_stake_shares.get(&(7, 1)), Some(&500));
    assert_eq!(n.total_subnet_delegate_stake_balance.get(&1), Some(&751));
    assert_eq!(n.total_unbonding_balance, 249);
    assert_eq!(n.stake_unbonding_ledger.get(&7).unwrap().get(&16), Some(&249));
    assert_eq!(n.claim_unbondings(7, 15), Err(NetworkError::NoStakeUnbondingsOrCooldownNotMet));
    assert_eq!(n.claim_unbondings(7, 16), Ok(()));
    assert_eq!(n.pending_deposits, vec![PendingDeposit { account: 7, unbonding_block: 16, amount: 249 }]);
    assert_eq!(n.total_unbonding_balance, 0);
    assert_eq!(n.claim_unbondings(7, 16), Err(NetworkError::NoStakeUnbondingsOrCooldownNotMet));
}

#[test]
fn remove_delegate_stake_errors() {
    let mut n = network();
    add_subnet(&mut n, 1);
    assert_eq!(n.add_to_delegate_stake(7, 1, 1000, WithdrawCheck::Allowed, 5), Ok(()));
    assert_eq!(n.remove_delegate_stake(7, 1, 0, 6), Err(NetworkError::SharesZero));
    assert_eq!(n.remove_delegate_stake(7, 1, 1001, 6), Err(NetworkError::NotEnoughStakeToWithdraw));
}

#[test]
fn full_ledger_claims_then_refuses() {
    let mut n = network();
    add_subnet(&mut n, 1);
    n.max_unbondings = 2;
    assert_eq!(n.add_balance_to_unbonding_ledger(7, 10, 10, 0), Ok(()));
    assert_eq!(n.add_balance_to_unbonding_ledger(7, 10, 10, 1), Ok(()));
    assert_eq!(n.add_balance_to_unbonding_ledger(7, 10, 10, 2), Err(NetworkError::MaxUnlockingsReached));
    // at block 11 the first unbonding has matured and is paid out to make room
    assert_eq!(n.add_balance_to_unbonding_ledger(7, 10, 10, 10), Ok(()));
    assert_eq!(n.pending_deposits.len(), 1);
    // the ledger never holds more than the maximum number of unbondings
    assert_eq!(n.stake_unbonding_ledger.get(&7).unwrap().len(), 2);
    assert_eq!(n.stake_unbonding_ledger.get(&7).unwrap().len(), 2);
}

#[test]
fn swap_is_queued_and_executed_after_an_epoch() {
    let mut n = network();
    add_subnet(&mut n, 1);
    add_subnet(&mut n, 2);
    assert_eq!(n.add_to_delegate_stake(7, 1, 1000, WithdrawCheck::Allowed, 5), Ok(()));
    assert_eq!(n.swap_delegate_stake(7, 1, 2, 100, 7), Ok(()));
    // 100 * 1001 / 2010 = 49
    assert_eq!(n.swap_queue_order, vec![0]);
    assert_eq!(
        n.swap_call_queue.get(&0).unwrap().call,
        QueuedSwapCall::SwapToSubnetDelegateStake { account_id: 7, to_subnet_id: 2, balance: 49 }
    );
    let mut meter = WeightMeter::with_limit(Weight { ref_time: u64::MAX, proof_size: u64::MAX });
    n.execute_ready_swap_calls(16, &mut meter, weights());
    assert_eq!(n.swap_queue_order.len(), 1);
    // order read, then one iteration that reads the item and stops
    assert_eq!(meter.consumed, Weight { ref_time: 1 + 1000 + 2 + 1, proof_size: 0 });
    n.execute_ready_swap_calls(17, &mut meter, weights());
    assert_eq!(n.swap_queue_order.len(), 0);
    // order read, one iteration that runs the call, one that finds the queue empty
    assert_eq!(meter.consumed, Weight { ref_time: 1004 + 1 + 1005 + 1002, proof_size: 0 });
    assert!(n.swap_call_queue.is_empty());
    assert_eq!(n.account_subnet_delegate_stake_shares.get(&(7, 2)), Some(&49));
    assert_eq!(n.total_subnet_delegate_stake_balance.get(&2), Some(&49));
}

#[test]
fn swap_queue_stops_when_weight_runs_out() {
    let mut n = network();
    add_subnet(&mut n, 2);
    n.queue_to_subnet_delegate_stake(7, 2, 5000, 0).unwrap();
    let mut meter = WeightMeter::with_limit(Weight { ref_time: 1003, proof_size: 0 });
    n.execute_ready_swap_calls(100, &mut meter, weights());
    assert_eq!(n.swap_queue_order, vec![0]);
    assert_eq!(n.total_subnet_delegate_stake_balance.get(&2), None);
    assert_eq!(meter.consumed, Weight { ref_time: 1004, proof_size: 0 });
}

#[test]
fn update_swap_queue_keeps_the_balance() {
    let mut n = network();
    add_subnet(&mut n, 2);
    add_subnet(&mut n, 3);
    n.queue_to_subnet_delegate_stake(7, 2, 5000, 0).unwrap();
    let new_call = QueuedSwapCall::SwapToSubnetDelegateStake { account_id: 7, to_subnet_id: 3, balance: 1 };
    assert_eq!(n.do_update_swap_queue(8, 0, new_call), Err(NetworkError::NotKeyOwner));
    assert_eq!(n.do_update_swap_queue(7, 9, new_call), Err(NetworkError::SwapCallNotFound));
    let bad = QueuedSwapCall::SwapToSubnetDelegateStake { account_id: 7, to_subnet_id: 4, balance: 1 };
    assert_eq!(n.do_update_swap_queue(7, 0, bad), Err(NetworkError::InvalidSubnetId));
    let to_validator = QueuedSwapCall::SwapToValidatorDelegateStake { account_id: 7, to_validator_id: 4, balance: 1 };
    assert_eq!(n.do_update_swap_queue(7, 0, to_validator), Err(NetworkError::InvalidValidatorId));
    assert_eq!(n.do_update_swap_queue(7, 0, new_call), Ok(()));
    assert_eq!(
        n.swap_call_queue.get(&0).unwrap().call,
        QueuedSwapCall::SwapToSubnetDelegateStake { account_id: 7, to_subnet_id: 3, balance: 5000 }
    );
}

#[test]
fn transfer_delegate_stake_moves_shares_only() {
    let mut n = network();
    add_subnet(&mut n, 1);
    assert_eq!(n.add_to_delegate_stake(7, 1, 10_000, WithdrawCheck::Allowed, 5), Ok(()));
    assert_eq!(n.transfer_delegate_stake(7, 1, 7, 5000), Err(NetworkError::TransferToSelfNotAllowed));
    assert_eq!(n.transfer_delegate_stake(7, 1, 8, 0), Err(NetworkError::NotEnoughStakeToWithdraw));
    assert_eq!(n.transfer_delegate_stake(7, 1, 8, 10), Err(NetworkError::MinDelegateStakeDepositNotReached));
    // more shares than account 7 holds are refused and nothing moves
    assert_eq!(n.transfer_delegate_stake(7, 1, 8, 10_001), Err(NetworkError::NotEnoughStakeToWithdraw));
    assert_eq!(n.account_subnet_delegate_stake_shares.get(&(7, 1)), Some(&10_000));
    assert_eq!(n.account_subnet_delegate_stake_shares.get(&(8, 1)), None);
    assert_eq!(n.transfer_delegate_stake(7, 1, 8, 5000), Ok(()));
    assert_eq!(n.account_subnet_delegate_stake_shares.get(&(7, 1)), Some(&5000));
    assert_eq!(n.account_subnet_delegate_stake_shares.get(&(8, 1)), Some(&5000));
    assert_eq!(n.total_subnet_delegate_stake_shares.get(&1), Some(&11_000));
    assert_eq!(n.total_subnet_delegate_stake_balance.get(&1), Some(&10_000));
}

#[test]
fn donation_grows_the_pool_without_shares() {
    let mut n = network();
    add_subnet(&mut n, 1);
    assert_eq!(n.add_to_delegate_stake(7, 1, 10_000, WithdrawCheck::Allowed, 5), Ok(()));
    let before = n.convert_account_shares_to_balance(7, 1);
    assert_eq!(n.donate_delegate_stake(9, 1, 999, WithdrawCheck::Allowed), Err(NetworkError::MinDelegateStake));
    assert_eq!(n.donate_delegate_stake(9, 1, 5000, WithdrawCheck::NotEnough), Err(NetworkError::NotEnoughBalance));
    assert_eq!(n.donate_delegate_stake(9, 2, 5000, WithdrawCheck::Allowed), Err(NetworkError::InvalidSubnetId));
    assert_eq!(n.donate_delegate_stake(9, 1, 5000, WithdrawCheck::Allowed), Ok(()));
    assert_eq!(n.total_subnet_delegate_stake_balance.get(&1), Some(&15_000));
    assert_eq!(n.total_subnet_delegate_stake_shares.get(&1), Some(&11_000));
    assert!(n.convert_account_shares_to_balance(7, 1) > before);
    assert_eq!(n.convert_account_shares_to_balance(8, 1), 0);
}

#[test]
fn validator_delegate_stake_round_trip() {
    let mut n = network();
    n.validator_coldkey.insert(4, 100);
    assert_eq!(n.do_add_validator_delegate_stake(7, 4, 2000, WithdrawCheck::Allowed, 5), Ok(()));
    assert_eq!(n.account_validator_delegate_stake_shares.get(&(7, 4)), Some(&2000));
    assert_eq!(n.validator_delegate_stake_shares.get(&4), Some(&3000));
    assert_eq!(n.total_validator_delegate_stake_balance, 2000);
    // 1000 * 2001 / 3010 = 664
    assert_eq!(n.do_remove_validator_delegate_stake(7, 4, 1000, 6), Ok(()));
    assert_eq!(n.total_unbonding_balance, 664);
    assert_eq!(n.do_swap_from_validator_to_subnet(7, 4, 2, 500, 7), Ok(()));
    assert_eq!(n.swap_queue_order.len(), 1);
}

#[test]
fn node_stake_add_and_remove() {
    let mut n = network();
    add_subnet(&mut n, 1);
    n.subnet_node_validator_id.insert((1, 3), 4);
    n.validator_coldkey.insert(4, 100);
    n.subnet_min_stake_balance.insert(1, 50);
    n.subnet_max_stake_balance.insert(1, 500);
    assert_eq!(n.do_add_node_stake(101, 1, 3, 100, WithdrawCheck::Allowed, 1), Err(NetworkError::NotKeyOwner));
    assert_eq!(n.do_add_node_stake(100, 1, 9, 100, WithdrawCheck::Allowed, 1), Err(NetworkError::InvalidSubnetNodeId));
    assert_eq!(n.do_add_node_stake(100, 1, 3, 0, WithdrawCheck::Allowed, 1), Err(NetworkError::InvalidAmount));
    assert_eq!(n.do_add_node_stake(100, 1, 3, 10, WithdrawCheck::Allowed, 1), Err(NetworkError::MinStakeNotReached));
    assert_eq!(n.do_add_node_stake(100, 1, 3, 600, WithdrawCheck::Allowed, 1), Err(NetworkError::MaxStakeReached));
    assert_eq!(n.do_add_node_stake(100, 1, 3, 100, WithdrawCheck::Allowed, 1), Ok(()));
    assert_eq!(n.node_subnet_stake.get(&(3, 1)), Some(&100));
    assert_eq!(n.total_stake, 100);
    n.subnet_node_reputation.insert((1, 3), 1);
    assert_eq!(n.do_remove_node_stake(100, 1, 3, 60, 2), Err(NetworkError::MinStakeNotReached));
    assert_eq!(n.do_remove_node_stake(100, 1, 3, 0, 2), Err(NetworkError::AmountZero));
    assert_eq!(n.do_remove_node_stake(100, 1, 3, 500, 2), Err(NetworkError::NotEnoughStakeToWithdraw));
    assert_eq!(n.do_remove_node_stake(100, 1, 3, 50, 2), Ok(false));
    assert_eq!(n.total_stake, 50);
    n.subnet_node_reputation.remove(&(1, 3));
    assert_eq!(n.do_remove_node_stake(100, 1, 3, 50, 3), Ok(true));
    assert_eq!(n.total_unbonding_balance, 100);
}

#[test]
fn overwatch_stake_and_delegate_account() {
    let mut n = network();
    n.overwatch_node_validator_id.insert(1, 4);
    n.validator_coldkey.insert(4, 100);
    n.overwatch_min_stake_balance = 10;
    assert_eq!(n.do_add_overwatch_node_stake(100, 1, 5, WithdrawCheck::Allowed), Err(NetworkError::MinStakeNotReached));
    assert_eq!(n.do_add_overwatch_node_stake(100, 2, 50, WithdrawCheck::Allowed), Err(NetworkError::InvalidSubnetNodeId));
    assert_eq!(n.do_add_overwatch_node_stake(100, 1, 50, WithdrawCheck::Allowed), Ok(()));
    assert_eq!(n.do_remove_overwatch_node_stake(100, 1, true, 45, 1), Err(NetworkError::MinStakeNotReached));
    assert_eq!(n.do_remove_overwatch_node_stake(100, 1, false, 45, 1), Ok(()));
    assert_eq!(n.total_overwatch_node_stake_balance, 5);
    n.increase_delegate_account_balance(7, 30);
    assert_eq!(n.do_remove_delegate_balance(7, 0, 1), Err(NetworkError::AmountZero));
    assert_eq!(n.do_remove_delegate_balance(7, 31, 1), Err(NetworkError::NotEnoughStakeToWithdraw));
    assert_eq!(n.do_remove_delegate_balance(7, 30, 1), Ok(()));
    assert_eq!(n.total_account_delegate_stake, 0);
    assert_eq!(n.stake_unbonding_ledger.get(&7).unwrap().get(&41), Some(&30));
}

#[test]
fn delegate_stakes_view_lists_each_subnet_once() {
    let mut n = network();
    add_subnet(&mut n, 1);
    add_subnet(&mut n, 2);
    assert_eq!(n.add_to_delegate_stake(7, 1, 1000, WithdrawCheck::Allowed, 5), Ok(()));
    assert_eq!(n.add_to_delegate_stake(7, 2, 3000, WithdrawCheck::Allowed, 5), Ok(()));
    assert_eq!(n.add_to_delegate_stake(8, 1, 2000, WithdrawCheck::Allowed, 5), Ok(()));
    let stakes = n.get_delegate_stakes(7);
    assert_eq!(stakes.len(), 2);
    let s1 = stakes.iter().find(|s| s.subnet_id == 1).unwrap();
    assert_eq!(s1.shares, 1000);
    // the second deposit mints 2000 * (2000 + 10) / (1000 + 1) = 4015 shares
    assert_eq!(n.total_subnet_delegate_stake_shares.get(&1), Some(&6015));
    // 1000 * (3000 + 1) / (6015 + 10) = 498
    assert_eq!(s1.balance, 498);
    assert_eq!(stakes.iter().filter(|s| s.subnet_id == 2).count(), 1);
    assert!(n.get_delegate_stakes(9).is_empty());
}

#[test]
fn node_delegate_stakes_view() {
    let mut n = network();
    n.account_node_delegate_stake_shares.insert((7, 1, 3), 500);
    n.account_node_delegate_stake_shares.insert((8, 1, 3), 100);
    n.total_node_delegate_stake_shares.insert((1, 3), 1600);
    n.total_node_delegate_stake_balance.insert((1, 3), 800);
    let stakes = n.get_node_delegate_stakes(7);
    assert_eq!(stakes.len(), 1);
    assert_eq!(stakes[0].subnet_node_id, 3);
    // 500 * 801 / 1610 = 248
    assert_eq!(stakes[0].balance, 248);
}

#[test]
fn validator_delegate_stake_swap_and_transfer() {
    let mut n = network();
    n.validator_coldkey.insert(4, 100);
    n.validator_coldkey.insert(5, 101);
    assert_eq!(n.do_add_validator_delegate_stake(7, 4, 2000, WithdrawCheck::Allowed, 5), Ok(()));
    // 1000 * 2001 / 3010 = 664 leaves validator 4's pool and is queued for validator 5
    assert_eq!(n.do_swap_validator_delegate_stake(7, 4, 5, 1000, 6), Ok(()));
    assert_eq!(
        n.swap_call_queue.get(&0).unwrap().call,
        QueuedSwapCall::SwapToValidatorDelegateStake { account_id: 7, to_validator_id: 5, balance: 664 }
    );
    assert_eq!(n.account_validator_delegate_stake_shares.get(&(7, 4)), Some(&1000));
    assert_eq!(n.do_transfer_validator_delegate_stake(7, 4, 7, 1000), Err(NetworkError::TransferToSelfNotAllowed));
    assert_eq!(n.do_transfer_validator_delegate_stake(7, 4, 8, 0), Err(NetworkError::NotEnoughStakeToWithdraw));
    // the 1000 shares are worth less than the minimum deposit
    assert_eq!(n.do_transfer_validator_delegate_stake(7, 4, 8, 1000), Err(NetworkError::MinDelegateStakeDepositNotReached));
    n.min_delegate_stake_deposit = 100;
    assert_eq!(n.do_transfer_validator_delegate_stake(7, 4, 8, 1001), Err(NetworkError::NotEnoughStakeToWithdraw));
    assert_eq!(n.account_validator_delegate_stake_shares.get(&(8, 4)), None);
    assert_eq!(n.do_transfer_validator_delegate_stake(7, 4, 8, 1000), Ok(()));
    assert_eq!(n.account_validator_delegate_stake_shares.get(&(8, 4)), Some(&1000));
    assert_eq!(*n.account_validator_delegate_stake_shares.get(&(7, 4)).unwrap_or(&0), 0);
}

#[test]
fn subnet_stake_swapped_to_a_validator() {
    let mut n = network();
    add_subnet(&mut n, 1);
    n.validator_coldkey.insert(4, 100);
    assert_eq!(n.add_to_delegate_stake(7, 1, 1000, WithdrawCheck::Allowed, 5), Ok(()));
    // 500 * 1001 / 2010 = 249
    assert_eq!(n.do_swap_from_subnet_to_validator(7, 1, 4, 500, 6), Ok(()));
    assert_eq!(
        n.swap_call_queue.get(&0).unwrap().call,
        QueuedSwapCall::SwapToValidatorDelegateStake { account_id: 7, to_validator_id: 4, balance: 249 }
    );
    assert_eq!(n.account_subnet_delegate_stake_shares.get(&(7, 1)), Some(&500));
}

#[test]
fn increasing_an_empty_validator_pool_seeds_it() {
    let mut n = network();
    n.do_increase_validator_delegate_stake(9, 50);
    assert_eq!(n.validator_delegate_stake_shares.get(&9), Some(&1000));
    assert_eq!(n.validator_delegate_stake_balance.get(&9), Some(&50));
    assert_eq!(n.total_validator_delegate_stake_balance, 50);
    n.do_increase_validator_delegate_stake(9, 50);
    assert_eq!(n.validator_delegate_stake_shares.get(&9), Some(&1000));
    assert_eq!(n.validator_delegate_stake_balance.get(&9), Some(&100));
}

#[test]
fn refused_removal_call_keeps_the_stake() {
    let mut n = network();
    add_subnet(&mut n, 1);
    assert_eq!(n.add_to_delegate_stake(7, 1, 1000, WithdrawCheck::Allowed, 5), Ok(()));
    n.max_unbondings = 1;
    assert_eq!(n.add_balance_to_unbonding_ledger(7, 5, 100, 0), Ok(()));
    assert!(!n.unbonding_room(7, 10));
    assert_eq!(n.remove_delegate_stake(7, 1, 100, 10), Err(NetworkError::MaxUnlockingsReached));
    assert_eq!(n.account_subnet_delegate_stake_shares.get(&(7, 1)), Some(&1000));
    // the inner step, taken alone, has already debited the pool when it is refused
    assert_eq!(n.do_remove_delegate_stake(7, 1, 100, 10), Err(NetworkError::MaxUnlockingsReached));
    assert_eq!(n.account_subnet_delegate_stake_shares.get(&(7, 1)), Some(&900));
    // once the unbonding has matured there is room again
    assert!(n.unbonding_room(7, 100));
}

#[test]
fn deposit_minting_no_shares_is_refused_without_writes() {
    let mut n = network();
    add_subnet(&mut n, 1);
    assert_eq!(n.donate_delegate_stake(8, 1, 1_000_000_000_000_000_000_000_000_000_000, WithdrawCheck::Allowed), Ok(()));
    assert_eq!(n.total_subnet_delegate_stake_shares.get(&1), Some(&1000));
    // 1000 * 1010 / (1e30 + 1) rounds to zero shares
    assert_eq!(n.add_to_delegate_stake(7, 1, 1000, WithdrawCheck::Allowed, 5), Err(NetworkError::CouldNotConvertToShares));
    assert_eq!(n.account_subnet_delegate_stake_shares.get(&(7, 1)), None);
    assert_eq!(n.total_subnet_delegate_stake_shares.get(&1), Some(&1000));
    assert_eq!(n.total_subnet_delegate_stake_balance.get(&1), Some(&1_000_000_000_000_000_000_000_000_000_000));
}

#[test]
fn conversions_at_the_limits() {
    // the 256-bit product overflows: the quotient would not fit either
    assert_eq!(convert_to_shares(u128::MAX, u128::MAX, 0), u128::MAX);
    // (2^128 - 1) * (2^128 - 1 + 10) / 2^128 does not fit in u128
    assert_eq!(convert_to_shares(u128::MAX, u128::MAX, u128::MAX), u128::MAX);
    // (2^128 - 1) * 2^128 / (2^128 - 1 + 10) = 2^128 - 10 (floored)
    assert_eq!(convert_to_balance(u128::MAX, u128::MAX, u128::MAX), u128::MAX - 9);
    assert_eq!(convert_to_balance(7, 3, 20), 7 * 21 / 13);
}

#[test]
fn full_swap_queue_refuses_swaps_and_keeps_the_stake() {
    let mut n = network();
    add_subnet(&mut n, 1);
    add_subnet(&mut n, 2);
    assert_eq!(n.add_to_delegate_stake(7, 1, 10_000, WithdrawCheck::Allowed, 5), Ok(()));
    for id in 0..1000u32 {
        n.swap_queue_order.push(id);
    }
    n.next_swap_queue_id = 1000;
    assert_eq!(n.do_swap_delegate_stake(7, 1, 2, 5000, 70), Err(NetworkError::SwapQueueFull));
    assert_eq!(n.account_subnet_delegate_stake_shares.get(&(7, 1)), Some(&10_000));
    assert_eq!(n.total_subnet_delegate_stake_balance.get(&1), Some(&10_000));
    assert_eq!(n.queue_to_subnet_delegate_stake(7, 2, 5, 70), Err(NetworkError::SwapQueueFull));
    assert!(n.swap_call_queue.get(&1000).is_none());
    assert_eq!(n.next_swap_queue_id, 1000);
    n.swap_queue_order.pop();
    assert_eq!(n.do_swap_delegate_stake(7, 1, 2, 5000, 70), Ok(()));
    assert_eq!(n.swap_queue_order.len(), 1000);
    assert_eq!(n.swap_queue_order[999], 1000);
}

#[test]
fn first_deposit_redeems_at_most_itself() {
    let mut n = network();
    add_subnet(&mut n, 1);
    assert_eq!(n.add_to_delegate_stake(7, 1, 10_000, WithdrawCheck::Allowed, 5), Ok(()));
    // 1000 dead shares join the 10000 minted one for one: 10000 * 10001 / 11010
    assert_eq!(n.convert_account_shares_to_balance(7, 1), 9083);
    assert!(n.convert_account_shares_to_balance(7, 1) <= 10_000);
}

#[test]
fn node_delegate_swap_is_redirected_and_executed() {
    let mut n = network();
    add_subnet(&mut n, 2);
    let mut node = DefaultSubnetNode();
    node.id = 5;
    n.nodes.subnet_nodes_data.entry(2).or_default().insert(5, node);
    n.queue_to_subnet_delegate_stake(7, 2, 5000, 0).unwrap();
    let to_node = QueuedSwapCall::SwapToNodeDelegateStake { account_id: 7, to_subnet_id: 2, to_subnet_node_id: 5, balance: 1 };
    assert_eq!(n.do_update_swap_queue(8, 0, to_node), Err(NetworkError::NotKeyOwner));
    let missing = QueuedSwapCall::SwapToNodeDelegateStake { account_id: 7, to_subnet_id: 2, to_subnet_node_id: 6, balance: 1 };
    assert_eq!(n.do_update_swap_queue(7, 0, missing), Err(NetworkError::InvalidSubnetNodeId));
    assert_eq!(n.do_update_swap_queue(7, 0, to_node), Ok(()));
    assert_eq!(
        n.swap_call_queue.get(&0).unwrap().call,
        QueuedSwapCall::SwapToNodeDelegateStake { account_id: 7, to_subnet_id: 2, to_subnet_node_id: 5, balance: 5000 }
    );
    let mut meter = WeightMeter::with_limit(Weight { ref_time: u64::MAX, proof_size: u64::MAX });
    n.execute_ready_swap_calls(100, &mut meter, weights());
    assert!(n.swap_call_queue.is_empty());
    // the empty node pool is seeded with dead shares; the deposit mints one to one
    assert_eq!(n.total_node_delegate_stake_balance.get(&(2, 5)), Some(&5000));
    assert_eq!(n.account_node_delegate_stake_shares.get(&(7, 2, 5)), Some(&5000));
    assert_eq!(n.total_node_delegate_stake_shares.get(&(2, 5)), Some(&6000));
    assert_eq!(n.total_node_delegate_stake, 5000);
    assert_eq!(n.total_subnet_delegate_stake_balance.get(&2), None);
}
