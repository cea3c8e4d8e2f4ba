use std::collections::BTreeMap;
use std::collections::BTreeSet;
use pallet_network::network::{Network, WithdrawCheck};
use pallet_network::registry::{NetworkParams, index_insert};
use pallet_network::hooks::{DbWeight, Weight, WeightMeter, WeightAccumulator};
use pallet_network::types::{
    ActivationOutcome, BlockStep, NetworkError, NodeRegistrationChecks, RegistrationSubnetData, Reputation,
    SubnetNodeClass, SubnetNodeClassification, SubnetRemovalReason, SubnetState, DefaultSubnetNode,
};

fn network() -> Network {
    let mut params = NetworkParams::defaults(3650, 3);
    params.min_subnet_registration_epochs = 1;
    Network::new(10, 0, params)
}

fn registration(name: &[u8], repo: &[u8]) -> RegistrationSubnetData {
    let mut initial_coldkeys = BTreeMap::new();
    initial_coldkeys.insert(100u64, 1u32);
    initial_coldkeys.insert(101u64, 1u32);
    initial_coldkeys.insert(102u64, 2u32);
    RegistrationSubnetData {
        name: name.to_vec(),
        repo: repo.to_vec(),
        description: b"desc".to_vec(),
        misc: vec![],
        min_stake: 100_000_000_000_000_000_000,
        max_stake: 200_000_000_000_000_000_000,
        delegate_stake_percentage: 100_000_000_000_000_000,
        initial_coldkeys,
        key_types: vec![],
        bootnodes: vec![b"boot".to_vec()],
    }
}

/// The initial stake of a node: the subnets' minimum.
const STAKE: u128 = 100_000_000_000_000_000_000;

fn checks() -> NodeRegistrationChecks {
    NodeRegistrationChecks {
        in_enactment: false,
        subnet_epoch: 4,
        peer_id_valid: true,
        client_peer_id_valid: true,
        bootnode_peer_id_valid: true,
        burn_amount: 10,
        burn_ok: true,
        stake_funds: WithdrawCheck::Allowed,
        block: 42,
    }
}

fn db() -> DbWeight {
    DbWeight { read: 1, write: 1 }
}

#[test]
fn register_subnet_assigns_ids_and_records() {
    let mut n = network();
    let r = n.do_register_subnet(9, 0, registration(b"alpha", b"repo-a"), 20, 2, 0, WithdrawCheck::Allowed);
    assert_eq!(r, Ok(1));
    let d = n.subnets_data.get(&1).unwrap();
    assert_eq!(d.state, SubnetState::Registered);
    // the first free epoch slot after the three designated ones is slot 3
    assert_eq!(d.friendly_id, 1);
    assert_eq!(n.meta.subnet_slot.get(&1), Some(&3));
    assert_eq!(n.meta.slot_assignment.get(&3), Some(&1));
    assert!(n.meta.assigned_slots.contains(&3));
    assert_eq!(d.start_epoch, u32::MAX);
    assert_eq!(n.meta.subnet_owner.get(&1), Some(&9));
    assert_eq!(n.meta.subnet_registration_epoch.get(&1), Some(&2));
    assert_eq!(n.meta.friendly_uid_subnet_id.get(&1), Some(&1));
    assert_eq!(n.subnet_min_stake_balance.get(&1), Some(&100_000_000_000_000_000_000));
    assert!(n.meta.subnet_name.contains_key(&b"alpha".to_vec()));
    assert_eq!(
        n.do_register_subnet(9, 0, registration(b"alpha", b"repo-b"), 20, 2, 0, WithdrawCheck::Allowed),
        Err(NetworkError::SubnetNameExist)
    );
    assert_eq!(
        n.do_register_subnet(9, 0, registration(b"beta", b"repo-a"), 20, 2, 0, WithdrawCheck::Allowed),
        Err(NetworkError::SubnetRepoExist)
    );
}

#[test]
fn register_subnet_errors() {
    let mut n = network();
    let mut d = registration(b"a", b"b");
    d.bootnodes = vec![];
    assert_eq!(n.do_register_subnet(9, 0, d, 1, 0, 0, WithdrawCheck::Allowed), Err(NetworkError::BootnodesEmpty));
    let mut d = registration(b"a", b"b");
    d.min_stake = 1;
    assert_eq!(n.do_register_subnet(9, 0, d, 1, 0, 0, WithdrawCheck::Allowed), Err(NetworkError::InvalidSubnetMinStake));
    let mut d = registration(b"a", b"b");
    d.max_stake = u128::MAX;
    assert_eq!(n.do_register_subnet(9, 0, d, 1, 0, 0, WithdrawCheck::Allowed), Err(NetworkError::InvalidSubnetMaxStake));
    let mut d = registration(b"a", b"b");
    d.max_stake = 100_000_000_000_000_000_000 - 1;
    assert_eq!(n.do_register_subnet(9, 0, d, 1, 0, 0, WithdrawCheck::Allowed), Err(NetworkError::InvalidSubnetStakeParameters));
    let mut d = registration(b"a", b"b");
    d.delegate_stake_percentage = 1;
    assert_eq!(n.do_register_subnet(9, 0, d, 1, 0, 0, WithdrawCheck::Allowed), Err(NetworkError::InvalidMinDelegateStakePercentage));
    let mut d = registration(b"a", b"b");
    d.initial_coldkeys.insert(103, 0);
    assert_eq!(n.do_register_subnet(9, 0, d, 1, 0, 0, WithdrawCheck::Allowed), Err(NetworkError::InvalidSubnetRegistrationInitialColdkeys));
    assert_eq!(n.do_register_subnet(9, 5, registration(b"a", b"b"), 1, 0, 6, WithdrawCheck::Allowed), Err(NetworkError::CostGreaterThanMaxCost));
    assert_eq!(n.do_register_subnet(9, 6, registration(b"a", b"b"), 1, 0, 6, WithdrawCheck::NotEnough), Err(NetworkError::NotEnoughBalanceToRegisterSubnet));
    assert_eq!(n.do_register_subnet(9, 0, registration(b"a", b"b"), 1, 0, 0, WithdrawCheck::NotEnough), Ok(1));
    n.params.max_subnets = 0;
    assert_eq!(n.do_register_subnet(9, 0, registration(b"c", b"d"), 1, 0, 0, WithdrawCheck::Allowed), Err(NetworkError::MaxSubnets));
}

#[test]
fn activate_then_remove_subnet() {
    let mut n = network();
    assert_eq!(n.do_register_subnet(9, 0, registration(b"alpha", b"repo"), 20, 2, 0, WithdrawCheck::Allowed), Ok(1));
    assert_eq!(n.do_activate_subnet(1, 2, 30, true, false, true, None, db()), Err(NetworkError::MinSubnetRegistrationEpochsNotMet));
    assert_eq!(n.do_activate_subnet(1, 3, 30, true, false, false, None, db()), Err(NetworkError::SubnetActivationConditionsNotMetYet));
    assert_eq!(n.do_activate_subnet(2, 3, 30, true, false, true, None, db()), Err(NetworkError::InvalidSubnetId));
    assert_eq!(n.do_activate_subnet(1, 3, 30, true, false, true, None, db()), Ok(ActivationOutcome::Activated));
    assert_eq!(n.subnets_data.get(&1).unwrap().state, SubnetState::Active);
    assert_eq!(n.subnets_data.get(&1).unwrap().start_epoch, 4);
    assert_eq!(n.meta.total_active_subnets, 1);
    assert!(n.meta.subnet_registration_epoch.get(&1).is_none());
    assert_eq!(n.do_activate_subnet(1, 3, 30, true, false, true, None, db()), Err(NetworkError::SubnetActivatedAlready));
    assert_eq!(n.do_remove_subnet(1, SubnetRemovalReason::Owner, db()), Weight { ref_time: 48, proof_size: 0 });
    assert_eq!(n.do_remove_subnet(1, SubnetRemovalReason::Owner, db()), Weight { ref_time: 1, proof_size: 0 });
    assert!(n.subnets_data.is_empty());
    assert_eq!(n.meta.total_active_subnets, 0);
    assert!(!n.meta.subnet_name.contains_key(&b"alpha".to_vec()));
    assert_eq!(n.do_register_subnet(9, 0, registration(b"alpha", b"repo"), 20, 2, 0, WithdrawCheck::Allowed), Ok(2));
}

#[test]
fn activation_outside_every_period_removes_the_subnet() {
    let mut n = network();
    assert_eq!(n.do_register_subnet(9, 0, registration(b"alpha", b"repo"), 20, 2, 0, WithdrawCheck::Allowed), Ok(1));
    assert_eq!(
        n.do_activate_subnet(1, 9, 90, false, false, true, None, db()),
        Ok(ActivationOutcome::Removed(SubnetRemovalReason::EnactmentPeriod))
    );
    assert!(n.subnets_data.get(&1).is_none());
    assert_eq!(n.do_register_subnet(9, 0, registration(b"beta", b"r"), 20, 2, 0, WithdrawCheck::Allowed), Ok(2));
    assert_eq!(
        n.do_activate_subnet(2, 9, 90, false, true, false, Some(SubnetRemovalReason::MinSubnetNodes), db()),
        Ok(ActivationOutcome::Removed(SubnetRemovalReason::MinSubnetNodes))
    );
}

#[test]
fn node_registration_while_registering_activates_as_validator() {
    let mut n = network();
    assert_eq!(n.do_register_subnet(9, 0, registration(b"alpha", b"repo"), 20, 2, 0, WithdrawCheck::Allowed), Ok(1));
    let r = n.do_register_subnet_node(
        db(), 100, 1, 200, b"p1".to_vec(), b"p2".to_vec(), b"p3".to_vec(), None, 0, STAKE, None, None, 10, checks(),
    );
    assert_eq!(r, Ok(()));
    let node = n.nodes.subnet_nodes_data.get(&1).unwrap().get(&1).unwrap();
    assert_eq!(node.classification, SubnetNodeClassification { node_class: SubnetNodeClass::Validator, start_epoch: 4 });
    assert_eq!(n.keys.hotkey_owner.get(&200), Some(&100));
    assert_eq!(n.nodes.total_active_nodes, 1);
    assert_eq!(n.nodes.total_nodes, 1);
    assert_eq!(n.meta.initial_coldkey_data.get(&1).unwrap().get(&100), Some(&1));
    assert_eq!(n.keys.coldkey_reputation.get(&100).unwrap().lifetime_node_count, 1);
    // the validator takes an election slot and counts as electable
    assert_eq!(n.nodes.subnet_node_election_slots.get(&1), Some(&vec![1]));
    assert_eq!(n.nodes.total_subnet_electable_nodes.get(&1), Some(&1));
    assert_eq!(n.nodes.total_electable_nodes, 1);
    // the initial stake is recorded
    assert_eq!(n.keys.account_subnet_stake.get(&(200, 1)), Some(&STAKE));
    assert_eq!(n.total_subnet_stake.get(&1), Some(&STAKE));
    assert_eq!(n.total_stake, STAKE);
    let again = n.do_register_subnet_node(
        db(), 100, 1, 201, b"q1".to_vec(), b"q2".to_vec(), b"q3".to_vec(), None, 0, STAKE, None, None, 10, checks(),
    );
    assert_eq!(again, Err(NetworkError::MaxRegisteredNodes));
    let stranger = n.do_register_subnet_node(
        db(), 555, 1, 202, b"q1".to_vec(), b"q2".to_vec(), b"q3".to_vec(), None, 0, STAKE, None, None, 10, checks(),
    );
    assert_eq!(stranger, Err(NetworkError::ColdkeyRegistrationWhitelist));
}

#[test]
fn node_registration_errors() {
    let mut n = network();
    assert_eq!(n.do_register_subnet(9, 0, registration(b"alpha", b"repo"), 20, 2, 0, WithdrawCheck::Allowed), Ok(1));
    let reg = |n: &mut Network, hot: u64, p1: &[u8], c: NodeRegistrationChecks, max_burn: u128| {
        n.do_register_subnet_node(db(), 102, 1, hot, p1.to_vec(), b"b".to_vec(), b"c".to_vec(), None, 0, STAKE, None, None, max_burn, c)
    };
    assert_eq!(reg(&mut n, 102, b"a", checks(), 10), Err(NetworkError::ColdkeyMatchesHotkey));
    assert_eq!(reg(&mut n, 300, b"b", checks(), 10), Err(NetworkError::PeerIdsMustBeUnique));
    let mut c = checks();
    c.in_enactment = true;
    assert_eq!(reg(&mut n, 300, b"a", c, 10), Err(NetworkError::SubnetMustBeRegisteringOrActivated));
    let mut c = checks();
    c.peer_id_valid = false;
    assert_eq!(reg(&mut n, 300, b"a", c, 10), Err(NetworkError::InvalidPeerId));
    // a client peer id the subnet already knows (here as node 7's) is taken
    index_insert(&mut n.nodes.client_peer_id_subnet_node_id, 1, b"c".to_vec(), 7);
    assert_eq!(reg(&mut n, 300, b"a", checks(), 10), Err(NetworkError::ClientPeerIdExist));
    // so is a peer id an overwatch node holds in the subnet
    index_insert(&mut n.ow.peer_id_overwatch_node_id, 1, b"a".to_vec(), 2);
    assert_eq!(reg(&mut n, 300, b"a", checks(), 10), Err(NetworkError::PeerIdExist));
    n.nodes.client_peer_id_subnet_node_id.remove(&1);
    n.ow.peer_id_overwatch_node_id.remove(&1);
    assert_eq!(reg(&mut n, 300, b"a", checks(), 9), Err(NetworkError::MaxBurnAmountExceeded));
    let mut c = checks();
    c.burn_ok = false;
    assert_eq!(reg(&mut n, 300, b"a", c, 10), Err(NetworkError::BalanceBurnError));
    let mut c = checks();
    c.stake_funds = WithdrawCheck::NotEnough;
    assert_eq!(reg(&mut n, 300, b"a", c, 10), Err(NetworkError::NotEnoughBalanceToStake));
    let mut c = checks();
    c.stake_funds = WithdrawCheck::WithdrawFails;
    assert_eq!(reg(&mut n, 300, b"a", c, 10), Err(NetworkError::BalanceWithdrawalError));
    // a delegate reward rate above 100% is refused before anything is written
    assert_eq!(
        n.do_register_subnet_node(db(), 102, 1, 300, b"a".to_vec(), b"b".to_vec(), b"c".to_vec(), None, 1_000_000_000_000_000_001, STAKE, None, None, 10, checks()),
        Err(NetworkError::InvalidDelegateRewardRate)
    );
    assert_eq!(
        n.do_register_subnet_node(db(), 102, 1, 300, b"a".to_vec(), b"b".to_vec(), b"c".to_vec(), None, 1_000_000_000_000_000_000, STAKE - 1, None, None, 10, checks()),
        Err(NetworkError::MinStakeNotReached)
    );
    assert_eq!(
        n.do_register_subnet_node(db(), 102, 1, 300, b"a".to_vec(), b"b".to_vec(), b"c".to_vec(), None, 0, 2 * STAKE + 1, None, None, 10, checks()),
        Err(NetworkError::MaxStakeReached)
    );
    assert!(n.nodes.total_subnet_node_uids.get(&1).is_none());
    assert!(n.keys.account_subnet_stake.get(&(300, 1)).is_none());
    // the next node id already holds an election slot
    n.nodes.subnet_node_election_slots.insert(1, vec![1]);
    assert_eq!(reg(&mut n, 300, b"a", checks(), 10), Err(NetworkError::ElectionSlotInsertFail));
    assert_eq!(n.do_register_subnet_node(db(), 102, 2, 300, b"a".to_vec(), b"b".to_vec(), b"c".to_vec(), None, 0, STAKE, None, None, 10, checks()), Err(NetworkError::InvalidSubnetId));
}

#[test]
fn node_registration_on_an_active_subnet_joins_the_queue() {
    let mut n = network();
    assert_eq!(n.do_register_subnet(9, 0, registration(b"alpha", b"repo"), 20, 2, 0, WithdrawCheck::Allowed), Ok(1));
    assert_eq!(n.do_activate_subnet(1, 3, 30, true, false, true, None, db()), Ok(ActivationOutcome::Activated));
    let r = n.do_register_subnet_node(
        db(), 500, 1, 600, b"p1".to_vec(), b"p2".to_vec(), b"p3".to_vec(), Some(b"boot".to_vec()), 7, STAKE, Some(b"u".to_vec()), None, 10, checks(),
    );
    assert_eq!(r, Ok(()));
    let queue = n.nodes.subnet_node_queue.get(&1).unwrap();
    assert_eq!(queue.len(), 1);
    assert_eq!(queue[0].classification.node_class, SubnetNodeClass::Registered);
    assert_eq!(queue[0].last_delegate_reward_rate_update, 42);
    assert!(n.nodes.registered_subnet_nodes_data.get(&1).unwrap().contains_key(&1));
    assert!(n.nodes.subnet_node_election_slots.get(&1).is_none());
    assert_eq!(n.keys.account_subnet_stake.get(&(600, 1)), Some(&STAKE));
    let taken = n.do_register_subnet_node(
        db(), 501, 1, 601, b"x1".to_vec(), b"x2".to_vec(), b"x3".to_vec(), None, 0, STAKE, Some(b"u".to_vec()), None, 10, checks(),
    );
    assert_eq!(taken, Err(NetworkError::SubnetNodeUniqueParamTaken));
    assert_eq!(
        n.do_register_subnet_node(db(), 502, 1, 600, b"y1".to_vec(), b"y2".to_vec(), b"y3".to_vec(), None, 0, STAKE, None, None, 10, checks()),
        Err(NetworkError::HotkeyHasOwner)
    );
    assert_eq!(n.do_remove_subnet(1, SubnetRemovalReason::Council, db()), Weight { ref_time: 56, proof_size: 0 });
    assert!(n.nodes.subnet_node_queue.get(&1).is_none());
    assert!(n.nodes.registered_subnet_nodes_data.get(&1).is_none());
}

#[test]
fn update_coldkey_moves_ownership() {
    let mut n = network();
    n.keys.hotkey_owner.insert(200, 100);
    n.add_balance_to_unbonding_ledger(100, 5, 10, 0).unwrap();
    assert_eq!(n.update_coldkey(101, 200, 300), Err(NetworkError::NotKeyOwner));
    assert_eq!(n.update_coldkey(100, 200, 200), Err(NetworkError::ColdkeyMatchesHotkey));
    assert_eq!(n.update_coldkey(100, 201, 300), Err(NetworkError::NotKeyOwner));
    assert_eq!(n.update_coldkey(100, 200, 300), Ok(()));
    assert_eq!(n.keys.hotkey_owner.get(&200), Some(&300));
    assert!(n.stake_unbonding_ledger.get(&100).is_none());
    assert_eq!(n.stake_unbonding_ledger.get(&300).unwrap().get(&10), Some(&5));
}

#[test]
fn overwatch_registration() {
    let mut n = network();
    n.ow.coldkey_validator_id.insert(100, 9);
    n.validator_coldkey.insert(9, 100);
    n.overwatch_min_stake_balance = 10;
    let rep = Reputation {
        start_epoch: 0,
        score: 800_000_000_000_000_000,
        lifetime_node_count: 0,
        total_active_nodes: 0,
        total_increases: 0,
        total_decreases: 0,
        average_attestation: 800_000_000_000_000_000,
        last_validator_epoch: 0,
        ow_score: 0,
    };
    n.ow.validator_reputation.insert(9, rep);
    assert_eq!(n.do_register_overwatch_node(100, 50, WithdrawCheck::Allowed, 1, 10, &BTreeMap::new()), Err(NetworkError::ColdkeyBlacklisted));
    n.ow.overwatch_validator_whitelist.insert(9, true);
    assert_eq!(n.do_register_overwatch_node(101, 50, WithdrawCheck::Allowed, 1, 10, &BTreeMap::new()), Err(NetworkError::NotKeyOwner));
    assert_eq!(n.do_register_overwatch_node(100, 50, WithdrawCheck::Allowed, 0, 10, &BTreeMap::new()), Err(NetworkError::OverwatchEpochIsZero));
    assert_eq!(n.do_register_overwatch_node(100, 50, WithdrawCheck::Allowed, 1, 2, &BTreeMap::new()), Err(NetworkError::ColdkeyNotOverwatchQualified));
    assert!(n.is_validator_overwatch_qualified(9, 10, &BTreeMap::new()));
    n.meta.total_active_subnets = 4;
    // validator 9 runs a validator-class node in subnet 1 and an idle node in subnet 2
    let mut validator_node = DefaultSubnetNode();
    validator_node.id = 1;
    validator_node.classification = SubnetNodeClassification { node_class: SubnetNodeClass::Validator, start_epoch: 3 };
    let mut idle_node = DefaultSubnetNode();
    idle_node.id = 1;
    idle_node.classification = SubnetNodeClassification { node_class: SubnetNodeClass::Idle, start_epoch: 0 };
    n.nodes.subnet_nodes_data.entry(1).or_default().insert(1, validator_node);
    n.nodes.subnet_nodes_data.entry(2).or_default().insert(1, idle_node);
    let mut per_subnet = BTreeMap::new();
    per_subnet.insert(1u32, BTreeSet::from([1u32]));
    per_subnet.insert(2u32, BTreeSet::from([1u32]));
    n.validator_subnet_nodes.insert(9, per_subnet);
    let mut epochs = BTreeMap::new();
    epochs.insert(1u32, 5u32);
    epochs.insert(2u32, 5u32);
    assert_eq!(n.active_unique_node_count(9, &epochs), 1);
    // before the validator class starts, no subnet counts
    let mut early = BTreeMap::new();
    early.insert(1u32, 2u32);
    assert_eq!(n.active_unique_node_count(9, &early), 0);
    // one of four subnets is 25%, the minimum
    assert!(n.is_validator_overwatch_qualified(9, 10, &epochs));
    assert!(!n.is_validator_overwatch_qualified(9, 10, &early));
    assert_eq!(n.do_register_overwatch_node(100, 50, WithdrawCheck::Allowed, 1, 10, &epochs), Ok(()));
    assert_eq!(n.ow.overwatch_nodes.get(&1), Some(&100));
    assert_eq!(n.overwatch_node_stake_balance.get(&1), Some(&50));
    assert_eq!(n.ow.total_overwatch_nodes, 1);
    // with the maximum of one overwatch node reached, the next one is refused
    n.ow.max_overwatch_nodes = 1;
    assert_eq!(n.do_register_overwatch_node(100, 50, WithdrawCheck::Allowed, 1, 10, &epochs), Err(NetworkError::MaxOverwatchNodes));
    assert_eq!(n.ow.total_overwatch_nodes, 1);
}

#[test]
fn node_class_steps() {
    assert_eq!(SubnetNodeClass::Registered.next(), SubnetNodeClass::Idle);
    assert_eq!(SubnetNodeClass::Included.next(), SubnetNodeClass::Validator);
    assert_eq!(SubnetNodeClass::Validator.next(), SubnetNodeClass::Validator);
    assert_eq!(SubnetNodeClass::Registered.previous(), SubnetNodeClass::Registered);
    assert_eq!(SubnetNodeClass::Idle.previous(), SubnetNodeClass::Registered);
    assert_eq!(SubnetNodeClass::Idle.next().previous(), SubnetNodeClass::Idle);
    assert_eq!(SubnetNodeClass::from_repr(4), None);
    assert_eq!(SubnetNodeClass::from_repr(2), Some(SubnetNodeClass::Included));
    assert!(SubnetNodeClass::Validator.at_least(&SubnetNodeClass::Idle));
}

#[test]
fn proof_of_stake_by_peer_and_bootnode() {
    let mut n = network();
    assert_eq!(n.do_register_subnet(9, 0, registration(b"alpha", b"repo"), 20, 2, 0, WithdrawCheck::Allowed), Ok(1));
    assert!(n.proof_of_stake(1, &b"boot".to_vec(), 0, None, 0));
    assert!(!n.proof_of_stake(1, &b"nope".to_vec(), 0, None, 0));
    assert!(!n.proof_of_stake(2, &b"boot".to_vec(), 0, None, 0));
    let r = n.do_register_subnet_node(
        db(), 100, 1, 200, b"p1".to_vec(), b"p2".to_vec(), b"p3".to_vec(), None, 0, STAKE, None, None, 10, checks(),
    );
    assert_eq!(r, Ok(()));
    // the registration recorded the minimum stake for the hotkey
    assert!(n.proof_of_stake(1, &b"p1".to_vec(), 3, None, 5));
    assert!(!n.proof_of_stake(1, &b"p1".to_vec(), 3, Some(STAKE + 1), 5));
    assert!(n.proof_of_stake(1, &b"p3".to_vec(), 1, None, 5));
    // the validator class starts on subnet epoch 4
    assert!(!n.proof_of_stake(1, &b"p2".to_vec(), 3, None, 3));
    assert!(!n.proof_of_stake(1, &b"p1".to_vec(), 9, None, 5));
}

#[test]
fn block_schedule() {
    let mut n = network();
    n.meta.slot_assignment.insert(3, 5);
    assert_eq!(n.block_step(20), BlockStep::EpochPreliminaries { epoch: 2 });
    assert_eq!(n.block_step(161), BlockStep::OverwatchRewards);
    assert_eq!(n.block_step(22), BlockStep::EmissionWeights { epoch: 2 });
    assert_eq!(n.block_step(23), BlockStep::SubnetEmission { subnet_id: 5, epoch: 2 });
    assert_eq!(n.block_step(24), BlockStep::Idle);
    assert_eq!(n.block_step(2), BlockStep::Idle);
    // the first two blocks run no epoch step
    assert_eq!(n.block_step(0), BlockStep::Idle);
    assert_eq!(n.block_step(1), BlockStep::Idle);
    assert_eq!(n.block_step(3), BlockStep::SubnetEmission { subnet_id: 5, epoch: 0 });
    n.tx_pause = true;
    assert_eq!(n.block_step(20), BlockStep::Paused);
    assert_eq!(pallet_network::calls::u128_to_balance(5), Some(5));
}

#[test]
fn owner_gate_on_activation_and_pause_gate_on_registration() {
    let mut n = network();
    assert_eq!(n.register_subnet(9, 0, registration(b"alpha", b"repo"), 20, 2, 0, WithdrawCheck::Allowed), Ok(1));
    assert_eq!(n.activate_subnet(8, 1, 3, 30, true, false, true, None, db()), Err(NetworkError::NotSubnetOwner));
    assert_eq!(n.activate_subnet(9, 1, 3, 30, true, false, true, None, db()), Ok(ActivationOutcome::Activated));
    n.tx_pause = true;
    assert_eq!(n.register_subnet(9, 0, registration(b"beta", b"r2"), 20, 2, 0, WithdrawCheck::Allowed), Err(NetworkError::Paused));
}

#[test]
fn refused_node_registration_call_writes_nothing() {
    let mut n = network();
    assert_eq!(n.do_register_subnet(9, 0, registration(b"alpha", b"repo"), 20, 2, 0, WithdrawCheck::Allowed), Ok(1));
    n.params.max_subnet_nodes = 0;
    let r = n.register_subnet_node(
        db(), 100, 1, 200, b"p1".to_vec(), b"p2".to_vec(), b"p3".to_vec(), None, 0, STAKE, None, None, 10, checks(),
    );
    assert_eq!(r, Err(NetworkError::MaxRegisteredNodes));
    assert!(n.nodes.total_subnet_node_uids.get(&1).is_none());
    assert!(n.keys.hotkey_owner.get(&200).is_none());
    // the inner step, taken alone, has already handed out a node id when it is refused
    let r = n.do_register_subnet_node(
        db(), 100, 1, 200, b"p1".to_vec(), b"p2".to_vec(), b"p3".to_vec(), None, 0, STAKE, None, None, 10, checks(),
    );
    assert_eq!(r, Err(NetworkError::MaxRegisteredNodes));
    assert_eq!(n.nodes.total_subnet_node_uids.get(&1), Some(&1));
    n.params.max_subnet_nodes = 8;
    let r = n.register_subnet_node(
        db(), 101, 1, 201, b"q1".to_vec(), b"q2".to_vec(), b"q3".to_vec(), None, 0, STAKE, None, None, 10, checks(),
    );
    assert_eq!(r, Ok(()));
    assert_eq!(n.keys.hotkey_owner.get(&201), Some(&101));
}

#[test]
fn refused_subnet_registration_call_hands_out_no_id() {
    let mut n = network();
    // every epoch slot after the three designated ones is taken
    n.meta.assigned_slots = (3..10).collect();
    let r = n.register_subnet(9, 0, registration(b"alpha", b"repo"), 20, 2, 0, WithdrawCheck::Allowed);
    assert_eq!(r, Err(NetworkError::NoAvailableSlots));
    assert_eq!(n.meta.total_subnet_uids, 0);
    // the inner step, taken alone, has already counted the id when the slot is refused
    let r = n.do_register_subnet(9, 0, registration(b"alpha", b"repo"), 20, 2, 0, WithdrawCheck::Allowed);
    assert_eq!(r, Err(NetworkError::NoAvailableSlots));
    assert_eq!(n.meta.total_subnet_uids, 1);
}

#[test]
fn refused_overwatch_registration_call_writes_nothing() {
    let mut n = network();
    n.ow.coldkey_validator_id.insert(100, 9);
    n.validator_coldkey.insert(9, 100);
    n.overwatch_min_stake_balance = 10;
    n.ow.overwatch_validator_whitelist.insert(9, true);
    n.ow.validator_reputation.insert(9, Reputation {
        start_epoch: 0,
        score: 800_000_000_000_000_000,
        lifetime_node_count: 0,
        total_active_nodes: 0,
        total_increases: 0,
        total_decreases: 0,
        average_attestation: 800_000_000_000_000_000,
        last_validator_epoch: 0,
        ow_score: 0,
    });
    assert_eq!(n.register_overwatch_node(100, 5, WithdrawCheck::Allowed, 1, 10, &BTreeMap::new()), Err(NetworkError::MinStakeNotReached));
    assert_eq!(n.ow.total_overwatch_node_uids, 0);
    assert!(n.overwatch_node_validator_id.is_empty());
    // the inner step, taken alone, has already handed out the id when the stake is refused
    assert_eq!(n.do_register_overwatch_node(100, 5, WithdrawCheck::Allowed, 1, 10, &BTreeMap::new()), Err(NetworkError::MinStakeNotReached));
    assert_eq!(n.ow.total_overwatch_node_uids, 1);
    assert_eq!(n.register_overwatch_node(100, 50, WithdrawCheck::Allowed, 1, 10, &BTreeMap::new()), Ok(()));
    assert_eq!(n.ow.overwatch_nodes.get(&2), Some(&100));
    n.tx_pause = true;
    assert_eq!(n.register_overwatch_node(100, 50, WithdrawCheck::Allowed, 1, 10, &BTreeMap::new()), Err(NetworkError::Paused));
}

#[test]
fn node_stake_removal_respects_election_and_minimum_epochs() {
    let mut n = network();
    assert_eq!(n.do_register_subnet(9, 0, registration(b"alpha", b"repo"), 20, 2, 0, WithdrawCheck::Allowed), Ok(1));
    let r = n.do_register_subnet_node(
        db(), 100, 1, 200, b"p1".to_vec(), b"p2".to_vec(), b"p3".to_vec(), None, 0, STAKE, None, None, 10, checks(),
    );
    assert_eq!(r, Ok(()));
    // node 1 was activated at subnet epoch 4; nodes keep stake for 10 epochs
    assert_eq!(n.params.min_active_node_stake_epochs, 10);
    assert_eq!(n.remove_stake(101, 1, 200, 5, 20, 1000), Err(NetworkError::NotKeyOwner));
    n.nodes.subnet_elected_validator.entry(1).or_default().insert(20, 1);
    assert_eq!(n.remove_stake(100, 1, 200, 5, 20, 1000), Err(NetworkError::ElectedValidatorCannotUnstake));
    assert_eq!(n.remove_stake(100, 1, 200, 5, 13, 1000), Err(NetworkError::MinActiveNodeStakeEpochs));
    // at epoch 14 the minimum active epochs are over, but a node keeps the minimum stake
    assert_eq!(n.remove_stake(100, 1, 200, 5, 14, 1000), Err(NetworkError::MinStakeNotReached));
    assert_eq!(n.keys.account_subnet_stake.get(&(200, 1)), Some(&STAKE));
    n.subnet_min_stake_balance.insert(1, STAKE - 5);
    assert_eq!(n.remove_stake(100, 1, 200, 0, 14, 1000), Err(NetworkError::AmountZero));
    assert_eq!(n.remove_stake(100, 1, 200, 5, 14, 1000), Ok(()));
    assert_eq!(n.keys.account_subnet_stake.get(&(200, 1)), Some(&(STAKE - 5)));
    assert_eq!(n.total_stake, STAKE - 5);
    assert_eq!(n.total_unbonding_balance, 5);
    n.tx_pause = true;
    assert_eq!(n.remove_stake(100, 1, 200, 5, 14, 2000), Err(NetworkError::Paused));
}

#[test]
fn subnet_registration_sets_the_next_cost() {
    let mut n = network();
    assert_eq!(n.meta.last_registration_cost, 1_000_000_000_000_000_000);
    // a cost above the caller's maximum is refused and the last cost stays
    assert_eq!(
        n.register_subnet(9, 4, registration(b"alpha", b"repo"), 20, 2, 5, WithdrawCheck::Allowed),
        Err(NetworkError::CostGreaterThanMaxCost)
    );
    assert_eq!(n.meta.last_registration_cost, 1_000_000_000_000_000_000);
    // a refused slot undoes the cost update too
    n.meta.assigned_slots = (3..10).collect();
    assert_eq!(
        n.register_subnet(9, 5, registration(b"alpha", b"repo"), 20, 2, 5, WithdrawCheck::Allowed),
        Err(NetworkError::NoAvailableSlots)
    );
    assert_eq!(n.meta.last_registration_cost, 1_000_000_000_000_000_000);
    n.meta.assigned_slots.clear();
    assert_eq!(n.register_subnet(9, 5, registration(b"alpha", b"repo"), 20, 2, 5, WithdrawCheck::Allowed), Ok(1));
    // the paid cost of 5, at the default 200%, starts the next registration at 10
    assert_eq!(n.meta.last_registration_cost, 10);
    assert_eq!(n.meta.last_subnet_registration_block, 20);
}

#[test]
fn burn_cap_queue_capacity_and_electable_count() {
    let mut n = network();
    assert_eq!(n.do_register_subnet(9, 0, registration(b"alpha", b"repo"), 20, 2, 0, WithdrawCheck::Allowed), Ok(1));
    // a burn fee of 10 above the caller's cap of 9 is refused and nothing is written
    let r = n.register_subnet_node(
        db(), 100, 1, 200, b"p1".to_vec(), b"p2".to_vec(), b"p3".to_vec(), None, 0, STAKE, None, None, 9, checks(),
    );
    assert_eq!(r, Err(NetworkError::MaxBurnAmountExceeded));
    assert!(n.nodes.total_subnet_node_uids.get(&1).is_none());
    assert!(n.keys.account_subnet_stake.get(&(200, 1)).is_none());
    let r = n.register_subnet_node(
        db(), 100, 1, 200, b"p1".to_vec(), b"p2".to_vec(), b"p3".to_vec(), None, 0, STAKE, None, None, 10, checks(),
    );
    assert_eq!(r, Ok(()));
    assert_eq!(n.nodes.total_electable_nodes, 1);
    // removing the subnet takes its election slot out of the network-wide count
    n.do_remove_subnet(1, SubnetRemovalReason::Council, db());
    assert_eq!(n.nodes.total_electable_nodes, 0);

    // an active subnet whose queue holds its maximum of one node takes no more
    assert_eq!(n.do_register_subnet(9, 0, registration(b"beta", b"repo-b"), 20, 2, 0, WithdrawCheck::Allowed), Ok(2));
    assert_eq!(n.do_activate_subnet(2, 3, 30, true, false, true, None, db()), Ok(ActivationOutcome::Activated));
    n.meta.max_registered_nodes.insert(2, 1);
    let r = n.register_subnet_node(
        db(), 100, 2, 300, b"x1".to_vec(), b"x2".to_vec(), b"x3".to_vec(), None, 0, STAKE, None, None, 10, checks(),
    );
    assert_eq!(r, Ok(()));
    assert_eq!(n.nodes.subnet_node_queue.get(&2).unwrap().len(), 1);
    let r = n.register_subnet_node(
        db(), 100, 2, 301, b"y1".to_vec(), b"y2".to_vec(), b"y3".to_vec(), None, 0, STAKE, None, None, 10, checks(),
    );
    assert_eq!(r, Err(NetworkError::MaxRegisteredNodes));
    assert_eq!(n.nodes.subnet_node_queue.get(&2).unwrap().len(), 1);

    // the queued node, activated at subnet epoch 7, starts as idle on epoch 8
    let queued = n.nodes.subnet_node_queue.get(&2).unwrap()[0].clone();
    let mut meter = WeightMeter::with_limit(Weight { ref_time: 1000, proof_size: 1000 });
    assert!(n.do_activate_subnet_node(&mut meter, db(), 2, SubnetState::Active, queued, 7, true));
    let node = n.nodes.subnet_nodes_data.get(&2).unwrap().get(&1).unwrap();
    assert_eq!(node.classification, SubnetNodeClassification { node_class: SubnetNodeClass::Idle, start_epoch: 8 });
}

#[test]
fn first_blocks_run_no_epoch_step() {
    let mut params = NetworkParams::defaults(3650, 3);
    params.overwatch_epoch_length_multiplier = 1;
    let n = Network::new(3, 0, params);
    assert_eq!(n.block_step(0), BlockStep::Idle);
    assert_eq!(n.block_step(1), BlockStep::Idle);
    assert_eq!(n.block_step(3), BlockStep::EpochPreliminaries { epoch: 1 });
    assert_eq!(n.block_step(4), BlockStep::OverwatchRewards);
}

#[test]
fn removed_subnet_releases_its_slot() {
    let mut n = network();
    assert_eq!(n.do_register_subnet(9, 0, registration(b"alpha", b"repo-a"), 20, 2, 0, WithdrawCheck::Allowed), Ok(1));
    assert_eq!(n.do_register_subnet(9, 0, registration(b"beta", b"repo-b"), 20, 2, 0, WithdrawCheck::Allowed), Ok(2));
    assert_eq!(n.meta.subnet_slot.get(&2), Some(&4));
    n.do_remove_subnet(1, SubnetRemovalReason::Council, db());
    assert!(n.meta.subnet_slot.get(&1).is_none());
    assert!(n.meta.slot_assignment.get(&3).is_none());
    assert!(!n.meta.assigned_slots.contains(&3));
    // the freed slot is the next one handed out
    assert_eq!(n.do_register_subnet(9, 0, registration(b"gamma", b"repo-c"), 20, 2, 0, WithdrawCheck::Allowed), Ok(3));
    assert_eq!(n.meta.subnet_slot.get(&3), Some(&3));
    assert_eq!(n.meta.slot_assignment.get(&3), Some(&3));
}
