use std::collections::BTreeMap;
use std::collections::BTreeSet;
use pallet_network::network::{GenesisConfig, Network, WithdrawCheck};
use pallet_network::registry::NetworkParams;
use pallet_network::hooks::{DbWeight, Weight, WeightMeter, WeightAccumulator};
use pallet_network::keys::move_hotkey_stakes;
use pallet_network::types::{
    NetworkError, NodeRegistrationChecks, RegistrationSubnetData, SubnetNodeStakeInfo, SubnetRemovalReason,
};

fn network() -> Network {
    let mut params = NetworkParams::defaults(3650, 3);
    params.min_subnet_registration_epochs = 1;
    Network::new(10, 0, params)
}

fn registration(name: &[u8], repo: &[u8]) -> RegistrationSubnetData {
    let mut initial_coldkeys = BTreeMap::new();
    initial_coldkeys.insert(100u64, 2u32);
    initial_coldkeys.insert(101u64, 1u32);
    initial_coldkeys.insert(102u64, 1u32);
    RegistrationSubnetData {
        name: name.to_vec(),
        repo: repo.to_vec(),
        description: b"desc".to_vec(),
        misc: vec![],
        min_stake: 100_000_000_000_000_000_000,
        max_stake: 200_000_000_000_000_000_000,
        delegate_stake_percentage: 100_000_000_000_000_000,
        initial_coldkeys,
        key_types: vec![],
        bootnodes: vec![b"boot".to_vec()],
    }
}

/// The initial stake of a node: the subnets' minimum.
const STAKE: u128 = 100_000_000_000_000_000_000;

fn checks() -> NodeRegistrationChecks {
    NodeRegistrationChecks {
        in_enactment: false,
        subnet_epoch: 4,
        peer_id_valid: true,
        client_peer_id_valid: true,
        bootnode_peer_id_valid: true,
        burn_amount: 10,
        burn_ok: true,
        stake_funds: WithdrawCheck::Allowed,
        block: 42,
    }
}

fn db() -> DbWeight {
    DbWeight { read: 1, write: 1 }
}

/// A network with subnets 1 and 2; coldkey 100 runs node 1 of subnet 1 under
/// hotkey 200, coldkey 101 runs node 2 of subnet 1 under hotkey 201.
fn populated() -> Network {
    let mut n = network();
    assert_eq!(n.do_register_subnet(9, 0, registration(b"alpha", b"repo-a"), 20, 2, 0, WithdrawCheck::Allowed), Ok(1));
    assert_eq!(n.do_register_subnet(9, 0, registration(b"beta", b"repo-b"), 20, 2, 0, WithdrawCheck::Allowed), Ok(2));
    let r = n.do_register_subnet_node(
        db(), 100, 1, 200, b"a1".to_vec(), b"a2".to_vec(), b"a3".to_vec(), None, 0, STAKE, None, None, 10, checks(),
    );
    assert_eq!(r, Ok(()));
    let r = n.do_register_subnet_node(
        db(), 101, 1, 201, b"b1".to_vec(), b"b2".to_vec(), b"b3".to_vec(), None, 0, STAKE, None, None, 10, checks(),
    );
    assert_eq!(r, Ok(()));
    n
}

#[test]
fn update_hotkey_moves_node_and_stake() {
    let mut n = populated();
    n.keys.account_subnet_stake.insert((200, 1), 70);
    n.keys.account_subnet_stake.insert((200, 2), 0);
    n.ow.account_overwatch_stake.insert(200, 9);
    assert_eq!(n.update_hotkey(100, 200, 100), Err(NetworkError::ColdkeyMatchesHotkey));
    assert_eq!(n.update_hotkey(101, 200, 300), Err(NetworkError::NotKeyOwner));
    assert_eq!(n.update_hotkey(100, 200, 201), Err(NetworkError::HotkeyHasOwner));
    n.keys.coldkey_hotkeys.get_mut(&100).unwrap().insert(300);
    assert_eq!(n.update_hotkey(100, 200, 300), Err(NetworkError::HotkeyAlreadyRegisteredToColdkey));
    n.keys.coldkey_hotkeys.get_mut(&100).unwrap().remove(&300);
    assert_eq!(n.update_hotkey(100, 300, 301), Err(NetworkError::NotKeyOwner));
    assert_eq!(n.update_hotkey(100, 200, 300), Ok(()));
    assert_eq!(n.keys.hotkey_owner.get(&300), Some(&100));
    assert_eq!(n.keys.hotkey_owner.get(&200), None);
    assert!(n.keys.coldkey_hotkeys.get(&100).unwrap().contains(&300));
    assert!(!n.keys.coldkey_hotkeys.get(&100).unwrap().contains(&200));
    assert_eq!(n.keys.hotkey_subnet_id.get(&300), Some(&1));
    assert_eq!(n.keys.hotkey_subnet_id.get(&200), None);
    assert_eq!(n.nodes.hotkey_subnet_node_id.get(&1).unwrap().get(&300), Some(&1));
    assert_eq!(n.nodes.hotkey_subnet_node_id.get(&1).unwrap().get(&200), None);
    assert_eq!(n.nodes.subnet_node_id_hotkey.get(&1).unwrap().get(&1), Some(&300));
    assert_eq!(n.nodes.subnet_nodes_data.get(&1).unwrap().get(&1).unwrap().hotkey, 300);
    assert_eq!(n.keys.account_subnet_stake.get(&(300, 1)), Some(&70));
    assert_eq!(n.keys.account_subnet_stake.get(&(200, 1)), None);
    // a zero stake is left where it was
    assert_eq!(n.keys.account_subnet_stake.get(&(200, 2)), Some(&0));
    assert_eq!(n.ow.account_overwatch_stake.get(&300), Some(&9));
    assert_eq!(n.ow.account_overwatch_stake.get(&200), None);
    n.tx_pause = true;
    assert_eq!(n.update_hotkey(100, 300, 400), Err(NetworkError::Paused));
}

#[test]
fn update_hotkey_moves_overwatch_node() {
    let mut n = network();
    n.keys.hotkey_owner.insert(50, 7);
    let mut hotkeys = BTreeSet::new();
    hotkeys.insert(50u64);
    n.keys.coldkey_hotkeys.insert(7, hotkeys);
    n.ow.hotkey_overwatch_node_id.insert(50, 3);
    n.ow.overwatch_node_id_hotkey.insert(3, 50);
    n.ow.overwatch_nodes.insert(3, 50);
    assert_eq!(n.update_hotkey(7, 50, 51), Ok(()));
    assert_eq!(n.ow.hotkey_overwatch_node_id.get(&51), Some(&3));
    assert_eq!(n.ow.hotkey_overwatch_node_id.get(&50), None);
    assert_eq!(n.ow.overwatch_node_id_hotkey.get(&3), Some(&51));
    assert_eq!(n.ow.overwatch_nodes.get(&3), Some(&51));
}

#[test]
fn moving_stakes_between_hotkeys() {
    let mut m = BTreeMap::new();
    m.insert((1u64, 1u32), 5u128);
    m.insert((1, 2), 0);
    m.insert((2, 1), 8);
    m.insert((2, 3), 4);
    move_hotkey_stakes(&mut m, 1, 2);
    assert_eq!(m.get(&(2, 1)), Some(&5));
    assert_eq!(m.get(&(2, 3)), Some(&4));
    assert_eq!(m.get(&(1, 2)), Some(&0));
    assert_eq!(m.get(&(1, 1)), None);
    assert_eq!(m.len(), 3);
}

#[test]
fn listing_subnets_and_nodes() {
    let n = populated();
    let all = n.get_all_subnets_info();
    assert_eq!(all.len(), 2);
    let mut names: Vec<Vec<u8>> = all.iter().map(|i| i.name.clone()).collect();
    names.sort();
    assert_eq!(names, vec![b"alpha".to_vec(), b"beta".to_vec()]);
    let nodes = n.get_subnet_nodes_info(1);
    let mut ids: Vec<u32> = nodes.iter().map(|i| i.subnet_node_id).collect();
    ids.sort();
    assert_eq!(ids, vec![1, 2]);
    assert!(n.get_subnet_nodes_info(2).is_empty());
    assert!(n.get_subnet_nodes_info(9).is_empty());
    let every = n.get_all_subnet_nodes_info();
    assert_eq!(every.len(), 2);
    let mine = n.get_coldkey_subnet_nodes_info(100);
    assert_eq!(mine.len(), 1);
    assert_eq!(mine[0].hotkey, 200);
    assert_eq!(mine[0].coldkey, 100);
    assert!(n.get_coldkey_subnet_nodes_info(555).is_empty());
}

#[test]
fn listing_validators_and_attestors() {
    let mut n = populated();
    n.nodes.subnet_node_election_slots.insert(1, vec![2, 7, 1]);
    let listed: Vec<u32> = n.get_validators_and_attestors(1).iter().map(|i| i.subnet_node_id).collect();
    // node 7 has no record and is skipped; the slot order is kept
    assert_eq!(listed, vec![2, 1]);
    n.nodes.emergency_subnet_node_election.insert(1, vec![1]);
    let listed: Vec<u32> = n.get_validators_and_attestors(1).iter().map(|i| i.subnet_node_id).collect();
    assert_eq!(listed, vec![1]);
    assert!(n.get_validators_and_attestors(2).is_empty());
}

#[test]
fn coldkey_stakes_follow_node_hotkeys() {
    let mut n = populated();
    n.keys.account_subnet_stake.insert((200, 1), 33);
    let stakes = n.get_coldkey_stakes(100);
    assert_eq!(
        stakes,
        vec![SubnetNodeStakeInfo { subnet_id: Some(1), subnet_node_id: Some(1), hotkey: 200, balance: 33 }]
    );
    assert!(n.get_coldkey_stakes(555).is_empty());
}

#[test]
fn accumulated_weight() {
    let mut acc = WeightAccumulator::new();
    acc.add_take();
    acc.add_mutate();
    acc.add_remove();
    acc.add_clear_prefix(2);
    acc.add_computational_weight(4);
    assert_eq!(acc, WeightAccumulator { total_reads: 2, total_writes: 5, computational_ops: 4 });
    let w = acc.finalize(DbWeight { read: 10, write: 100 });
    assert_eq!(w, Weight { ref_time: 20 + 500 + 4000, proof_size: 0 });
}

#[test]
fn clearing_election_slots_costs_computation() {
    let mut n = network();
    n.nodes.subnet_node_election_slots.insert(4, vec![1, 2, 3]);
    let w = n.clean_subnet_nodes(4, db());
    // 5 reads, 8 writes, and 3 * 1000 operations of 1000 each
    assert_eq!(w, Weight { ref_time: 5 + 8 + 3_000_000, proof_size: 0 });
    assert!(n.nodes.subnet_node_election_slots.get(&4).is_none());
}

#[test]
fn removal_waits_for_weight_budget() {
    let mut n = populated();
    let mut meter = WeightMeter::with_limit(Weight { ref_time: 50, proof_size: 10 });
    n.try_do_remove_subnet(&mut meter, 2, SubnetRemovalReason::Owner, db(), Weight { ref_time: 50, proof_size: 0 });
    assert_eq!(meter.consumed, Weight { ref_time: 1, proof_size: 0 });
    assert!(n.subnets_data.contains_key(&2));
    n.try_do_remove_subnet(&mut meter, 2, SubnetRemovalReason::Owner, db(), Weight { ref_time: 10, proof_size: 0 });
    assert!(!n.subnets_data.contains_key(&2));
    // one read of the node count per call, then 1 + 1 + 27 + 4 + 13 for the removal
    assert_eq!(meter.consumed, Weight { ref_time: 48, proof_size: 0 });
}

#[test]
fn overwatch_peer_ids_and_info() {
    let mut n = populated();
    let keys: Result<(u64, u64), NetworkError> = Ok((100, 150));
    assert_eq!(n.do_set_overwatch_node_peer_id(100, 9, 3, b"ow".to_vec(), keys, true), Err(NetworkError::InvalidSubnetId));
    assert_eq!(n.do_set_overwatch_node_peer_id(777, 1, 3, b"ow".to_vec(), keys, true), Err(NetworkError::NotKeyOwner));
    assert_eq!(n.do_set_overwatch_node_peer_id(100, 1, 3, b"ow".to_vec(), keys, false), Err(NetworkError::InvalidPeerId));
    // a peer id of one of the subnet's nodes (as peer, bootnode or client peer) is taken
    assert_eq!(n.do_set_overwatch_node_peer_id(100, 1, 3, b"a1".to_vec(), keys, true), Err(NetworkError::PeerIdExist));
    assert_eq!(n.do_set_overwatch_node_peer_id(100, 1, 3, b"b3".to_vec(), keys, true), Err(NetworkError::PeerIdExist));
    assert_eq!(
        n.do_set_overwatch_node_peer_id(100, 1, 3, b"ow".to_vec(), Err(NetworkError::InvalidOverwatchNodeId), true),
        Err(NetworkError::InvalidOverwatchNodeId)
    );
    assert_eq!(n.do_set_overwatch_node_peer_id(150, 1, 3, b"ow".to_vec(), keys, true), Ok(()));
    assert_eq!(n.ow.peer_id_overwatch_node_id.get(&1).unwrap().get(&b"ow".to_vec()), Some(3));
    // the overwatch peer id now proves stake in subnet 1
    assert!(n.proof_of_stake(1, &b"ow".to_vec(), 0, None, 0));
    assert!(n.get_overwatch_node_info(3).is_none());
    assert_eq!(n.do_update_overwatch_hotkey(101, 3, Some(200), Ok(100)), Err(NetworkError::NotKeyOwner));
    assert_eq!(n.do_update_overwatch_hotkey(100, 3, Some(200), Ok(100)), Ok(()));
    n.ow.account_overwatch_stake.insert(200, 12);
    let info = n.get_overwatch_node_info(3).unwrap();
    assert_eq!(info.overwatch_node_id, 3);
    assert_eq!(info.hotkey, Some(200));
    assert_eq!(info.coldkey, 100);
    assert_eq!(info.peer_ids.get(&1), Some(&b"ow".to_vec()));
    assert_eq!(info.account_overwatch_stake, 12);
    assert!(n.get_all_overwatch_nodes_info().is_empty());
    n.ow.overwatch_nodes.insert(3, 100);
    assert_eq!(n.get_all_overwatch_nodes_info().len(), 1);
    assert_eq!(n.do_update_overwatch_hotkey(100, 3, None, Ok(100)), Ok(()));
    assert!(n.get_overwatch_node_info(3).is_none());
}

#[test]
fn default_subnet_node_record() {
    let d = pallet_network::types::DefaultSubnetNode();
    assert_eq!(d.id, 0);
    assert_eq!(d.hotkey, 0);
    assert!(d.peer_id.is_empty());
    assert!(d.bootnode.is_none());
    assert_eq!(d.classification.node_class, pallet_network::types::SubnetNodeClass::Registered);
    let r = pallet_network::types::DefaultColdkeyReputation();
    assert_eq!(r.score, 500_000_000_000_000_000);
}

#[test]
fn genesis_lifts_waiting_periods() {
    let mut n = network();
    n.params.min_subnet_registration_epochs = 5;
    let genesis = GenesisConfig { subnet_name: b"alpha".to_vec(), subnet_nodes: vec![] };
    genesis.build(&mut n);
    assert_eq!(n.params.min_subnet_registration_epochs, 0);
    assert_eq!(n.params.overwatch_epoch_length_multiplier, 2);
    assert_eq!(n.ow.min_rep_score, 0);
    assert_eq!(n.ow.min_age, 0);
    assert_eq!(n.ow.min_diversification_ratio, 0);
    assert_eq!(n.ow.min_avg_attestation_ratio, 0);
}

#[test]
fn elected_validator_info() {
    let mut n = populated();
    let mut elected = BTreeMap::new();
    elected.insert(7u32, 2u32);
    n.nodes.subnet_elected_validator.insert(1, elected);
    let info = n.get_elected_validator_info(1, 7).unwrap();
    assert_eq!(info.subnet_node_id, 2);
    assert_eq!(info.hotkey, 201);
    assert!(n.get_elected_validator_info(1, 8).is_none());
    assert!(n.get_elected_validator_info(2, 7).is_none());
}

#[test]
fn removing_a_subnet_drops_its_emergency_validators() {
    let mut n = populated();
    n.nodes.emergency_subnet_node_election.insert(1, vec![1, 2]);
    n.nodes.emergency_subnet_node_election.insert(2, vec![5]);
    n.do_remove_subnet(1, SubnetRemovalReason::Owner, db());
    assert!(n.nodes.emergency_subnet_node_election.get(&1).is_none());
    assert_eq!(n.nodes.emergency_subnet_node_election.get(&2), Some(&vec![5]));
    assert!(n.get_subnet_nodes_info(1).is_empty());
}

#[test]
fn donations_to_a_node_pool() {
    let mut n = populated();
    assert_eq!(n.donate_node_delegate_stake(7, 1, 9, 5000, WithdrawCheck::Allowed), Err(NetworkError::InvalidSubnetNodeId));
    assert_eq!(n.donate_node_delegate_stake(7, 1, 1, 10, WithdrawCheck::Allowed), Err(NetworkError::MinDelegateStake));
    assert_eq!(n.donate_node_delegate_stake(7, 1, 1, 5000, WithdrawCheck::NotEnough), Err(NetworkError::NotEnoughBalance));
    assert_eq!(n.donate_node_delegate_stake(7, 1, 1, 5000, WithdrawCheck::WithdrawFails), Err(NetworkError::BalanceWithdrawalError));
    assert_eq!(n.donate_node_delegate_stake(7, 1, 1, 5000, WithdrawCheck::Allowed), Ok(()));
    assert_eq!(n.total_node_delegate_stake_shares.get(&(1, 1)), Some(&1000));
    assert_eq!(n.total_node_delegate_stake_balance.get(&(1, 1)), Some(&5000));
    assert_eq!(n.total_node_delegate_stake, 5000);
    assert_eq!(n.donate_node_delegate_stake(7, 1, 1, 5000, WithdrawCheck::Allowed), Ok(()));
    assert_eq!(n.total_node_delegate_stake_shares.get(&(1, 1)), Some(&1000));
    assert_eq!(n.total_node_delegate_stake_balance.get(&(1, 1)), Some(&10000));
    n.tx_pause = true;
    assert_eq!(n.donate_node_delegate_stake(7, 1, 1, 5000, WithdrawCheck::Allowed), Err(NetworkError::Paused));
}
