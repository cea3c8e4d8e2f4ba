use vstd::prelude::*;
use std::collections::BTreeMap;
use crate::network::WithdrawCheck;

verus! {

/// Fixed-point representation of 100% (1e18) used by every percentage parameter.
pub const PERCENTAGE_FACTOR: u128 = 1_000_000_000_000_000_000;

/// Dead shares minted into an empty pool on its first deposit.
pub const MIN_LIQUIDITY: u128 = 1000;

/// Capacity of the ordered swap queue.
pub const MAX_SWAP_QUEUE_LEN: usize = 1000;

/// Operational states of a subnet: `Registered -> Active <-> Paused`.
#[derive(Clone, Copy, Debug, PartialEq, Eq, Structural)]
pub enum SubnetState {
    Registered,
    Active,
    Paused,
}

/// Key types a subnet can declare (informational only).
#[derive(Clone, Copy, Debug, PartialEq, Eq, Structural)]
pub enum KeyType {
    Rsa,
    Ed25519,
    Secp256k1,
    Ecdsa,
}

/// Lifecycle classes of a subnet node, in increasing order.
#[derive(Clone, Copy, Debug, PartialEq, Eq, Structural)]
pub enum SubnetNodeClass {
    Registered,
    Idle,
    Included,
    Validator,
}

/// Position of a class in the order `Registered < Idle < Included < Validator`.
pub open spec fn class_rank(c: SubnetNodeClass) -> nat {
    match c {
        SubnetNodeClass::Registered => 0,
        SubnetNodeClass::Idle => 1,
        SubnetNodeClass::Included => 2,
        SubnetNodeClass::Validator => 3,
    }
}

/// The class at a given rank (ranks above the top map to `Validator`).
pub open spec fn class_of_rank(r: nat) -> SubnetNodeClass {
    if r == 0 {
        SubnetNodeClass::Registered
    } else if r == 1 {
        SubnetNodeClass::Idle
    } else if r == 2 {
        SubnetNodeClass::Included
    } else {
        SubnetNodeClass::Validator
    }
}

impl SubnetNodeClass {
    /// Numeric position of the class (its representation).
    pub fn rank(&self) -> (r: u8)
        ensures
            r == class_rank(*self),
    {
        match self {
            SubnetNodeClass::Registered => 0,
            SubnetNodeClass::Idle => 1,
            SubnetNodeClass::Included => 2,
            SubnetNodeClass::Validator => 3,
        }
    }

    /// The class with a given representation, if there is one.
    pub fn from_repr(value: u8) -> (r: Option<SubnetNodeClass>)
        ensures
            value <= 3 ==> r == Some(class_of_rank(value as nat)),
            value > 3 ==> r is None,
    {
        match value {
            0 => Some(SubnetNodeClass::Registered),
            1 => Some(SubnetNodeClass::Idle),
            2 => Some(SubnetNodeClass::Included),
            3 => Some(SubnetNodeClass::Validator),
            _ => None,
        }
    }

    /// Increments the node class; the highest class stays `Validator`.
    pub fn next(&self) -> (r: SubnetNodeClass)
        ensures
            class_rank(r) == if class_rank(*self) < 3 { class_rank(*self) + 1 } else { 3 },
    {
        match Self::from_repr(self.rank() + 1) {
            Some(c) => c,
            None => *self,
        }
    }

    /// Decrements the node class; the lowest class stays `Registered`.
    pub fn previous(&self) -> (r: SubnetNodeClass)
        ensures
            class_rank(r) == if class_rank(*self) > 0 { class_rank(*self) - 1 } else { 0 },
    {
        if *self == SubnetNodeClass::Registered {
            return SubnetNodeClass::Registered;
        }
        match Self::from_repr(self.rank() - 1) {
            Some(c) => c,
            None => *self,
        }
    }

    /// `self >= other` in the class order.
    pub fn at_least(&self, other: &SubnetNodeClass) -> (r: bool)
        ensures
            r == (class_rank(*self) >= class_rank(*other)),
    {
        self.rank() >= other.rank()
    }
}

/// Class of a node together with the subnet epoch the class starts on.
#[derive(Clone, Copy, Debug, PartialEq, Eq, Structural)]
pub struct SubnetNodeClassification {
    pub node_class: SubnetNodeClass,
    pub start_epoch: u32,
}

/// A subnet node. Accounts are identified by `u64`, peer IDs and free-form
/// parameters are raw bytes.
#[derive(Clone, Debug)]
pub struct SubnetNode {
    pub id: u32,
    pub hotkey: u64,
    pub peer_id: Vec<u8>,
    pub bootnode_peer_id: Vec<u8>,
    pub client_peer_id: Vec<u8>,
    pub bootnode: Option<Vec<u8>>,
    pub classification: SubnetNodeClassification,
    pub delegate_reward_rate: u128,
    pub last_delegate_reward_rate_update: u32,
    pub unique: Option<Vec<u8>>,
    pub non_unique: Option<Vec<u8>>,
}

/// The record a subnet node reads as when it has none: id 0, hotkey 0, empty
/// peer ids, no bootnode or parameters, registered at epoch 0, no reward rate.
#[allow(non_snake_case)]
pub fn DefaultSubnetNode() -> (r: SubnetNode)
    ensures
        r.id == 0,
        r.hotkey == 0,
        r.peer_id@ == Seq::<u8>::empty(),
        r.bootnode_peer_id@ == Seq::<u8>::empty(),
        r.client_peer_id@ == Seq::<u8>::empty(),
        r.bootnode is None,
        r.classification == (SubnetNodeClassification { node_class: SubnetNodeClass::Registered, start_epoch: 0 }),
        r.delegate_reward_rate == 0,
        r.last_delegate_reward_rate_update == 0,
        r.unique is None,
        r.non_unique is None,
{
    SubnetNode {
        id: 0,
        hotkey: 0,
        peer_id: Vec::new(),
        bootnode_peer_id: Vec::new(),
        client_peer_id: Vec::new(),
        bootnode: None,
        classification: SubnetNodeClassification { node_class: SubnetNodeClass::Registered, start_epoch: 0 },
        delegate_reward_rate: 0,
        last_delegate_reward_rate_update: 0,
        unique: None,
        non_unique: None,
    }
}

/// A node has a classification when its class is at least `required` and the
/// class has already started on `subnet_epoch`.
pub open spec fn spec_has_classification(
    c: SubnetNodeClassification,
    required: SubnetNodeClass,
    subnet_epoch: u32,
) -> bool {
    class_rank(c.node_class) >= class_rank(required) && c.start_epoch <= subnet_epoch
}

impl SubnetNode {
    pub fn has_classification(&self, required: &SubnetNodeClass, subnet_epoch: u32) -> (r: bool)
        ensures
            r == spec_has_classification(self.classification, *required, subnet_epoch),
    {
        self.classification.node_class.at_least(required)
            && self.classification.start_epoch <= subnet_epoch
    }
}

/// Answers of the checks and actions, made outside this library, that a node
/// registration consults.
#[derive(Clone, Copy, Debug)]
pub struct NodeRegistrationChecks {
    /// Whether the subnet is in its enactment period at the current epoch.
    pub in_enactment: bool,
    /// The subnet's current epoch.
    pub subnet_epoch: u32,
    /// Whether each peer id is well formed.
    pub peer_id_valid: bool,
    pub client_peer_id_valid: bool,
    pub bootnode_peer_id_valid: bool,
    /// The registration burn fee.
    pub burn_amount: u128,
    /// Whether burning the fee from the coldkey succeeded.
    pub burn_ok: bool,
    /// The currency's answer to withdrawing the initial stake from the coldkey.
    pub stake_funds: WithdrawCheck,
    /// The current block.
    pub block: u32,
}

/// Stake movements that wait one epoch in the swap queue before they are applied.
#[derive(Clone, Copy, Debug, PartialEq, Eq, Structural)]
pub enum QueuedSwapCall {
    SwapToSubnetDelegateStake { account_id: u64, to_subnet_id: u32, balance: u128 },
    SwapToValidatorDelegateStake { account_id: u64, to_validator_id: u32, balance: u128 },
    SwapToNodeDelegateStake { account_id: u64, to_subnet_id: u32, to_subnet_node_id: u32, balance: u128 },
}

/// The balance a queued call carries.
pub open spec fn spec_queue_balance(c: QueuedSwapCall) -> u128 {
    match c {
        QueuedSwapCall::SwapToSubnetDelegateStake { balance, .. } => balance,
        QueuedSwapCall::SwapToValidatorDelegateStake { balance, .. } => balance,
        QueuedSwapCall::SwapToNodeDelegateStake { balance, .. } => balance,
    }
}

impl QueuedSwapCall {
    pub fn get_queue_balance(&self) -> (r: u128)
        ensures
            r == spec_queue_balance(*self),
    {
        match self {
            QueuedSwapCall::SwapToSubnetDelegateStake { balance, .. } => *balance,
            QueuedSwapCall::SwapToValidatorDelegateStake { balance, .. } => *balance,
            QueuedSwapCall::SwapToNodeDelegateStake { balance, .. } => *balance,
        }
    }
}

/// A queued swap with the block it was queued at and its waiting time.
#[derive(Clone, Copy, Debug, PartialEq, Eq, Structural)]
pub struct QueuedSwapItem {
    pub id: u32,
    pub call: QueuedSwapCall,
    pub queued_at_block: u32,
    pub execute_after_blocks: u32,
}

/// Reputation record of a coldkey or validator.
#[derive(Clone, Copy, Debug, PartialEq, Eq, Structural)]
pub struct Reputation {
    pub start_epoch: u32,
    pub score: u128,
    pub lifetime_node_count: u32,
    pub total_active_nodes: u32,
    pub total_increases: u32,
    pub total_decreases: u32,
    pub average_attestation: u128,
    pub last_validator_epoch: u32,
    pub ow_score: u128,
}

/// The reputation every account starts with.
pub open spec fn spec_default_reputation() -> Reputation {
    Reputation {
        start_epoch: 0,
        score: 500_000_000_000_000_000,
        lifetime_node_count: 0,
        total_active_nodes: 0,
        total_increases: 0,
        total_decreases: 0,
        average_attestation: 0,
        last_validator_epoch: 0,
        ow_score: 500_000_000_000_000_000,
    }
}

/// Default coldkey reputation: a score and an overwatch score of 50%.
#[allow(non_snake_case)]
pub fn DefaultColdkeyReputation() -> (r: Reputation)
    ensures
        r == spec_default_reputation(),
{
    Reputation {
        start_epoch: 0,
        score: 500_000_000_000_000_000,
        lifetime_node_count: 0,
        total_active_nodes: 0,
        total_increases: 0,
        total_decreases: 0,
        average_attestation: 0,
        last_validator_epoch: 0,
        ow_score: 500_000_000_000_000_000,
    }
}

/// Core subnet data.
#[derive(Clone, Debug)]
pub struct SubnetData {
    pub id: u32,
    pub friendly_id: u32,
    pub name: Vec<u8>,
    pub repo: Vec<u8>,
    pub description: Vec<u8>,
    pub misc: Vec<u8>,
    pub state: SubnetState,
    pub start_epoch: u32,
}

/// What an owner registers a subnet with. Bootnodes and key types are given as
/// lists without repetition.
#[derive(Clone, Debug)]
pub struct RegistrationSubnetData {
    pub name: Vec<u8>,
    pub repo: Vec<u8>,
    pub description: Vec<u8>,
    pub misc: Vec<u8>,
    pub min_stake: u128,
    pub max_stake: u128,
    pub delegate_stake_percentage: u128,
    pub initial_coldkeys: BTreeMap<u64, u32>,
    pub key_types: Vec<KeyType>,
    pub bootnodes: Vec<Vec<u8>>,
}

/// Reasons a subnet is removed from the network.
#[derive(Clone, Copy, Debug, PartialEq, Eq, Structural)]
pub enum SubnetRemovalReason {
    MinReputation,
    MinSubnetNodes,
    MinSubnetDelegateStake,
    Council,
    EnactmentPeriod,
    MaxSubnets,
    Owner,
    PauseExpired,
}

/// What an activation attempt did to a registered subnet.
#[derive(Clone, Copy, Debug, PartialEq, Eq, Structural)]
pub enum ActivationOutcome {
    Activated,
    Removed(SubnetRemovalReason),
}

/// A subnet's configuration, state and totals (RPC view).
#[derive(Clone, Debug)]
pub struct SubnetInfo {
    pub id: u32,
    pub friendly_id: Option<u32>,
    pub name: Vec<u8>,
    pub repo: Vec<u8>,
    pub description: Vec<u8>,
    pub misc: Vec<u8>,
    pub state: SubnetState,
    pub start_epoch: u32,
    pub min_stake: u128,
    pub max_stake: u128,
    pub delegate_stake_percentage: u128,
    pub last_delegate_stake_rewards_update: u32,
    pub initial_coldkeys: Option<BTreeMap<u64, u32>>,
    pub initial_coldkey_data: Option<BTreeMap<u64, u32>>,
    pub max_registered_nodes: u32,
    pub owner: Option<u64>,
    pub pending_owner: Option<u64>,
    pub registration_epoch: Option<u32>,
    pub prev_pause_epoch: u32,
    pub key_types: Vec<KeyType>,
    pub bootnodes: Vec<Vec<u8>>,
    pub total_nodes: u32,
    pub total_active_nodes: u32,
    pub total_electable_nodes: u32,
    pub total_subnet_stake: u128,
    pub total_subnet_delegate_stake_shares: u128,
    pub total_subnet_delegate_stake_balance: u128,
}

/// An overwatch node with its keys, peer ids, standing and stake (RPC view).
#[derive(Clone, Debug)]
pub struct OverwatchNodeInfo {
    pub overwatch_node_id: u32,
    pub coldkey: u64,
    pub hotkey: Option<u64>,
    /// Peer id of the node in each subnet.
    pub peer_ids: BTreeMap<u32, Vec<u8>>,
    pub reputation: Reputation,
    pub account_overwatch_stake: u128,
}

/// A subnet node with its keys, stake and standing (RPC view).
#[derive(Clone, Debug)]
pub struct SubnetNodeInfo {
    pub subnet_id: u32,
    pub subnet_node_id: u32,
    pub coldkey: u64,
    pub hotkey: u64,
    pub peer_id: Vec<u8>,
    pub bootnode_peer_id: Vec<u8>,
    pub client_peer_id: Vec<u8>,
    pub bootnode: Option<Vec<u8>>,
    pub classification: SubnetNodeClassification,
    pub delegate_reward_rate: u128,
    pub last_delegate_reward_rate_update: u32,
    pub unique: Option<Vec<u8>>,
    pub non_unique: Option<Vec<u8>>,
    pub stake_balance: u128,
    pub total_node_delegate_stake_shares: u128,
    pub node_delegate_stake_balance: u128,
    pub coldkey_reputation: Reputation,
    pub subnet_node_reputation: u128,
    pub node_slot_index: Option<u32>,
    pub consecutive_included_epochs: u32,
}

/// The stake of a subnet node that a coldkey runs (RPC view).
#[derive(Clone, Copy, Debug, PartialEq, Eq, Structural)]
pub struct SubnetNodeStakeInfo {
    pub subnet_id: Option<u32>,
    pub subnet_node_id: Option<u32>,
    pub hotkey: u64,
    pub balance: u128,
}

/// An account's delegate stake in one subnet (RPC view).
#[derive(Clone, Copy, Debug, PartialEq, Eq, Structural)]
pub struct DelegateStakeInfo {
    pub subnet_id: u32,
    pub shares: u128,
    pub balance: u128,
}

/// An account's delegate stake in one subnet node (RPC view).
#[derive(Clone, Copy, Debug, PartialEq, Eq, Structural)]
pub struct NodeDelegateStakeInfo {
    pub subnet_id: u32,
    pub subnet_node_id: u32,
    pub shares: u128,
    pub balance: u128,
}

/// An account's delegate stake in one validator (RPC view).
#[derive(Clone, Copy, Debug, PartialEq, Eq, Structural)]
pub struct ValidatorDelegateStakeInfo {
    pub validator_id: u32,
    pub shares: u128,
    pub balance: u128,
}

/// Errors of the network logic.
#[derive(Clone, Copy, Debug, PartialEq, Eq, Structural)]
pub enum NetworkError {
    InvalidSubnetId,
    InvalidSubnetNodeId,
    InvalidValidatorId,
    InvalidOverwatchNodeId,
    NotKeyOwner,
    InvalidAmount,
    AmountZero,
    SharesZero,
    CouldNotConvertToBalance,
    CouldNotConvertToShares,
    NotEnoughBalanceToStake,
    NotEnoughBalance,
    BalanceWithdrawalError,
    NotEnoughStakeToWithdraw,
    MaxStakeReached,
    MinStakeNotReached,
    MinDelegateStake,
    MinDelegateStakeDepositNotReached,
    MaxUnlockingsReached,
    NoStakeUnbondingsOrCooldownNotMet,
    TxRateLimitExceeded,
    TransferToSelfNotAllowed,
    SwapCallNotFound,
    SwapQueueFull,
    ColdkeyMatchesHotkey,
    HotkeyHasOwner,
    HotkeyAlreadyRegisteredToColdkey,
    OldHotkeyNotRegistered,
    SubnetNameExist,
    SubnetRepoExist,
    MaxSubnets,
    BootnodesEmpty,
    TooManyBootnodes,
    InvalidSubnetMinStake,
    InvalidSubnetMaxStake,
    InvalidSubnetStakeParameters,
    InvalidMinDelegateStakePercentage,
    InvalidSubnetRegistrationInitialColdkeys,
    CostGreaterThanMaxCost,
    NotEnoughBalanceToRegisterSubnet,
    SubnetActivatedAlready,
    MinSubnetRegistrationEpochsNotMet,
    SubnetActivationConditionsNotMetYet,
    Paused,
    SubnetIsPaused,
    PeerIdsMustBeUnique,
    SubnetMustBeRegisteringOrActivated,
    ColdkeyRegistrationWhitelist,
    MaxRegisteredNodes,
    InvalidPeerId,
    InvalidClientPeerId,
    InvalidBootnodePeerId,
    PeerIdExist,
    BootnodePeerIdExist,
    ClientPeerIdExist,
    BootnodeExist,
    MustUnstakeToRegister,
    MaxBurnAmountExceeded,
    BalanceBurnError,
    SubnetNodeUniqueParamTaken,
    ElectionSlotInsertFail,
    NoAvailableSlots,
    InvalidDelegateRewardRate,
    ElectedValidatorCannotUnstake,
    MinActiveNodeStakeEpochs,
    ColdkeyBlacklisted,
    OverwatchEpochIsZero,
    MaxOverwatchNodes,
    ColdkeyNotOverwatchQualified,
    NotSubnetOwner,
}

/// What block initialization does besides running the swap queue.
#[derive(Clone, Copy, Debug, PartialEq, Eq, Structural)]
pub enum BlockStep {
    /// Transactions are paused: nothing runs.
    Paused,
    /// First block of an epoch: remove or penalize subnets.
    EpochPreliminaries { epoch: u32 },
    /// Second block of an overwatch epoch: compute overwatch rewards.
    OverwatchRewards,
    /// Third block of an epoch: compute the subnets' emission weights.
    EmissionWeights { epoch: u32 },
    /// A block whose epoch slot is assigned to a subnet: its emission step.
    SubnetEmission { subnet_id: u32, epoch: u32 },
    /// Nothing but the swap queue.
    Idle,
}

} // verus!
