//! The persisted entities of the ledger and the values that cross its
//! boundary: coins, observed delegations, outgoing instructions and the
//! structured error taxonomy. Each type carrying strings has a view over
//! `Seq<char>` so that contracts can speak about it.

use vstd::prelude::*;
use crate::dec::Dec;

verus! {

/// Pool-wide accounting snapshot.
#[derive(Clone, Copy, PartialEq, Eq, Structural, Debug)]
pub struct State {
    /// Ratio of total backing to outstanding receipt-token supply.
    pub exchange_rate: Dec,
    /// Underlying asset the ledger believes is delegated.
    pub total_bond_amount: u128,
    /// Pool balance recorded by the compounding trigger, read by the apply phase.
    pub principle_balance_before_exchange_update: u128,
    /// Pool balance left after the previous withdrawal settlement.
    pub prev_hub_balance: u128,
    /// Scratch amount used within one settlement; zero between transitions.
    pub actual_unbonded_amount: u128,
    /// Time of the last compounding trigger.
    pub last_index_modification: u64,
    /// Time the open batch was last finalized.
    pub last_unbonded_time: u64,
    /// Highest batch identifier that settlement has released.
    pub last_processed_batch: u64,
}

/// Tunable protocol policy.
#[derive(Clone, PartialEq, Eq, Debug)]
pub struct Parameters {
    /// Seconds an open batch accumulates requests before it may finalize.
    pub epoch_period: u64,
    /// Denomination of the underlying staking asset.
    pub underlying_coin_denom: String,
    /// Seconds between a batch's finalization and its maturity.
    pub unbonding_period: u64,
    /// Fraction withheld from mints and burns while the rate is depressed.
    pub peg_recovery_fee: Dec,
    /// Exchange-rate threshold below which the recovery fee applies.
    pub er_threshold: Dec,
    /// Fraction of harvested rewards routed to the fee collector.
    pub protocol_fee: Dec,
}

/// View of [`Parameters`] over mathematical strings.
pub struct ParametersV {
    pub epoch_period: u64,
    pub underlying_coin_denom: Seq<char>,
    pub unbonding_period: u64,
    pub peg_recovery_fee: Dec,
    pub er_threshold: Dec,
    pub protocol_fee: Dec,
}

impl View for Parameters {
    type V = ParametersV;

    open spec fn view(&self) -> ParametersV {
        ParametersV {
            epoch_period: self.epoch_period,
            underlying_coin_denom: self.underlying_coin_denom@,
            unbonding_period: self.unbonding_period,
            peg_recovery_fee: self.peg_recovery_fee,
            er_threshold: self.er_threshold,
            protocol_fee: self.protocol_fee,
        }
    }
}

/// Wiring to the external collaborators and the admin identity.
#[derive(Clone, PartialEq, Eq, Debug)]
pub struct Config {
    /// The single identity allowed to perform gated mutations.
    pub admin: String,
    /// The receipt-token ledger, settable once.
    pub token_contract: Option<String>,
    /// Whether the receipt-token ledger has been registered.
    pub token_contract_registered: bool,
    /// Recipient of the protocol fee, if configured.
    pub protocol_fee_collector: Option<String>,
}

/// View of [`Config`] over mathematical strings.
pub struct ConfigV {
    pub admin: Seq<char>,
    pub token_contract: Option<Seq<char>>,
    pub token_contract_registered: bool,
    pub protocol_fee_collector: Option<Seq<char>>,
}

impl View for Config {
    type V = ConfigV;

    open spec fn view(&self) -> ConfigV {
        ConfigV {
            admin: self.admin@,
            token_contract: match self.token_contract {
                Some(ref t) => Some(t@),
                None => None,
            },
            token_contract_registered: self.token_contract_registered,
            protocol_fee_collector: match self.protocol_fee_collector {
                Some(ref t) => Some(t@),
                None => None,
            },
        }
    }
}

/// The open unbonding epoch.
#[derive(Clone, Copy, PartialEq, Eq, Structural, Debug)]
pub struct CurrentBatch {
    /// Monotonic identifier; the first batch has identifier one.
    pub id: u64,
    /// Sum of burn amounts collected so far, already fee-adjusted.
    pub requested_with_fee: u128,
}

/// A finalized epoch record.
#[derive(Clone, Copy, PartialEq, Eq, Structural, Debug)]
pub struct UnbondHistory {
    pub batch_id: u64,
    /// Time of finalization; maturity is this plus the unbonding period.
    pub time: u64,
    /// Fee-adjusted receipt-token amount the batch collected.
    pub amount: u128,
    /// Exchange rate at finalization.
    pub applied_exchange_rate: Dec,
    /// Payout multiplier; equals the applied rate until settlement fixes it.
    pub withdraw_rate: Dec,
    /// Whether settlement has fixed this batch's payout rate.
    pub released: bool,
}

/// One user's claim inside one batch.
#[derive(Clone, PartialEq, Eq, Debug)]
pub struct WaitEntry {
    pub batch_id: u64,
    pub user: String,
    pub amount: u128,
}

/// View of [`WaitEntry`] over mathematical strings.
pub struct WaitEntryV {
    pub batch_id: u64,
    pub user: Seq<char>,
    pub amount: u128,
}

impl View for WaitEntry {
    type V = WaitEntryV;

    open spec fn view(&self) -> WaitEntryV {
        WaitEntryV { batch_id: self.batch_id, user: self.user@, amount: self.amount }
    }
}

/// A single-denomination payment.
#[derive(Clone, PartialEq, Eq, Debug)]
pub struct Coin {
    pub denom: String,
    pub amount: u128,
}

/// View of [`Coin`] over mathematical strings.
pub struct CoinV {
    pub denom: Seq<char>,
    pub amount: u128,
}

impl View for Coin {
    type V = CoinV;

    open spec fn view(&self) -> CoinV {
        CoinV { denom: self.denom@, amount: self.amount }
    }
}

/// A delegation observed from the staking subsystem.
#[derive(Clone, PartialEq, Eq, Debug)]
pub struct Delegation {
    pub validator: String,
    pub amount: u128,
    pub denom: String,
}

/// View of [`Delegation`] over mathematical strings.
pub struct DelegationV {
    pub validator: Seq<char>,
    pub amount: u128,
    pub denom: Seq<char>,
}

impl View for Delegation {
    type V = DelegationV;

    open spec fn view(&self) -> DelegationV {
        DelegationV { validator: self.validator@, amount: self.amount, denom: self.denom@ }
    }
}

/// An outgoing instruction to the staking, transfer or token subsystems. The
/// whole transition fails or succeeds with its instructions as one unit.
#[derive(Clone, PartialEq, Eq, Debug)]
pub enum Instruction {
    /// Delegate `amount` of the underlying asset to `validator`.
    Delegate { validator: String, amount: u128 },
    /// Undelegate `amount` of the underlying asset from `validator`.
    Undelegate { validator: String, amount: u128 },
    /// Move a whole delegation from one validator to another.
    Redelegate { src_validator: String, dst_validator: String, amount: u128 },
    /// Mint `amount` receipt tokens to `recipient`.
    Mint { recipient: String, amount: u128 },
    /// Burn `amount` receipt tokens held by the token ledger for the hub.
    Burn { amount: u128 },
    /// Transfer `amount` of the underlying asset to `recipient`.
    Send { recipient: String, amount: u128 },
    /// Withdraw accumulated staking rewards from `validator`.
    WithdrawReward { validator: String },
    /// Self-addressed call that runs the privileged compounding apply phase.
    TriggerExchangeRateUpdate,
    /// Self-addressed call that runs the compounding trigger phase.
    TriggerGlobalIndex,
    /// Self-addressed call that registers a validator during instantiation.
    RegisterValidatorSelf { validator: String },
}

/// View of [`Instruction`] over mathematical strings.
pub enum InstructionV {
    Delegate { validator: Seq<char>, amount: u128 },
    Undelegate { validator: Seq<char>, amount: u128 },
    Redelegate { src_validator: Seq<char>, dst_validator: Seq<char>, amount: u128 },
    Mint { recipient: Seq<char>, amount: u128 },
    Burn { amount: u128 },
    Send { recipient: Seq<char>, amount: u128 },
    WithdrawReward { validator: Seq<char> },
    TriggerExchangeRateUpdate,
    TriggerGlobalIndex,
    RegisterValidatorSelf { validator: Seq<char> },
}

impl View for Instruction {
    type V = InstructionV;

    open spec fn view(&self) -> InstructionV {
        match self {
            Instruction::Delegate { validator, amount } => InstructionV::Delegate {
                validator: validator@,
                amount: *amount,
            },
            Instruction::Undelegate { validator, amount } => InstructionV::Undelegate {
                validator: validator@,
                amount: *amount,
            },
            Instruction::Redelegate { src_validator, dst_validator, amount } => (
            InstructionV::Redelegate {
                src_validator: src_validator@,
                dst_validator: dst_validator@,
                amount: *amount,
            }),
            Instruction::Mint { recipient, amount } => InstructionV::Mint {
                recipient: recipient@,
                amount: *amount,
            },
            Instruction::Burn { amount } => InstructionV::Burn { amount: *amount },
            Instruction::Send { recipient, amount } => InstructionV::Send {
                recipient: recipient@,
                amount: *amount,
            },
            Instruction::WithdrawReward { validator } => InstructionV::WithdrawReward {
                validator: validator@,
            },
            Instruction::TriggerExchangeRateUpdate => InstructionV::TriggerExchangeRateUpdate,
            Instruction::TriggerGlobalIndex => InstructionV::TriggerGlobalIndex,
            Instruction::RegisterValidatorSelf { validator } => (
            InstructionV::RegisterValidatorSelf { validator: validator@ }),
        }
    }
}

/// The views of a list of instructions.
pub open spec fn instrs_view(v: Seq<Instruction>) -> Seq<InstructionV> {
    v.map_values(|i: Instruction| i@)
}

/// Structured failures. Every transition either succeeds, or fails with one
/// of these and leaves the ledger unchanged.
#[derive(Clone, Copy, PartialEq, Eq, Structural, Debug)]
pub enum HubError {
    /// An admin-gated mutation was attempted by another caller.
    NotAdmin,
    /// A restricted call came from neither the expected collaborator nor the hub.
    Unauthorized,
    /// The ledger is paused.
    Paused,
    /// The named validator is not whitelisted.
    UnsupportedValidator,
    /// The named address is not a validator of the staking system.
    NotValidator,
    /// The receipt-token ledger was already registered.
    TokenRegistered,
    /// No positive payment in the underlying denomination was attached.
    NoPayment,
    /// More than one coin denomination was attached.
    MultipleCoins,
    /// The last whitelisted validator cannot be removed.
    LastValidator,
    /// No matured batch holds anything for the caller yet.
    NothingWithdrawable,
    /// The amount to undelegate exceeds what is actually delegated.
    InsufficientDelegations,
    /// A nonzero protocol fee is due but no collector is configured.
    FeeCollectorUnset,
    /// No delegation exists to receive the compounded rewards.
    NoDelegations,
    /// A tunable parameter lies outside its allowed range.
    InvalidParams,
    /// Overflow or underflow in ledger arithmetic; never silently clamped.
    Arithmetic,
}

impl HubError {
    /// A short stable description, for surfacing to callers.
    pub fn describe(&self) -> &'static str {
        match self {
            HubError::NotAdmin => "Caller is not admin",
            HubError::Unauthorized => "Unauthorized",
            HubError::Paused => "Contract is paused cannot perform the tx",
            HubError::UnsupportedValidator => "The chosen validator is currently not supported",
            HubError::NotValidator => "The specified address is not a validator",
            HubError::TokenRegistered => "Token contract has been registered. Cannot change the token contract",
            HubError::NoPayment => "No uluna assets are provided to bond",
            HubError::MultipleCoins => "More than one coin is sent; only one asset is supported",
            HubError::LastValidator => "Cannot remove the last whitelisted validator",
            HubError::NothingWithdrawable => "No withdrawable uluna assets are available yet",
            HubError::InsufficientDelegations => "The requested amount exceeds the total delegated amount",
            HubError::FeeCollectorUnset => "protocol fee collector address has not been set",
            HubError::NoDelegations => "There must be at least one delegation",
            HubError::InvalidParams => "A parameter is outside its allowed range",
            HubError::Arithmetic => "Arithmetic error in ledger accounting",
        }
    }
}

} // verus!
