use vstd::prelude::*;

verus! {

/// Every way a presale operation can be refused. An operation that returns
/// one of these leaves every record it was given unchanged.
#[derive(Clone, Copy, Debug, PartialEq, Eq, Structural)]
pub enum PresaleError {
    PresaleNotActive,
    PresaleEnded,
    ContributionNotWithinLimits,
    ExceedsHardCap,
    PresaleNotEnded,
    PresaleNotFinalized,
    PresaleCanceled,
    PresaleRefund,
    NoTokensToClaim,
    PresaleNotRefunded,
    Unauthorized,
    LiquidityLocked,
    PresaleEndedOrCanceled,
    PresaleNotCancelled,
    InsufficientFunds,
    Invalid,
    InvalidReferrer,
    ArithmeticOverflow,
    InvalidRaydiumCpSwapProgram,
    InvalidRaydiumAuthority,
    InvalidRaydiumPoolState,
    InvalidRaydiumAmmConfig,
    InvalidRaydiumTokenMintAccountOrdering,
    InvalidRaydiumLpTokenMintAccount,
    InvalidRaydiumToken0VaultAccount,
    InvalidRaydiumToken1VaultAccount,
    InvalidRaydiumObservationStateAccount,
    InvalidFeeCollector,
    InvalidTokenMint,
    UnableToCreateProgramAddress,
    PresaleFinalizationPreconditionsNotMet,
    InvalidWhitelistEntry,
    UninitializedWhitelistEntry,
    FeeCalculationError,
    OwnerRewardWithdrawn,
    InvalidListingPlatform,
    PlatformProfitTooLow,
}

impl PresaleError {
    /// The message shown to a caller for this error.
    pub fn message(&self) -> (r: &'static str) {
        match self {
            PresaleError::PresaleNotActive => "Presale is not active",
            PresaleError::PresaleEnded => "Presale has ended",
            PresaleError::ContributionNotWithinLimits => "Contribution not within limits",
            PresaleError::ExceedsHardCap => "Exceeds hard cap",
            PresaleError::PresaleNotEnded => "Presale not ended",
            PresaleError::PresaleNotFinalized => "Presale not finalized",
            PresaleError::PresaleCanceled => "Presale canceled",
            PresaleError::PresaleRefund => "Presale canceled",
            PresaleError::NoTokensToClaim => "No tokens to claim",
            PresaleError::PresaleNotRefunded => "Presale is not refunded",
            PresaleError::Unauthorized => "not authorized",
            PresaleError::LiquidityLocked => "Liquidity is not unlocked yet",
            PresaleError::PresaleEndedOrCanceled => "Presale not ended or canceled",
            PresaleError::PresaleNotCancelled => "Presale not cancelled",
            PresaleError::InsufficientFunds => "Insufficient Funds",
            PresaleError::Invalid => "Invalid",
            PresaleError::InvalidReferrer => "Invalid referrer",
            PresaleError::ArithmeticOverflow => "Arithmetic Overflow",
            PresaleError::InvalidRaydiumCpSwapProgram => "Invalid raydium cp swap program",
            PresaleError::InvalidRaydiumAuthority => "Invalid raydium authority",
            PresaleError::InvalidRaydiumPoolState => "Invalid raydium pool state",
            PresaleError::InvalidRaydiumAmmConfig => "Invalid raydium amm config",
            PresaleError::InvalidRaydiumTokenMintAccountOrdering =>
                "Invalid raydium token mint account ordering",
            PresaleError::InvalidRaydiumLpTokenMintAccount => "Invalid raydium LP token mint account",
            PresaleError::InvalidRaydiumToken0VaultAccount => "Invalid raydium token 0 vault account",
            PresaleError::InvalidRaydiumToken1VaultAccount => "Invalid raydium token 1 vault account",
            PresaleError::InvalidRaydiumObservationStateAccount =>
                "Invalid raydium observation state account",
            PresaleError::InvalidFeeCollector => "Invalid fee collector",
            PresaleError::InvalidTokenMint => "Invalid token mint",
            PresaleError::UnableToCreateProgramAddress => "Unable to create program address (PDA)",
            PresaleError::PresaleFinalizationPreconditionsNotMet =>
                "Presale finalization preconditions not met",
            PresaleError::InvalidWhitelistEntry => "Invalid whitelist entry",
            PresaleError::UninitializedWhitelistEntry => "Uninitialized whitelist entry",
            PresaleError::FeeCalculationError => "Fee calculation error",
            PresaleError::OwnerRewardWithdrawn => "Instruction is inaccessible if owner reward is withdrawn",
            PresaleError::InvalidListingPlatform => "Instruction can't be called for this listing platform",
            PresaleError::PlatformProfitTooLow => "Platform profit should be greater than minimum amount",
        }
    }
}

} // verus!
