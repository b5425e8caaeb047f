//! Presale ledger: contribution admission, cap enforcement, basis-point fee
//! and liquidity splits, refunds, affiliate commissions and record migration,
//! each operation stated as a contract over plain values.
//!
//! Every operation checks its preconditions in a fixed order, returns the
//! first error it meets, and on error leaves every record it was given as it
//! was; on success it changes them exactly as its spec function says.
use vstd::prelude::*;

/// Authorization and derived-address checks.
pub mod access;
/// Account identities.
pub mod address;
/// Token claims, referrer commissions and unsold-token withdrawal.
pub mod claims;
/// The stored byte form of sale records.
pub mod codec;
/// Contribution admission and referral attribution.
pub mod contribution;
/// The errors every operation reports.
pub mod error;
/// Basis-point arithmetic, token allocations and the split of funds raised.
pub mod fees;
/// Properties of the operations taken together.
pub mod laws;
/// Finalization, owner reward, cancellation and refunds.
pub mod lifecycle;
/// Seeding the liquidity pool, locking or burning its share, fee sharing.
pub mod liquidity;
/// Derived addresses.
pub mod pda;
/// Creating sales, depositing their tokens, loading and migrating records.
pub mod setup;
/// The records of a sale.
pub mod state;
/// Transfer fees of token mints.
pub mod transfer_fee;

verus! {

} // verus!
