use vstd::prelude::*;

use anchor_spl::token_2022::spl_token_2022::extension::transfer_fee::TransferFee;

use crate::error::PresaleError;

verus! {

/// The fee charged on a transfer that must deliver `post_fee_amount` net,
/// under a fee of `basis_points` capped at `maximum_fee`.
pub uninterp spec fn inverse_transfer_fee(basis_points: u16, maximum_fee: u64, post_fee_amount: u64) -> Option<u64>;

/// Relies on spl-token-2022's `TransferFee::calculate_inverse_fee`: a zero
/// rate charges nothing, and no fee exceeds the cap.
#[verifier::external_body]
fn inverse_fee(basis_points: u16, maximum_fee: u64, post_fee_amount: u64) -> (r: Option<u64>)
    ensures
        r == inverse_transfer_fee(basis_points, maximum_fee, post_fee_amount),
        basis_points == 0 ==> r == Some(0u64),
        r matches Some(f) ==> f <= maximum_fee,
{
    let fee = TransferFee {
        epoch: 0u64.into(),
        maximum_fee: maximum_fee.into(),
        transfer_fee_basis_points: basis_points.into(),
    };
    fee.calculate_inverse_fee(post_fee_amount)
}

/// The whole rate, at which a transfer fee is always its cap.
pub const MAX_FEE_BASIS_POINTS: u16 = 10000;

/// The transfer fee of a mint in the current epoch.
#[derive(Clone, Copy, Debug, PartialEq, Eq, Structural)]
pub struct EpochTransferFee {
    pub basis_points: u16,
    pub maximum_fee: u64,
}

/// What the inverse-fee calculation needs to know of a mint.
#[derive(Clone, Copy, Debug, PartialEq, Eq, Structural)]
pub struct MintFeeInfo {
    /// Owned by the original token program, which charges no transfer fee.
    pub legacy_token_program: bool,
    /// The mint's transfer fee for the current epoch, if it has one.
    pub epoch_fee: Option<EpochTransferFee>,
}

/// The fee to add to a transfer so that the recipient receives exactly
/// `post_fee_amount`.
pub open spec fn transfer_inverse_fee(mint: MintFeeInfo, post_fee_amount: u64) -> Result<
    u64,
    PresaleError,
> {
    if mint.legacy_token_program {
        Ok(0)
    } else if post_fee_amount == 0 {
        Err(PresaleError::Invalid)
    } else {
        match mint.epoch_fee {
            None => Ok(0),
            Some(fee) => if fee.basis_points == MAX_FEE_BASIS_POINTS {
                Ok(fee.maximum_fee)
            } else {
                match inverse_transfer_fee(fee.basis_points, fee.maximum_fee, post_fee_amount) {
                    Some(f) => Ok(f),
                    None => Err(PresaleError::FeeCalculationError),
                }
            },
        }
    }
}

/// Computes `transfer_inverse_fee`: nothing for the original token program
/// or a mint without a transfer fee, the cap at the whole rate, and the
/// token program's inverse fee otherwise.
pub fn get_transfer_inverse_fee(mint: &MintFeeInfo, post_fee_amount: u64) -> (r: Result<
    u64,
    PresaleError,
>)
    ensures
        r == transfer_inverse_fee(*mint, post_fee_amount),
        r matches Ok(f) ==> (mint.epoch_fee matches Some(fee) ==> f <= fee.maximum_fee),
{
    if mint.legacy_token_program {
        return Ok(0);
    }
    if post_fee_amount == 0 {
        return Err(PresaleError::Invalid);
    }
    match mint.epoch_fee {
        None => Ok(0),
        Some(fee) => {
            if fee.basis_points == MAX_FEE_BASIS_POINTS {
                Ok(fee.maximum_fee)
            } else {
                match inverse_fee(fee.basis_points, fee.maximum_fee, post_fee_amount) {
                    Some(f) => Ok(f),
                    None => Err(PresaleError::FeeCalculationError),
                }
            }
        },
    }
}

} // verus!
