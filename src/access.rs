use vstd::prelude::*;

use crate::address::Address;
use crate::error::PresaleError;
use crate::pda::{find_program_address, program_address, seeds_view};
use crate::state::{LaunchpadType, PresaleState};

verus! {

/// How long after the end of a sale the platform admin may still finalize it.
pub const ADMIN_FINALIZATION_TIMEOUT: i64 = 259200;

/// The seed that prefixes every sale's derived address ("presale").
pub open spec fn presale_seed() -> Seq<u8> {
    seq![112u8, 114u8, 101u8, 115u8, 97u8, 108u8, 101u8]
}

/// The seed that prefixes every whitelist entry's derived address ("whitelist").
pub open spec fn whitelist_seed() -> Seq<u8> {
    seq![119u8, 104u8, 105u8, 116u8, 101u8, 108u8, 105u8, 115u8, 116u8]
}

fn presale_seed_bytes() -> (r: Vec<u8>)
    ensures
        r@ == presale_seed(),
{
    let r: Vec<u8> = vec![112u8, 114, 101, 115, 97, 108, 101];
    assert(r@ =~= presale_seed());
    r
}

fn whitelist_seed_bytes() -> (r: Vec<u8>)
    ensures
        r@ == whitelist_seed(),
{
    let r: Vec<u8> = vec![119u8, 104, 105, 116, 101, 108, 105, 115, 116];
    assert(r@ =~= whitelist_seed());
    r
}

/// A ledger account as the checks see it: its address, the program that
/// owns it, and its balance.
#[derive(Clone, Copy, Debug)]
pub struct AccountRef {
    pub key: Address,
    pub owner: Address,
    pub lamports: u64,
}

/// Who may end a sale at `now`: its owner always; the platform admin until
/// the grace window after `end_time` closes; the manager of a `Degen` sale
/// at any time.
pub open spec fn authorized_to_finalize(p: PresaleState, signer: Seq<u8>, now: i64) -> bool {
    ||| p.owner@ == signer
    ||| p.admin@ == signer && ADMIN_FINALIZATION_TIMEOUT + p.end_time > now
    ||| p.manager@ == signer && p.launchpad_type == LaunchpadType::Degen
}

/// Decides `authorized_to_finalize`.
pub fn is_authorized_to_finalize_presale(presale: &PresaleState, signer: &Address, now: i64) -> (r:
    bool)
    ensures
        r == authorized_to_finalize(*presale, signer@, now),
{
    if presale.owner.same_as(signer) {
        return true;
    }
    if presale.admin.same_as(signer) && (ADMIN_FINALIZATION_TIMEOUT as i128) + (
    presale.end_time as i128) > (now as i128) {
        return true;
    }
    presale.manager.same_as(signer) && presale.launchpad_type == LaunchpadType::Degen
}

/// The seeds of a sale's address: the prefix, the mint, the identifier.
pub open spec fn presale_seeds(token: Seq<u8>, identifier: Seq<u8>) -> Seq<Seq<u8>> {
    seq![presale_seed(), token, identifier]
}

/// The check that `presale_key` is the address derived for this sale and
/// `token_key`, and that the sale is of that mint; its bump when it is.
pub open spec fn presale_address_check(
    p: PresaleState,
    presale_key: Seq<u8>,
    token_key: Seq<u8>,
    program_id: Seq<u8>,
) -> Result<u8, PresaleError> {
    match program_address(presale_seeds(token_key, p.identifier@), program_id) {
        None => Err(PresaleError::UnableToCreateProgramAddress),
        Some((key, bump)) => if key != presale_key || p.token@ != token_key {
            Err(PresaleError::Invalid)
        } else {
            Ok(bump)
        },
    }
}

/// Checks `presale_address_check`.
pub fn validate_presale_pda(
    presale: &PresaleState,
    presale_key: &Address,
    presale_token_key: &Address,
    program_id: &Address,
) -> (r: Result<u8, PresaleError>)
    ensures
        r == presale_address_check(*presale, presale_key@, presale_token_key@, program_id@),
{
    let seeds: Vec<Vec<u8>> = vec![
        presale_seed_bytes(),
        presale_token_key.to_vec(),
        presale.identifier.clone(),
    ];
    assert(seeds_view(seeds@) =~= presale_seeds(presale_token_key@, presale.identifier@));
    match find_program_address(&seeds, program_id) {
        None => Err(PresaleError::UnableToCreateProgramAddress),
        Some((key, bump)) => {
            if !key.same_as(presale_key) || !presale.token.same_as(presale_token_key) {
                Err(PresaleError::Invalid)
            } else {
                Ok(bump)
            }
        },
    }
}

/// The seeds of a contributor's whitelist entry in a sale.
pub open spec fn whitelist_seeds(presale_key: Seq<u8>, user: Seq<u8>) -> Seq<Seq<u8>> {
    seq![whitelist_seed(), presale_key, user]
}

/// The check that `entry` is the live whitelist entry of `user` in the sale
/// at `presale_key`: at the derived address, owned by this program, funded.
pub open spec fn whitelist_check(
    entry: AccountRef,
    user: Seq<u8>,
    presale_key: Seq<u8>,
    program_id: Seq<u8>,
) -> Result<(), PresaleError> {
    match program_address(whitelist_seeds(presale_key, user), program_id) {
        None => Err(PresaleError::UnableToCreateProgramAddress),
        Some((key, _)) => if entry.key@ != key || entry.owner@ != program_id {
            Err(PresaleError::InvalidWhitelistEntry)
        } else if entry.lamports == 0 {
            Err(PresaleError::UninitializedWhitelistEntry)
        } else {
            Ok(())
        },
    }
}

/// Checks `whitelist_check`.
pub fn check_if_user_is_whitelisted(
    whitelist_entry: &AccountRef,
    user_key: &Address,
    presale_key: &Address,
    program_id: &Address,
) -> (r: Result<(), PresaleError>)
    ensures
        r == whitelist_check(*whitelist_entry, user_key@, presale_key@, program_id@),
{
    let seeds: Vec<Vec<u8>> = vec![whitelist_seed_bytes(), presale_key.to_vec(), user_key.to_vec()];
    assert(seeds_view(seeds@) =~= whitelist_seeds(presale_key@, user_key@));
    match find_program_address(&seeds, program_id) {
        None => Err(PresaleError::UnableToCreateProgramAddress),
        Some((key, _)) => {
            if !whitelist_entry.key.same_as(&key) || !whitelist_entry.owner.same_as(program_id) {
                Err(PresaleError::InvalidWhitelistEntry)
            } else if whitelist_entry.lamports == 0 {
                Err(PresaleError::UninitializedWhitelistEntry)
            } else {
                Ok(())
            }
        },
    }
}

} // verus!
