//! A snapshot of the accounts handed to an instruction, and the checks the
//! processors run on them.
use vstd::prelude::*;
use crate::codec::keys_equal;
use crate::error::ProgramError;

verus! {

/// What a processor reads of one account passed to its instruction.
#[derive(Debug)]
pub struct AccountState {
    /// The account's address.
    pub key: [u8; 32],
    /// The program that owns the account.
    pub owner: [u8; 32],
    /// The account's balance.
    pub lamports: u64,
    /// Whether the transaction carries the account's signature.
    pub is_signer: bool,
    /// The account's data.
    pub data: Vec<u8>,
}

/// Fails with `MissingRequiredSignature` unless the account signed.
pub fn ensure_is_signer(account: &AccountState) -> (r: Result<(), ProgramError>)
    ensures
        r == (if account.is_signer {
            Ok::<(), ProgramError>(())
        } else {
            Err(ProgramError::MissingRequiredSignature)
        }),
{
    if !account.is_signer {
        return Err(ProgramError::MissingRequiredSignature);
    }
    Ok(())
}

/// Fails with `InvalidAccountOwner` unless `program_id` owns the account.
pub fn ensure_is_owned_by_program(account: &AccountState, program_id: &[u8; 32]) -> (r: Result<
    (),
    ProgramError,
>)
    ensures
        r == (if account.owner@ == program_id@ {
            Ok::<(), ProgramError>(())
        } else {
            Err(ProgramError::InvalidAccountOwner)
        }),
{
    if !keys_equal(&account.owner, program_id) {
        return Err(ProgramError::InvalidAccountOwner);
    }
    Ok(())
}

/// Fails with `IncorrectProgramId` unless the account's address is `program_id`.
pub fn ensure_is_program_id(account: &AccountState, program_id: &[u8; 32]) -> (r: Result<
    (),
    ProgramError,
>)
    ensures
        r == (if account.key@ == program_id@ {
            Ok::<(), ProgramError>(())
        } else {
            Err(ProgramError::IncorrectProgramId)
        }),
{
    if !keys_equal(&account.key, program_id) {
        return Err(ProgramError::IncorrectProgramId);
    }
    Ok(())
}

} // verus!
