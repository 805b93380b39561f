//! Creating an account at a program derived address, as the wrapper does it:
//! the caller hands in the seeds and the bump separately.
use vstd::prelude::*;
use crate::account::AccountState;
use crate::cpi::{create_pda_steps, spec_create_pda_steps, spec_steps_outcome, Step};
use crate::error::ProgramError;
use crate::pda::{signer_seeds, spec_signer_seeds};

verus! {

/// The steps that turn `pda` into a rent-exempt account of `data_len` bytes
/// owned by `owner`, `pda_seeds` followed by `pda_bump` signing for it.
///
/// `rent_minimum_balance` is what the rent sysvar gives as the minimum
/// balance of an account of `data_len` bytes, or the error that reading the
/// sysvar gave; that error is returned as it is.
pub fn create_pda(
    payer: &AccountState,
    pda: &AccountState,
    pda_seeds: &Vec<Vec<u8>>,
    pda_bump: u8,
    data_len: usize,
    owner: &[u8; 32],
    system_program: &AccountState,
    rent_minimum_balance: Result<u64, ProgramError>,
) -> (r: Result<Vec<Step>, ProgramError>)
    ensures
        spec_steps_outcome(r) == match rent_minimum_balance {
            Err(e) => Err(e),
            Ok(minimum_balance) => Ok(
                spec_create_pda_steps(
                    payer.key@,
                    pda.key@,
                    pda.lamports,
                    spec_signer_seeds(pda_seeds.deep_view(), pda_bump),
                    data_len as u64,
                    owner@,
                    system_program.key@,
                    minimum_balance,
                ),
            ),
        },
{
    let pda_signer_seeds = signer_seeds(pda_seeds, pda_bump);
    let minimum_balance = rent_minimum_balance?;
    let space: u64 = data_len as u64;
    Ok(
        create_pda_steps(
            payer,
            pda,
            &pda_signer_seeds,
            space,
            owner,
            system_program,
            minimum_balance,
        ),
    )
}

} // verus!
