use ephemeral_rollups::account::AccountState;
use ephemeral_rollups::bridge::token_escrow_withdraw::{checked_process, process, Args};
use ephemeral_rollups::cpi::{Invocation, Step};
use ephemeral_rollups::error::{BorshError, ProgramError};
use ephemeral_rollups::run::{next_action, write_over, Action};
use ephemeral_rollups::pda::{token_escrow_seeds, token_vault_seeds};
use ephemeral_rollups::state::TokenEscrow;

fn find_program_address(seeds: &[Vec<u8>], program_id: &[u8; 32]) -> Option<([u8; 32], u8)> {
    let slices: Vec<&[u8]> = seeds.iter().map(|s| s.as_slice()).collect();
    let (key, bump) = solana_program::pubkey::Pubkey::find_program_address(
        &slices,
        &solana_program::pubkey::Pubkey::new_from_array(*program_id),
    );
    Some((key.to_bytes(), bump))
}


const PROGRAM: [u8; 32] = [7; 32];
const AUTHORITY: [u8; 32] = [1; 32];
const DESTINATION: [u8; 32] = [8; 32];
const VALIDATOR: [u8; 32] = [2; 32];
const MINT: [u8; 32] = [3; 32];

fn token_program() -> [u8; 32] {
    spl_token::ID.to_bytes()
}

fn account(key: [u8; 32], owner: [u8; 32], is_signer: bool, data: Vec<u8>) -> AccountState {
    AccountState { key, owner, lamports: 1_000, is_signer, data }
}

fn escrow_bytes(discriminant: [u8; 8], amount: u64) -> Vec<u8> {
    let mut out = Vec::new();
    TokenEscrow { discriminant, amount }.serialize(&mut out);
    out
}

fn args(index: u64, amount: u64) -> Vec<u8> {
    let mut out = Vec::new();
    Args { index, amount }.serialize(&mut out);
    out
}

/// Accounts for a withdraw from escrow `index` that holds `held` tokens.
fn accounts(index: u64, held: u64) -> Vec<AccountState> {
    let escrow_seeds = token_escrow_seeds(&AUTHORITY, &VALIDATOR, &MINT, index);
    let (escrow, _) = find_program_address(&escrow_seeds, &PROGRAM).unwrap();
    let (vault, _) = find_program_address(&token_vault_seeds(&VALIDATOR, &MINT), &PROGRAM).unwrap();
    vec![
        account(AUTHORITY, [0; 32], true, Vec::new()),
        account(DESTINATION, token_program(), false, Vec::new()),
        account(VALIDATOR, [0; 32], false, Vec::new()),
        account(MINT, token_program(), false, Vec::new()),
        account(escrow, PROGRAM, false, escrow_bytes(TokenEscrow::discriminant(), held)),
        account(vault, token_program(), false, Vec::new()),
        account(token_program(), [9; 32], false, Vec::new()),
    ]
}

#[test]
fn withdraw_writes_the_lowered_amount_then_transfers() {
    let accounts = accounts(42, 1_000);
    let steps = process(&PROGRAM, &accounts, &args(42, 300)).unwrap();
    assert_eq!(steps.len(), 2);
    match &steps[0] {
        Step::WriteData { account, bytes } => {
            assert_eq!(*account, accounts[4].key);
            assert_eq!(*bytes, escrow_bytes(TokenEscrow::discriminant(), 700));
        }
        _ => panic!("expected a data write first"),
    }
    let vault_seeds = token_vault_seeds(&VALIDATOR, &MINT);
    let (vault, bump) = find_program_address(&vault_seeds, &PROGRAM).unwrap();
    match &steps[1] {
        Step::Invoke(Invocation::TokenTransfer {
            token_program: program,
            source,
            destination,
            authority,
            amount,
            signer_seeds,
        }) => {
            assert_eq!(*program, token_program());
            assert_eq!(*source, vault);
            assert_eq!(*destination, DESTINATION);
            assert_eq!(*authority, vault);
            assert_eq!(*amount, 300);
            let mut expected = vault_seeds.clone();
            expected.push(vec![bump]);
            assert_eq!(*signer_seeds, expected);
        }
        _ => panic!("expected a token transfer"),
    }
}

#[test]
fn withdraw_everything_and_nothing() {
    let accounts = accounts(0, 500);
    let steps = process(&PROGRAM, &accounts, &args(0, 500)).unwrap();
    match &steps[0] {
        Step::WriteData { bytes, .. } => {
            assert_eq!(TokenEscrow::try_from_slice(bytes).unwrap().amount, 0)
        }
        _ => panic!("expected a data write"),
    }
    let steps = process(&PROGRAM, &accounts, &args(0, 0)).unwrap();
    match &steps[0] {
        Step::WriteData { bytes, .. } => assert_eq!(*bytes, accounts[4].data),
        _ => panic!("expected a data write"),
    }
}

#[test]
fn withdraw_of_more_than_held_aborts() {
    let accounts = accounts(42, 100);
    assert!(checked_process(&PROGRAM, &accounts, &args(42, 101)).is_none());
    assert!(checked_process(&PROGRAM, &accounts, &args(42, 100)).unwrap().is_ok());
}

#[test]
fn empty_escrow_cannot_be_withdrawn_from() {
    let accounts = accounts(5, 0);
    assert!(checked_process(&PROGRAM, &accounts, &args(5, 1)).is_none());
}

#[test]
fn withdraw_errors() {
    let good = accounts(42, 1_000);
    let data = args(42, 10);

    assert_eq!(process(&PROGRAM, &good[..6], &data).unwrap_err(), ProgramError::NotEnoughAccountKeys);
    let mut more = accounts(42, 1_000);
    more.push(account([0; 32], [0; 32], false, Vec::new()));
    assert_eq!(process(&PROGRAM, &more, &data).unwrap_err(), ProgramError::NotEnoughAccountKeys);

    assert_eq!(
        process(&PROGRAM, &good, &data[..15]).unwrap_err(),
        ProgramError::BorshIoError(BorshError::UnexpectedLengthOfInput)
    );

    let mut unsigned = accounts(42, 1_000);
    unsigned[0].is_signer = false;
    assert_eq!(process(&PROGRAM, &unsigned, &data).unwrap_err(), ProgramError::MissingRequiredSignature);

    let mut foreign_escrow = accounts(42, 1_000);
    foreign_escrow[4].owner = [0; 32];
    assert_eq!(process(&PROGRAM, &foreign_escrow, &data).unwrap_err(), ProgramError::InvalidAccountOwner);

    let mut foreign_vault = accounts(42, 1_000);
    foreign_vault[5].owner = [0; 32];
    assert_eq!(process(&PROGRAM, &foreign_vault, &data).unwrap_err(), ProgramError::InvalidAccountOwner);

    assert_eq!(process(&PROGRAM, &good, &args(43, 10)).unwrap_err(), ProgramError::InvalidSeeds);

    let mut wrong_vault = accounts(42, 1_000);
    wrong_vault[5].key = [4; 32];
    assert_eq!(process(&PROGRAM, &wrong_vault, &data).unwrap_err(), ProgramError::InvalidSeeds);

    let mut short_record = accounts(42, 1_000);
    short_record[4].data.pop();
    assert_eq!(
        process(&PROGRAM, &short_record, &data).unwrap_err(),
        ProgramError::BorshIoError(BorshError::UnexpectedLengthOfInput)
    );

    let mut wrong_tag = accounts(42, 1_000);
    wrong_tag[4].data = escrow_bytes(*b"NOTESCRW", 1_000);
    assert_eq!(process(&PROGRAM, &wrong_tag, &data).unwrap_err(), ProgramError::InvalidAccountData);

}

#[test]
fn wrong_token_program_is_refused_after_the_record_is_written() {
    let mut accounts = accounts(42, 1_000);
    accounts[6].key = [9; 32];
    accounts[5].owner = [9; 32];
    let steps = process(&PROGRAM, &accounts, &args(42, 10)).unwrap();
    assert_eq!(steps.len(), 2);
    assert!(matches!(next_action(&steps, 0, Ok(())), Action::Perform(0)));
    assert!(matches!(
        next_action(&steps, 1, Ok(())),
        Action::Finish(Err(ProgramError::IncorrectProgramId))
    ));
    let good = accounts_for_run();
    let steps = process(&PROGRAM, &good, &args(42, 10)).unwrap();
    assert!(matches!(next_action(&steps, 1, Ok(())), Action::Perform(1)));
    assert!(matches!(next_action(&steps, 2, Ok(())), Action::Finish(Ok(()))));
    assert!(matches!(
        next_action(&steps, 1, Err(ProgramError::Runtime(5))),
        Action::Finish(Err(ProgramError::Runtime(5)))
    ));
}

fn accounts_for_run() -> Vec<AccountState> {
    accounts(42, 1_000)
}

/// Carries out the data writes of `steps` on `accounts`, the calls all
/// succeeding.
fn carry_out(accounts: &mut [AccountState], steps: &Vec<Step>) {
    let mut carried_out = 0;
    let mut last = Ok(());
    loop {
        match next_action(steps, carried_out, last) {
            Action::Finish(r) => {
                assert!(r.is_ok());
                return;
            }
            Action::Perform(i) => {
                if let Step::WriteData { account, bytes } = &steps[i] {
                    let target = accounts.iter_mut().find(|a| a.key == *account).unwrap();
                    let (written, result) = write_over(&target.data, bytes);
                    target.data = written;
                    last = result;
                } else {
                    last = Ok(());
                }
                carried_out = i + 1;
            }
        }
    }
}

fn held(accounts: &[AccountState]) -> u64 {
    TokenEscrow::try_from_slice(&accounts[4].data).unwrap().amount
}

#[test]
fn successive_withdrawals_use_up_the_escrow() {
    let mut accounts = accounts(7, 10);
    for (amount, left) in [(2, 8), (8, 0), (0, 0)] {
        let steps = process(&PROGRAM, &accounts, &args(7, amount)).unwrap();
        carry_out(&mut accounts, &steps);
        assert_eq!(held(&accounts), left);
    }
    assert!(checked_process(&PROGRAM, &accounts, &args(7, 1)).is_none());
    assert!(checked_process(&PROGRAM, &accounts, &args(7, 0)).unwrap().is_ok());
}

#[test]
fn write_over_keeps_the_length() {
    let (data, result) = write_over(&[1, 2, 3, 4], &[9, 9]);
    assert_eq!(data, vec![9, 9, 3, 4]);
    assert!(result.is_ok());
    let (data, result) = write_over(&[1, 2], &[7, 8, 9]);
    assert_eq!(data, vec![7, 8]);
    assert_eq!(result, Err(ProgramError::BorshIoError(BorshError::FailedToWriteWholeBuffer)));
}
