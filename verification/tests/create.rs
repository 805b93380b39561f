use ephemeral_rollups::account::AccountState;
use ephemeral_rollups::bridge;
use ephemeral_rollups::cpi::{Invocation, Step};
use ephemeral_rollups::error::{BorshError, ProgramError};
use ephemeral_rollups::pda::token_escrow_seeds;
use ephemeral_rollups::state::TokenEscrow;
use ephemeral_rollups::wrapper;
use ephemeral_rollups::wrapper::token_escrow_create::{process, Args};

fn find_program_address(seeds: &[Vec<u8>], program_id: &[u8; 32]) -> Option<([u8; 32], u8)> {
    let slices: Vec<&[u8]> = seeds.iter().map(|s| s.as_slice()).collect();
    let (key, bump) = solana_program::pubkey::Pubkey::find_program_address(
        &slices,
        &solana_program::pubkey::Pubkey::new_from_array(*program_id),
    );
    Some((key.to_bytes(), bump))
}


const PROGRAM: [u8; 32] = [7; 32];
const PAYER: [u8; 32] = [1; 32];

fn account(key: [u8; 32], owner: [u8; 32], lamports: u64, is_signer: bool) -> AccountState {
    AccountState { key, owner, lamports, is_signer, data: Vec::new() }
}

fn args() -> Vec<u8> {
    let mut out = Vec::new();
    Args { authority: [2; 32], validator: [3; 32], token_mint: [4; 32], slot: 42 }
        .serialize(&mut out);
    out
}

fn escrow_key() -> ([u8; 32], u8) {
    find_program_address(&token_escrow_seeds(&[2; 32], &[3; 32], &[4; 32], 42), &PROGRAM).unwrap()
}

fn accounts(escrow_lamports: u64) -> Vec<AccountState> {
    vec![
        account(PAYER, [0; 32], 1_000_000, true),
        account(escrow_key().0, [0; 32], escrow_lamports, false),
        account([0; 32], [9; 32], 1, false),
    ]
}

#[test]
fn create_funds_allocates_assigns_and_writes_an_empty_record() {
    let steps = process(&PROGRAM, &accounts(0), &args(), Ok(1_002_240)).unwrap();
    assert_eq!(steps.len(), 4);
    let (escrow, bump) = escrow_key();
    let mut signer = token_escrow_seeds(&[2; 32], &[3; 32], &[4; 32], 42);
    signer.push(vec![bump]);
    match &steps[0] {
        Step::Invoke(Invocation::SystemTransfer { from, to, lamports, system_program }) => {
            assert_eq!(*from, PAYER);
            assert_eq!(*to, escrow);
            assert_eq!(*lamports, 1_002_240);
            assert_eq!(*system_program, [0; 32]);
        }
        _ => panic!("expected a transfer"),
    }
    match &steps[1] {
        Step::Invoke(Invocation::SystemAllocate { account, space, signer_seeds, .. }) => {
            assert_eq!(*account, escrow);
            assert_eq!(*space, 16);
            assert_eq!(*signer_seeds, signer);
        }
        _ => panic!("expected an allocate"),
    }
    match &steps[2] {
        Step::Invoke(Invocation::SystemAssign { account, owner, signer_seeds, .. }) => {
            assert_eq!(*account, escrow);
            assert_eq!(*owner, PROGRAM);
            assert_eq!(*signer_seeds, signer);
        }
        _ => panic!("expected an assign"),
    }
    match &steps[3] {
        Step::WriteData { account, bytes } => {
            assert_eq!(*account, escrow);
            let record = TokenEscrow::try_from_slice(bytes).unwrap();
            assert_eq!(record.discriminant, TokenEscrow::discriminant());
            assert_eq!(record.amount, 0);
        }
        _ => panic!("expected a data write"),
    }
}

#[test]
fn create_tops_up_a_partly_funded_account_and_skips_a_funded_one() {
    let steps = process(&PROGRAM, &accounts(2_240), &args(), Ok(1_002_240)).unwrap();
    match &steps[0] {
        Step::Invoke(Invocation::SystemTransfer { lamports, .. }) => assert_eq!(*lamports, 1_000_000),
        _ => panic!("expected a transfer"),
    }
    let steps = process(&PROGRAM, &accounts(1_002_240), &args(), Ok(1_002_240)).unwrap();
    assert_eq!(steps.len(), 3);
    assert!(matches!(steps[0], Step::Invoke(Invocation::SystemAllocate { .. })));
    let steps = process(&PROGRAM, &accounts(5_000_000), &args(), Ok(1_002_240)).unwrap();
    assert_eq!(steps.len(), 3);
}

#[test]
fn create_errors() {
    let rent = Ok(1_002_240);
    assert_eq!(
        process(&PROGRAM, &accounts(0)[..2], &args(), rent).unwrap_err(),
        ProgramError::NotEnoughAccountKeys
    );
    assert_eq!(
        process(&PROGRAM, &accounts(0), &args()[..100], rent).unwrap_err(),
        ProgramError::BorshIoError(BorshError::UnexpectedLengthOfInput)
    );
    let mut wrong_system = accounts(0);
    wrong_system[2].key = [5; 32];
    assert_eq!(process(&PROGRAM, &wrong_system, &args(), rent).unwrap_err(), ProgramError::IncorrectProgramId);
    let mut unsigned = accounts(0);
    unsigned[0].is_signer = false;
    assert_eq!(process(&PROGRAM, &unsigned, &args(), rent).unwrap_err(), ProgramError::MissingRequiredSignature);
    let mut taken = accounts(0);
    taken[1].owner = PROGRAM;
    assert_eq!(process(&PROGRAM, &taken, &args(), rent).unwrap_err(), ProgramError::InvalidAccountOwner);
    let mut elsewhere = accounts(0);
    elsewhere[1].key = [6; 32];
    assert_eq!(process(&PROGRAM, &elsewhere, &args(), rent).unwrap_err(), ProgramError::InvalidSeeds);
    assert_eq!(
        process(&PROGRAM, &accounts(0), &args(), Err(ProgramError::Runtime(17))).unwrap_err(),
        ProgramError::Runtime(17)
    );
    // A failing check comes before the rent sysvar is consulted.
    assert_eq!(
        process(&PROGRAM, &unsigned, &args(), Err(ProgramError::Runtime(17))).unwrap_err(),
        ProgramError::MissingRequiredSignature
    );
}

#[test]
fn wrapper_create_pda_signs_with_seeds_and_bump() {
    let payer = account(PAYER, [0; 32], 10, true);
    let pda = account([5; 32], [0; 32], 40, false);
    let system = account([0; 32], [9; 32], 1, false);
    let seeds = vec![b"x".to_vec()];
    let steps = wrapper::create::create_pda(&payer, &pda, &seeds, 3, 64, &[8; 32], &system, Ok(100)).unwrap();
    assert_eq!(steps.len(), 3);
    match &steps[0] {
        Step::Invoke(Invocation::SystemTransfer { lamports, .. }) => assert_eq!(*lamports, 60),
        _ => panic!("expected a transfer"),
    }
    match &steps[1] {
        Step::Invoke(Invocation::SystemAllocate { space, signer_seeds, .. }) => {
            assert_eq!(*space, 64);
            assert_eq!(*signer_seeds, vec![b"x".to_vec(), vec![3]]);
        }
        _ => panic!("expected an allocate"),
    }
    assert!(wrapper::create::create_pda(&payer, &pda, &seeds, 3, 64, &[8; 32], &system, Err(ProgramError::Runtime(2))).is_err());
}

#[test]
fn bridge_create_pda_signs_with_given_seeds() {
    let payer = account(PAYER, [0; 32], 10, true);
    let pda = account([5; 32], [0; 32], 100, false);
    let system = account([0; 32], [9; 32], 1, false);
    let seeds = vec![b"x".to_vec(), vec![3]];
    let steps = bridge::create::create_pda(&payer, &pda, &seeds, 0, &[8; 32], &system, Ok(100)).unwrap();
    assert_eq!(steps.len(), 2);
    match &steps[1] {
        Step::Invoke(Invocation::SystemAssign { account, owner, signer_seeds, .. }) => {
            assert_eq!(*account, [5; 32]);
            assert_eq!(*owner, [8; 32]);
            assert_eq!(*signer_seeds, seeds);
        }
        _ => panic!("expected an assign"),
    }
}
