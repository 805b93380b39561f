use ephemeral_rollups::account::{
    ensure_is_owned_by_program, ensure_is_program_id, ensure_is_signer, AccountState,
};
use ephemeral_rollups::error::ProgramError;
use ephemeral_rollups::pda::{ensure_is_pda, signer_seeds, token_escrow_seeds, token_vault_seeds};
use ephemeral_rollups::state::TokenEscrow;
use solana_program::pubkey::Pubkey;

fn account(key: [u8; 32]) -> AccountState {
    AccountState { key, owner: [0; 32], lamports: 0, is_signer: false, data: Vec::new() }
}

#[test]
fn escrow_seeds_layout() {
    let seeds = token_escrow_seeds(&[1; 32], &[2; 32], &[3; 32], 42);
    assert_eq!(seeds.len(), 5);
    assert_eq!(seeds[0], b"token_escrow".to_vec());
    assert_eq!(seeds[1], vec![1; 32]);
    assert_eq!(seeds[2], vec![2; 32]);
    assert_eq!(seeds[3], vec![3; 32]);
    assert_eq!(seeds[4], 42u64.to_le_bytes().to_vec());
    let vault = token_vault_seeds(&[2; 32], &[3; 32]);
    assert_eq!(vault, vec![b"token_vault".to_vec(), vec![2; 32], vec![3; 32]]);
}

#[test]
fn signer_seeds_append_the_bump() {
    let seeds = vec![b"abc".to_vec(), vec![9, 9]];
    let signer = signer_seeds(&seeds, 254);
    assert_eq!(signer, vec![b"abc".to_vec(), vec![9, 9], vec![254]]);
    assert_eq!(signer_seeds(&Vec::new(), 0), vec![vec![0u8]]);
}

#[test]
fn escrow_address_matches_the_runtime() {
    let program_id = [7u8; 32];
    let seeds = token_escrow_seeds(&[1; 32], &[2; 32], &[3; 32], 42);
    let slices: Vec<&[u8]> = seeds.iter().map(|s| s.as_slice()).collect();
    let (expected, expected_bump) =
        Pubkey::find_program_address(&slices, &Pubkey::new_from_array(program_id));
    let generated = TokenEscrow::generate_pda(&[1; 32], &[2; 32], &[3; 32], 42, &program_id);
    assert_eq!(generated, expected.to_bytes());
    assert_ne!(generated, program_id);
    assert_eq!(ensure_is_pda(&account(generated), &seeds, &program_id), Ok(expected_bump));
    let other = TokenEscrow::generate_pda(&[1; 32], &[2; 32], &[3; 32], 43, &program_id);
    assert_ne!(other, generated);
    let other_program = TokenEscrow::generate_pda(&[1; 32], &[2; 32], &[3; 32], 42, &[8; 32]);
    assert_ne!(other_program, generated);
}

#[test]
fn oversized_seeds_have_no_address() {
    let seeds = vec![vec![0u8; 33]];
    assert!(matches!(
        ensure_is_pda(&account([0; 32]), &seeds, &[7; 32]),
        Err(ProgramError::InvalidSeeds)
    ));
}

#[test]
fn ensure_is_pda_checks_the_address() {
    let program_id = [7u8; 32];
    let seeds = token_vault_seeds(&[2; 32], &[3; 32]);
    let slices: Vec<&[u8]> = seeds.iter().map(|s| s.as_slice()).collect();
    let (key, bump) = Pubkey::find_program_address(&slices, &Pubkey::new_from_array(program_id));
    assert_eq!(ensure_is_pda(&account(key.to_bytes()), &seeds, &program_id), Ok(bump));
    assert_eq!(
        ensure_is_pda(&account([5; 32]), &seeds, &program_id),
        Err(ProgramError::InvalidSeeds)
    );
}

#[test]
fn account_checks() {
    let mut a = account([1; 32]);
    assert_eq!(ensure_is_signer(&a), Err(ProgramError::MissingRequiredSignature));
    a.is_signer = true;
    assert_eq!(ensure_is_signer(&a), Ok(()));
    assert_eq!(ensure_is_owned_by_program(&a, &[0; 32]), Ok(()));
    assert_eq!(
        ensure_is_owned_by_program(&a, &[1; 32]),
        Err(ProgramError::InvalidAccountOwner)
    );
    assert_eq!(ensure_is_program_id(&a, &[1; 32]), Ok(()));
    assert_eq!(ensure_is_program_id(&a, &[0; 32]), Err(ProgramError::IncorrectProgramId));
}

#[test]
fn system_program_address_bytes() {
    assert_eq!(solana_program::system_program::ID.to_bytes(), [0; 32]);
}

#[test]
fn token_program_address_bytes() {
    assert_eq!(
        spl_token::ID.to_bytes(),
        [
            6, 221, 246, 225, 215, 101, 161, 147, 217, 203, 225, 70, 206, 235, 121, 172, 28, 180,
            133, 237, 95, 91, 55, 145, 58, 140, 245, 133, 126, 255, 0, 169
        ]
    );
}
