use ephemeral_rollups::pda::token_escrow_seeds;
use ephemeral_rollups::state::TokenEscrow;
use ephemeral_rollups::wrapper::token_escrow_transfer::{checked_instruction, instruction, Args, DISCRIMINANT};
use ephemeral_rollups::wrapper::ID;

fn find_program_address(seeds: &[Vec<u8>], program_id: &[u8; 32]) -> Option<([u8; 32], u8)> {
    let slices: Vec<&[u8]> = seeds.iter().map(|s| s.as_slice()).collect();
    let (key, bump) = solana_program::pubkey::Pubkey::find_program_address(
        &slices,
        &solana_program::pubkey::Pubkey::new_from_array(*program_id),
    );
    Some((key.to_bytes(), bump))
}


#[test]
fn transfer_instruction_names_both_escrows() {
    let ix = instruction(&[1; 32], &[2; 32], &[3; 32], &[4; 32], 10, 20, 500);
    assert_eq!(ix.program_id, ID);
    assert_eq!(ix.accounts.len(), 3);
    let source = TokenEscrow::generate_pda(&[1; 32], &[3; 32], &[4; 32], 10, &ID);
    let destination = TokenEscrow::generate_pda(&[2; 32], &[3; 32], &[4; 32], 20, &ID);
    let (expected, _) = find_program_address(&token_escrow_seeds(&[1; 32], &[3; 32], &[4; 32], 10), &ID).unwrap();
    assert_eq!(source, expected);
    assert_eq!(ix.accounts[0].pubkey, [1; 32]);
    assert!(ix.accounts[0].is_signer && !ix.accounts[0].is_writable);
    assert_eq!(ix.accounts[1].pubkey, source);
    assert!(!ix.accounts[1].is_signer && ix.accounts[1].is_writable);
    assert_eq!(ix.accounts[2].pubkey, destination);
    assert!(!ix.accounts[2].is_signer && ix.accounts[2].is_writable);
    assert_ne!(source, destination);
}

#[test]
fn transfer_instruction_data_reads_back() {
    let ix = instruction(&[1; 32], &[2; 32], &[3; 32], &[4; 32], 10, 20, 500);
    assert_eq!(ix.data.len(), 128);
    assert_eq!(ix.data[..8], DISCRIMINANT);
    let args = Args::try_from_slice(&ix.data[8..]).unwrap();
    assert_eq!(args.validator, [3; 32]);
    assert_eq!(args.token_mint, [4; 32]);
    assert_eq!(args.destination_authority, [2; 32]);
    assert_eq!(args.source_slot, 10);
    assert_eq!(args.destination_slot, 20);
    assert_eq!(args.amount, 500);
}

#[test]
fn checked_transfer_instruction_agrees() {
    let ix = checked_instruction(&[1; 32], &[2; 32], &[3; 32], &[4; 32], 10, 20, 500).unwrap();
    let plain = instruction(&[1; 32], &[2; 32], &[3; 32], &[4; 32], 10, 20, 500);
    assert_eq!(ix.data, plain.data);
    assert_eq!(ix.accounts[1].pubkey, plain.accounts[1].pubkey);
    assert_eq!(ix.accounts[2].pubkey, plain.accounts[2].pubkey);
}
