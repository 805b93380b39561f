//! The addresses of the runtime programs that the escrow programs call.
use vstd::prelude::*;

verus! {

/// The address of the system program: 32 zero bytes.
pub open spec fn spec_system_program_id() -> Seq<u8> {
    Seq::new(32, |i: int| 0u8)
}

/// The address of the SPL token program
/// (`TokenkegQfeZyiNwAJbNbGKPFXCWuBvf9Ss623VQ5DA`).
pub open spec fn spec_token_program_id() -> Seq<u8> {
    seq![
        6u8, 221, 246, 225, 215, 101, 161, 147, 217, 203, 225, 70, 206, 235, 121, 172,
        28, 180, 133, 237, 95, 91, 55, 145, 58, 140, 245, 133, 126, 255, 0, 169,
    ]
}

/// Reads `solana_program::system_program::ID`.
///
/// Claimed: its bytes are all zero, as the declaration of the id
/// (`11111111111111111111111111111111`) gives.
#[verifier::external_body]
pub(crate) fn system_program_id() -> (r: [u8; 32])
    ensures
        r@ == spec_system_program_id(),
{
    solana_program::system_program::ID.to_bytes()
}

/// Calls `spl_token::check_program_account`, the check that the token
/// instruction builders make of the program id they are given.
///
/// Claimed: the check passes exactly when the key is the token program's
/// address `spl_token::ID`, whose bytes `spec_token_program_id` spells out.
#[verifier::external_body]
pub(crate) fn is_token_program(key: &[u8; 32]) -> (r: bool)
    ensures
        r == (key@ == spec_token_program_id()),
{
    spl_token::check_program_account(&solana_program::pubkey::Pubkey::new_from_array(*key)).is_ok()
}

} // verus!
