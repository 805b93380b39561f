//! Program derived addresses: the seeds of the escrow and vault accounts,
//! the address search, and the check that an account sits at its address.
use vstd::prelude::*;
use crate::account::AccountState;
use crate::codec::{key_to_vec, keys_equal, spec_u64_le, write_u64_le};
use crate::error::ProgramError;

verus! {

broadcast use crate::codec::lemma_bytes_deep_view;

/// The address and bump seed that the runtime's search finds for `seeds`
/// under `program_id`, or `None` when no bump seed gives a valid address.
pub uninterp spec fn spec_find_program_address(seeds: Seq<Seq<u8>>, program_id: Seq<u8>) -> Option<(Seq<u8>, u8)>;

/// Calls `Pubkey::try_find_program_address` of `solana_program`.
///
/// Claimed: the result is the value of `spec_find_program_address` on the
/// seeds and the program id, a function of those bytes alone (the search
/// hashes them and tries bump seeds from 255 down).
#[verifier::external_body]
pub(crate) fn find_program_address(seeds: &Vec<Vec<u8>>, program_id: &[u8; 32]) -> (r: Option<([u8; 32], u8)>)
    ensures
        match r {
            Some((key, bump)) => spec_find_program_address(seeds.deep_view(), program_id@) == Some((key@, bump)),
            None => spec_find_program_address(seeds.deep_view(), program_id@) is None,
        },
{
    let slices: Vec<&[u8]> = seeds.iter().map(|s| s.as_slice()).collect();
    let program = solana_program::pubkey::Pubkey::new_from_array(*program_id);
    match solana_program::pubkey::Pubkey::try_find_program_address(&slices, &program) {
        Some((key, bump)) => Some((key.to_bytes(), bump)),
        None => None,
    }
}

/// The bytes `token_escrow` that open the seeds of an escrow account.
pub open spec fn spec_token_escrow_prefix() -> Seq<u8> {
    seq![116u8, 111, 107, 101, 110, 95, 101, 115, 99, 114, 111, 119]
}

/// The bytes `token_vault` that open the seeds of a vault account.
pub open spec fn spec_token_vault_prefix() -> Seq<u8> {
    seq![116u8, 111, 107, 101, 110, 95, 118, 97, 117, 108, 116]
}

/// The seeds of the escrow that `authority` holds with `validator` for
/// `token_mint` under number `slot`.
pub open spec fn spec_token_escrow_seeds(
    authority: Seq<u8>,
    validator: Seq<u8>,
    token_mint: Seq<u8>,
    slot: u64,
) -> Seq<Seq<u8>> {
    seq![spec_token_escrow_prefix(), authority, validator, token_mint, spec_u64_le(slot)]
}

/// The seeds of the vault that holds the tokens of `token_mint` escrowed
/// with `validator`.
pub open spec fn spec_token_vault_seeds(validator: Seq<u8>, token_mint: Seq<u8>) -> Seq<Seq<u8>> {
    seq![spec_token_vault_prefix(), validator, token_mint]
}

/// `seeds` followed by the one-byte seed `bump`: what signs for the address.
pub open spec fn spec_signer_seeds(seeds: Seq<Seq<u8>>, bump: u8) -> Seq<Seq<u8>> {
    seeds.push(seq![bump])
}

fn token_escrow_prefix() -> (r: Vec<u8>)
    ensures
        r@ == spec_token_escrow_prefix(),
{
    let r: Vec<u8> = vec![116u8, 111, 107, 101, 110, 95, 101, 115, 99, 114, 111, 119];
    assert(r@ =~= spec_token_escrow_prefix());
    r
}

fn token_vault_prefix() -> (r: Vec<u8>)
    ensures
        r@ == spec_token_vault_prefix(),
{
    let r: Vec<u8> = vec![116u8, 111, 107, 101, 110, 95, 118, 97, 117, 108, 116];
    assert(r@ =~= spec_token_vault_prefix());
    r
}

/// The seeds of an escrow account.
pub fn token_escrow_seeds(
    authority: &[u8; 32],
    validator: &[u8; 32],
    token_mint: &[u8; 32],
    slot: u64,
) -> (r: Vec<Vec<u8>>)
    ensures
        r.deep_view() == spec_token_escrow_seeds(authority@, validator@, token_mint@, slot),
{
    let mut slot_bytes: Vec<u8> = Vec::new();
    write_u64_le(&mut slot_bytes, slot);
    let mut r: Vec<Vec<u8>> = Vec::new();
    r.push(token_escrow_prefix());
    r.push(key_to_vec(authority));
    r.push(key_to_vec(validator));
    r.push(key_to_vec(token_mint));
    r.push(slot_bytes);
    assert(slot_bytes@ =~= spec_u64_le(slot));
    assert(r.deep_view() =~= spec_token_escrow_seeds(authority@, validator@, token_mint@, slot));
    r
}

/// The seeds of a vault account.
pub fn token_vault_seeds(validator: &[u8; 32], token_mint: &[u8; 32]) -> (r: Vec<Vec<u8>>)
    ensures
        r.deep_view() == spec_token_vault_seeds(validator@, token_mint@),
{
    let mut r: Vec<Vec<u8>> = Vec::new();
    r.push(token_vault_prefix());
    r.push(key_to_vec(validator));
    r.push(key_to_vec(token_mint));
    assert(r.deep_view() =~= spec_token_vault_seeds(validator@, token_mint@));
    r
}

/// A copy of a list of seeds.
pub fn clone_seeds(seeds: &Vec<Vec<u8>>) -> (r: Vec<Vec<u8>>)
    ensures
        r.deep_view() == seeds.deep_view(),
{
    let mut r: Vec<Vec<u8>> = Vec::new();
    let mut i: usize = 0;
    while i < seeds.len()
        invariant
            i <= seeds.len(),
            r@.len() == i,
            forall|j: int| 0 <= j < i ==> #[trigger] r@[j]@ == seeds@[j]@,
        decreases seeds.len() - i,
    {
        let seed = seeds[i].clone();
        assert(seed@ =~= seeds[i as int]@);
        r.push(seed);
        i = i + 1;
    }
    assert(r.deep_view() =~= seeds.deep_view()) by {
        assert forall|j: int| 0 <= j < seeds@.len() implies r.deep_view()[j] == seeds.deep_view()[j] by {
            assert(r@[j]@ == seeds@[j]@);
        }
    }
    r
}

/// The seeds that sign for a derived address: `seeds` and then the bump.
pub fn signer_seeds(seeds: &Vec<Vec<u8>>, bump: u8) -> (r: Vec<Vec<u8>>)
    ensures
        r.deep_view() == spec_signer_seeds(seeds.deep_view(), bump),
{
    let mut r = clone_seeds(seeds);
    let bump_seed: Vec<u8> = vec![bump];
    let ghost before = r.deep_view();
    r.push(bump_seed);
    assert(r.deep_view() =~= before.push(seq![bump])) by {
        assert forall|j: int| 0 <= j < before.len() implies r.deep_view()[j] == before[j] by {}
        assert(r@[before.len() as int]@ =~= seq![bump]);
    }
    r
}

/// What checking that `key` is the address of `seeds` under `program_id`
/// gives: the bump seed, or `InvalidSeeds`.
pub open spec fn spec_ensure_is_pda(key: Seq<u8>, seeds: Seq<Seq<u8>>, program_id: Seq<u8>) -> Result<u8, ProgramError> {
    match spec_find_program_address(seeds, program_id) {
        Some((address, bump)) => if address == key {
            Ok(bump)
        } else {
            Err(ProgramError::InvalidSeeds)
        },
        None => Err(ProgramError::InvalidSeeds),
    }
}

/// Fails with `InvalidSeeds` unless the account sits at the address derived
/// from `seeds` under `program_id`; returns the bump seed of that address.
pub fn ensure_is_pda(account: &AccountState, seeds: &Vec<Vec<u8>>, program_id: &[u8; 32]) -> (r: Result<u8, ProgramError>)
    ensures
        r == spec_ensure_is_pda(account.key@, seeds.deep_view(), program_id@),
{
    match find_program_address(seeds, program_id) {
        Some((address, bump)) => {
            if keys_equal(&address, &account.key) {
                Ok(bump)
            } else {
                Err(ProgramError::InvalidSeeds)
            }
        },
        None => Err(ProgramError::InvalidSeeds),
    }
}


/// The seeds of an escrow are the bytes `token_escrow`, then the authority,
/// the validator and the token mint, each byte for byte, then the base-256
/// digits of the slot, least significant first.
pub proof fn lemma_token_escrow_seeds_layout(authority: Seq<u8>, validator: Seq<u8>, token_mint: Seq<u8>, slot: u64)
    ensures
        spec_token_escrow_seeds(authority, validator, token_mint, slot).len() == 5,
        spec_token_escrow_seeds(authority, validator, token_mint, slot)[0] == seq![116u8, 111, 107, 101, 110, 95, 101, 115, 99, 114, 111, 119],
        spec_token_escrow_seeds(authority, validator, token_mint, slot)[1] == authority,
        spec_token_escrow_seeds(authority, validator, token_mint, slot)[2] == validator,
        spec_token_escrow_seeds(authority, validator, token_mint, slot)[3] == token_mint,
        spec_token_escrow_seeds(authority, validator, token_mint, slot)[4].len() == 8,
        spec_token_escrow_seeds(authority, validator, token_mint, slot)[4][0] as int == (slot as int / 1) % 256,
        spec_token_escrow_seeds(authority, validator, token_mint, slot)[4][1] as int == (slot as int / 256) % 256,
        spec_token_escrow_seeds(authority, validator, token_mint, slot)[4][2] as int == (slot as int / 65536) % 256,
        spec_token_escrow_seeds(authority, validator, token_mint, slot)[4][3] as int == (slot as int / 16777216) % 256,
        spec_token_escrow_seeds(authority, validator, token_mint, slot)[4][4] as int == (slot as int / 4294967296) % 256,
        spec_token_escrow_seeds(authority, validator, token_mint, slot)[4][5] as int == (slot as int / 1099511627776) % 256,
        spec_token_escrow_seeds(authority, validator, token_mint, slot)[4][6] as int == (slot as int / 281474976710656) % 256,
        spec_token_escrow_seeds(authority, validator, token_mint, slot)[4][7] as int == (slot as int / 72057594037927936) % 256,
{
    crate::codec::lemma_u64_le_digits(slot);
    assert(spec_token_escrow_prefix() =~= seq![116u8, 111, 107, 101, 110, 95, 101, 115, 99, 114, 111, 119]);
}

/// The address of an escrow is the address the runtime derives under the
/// program from exactly the seeds `token_escrow`, authority, validator,
/// token mint and the eight little-endian bytes of the slot.
pub proof fn lemma_token_escrow_address(
    authority: Seq<u8>,
    validator: Seq<u8>,
    token_mint: Seq<u8>,
    slot: u64,
    program_id: Seq<u8>,
)
    ensures
        spec_find_program_address(spec_token_escrow_seeds(authority, validator, token_mint, slot), program_id)
            == spec_find_program_address(
            seq![seq![116u8, 111, 107, 101, 110, 95, 101, 115, 99, 114, 111, 119], authority, validator, token_mint, seq![((slot / 1u64) % 256u64) as u8, ((slot / 256u64) % 256u64) as u8, ((slot / 65536u64) % 256u64) as u8, ((slot / 16777216u64) % 256u64) as u8, ((slot / 4294967296u64) % 256u64) as u8, ((slot / 1099511627776u64) % 256u64) as u8, ((slot / 281474976710656u64) % 256u64) as u8, ((slot / 72057594037927936u64) % 256u64) as u8]],
            program_id,
        ),
{
    lemma_token_escrow_seeds_layout(authority, validator, token_mint, slot);
    let le = seq![((slot / 1u64) % 256u64) as u8, ((slot / 256u64) % 256u64) as u8, ((slot / 65536u64) % 256u64) as u8, ((slot / 16777216u64) % 256u64) as u8, ((slot / 4294967296u64) % 256u64) as u8, ((slot / 1099511627776u64) % 256u64) as u8, ((slot / 281474976710656u64) % 256u64) as u8, ((slot / 72057594037927936u64) % 256u64) as u8];
    assert((slot / 1u64) % 256u64 < 256u64);
    assert((slot / 256u64) % 256u64 < 256u64);
    assert((slot / 65536u64) % 256u64 < 256u64);
    assert((slot / 16777216u64) % 256u64 < 256u64);
    assert((slot / 4294967296u64) % 256u64 < 256u64);
    assert((slot / 1099511627776u64) % 256u64 < 256u64);
    assert((slot / 281474976710656u64) % 256u64 < 256u64);
    assert((slot / 72057594037927936u64) % 256u64 < 256u64);
    assert(spec_u64_le(slot) =~= le);
    assert(spec_token_escrow_seeds(authority, validator, token_mint, slot) =~= seq![seq![116u8, 111, 107, 101, 110, 95, 101, 115, 99, 114, 111, 119], authority, validator, token_mint, le]);
}

/// The seeds of a vault are the bytes `token_vault`, then the validator and
/// the token mint, each byte for byte.
pub proof fn lemma_token_vault_seeds_layout(validator: Seq<u8>, token_mint: Seq<u8>)
    ensures
        spec_token_vault_seeds(validator, token_mint) == seq![seq![116u8, 111, 107, 101, 110, 95, 118, 97, 117, 108, 116], validator, token_mint],
{
    assert(spec_token_vault_prefix() =~= seq![116u8, 111, 107, 101, 110, 95, 118, 97, 117, 108, 116]);
    assert(spec_token_vault_seeds(validator, token_mint) =~= seq![seq![116u8, 111, 107, 101, 110, 95, 118, 97, 117, 108, 116], validator, token_mint]);
}

/// An account passes the address check against the vault seeds exactly
/// when it sits at the address the runtime derives under the program from
/// the seeds `token_vault`, validator and token mint; the bump returned is
/// the one the runtime found.
pub proof fn lemma_token_vault_address_check(
    key: Seq<u8>,
    validator: Seq<u8>,
    token_mint: Seq<u8>,
    program_id: Seq<u8>,
)
    ensures
        spec_ensure_is_pda(key, spec_token_vault_seeds(validator, token_mint), program_id) == match spec_find_program_address(
            seq![seq![116u8, 111, 107, 101, 110, 95, 118, 97, 117, 108, 116], validator, token_mint],
            program_id,
        ) {
            Some((address, bump)) => if address == key {
                Ok::<u8, ProgramError>(bump)
            } else {
                Err(ProgramError::InvalidSeeds)
            },
            None => Err(ProgramError::InvalidSeeds),
        },
{
    lemma_token_vault_seeds_layout(validator, token_mint);
}


/// The signer seeds of an address are its seeds, unchanged and in order,
/// followed by one more seed: the single byte of the bump.
pub proof fn lemma_signer_seeds_layout(seeds: Seq<Seq<u8>>, bump: u8)
    ensures
        spec_signer_seeds(seeds, bump).len() == seeds.len() + 1,
        forall|i: int| 0 <= i < seeds.len() ==> #[trigger] spec_signer_seeds(seeds, bump)[i] == seeds[i],
        spec_signer_seeds(seeds, bump)[seeds.len() as int].len() == 1,
        spec_signer_seeds(seeds, bump)[seeds.len() as int][0] == bump,
{
}

} // verus!
