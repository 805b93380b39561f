//! Creating a token escrow: the escrow account is created at its derived
//! address, owned by the wrapper program, and starts out holding nothing.
use vstd::prelude::*;
use crate::account::{ensure_is_owned_by_program, ensure_is_program_id, ensure_is_signer, AccountState};
use crate::codec::{
    lemma_u64_le_inverse, lemma_u64_le_roundtrip, read_key, read_u64_le, spec_fixed_length_check,
    spec_u64_from_le, spec_u64_le, write_key, write_u64_le,
};
use crate::cpi::{spec_create_pda_steps, spec_steps_outcome, Step, StepView};
use crate::error::{BorshError, ProgramError};
use crate::pda::{ensure_is_pda, spec_ensure_is_pda, spec_signer_seeds, spec_token_escrow_seeds, token_escrow_seeds};
use crate::programs::{spec_system_program_id, system_program_id};
use crate::state::{
    spec_token_escrow_bytes, spec_token_escrow_discriminant, spec_token_escrow_space, TokenEscrow,
};
use crate::wrapper::create::create_pda;

verus! {

/// The first eight bytes of a create instruction's data.
pub const DISCRIMINANT: [u8; 8] = [0xFE, 0x25, 0x5A, 0x94, 0x2E, 0x8E, 0x50, 0xAC];

/// The arguments of a create: whose escrow, with which validator, for which
/// token mint, under which number.
#[derive(Debug)]
pub struct Args {
    pub authority: [u8; 32],
    pub validator: [u8; 32],
    pub token_mint: [u8; 32],
    pub slot: u64,
}

/// The bytes of the arguments.
pub open spec fn spec_args_bytes(authority: Seq<u8>, validator: Seq<u8>, token_mint: Seq<u8>, slot: u64) -> Seq<u8> {
    authority + validator + token_mint + spec_u64_le(slot)
}

/// What reading the arguments from `s` gives: `(authority, validator,
/// token_mint, slot)`, or why the bytes do not hold exactly one set.
pub open spec fn spec_args_decode(s: Seq<u8>) -> Result<(Seq<u8>, Seq<u8>, Seq<u8>, u64), BorshError> {
    match spec_fixed_length_check(s.len(), 104) {
        Err(e) => Err(e),
        Ok(_) => Ok(
            (
                s.subrange(0, 32),
                s.subrange(32, 64),
                s.subrange(64, 96),
                spec_u64_from_le(s.subrange(96, 104)),
            ),
        ),
    }
}

/// Reading back written arguments gives the arguments.
pub proof fn lemma_args_roundtrip(authority: Seq<u8>, validator: Seq<u8>, token_mint: Seq<u8>, slot: u64)
    requires
        authority.len() == 32,
        validator.len() == 32,
        token_mint.len() == 32,
    ensures
        spec_args_decode(spec_args_bytes(authority, validator, token_mint, slot)) == Ok::<
            (Seq<u8>, Seq<u8>, Seq<u8>, u64),
            BorshError,
        >((authority, validator, token_mint, slot)),
{
    lemma_u64_le_roundtrip(slot);
    let s = spec_args_bytes(authority, validator, token_mint, slot);
    assert(s.subrange(0, 32) =~= authority);
    assert(s.subrange(32, 64) =~= validator);
    assert(s.subrange(64, 96) =~= token_mint);
    assert(s.subrange(96, 104) =~= spec_u64_le(slot));
}

/// Writing back arguments read from `s` gives `s`.
pub proof fn lemma_args_decode_encode(s: Seq<u8>)
    ensures
        spec_args_decode(s) matches Ok((authority, validator, token_mint, slot)) ==> spec_args_bytes(
            authority,
            validator,
            token_mint,
            slot,
        ) == s,
{
    if s.len() == 104 {
        lemma_u64_le_inverse(s.subrange(96, 104));
        assert(s =~= s.subrange(0, 32) + s.subrange(32, 64) + s.subrange(64, 96) + s.subrange(96, 104));
    }
}

impl Args {
    /// Appends the bytes of the arguments.
    pub fn serialize(&self, out: &mut Vec<u8>)
        ensures
            final(out)@ == old(out)@ + spec_args_bytes(self.authority@, self.validator@, self.token_mint@, self.slot),
    {
        write_key(out, &self.authority);
        write_key(out, &self.validator);
        write_key(out, &self.token_mint);
        write_u64_le(out, self.slot);
        assert(final(out)@ =~= old(out)@ + spec_args_bytes(
            self.authority@,
            self.validator@,
            self.token_mint@,
            self.slot,
        ));
    }

    /// Reads arguments that fill `data` exactly.
    pub fn try_from_slice(data: &[u8]) -> (r: Result<Args, BorshError>)
        ensures
            match r {
                Ok(a) => spec_args_decode(data@) == Ok::<(Seq<u8>, Seq<u8>, Seq<u8>, u64), BorshError>(
                    (a.authority@, a.validator@, a.token_mint@, a.slot),
                ),
                Err(b) => spec_args_decode(data@) == Err::<(Seq<u8>, Seq<u8>, Seq<u8>, u64), BorshError>(b),
            },
    {
        if data.len() < 104 {
            return Err(BorshError::UnexpectedLengthOfInput);
        }
        if data.len() > 104 {
            return Err(BorshError::NotAllBytesRead);
        }
        let authority = read_key(data, 0);
        let validator = read_key(data, 32);
        let token_mint = read_key(data, 64);
        let slot = read_u64_le(data, 96);
        Ok(Args { authority, validator, token_mint, slot })
    }
}

/// What a create does with the accounts `payer`, `token_escrow_pda` and
/// `system_program_id`, in that order, and the instruction data `data`, for
/// the program `program_id`, given what the rent sysvar gives as the minimum
/// balance of an escrow account.
///
/// The result is the error of the first check that fails, or the steps:
/// the escrow account is created at its derived address (funded by the
/// payer up to the minimum balance, sized to an escrow record, handed to
/// `program_id`), and then the record with the escrow tag and an amount of
/// zero is written into it.
pub open spec fn spec_process(
    program_id: Seq<u8>,
    accounts: Seq<AccountState>,
    data: Seq<u8>,
    rent_minimum_balance: Result<u64, ProgramError>,
) -> Result<Seq<StepView>, ProgramError> {
    if accounts.len() != 3 {
        Err(ProgramError::NotEnoughAccountKeys)
    } else {
        let payer = accounts[0];
        let token_escrow_pda = accounts[1];
        let system_program = accounts[2];
        match spec_args_decode(data) {
            Err(b) => Err(ProgramError::BorshIoError(b)),
            Ok((authority, validator, token_mint, slot)) => {
                let seeds = spec_token_escrow_seeds(authority, validator, token_mint, slot);
                if system_program.key@ != spec_system_program_id() {
                    Err(ProgramError::IncorrectProgramId)
                } else if !payer.is_signer {
                    Err(ProgramError::MissingRequiredSignature)
                } else if token_escrow_pda.owner@ != spec_system_program_id() {
                    Err(ProgramError::InvalidAccountOwner)
                } else {
                    match spec_ensure_is_pda(token_escrow_pda.key@, seeds, program_id) {
                        Err(e) => Err(e),
                        Ok(bump) => match rent_minimum_balance {
                            Err(e) => Err(e),
                            Ok(minimum_balance) => Ok(
                                spec_create_pda_steps(
                                    payer.key@,
                                    token_escrow_pda.key@,
                                    token_escrow_pda.lamports,
                                    spec_signer_seeds(seeds, bump),
                                    spec_token_escrow_space() as u64,
                                    program_id,
                                    system_program.key@,
                                    minimum_balance,
                                ).push(
                                    StepView::WriteData {
                                        account: token_escrow_pda.key@,
                                        bytes: spec_token_escrow_bytes(
                                            spec_token_escrow_discriminant(),
                                            0,
                                        ),
                                    },
                                ),
                            ),
                        },
                    }
                }
            },
        }
    }
}

/// The create processor: runs the checks of `spec_process` in order and
/// returns the first error, or the steps of the create.
///
/// `rent_minimum_balance` is what the rent sysvar gives as the minimum
/// balance of an account of `TokenEscrow::space()` bytes, or the error that
/// reading the sysvar gave.
pub fn process(
    program_id: &[u8; 32],
    accounts: &[AccountState],
    data: &[u8],
    rent_minimum_balance: Result<u64, ProgramError>,
) -> (r: Result<Vec<Step>, ProgramError>)
    ensures
        spec_steps_outcome(r) == spec_process(program_id@, accounts@, data@, rent_minimum_balance),
{
    if accounts.len() != 3 {
        return Err(ProgramError::NotEnoughAccountKeys);
    }
    let payer = &accounts[0];
    let token_escrow_pda = &accounts[1];
    let system_program = &accounts[2];
    let args = match Args::try_from_slice(data) {
        Ok(args) => args,
        Err(e) => return Err(ProgramError::BorshIoError(e)),
    };
    let system_program_key = system_program_id();
    ensure_is_program_id(system_program, &system_program_key)?;
    ensure_is_signer(payer)?;
    ensure_is_owned_by_program(token_escrow_pda, &system_program_key)?;
    let token_escrow_seeds = token_escrow_seeds(
        &args.authority,
        &args.validator,
        &args.token_mint,
        args.slot,
    );
    let token_escrow_bump = ensure_is_pda(token_escrow_pda, &token_escrow_seeds, program_id)?;
    let mut steps = create_pda(
        payer,
        token_escrow_pda,
        &token_escrow_seeds,
        token_escrow_bump,
        TokenEscrow::space(),
        program_id,
        system_program,
        rent_minimum_balance,
    )?;
    let token_escrow_data = TokenEscrow { discriminant: TokenEscrow::discriminant(), amount: 0 };
    let mut bytes: Vec<u8> = Vec::new();
    token_escrow_data.serialize(&mut bytes);
    let ghost created = steps.deep_view();
    steps.push(Step::WriteData { account: token_escrow_pda.key, bytes });
    proof {
        assert(bytes@ =~= spec_token_escrow_bytes(spec_token_escrow_discriminant(), 0));
        assert(steps.deep_view() =~= created.push(
            StepView::WriteData {
                account: token_escrow_pda.key@,
                bytes: spec_token_escrow_bytes(spec_token_escrow_discriminant(), 0),
            },
        ));
    }
    Ok(steps)
}

} // verus!

verus! {

/// A create that goes through was paid for by a signing payer, makes the
/// escrow at the address derived from the arguments, hands the account to
/// the program, and leaves in it a record with the escrow tag and an
/// amount of zero.
pub proof fn lemma_create_starts_empty(
    program_id: Seq<u8>,
    accounts: Seq<AccountState>,
    data: Seq<u8>,
    rent_minimum_balance: Result<u64, ProgramError>,
)
    requires
        spec_process(program_id, accounts, data, rent_minimum_balance) matches Ok(_),
    ensures
        ({
            let steps = spec_process(program_id, accounts, data, rent_minimum_balance)->Ok_0;
            &&& accounts.len() == 3
            &&& accounts[0].is_signer
            &&& accounts[2].key@ == Seq::new(32, |i: int| 0u8)
            &&& accounts[1].owner@ == Seq::new(32, |i: int| 0u8)
            &&& spec_args_decode(data) matches Ok((authority, validator, token_mint, slot))
            &&& crate::pda::spec_find_program_address(
                spec_token_escrow_seeds(authority, validator, token_mint, slot),
                program_id,
            ) matches Some((address, _))
            &&& address == accounts[1].key@
            &&& steps.len() >= 3
            &&& steps[steps.len() - 2] matches StepView::Invoke(
                crate::cpi::InvocationView::SystemAssign { account: assigned, owner, .. },
            )
            &&& assigned == accounts[1].key@
            &&& owner == program_id
            &&& steps.last() matches StepView::WriteData { account, bytes }
            &&& account == accounts[1].key@
            &&& crate::state::spec_token_escrow_decode(bytes) == Ok::<(Seq<u8>, u64), BorshError>(
                (spec_token_escrow_discriminant(), 0),
            )
        }),
{
    crate::state::lemma_token_escrow_roundtrip(spec_token_escrow_discriminant(), 0);
}

/// The arguments are the authority, the validator and the token mint, each
/// byte for byte, then the base-256 digits of the slot, least significant
/// first.
pub proof fn lemma_args_bytes_layout(authority: Seq<u8>, validator: Seq<u8>, token_mint: Seq<u8>, slot: u64)
    requires
        authority.len() == 32,
        validator.len() == 32,
        token_mint.len() == 32,
    ensures
        spec_args_bytes(authority, validator, token_mint, slot).len() == 104,
        forall|i: int| 0 <= i < 32 ==> #[trigger] spec_args_bytes(authority, validator, token_mint, slot)[0 + i] == authority[i],
        forall|i: int| 0 <= i < 32 ==> #[trigger] spec_args_bytes(authority, validator, token_mint, slot)[32 + i] == validator[i],
        forall|i: int| 0 <= i < 32 ==> #[trigger] spec_args_bytes(authority, validator, token_mint, slot)[64 + i] == token_mint[i],
        spec_args_bytes(authority, validator, token_mint, slot)[96] as int == (slot as int / 1) % 256,
        spec_args_bytes(authority, validator, token_mint, slot)[97] as int == (slot as int / 256) % 256,
        spec_args_bytes(authority, validator, token_mint, slot)[98] as int == (slot as int / 65536) % 256,
        spec_args_bytes(authority, validator, token_mint, slot)[99] as int == (slot as int / 16777216) % 256,
        spec_args_bytes(authority, validator, token_mint, slot)[100] as int == (slot as int / 4294967296) % 256,
        spec_args_bytes(authority, validator, token_mint, slot)[101] as int == (slot as int / 1099511627776) % 256,
        spec_args_bytes(authority, validator, token_mint, slot)[102] as int == (slot as int / 281474976710656) % 256,
        spec_args_bytes(authority, validator, token_mint, slot)[103] as int == (slot as int / 72057594037927936) % 256,
{
    crate::codec::lemma_u64_le_digits(slot);
    let b = spec_args_bytes(authority, validator, token_mint, slot);
    assert forall|i: int| 0 <= i < 32 implies #[trigger] b[0 + i] == authority[i] by {}
    assert forall|i: int| 0 <= i < 32 implies #[trigger] b[32 + i] == validator[i] by {}
    assert forall|i: int| 0 <= i < 32 implies #[trigger] b[64 + i] == token_mint[i] by {}
}

/// Reading arguments from 104 bytes gives bytes 0..32 as the authority, 32..64
/// as the validator and 64..96 as the token mint, byte for byte, and as the
/// slot the number whose base-256 digits, least significant first, are the
/// last eight; a shorter input runs out and a longer one leaves bytes over.
pub proof fn lemma_args_decode_layout(s: Seq<u8>)
    ensures
        s.len() < 104 ==> spec_args_decode(s) is Err && spec_args_decode(s)->Err_0 == BorshError::UnexpectedLengthOfInput,
        s.len() > 104 ==> spec_args_decode(s) is Err && spec_args_decode(s)->Err_0 == BorshError::NotAllBytesRead,
        s.len() == 104 ==> {
            let r = spec_args_decode(s);
            &&& r is Ok
            &&& r->Ok_0.0.len() == 32
            &&& forall|i: int| 0 <= i < 32 ==> #[trigger] r->Ok_0.0[i] == s[0 + i]
            &&& r->Ok_0.1.len() == 32
            &&& forall|i: int| 0 <= i < 32 ==> #[trigger] r->Ok_0.1[i] == s[32 + i]
            &&& r->Ok_0.2.len() == 32
            &&& forall|i: int| 0 <= i < 32 ==> #[trigger] r->Ok_0.2[i] == s[64 + i]
            &&& r->Ok_0.3 as int == (s[96] as int) * 1 + (s[97] as int) * 256 + (s[98] as int) * 65536 + (s[99] as int) * 16777216 + (s[100] as int) * 4294967296 + (s[101] as int) * 1099511627776 + (s[102] as int) * 281474976710656 + (s[103] as int) * 72057594037927936
        },
{
    if s.len() == 104 {
        crate::codec::lemma_u64_from_le_value(s.subrange(96, 104));
    }
}

} // verus!
