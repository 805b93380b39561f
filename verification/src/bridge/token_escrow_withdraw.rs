//! Withdrawing tokens from an escrow: the escrow's amount goes down by the
//! amount withdrawn, and the vault sends that many tokens to the
//! destination token account.
use vstd::prelude::*;
use crate::account::{ensure_is_owned_by_program, ensure_is_signer, AccountState};
use crate::codec::{
    discriminants_equal, lemma_u64_le_inverse, lemma_u64_le_roundtrip, read_u64_le,
    spec_fixed_length_check, spec_u64_from_le, spec_u64_le, write_u64_le,
};
use crate::cpi::{spec_steps_outcome, Invocation, InvocationView, Step, StepView};
use crate::error::{BorshError, ProgramError};
use crate::pda::{
    ensure_is_pda, signer_seeds, spec_ensure_is_pda, spec_signer_seeds, spec_token_escrow_seeds,
    spec_token_vault_seeds, token_escrow_seeds, token_vault_seeds,
};
use crate::state::{
    spec_token_escrow_bytes, spec_token_escrow_decode, spec_token_escrow_discriminant, TokenEscrow,
};

verus! {

/// The first eight bytes of a withdraw instruction's data.
pub const DISCRIMINANT: [u8; 8] = [0xda, 0xcf, 0x42, 0xdd, 0x24, 0x78, 0x76, 0x44];

/// The arguments of a withdraw: which escrow (`index`) and how many tokens.
#[derive(Debug)]
pub struct Args {
    pub index: u64,
    pub amount: u64,
}

/// The bytes of the arguments `index` and `amount`.
pub open spec fn spec_args_bytes(index: u64, amount: u64) -> Seq<u8> {
    spec_u64_le(index) + spec_u64_le(amount)
}

/// What reading the arguments from `s` gives: `(index, amount)`, or why the
/// bytes do not hold exactly one set of arguments.
pub open spec fn spec_args_decode(s: Seq<u8>) -> Result<(u64, u64), BorshError> {
    match spec_fixed_length_check(s.len(), 16) {
        Err(e) => Err(e),
        Ok(_) => Ok((spec_u64_from_le(s.subrange(0, 8)), spec_u64_from_le(s.subrange(8, 16)))),
    }
}

/// Reading back written arguments gives the arguments.
pub proof fn lemma_args_roundtrip(index: u64, amount: u64)
    ensures
        spec_args_decode(spec_args_bytes(index, amount)) == Ok::<(u64, u64), BorshError>(
            (index, amount),
        ),
{
    lemma_u64_le_roundtrip(index);
    lemma_u64_le_roundtrip(amount);
    let s = spec_args_bytes(index, amount);
    assert(s.subrange(0, 8) =~= spec_u64_le(index));
    assert(s.subrange(8, 16) =~= spec_u64_le(amount));
}

/// Writing back arguments read from `s` gives `s`.
pub proof fn lemma_args_decode_encode(s: Seq<u8>)
    ensures
        spec_args_decode(s) matches Ok((index, amount)) ==> spec_args_bytes(index, amount) == s,
{
    if s.len() == 16 {
        lemma_u64_le_inverse(s.subrange(0, 8));
        lemma_u64_le_inverse(s.subrange(8, 16));
        assert(s =~= s.subrange(0, 8) + s.subrange(8, 16));
    }
}

impl Args {
    /// Appends the bytes of the arguments.
    pub fn serialize(&self, out: &mut Vec<u8>)
        ensures
            final(out)@ == old(out)@ + spec_args_bytes(self.index, self.amount),
    {
        write_u64_le(out, self.index);
        write_u64_le(out, self.amount);
        assert(final(out)@ =~= old(out)@ + spec_args_bytes(self.index, self.amount));
    }

    /// Reads arguments that fill `data` exactly.
    pub fn try_from_slice(data: &[u8]) -> (r: Result<Args, BorshError>)
        ensures
            match r {
                Ok(a) => spec_args_decode(data@) == Ok::<(u64, u64), BorshError>((a.index, a.amount)),
                Err(b) => spec_args_decode(data@) == Err::<(u64, u64), BorshError>(b),
            },
    {
        if data.len() < 16 {
            return Err(BorshError::UnexpectedLengthOfInput);
        }
        if data.len() > 16 {
            return Err(BorshError::NotAllBytesRead);
        }
        let index = read_u64_le(data, 0);
        let amount = read_u64_le(data, 8);
        Ok(Args { index, amount })
    }
}

/// What a withdraw does with the accounts `authority`,
/// `destination_token_account`, `validator`, `token_mint`,
/// `token_escrow_pda`, `token_vault_pda` and `token_program_id`, in that
/// order, and the instruction data `data`, for the program `program_id`.
///
/// `None` stands for the case where every check passes but the escrow holds
/// fewer tokens than asked for: there the program aborts.
/// Otherwise the result is the error of the first check that fails, or the
/// steps: the escrow's record is written back with its amount lowered by
/// the amount withdrawn, and the token program is called to move that
/// amount from the vault to the destination, the vault's seeds signing.
/// Whether `token_program_id` is the token program is decided when the
/// transfer comes to be carried out, after the record is written (see
/// `crate::run`).
pub open spec fn spec_process(program_id: Seq<u8>, accounts: Seq<AccountState>, data: Seq<u8>) -> Option<
    Result<Seq<StepView>, ProgramError>,
> {
    if accounts.len() != 7 {
        Some(Err(ProgramError::NotEnoughAccountKeys))
    } else {
        let authority = accounts[0];
        let destination_token_account = accounts[1];
        let validator = accounts[2];
        let token_mint = accounts[3];
        let token_escrow_pda = accounts[4];
        let token_vault_pda = accounts[5];
        let token_program_id = accounts[6];
        match spec_args_decode(data) {
            Err(b) => Some(Err(ProgramError::BorshIoError(b))),
            Ok((index, amount)) => {
                let escrow_seeds = spec_token_escrow_seeds(
                    authority.key@,
                    validator.key@,
                    token_mint.key@,
                    index,
                );
                let vault_seeds = spec_token_vault_seeds(validator.key@, token_mint.key@);
                if !authority.is_signer {
                    Some(Err(ProgramError::MissingRequiredSignature))
                } else if token_escrow_pda.owner@ != program_id {
                    Some(Err(ProgramError::InvalidAccountOwner))
                } else if token_vault_pda.owner@ != token_program_id.key@ {
                    Some(Err(ProgramError::InvalidAccountOwner))
                } else if spec_ensure_is_pda(token_escrow_pda.key@, escrow_seeds, program_id) is Err {
                    Some(Err(spec_ensure_is_pda(token_escrow_pda.key@, escrow_seeds, program_id)->Err_0))
                } else {
                    match spec_ensure_is_pda(token_vault_pda.key@, vault_seeds, program_id) {
                        Err(e) => Some(Err(e)),
                        Ok(vault_bump) => match spec_token_escrow_decode(token_escrow_pda.data@) {
                            Err(b) => Some(Err(ProgramError::BorshIoError(b))),
                            Ok((discriminant, escrow_amount)) => {
                                if discriminant != spec_token_escrow_discriminant() {
                                    Some(Err(ProgramError::InvalidAccountData))
                                } else if escrow_amount < amount {
                                    None
                                } else {
                                    Some(
                                        Ok(
                                            seq![
                                                StepView::WriteData {
                                                    account: token_escrow_pda.key@,
                                                    bytes: spec_token_escrow_bytes(
                                                        discriminant,
                                                        (escrow_amount - amount) as u64,
                                                    ),
                                                },
                                                StepView::Invoke(
                                                    InvocationView::TokenTransfer {
                                                        token_program: token_program_id.key@,
                                                        source: token_vault_pda.key@,
                                                        destination: destination_token_account.key@,
                                                        authority: token_vault_pda.key@,
                                                        amount,
                                                        signer_seeds: spec_signer_seeds(
                                                            vault_seeds,
                                                            vault_bump,
                                                        ),
                                                    },
                                                ),
                                            ],
                                        ),
                                    )
                                }
                            },
                        },
                    }
                }
            },
        }
    }
}

fn withdraw(program_id: &[u8; 32], accounts: &[AccountState], data: &[u8]) -> (r: Option<
    Result<Vec<Step>, ProgramError>,
>)
    ensures
        match r {
            None => spec_process(program_id@, accounts@, data@) is None,
            Some(outcome) => spec_process(program_id@, accounts@, data@) == Some(
                spec_steps_outcome(outcome),
            ),
        },
{
    if accounts.len() != 7 {
        return Some(Err(ProgramError::NotEnoughAccountKeys));
    }
    let authority = &accounts[0];
    let destination_token_account = &accounts[1];
    let validator = &accounts[2];
    let token_mint = &accounts[3];
    let token_escrow_pda = &accounts[4];
    let token_vault_pda = &accounts[5];
    let token_program_id = &accounts[6];
    let args = match Args::try_from_slice(data) {
        Ok(args) => args,
        Err(e) => return Some(Err(ProgramError::BorshIoError(e))),
    };
    if let Err(e) = ensure_is_signer(authority) {
        return Some(Err(e));
    }
    if let Err(e) = ensure_is_owned_by_program(token_escrow_pda, program_id) {
        return Some(Err(e));
    }
    if let Err(e) = ensure_is_owned_by_program(token_vault_pda, &token_program_id.key) {
        return Some(Err(e));
    }
    let token_escrow_seeds = token_escrow_seeds(
        &authority.key,
        &validator.key,
        &token_mint.key,
        args.index,
    );
    if let Err(e) = ensure_is_pda(token_escrow_pda, &token_escrow_seeds, program_id) {
        return Some(Err(e));
    }
    let token_vault_seeds = token_vault_seeds(&validator.key, &token_mint.key);
    let token_vault_bump = match ensure_is_pda(token_vault_pda, &token_vault_seeds, program_id) {
        Ok(bump) => bump,
        Err(e) => return Some(Err(e)),
    };
    let token_escrow_data = match TokenEscrow::try_from_slice(token_escrow_pda.data.as_slice()) {
        Ok(escrow) => escrow,
        Err(e) => return Some(Err(ProgramError::BorshIoError(e))),
    };
    if !discriminants_equal(&token_escrow_data.discriminant, &TokenEscrow::discriminant()) {
        return Some(Err(ProgramError::InvalidAccountData));
    }
    let remaining = match token_escrow_data.amount.checked_sub(args.amount) {
        Some(remaining) => remaining,
        None => return None,
    };
    let updated = TokenEscrow { discriminant: token_escrow_data.discriminant, amount: remaining };
    let mut bytes: Vec<u8> = Vec::new();
    updated.serialize(&mut bytes);
    let mut steps: Vec<Step> = Vec::new();
    steps.push(Step::WriteData { account: token_escrow_pda.key, bytes });
    steps.push(
        Step::Invoke(
            Invocation::TokenTransfer {
                token_program: token_program_id.key,
                source: token_vault_pda.key,
                destination: destination_token_account.key,
                authority: token_vault_pda.key,
                amount: args.amount,
                signer_seeds: signer_seeds(&token_vault_seeds, token_vault_bump),
            },
        ),
    );
    proof {
        assert(bytes@ =~= spec_token_escrow_bytes(token_escrow_data.discriminant@, remaining));
        let expected = spec_process(program_id@, accounts@, data@);
        assert(expected matches Some(Ok(s)) && steps.deep_view() =~= s);
    }
    Some(Ok(steps))
}

/// The withdraw processor: runs the checks of `spec_process` in order and
/// returns the first error, or the steps of the withdraw.
///
/// The caller must not hand in a withdraw of more tokens than the escrow
/// holds (where every check passes): there the program aborts.
pub fn process(program_id: &[u8; 32], accounts: &[AccountState], data: &[u8]) -> (r: Result<
    Vec<Step>,
    ProgramError,
>)
    requires
        spec_process(program_id@, accounts@, data@) is Some,
    ensures
        spec_process(program_id@, accounts@, data@) == Some(spec_steps_outcome(r)),
{
    withdraw(program_id, accounts, data).unwrap()
}

/// The withdraw processor for any input: `None` where the escrow holds fewer
/// tokens than asked for and every check passes (where the program aborts),
/// and otherwise what `process` returns, computed once.
pub fn checked_process(program_id: &[u8; 32], accounts: &[AccountState], data: &[u8]) -> (r: Option<
    Result<Vec<Step>, ProgramError>,
>)
    ensures
        match r {
            None => spec_process(program_id@, accounts@, data@) is None,
            Some(outcome) => spec_process(program_id@, accounts@, data@) == Some(
                spec_steps_outcome(outcome),
            ),
        },
{
    withdraw(program_id, accounts, data)
}

} // verus!

verus! {

/// A withdraw that goes through lowers the escrow's amount by exactly the
/// number of tokens it sends out of the vault: the record it writes back
/// keeps the escrow's tag, and its amount plus the amount sent equals the
/// amount the escrow held; the tokens leave the vault account, on the
/// vault's own authority, for the destination token account; and no other
/// account's data is written.
pub proof fn lemma_withdraw_conserves_tokens(
    program_id: Seq<u8>,
    accounts: Seq<AccountState>,
    data: Seq<u8>,
)
    requires
        spec_process(program_id, accounts, data) matches Some(Ok(_)),
    ensures
        ({
            let steps = spec_process(program_id, accounts, data)->0->Ok_0;
            &&& steps.len() == 2
            &&& spec_token_escrow_decode(accounts[4].data@) matches Ok((tag, before))
            &&& steps[0] matches StepView::WriteData { account, bytes }
            &&& account == accounts[4].key@
            &&& spec_token_escrow_decode(bytes) matches Ok((new_tag, after))
            &&& new_tag == tag
            &&& tag == seq![0x54u8, 0x4B, 0x45, 0x53, 0x43, 0x52, 0x4F, 0x57]
            &&& steps[1] matches StepView::Invoke(
                InvocationView::TokenTransfer { source, destination, authority, amount, .. },
            )
            &&& source == accounts[5].key@
            &&& authority == accounts[5].key@
            &&& destination == accounts[1].key@
            &&& amount == spec_args_decode(data)->Ok_0.1
            &&& after + amount == before
        }),
{
    let (tag, before) = spec_token_escrow_decode(accounts[4].data@)->Ok_0;
    let amount = spec_args_decode(data)->Ok_0.1;
    crate::state::lemma_token_escrow_roundtrip(tag, (before - amount) as u64);
}

/// Only the escrow's authority can withdraw, and only from the escrow of
/// its own: a withdraw that goes through was signed by the authority
/// account, the escrow account belongs to the program and sits at the
/// address derived from the authority, the validator, the token mint and
/// the index given, and the vault sits at the address derived from the
/// validator and the token mint.
pub proof fn lemma_withdraw_needs_authority(program_id: Seq<u8>, accounts: Seq<AccountState>, data: Seq<u8>)
    requires
        spec_process(program_id, accounts, data) matches Some(Ok(_)),
    ensures
        accounts.len() == 7,
        accounts[0].is_signer,
        accounts[4].owner@ == program_id,
        accounts[5].owner@ == accounts[6].key@,
        spec_args_decode(data) matches Ok((index, _)) && crate::pda::spec_find_program_address(
            spec_token_escrow_seeds(accounts[0].key@, accounts[2].key@, accounts[3].key@, index),
            program_id,
        ) matches Some((address, _)) && address == accounts[4].key@,
        crate::pda::spec_find_program_address(
            spec_token_vault_seeds(accounts[2].key@, accounts[3].key@),
            program_id,
        ) matches Some((address, _)) && address == accounts[5].key@,
{
}

/// Nothing can be withdrawn from an escrow that holds nothing, such as one
/// just created: asked for a positive amount, the withdraw fails or aborts.
pub proof fn lemma_empty_escrow_cannot_be_withdrawn_from(
    program_id: Seq<u8>,
    accounts: Seq<AccountState>,
    data: Seq<u8>,
)
    requires
        accounts.len() == 7,
        accounts[4].data@ == spec_token_escrow_bytes(spec_token_escrow_discriminant(), 0),
        spec_args_decode(data) matches Ok((_, amount)) && amount > 0,
    ensures
        !(spec_process(program_id, accounts, data) matches Some(Ok(_))),
{
    crate::state::lemma_token_escrow_roundtrip(spec_token_escrow_discriminant(), 0);
}

/// Withdrawing nothing is a no-op on the escrow: when it goes through, the
/// record written back is byte for byte the one the escrow held.
pub proof fn lemma_withdraw_of_nothing_keeps_the_record(
    program_id: Seq<u8>,
    accounts: Seq<AccountState>,
    data: Seq<u8>,
)
    requires
        spec_process(program_id, accounts, data) matches Some(Ok(_)),
        spec_args_decode(data) matches Ok((_, amount)) && amount == 0,
    ensures
        spec_process(program_id, accounts, data)->0->Ok_0[0] matches StepView::WriteData { bytes, .. }
            && bytes == accounts[4].data@,
{
    crate::state::lemma_token_escrow_decode_encode(accounts[4].data@);
}

} // verus!

verus! {

/// The record bytes that a withdraw's steps write into the escrow.
pub open spec fn spec_written_record(steps: Seq<StepView>) -> Seq<u8> {
    match steps[0] {
        StepView::WriteData { bytes, .. } => bytes,
        _ => Seq::empty(),
    }
}

/// `after` is what the next withdraw sees of the accounts `before` once the
/// steps `steps` of a withdraw were carried out: the same accounts, with the
/// escrow's data overwritten by the record the steps write (the data of the
/// token accounts, which the token program changes, is left open).
pub open spec fn spec_next_accounts(before: Seq<AccountState>, steps: Seq<StepView>, after: Seq<AccountState>) -> bool {
    &&& after.len() == before.len()
    &&& before.len() == 7
    &&& forall|i: int|
        0 <= i < before.len() ==> (#[trigger] after[i]).key == before[i].key && after[i].owner
            == before[i].owner && after[i].is_signer == before[i].is_signer
    &&& after[4].data@ == crate::run::spec_write_over(before[4].data@, spec_written_record(steps))
}

/// The number of tokens asked for by the withdraw instruction data `datas`,
/// summed.
pub open spec fn spec_total_asked(datas: Seq<Seq<u8>>) -> int
    decreases datas.len(),
{
    if datas.len() == 0 {
        0
    } else {
        spec_total_asked(datas.drop_last()) + spec_args_decode(datas.last())->Ok_0.1
    }
}

/// After a withdraw goes through and its steps are carried out, the escrow
/// holds its former amount less the amount withdrawn, under the same tag.
pub proof fn lemma_withdraw_then_escrow_holds_less(
    program_id: Seq<u8>,
    before: Seq<AccountState>,
    data: Seq<u8>,
    after: Seq<AccountState>,
)
    requires
        spec_process(program_id, before, data) matches Some(Ok(steps)) && spec_next_accounts(before, steps, after),
    ensures
        spec_token_escrow_decode(before[4].data@) matches Ok((tag, held)) && spec_token_escrow_decode(
            after[4].data@,
        ) == Ok::<(Seq<u8>, u64), BorshError>((tag, (held - spec_args_decode(data)->Ok_0.1) as u64)),
{
    lemma_withdraw_conserves_tokens(program_id, before, data);
    let steps = spec_process(program_id, before, data)->0->Ok_0;
    let (tag, held) = spec_token_escrow_decode(before[4].data@)->Ok_0;
    let amount = spec_args_decode(data)->Ok_0.1;
    let bytes = spec_written_record(steps);
    assert(bytes == spec_token_escrow_bytes(tag, (held - amount) as u64));
    crate::state::lemma_token_escrow_roundtrip(tag, (held - amount) as u64);
    assert(bytes.len() == 16);
    assert(before[4].data@.len() == 16);
    assert(after[4].data@ =~= bytes);
}

/// Successive withdraws from one escrow, each carried out before the next,
/// leave it holding its first amount less the sum of the amounts withdrawn;
/// so that sum never exceeds what the escrow first held.
pub proof fn lemma_successive_withdrawals(
    program_id: Seq<u8>,
    accounts: Seq<Seq<AccountState>>,
    datas: Seq<Seq<u8>>,
)
    requires
        datas.len() >= 1,
        accounts.len() == datas.len() + 1,
        forall|j: int|
            0 <= j < datas.len() ==> (spec_process(program_id, #[trigger] accounts[j], datas[j]) matches Some(
                Ok(steps),
            ) && spec_next_accounts(accounts[j], steps, accounts[j + 1])),
    ensures
        spec_token_escrow_decode(accounts[0][4].data@) matches Ok((tag, first)) && spec_token_escrow_decode(
            accounts[datas.len() as int][4].data@,
        ) matches Ok((last_tag, last)) && last_tag == tag && last + spec_total_asked(datas) == first,
    decreases datas.len(),
{
    let n = datas.len() as int;
    assert(spec_process(program_id, accounts[n - 1], datas[n - 1]) is Some);
    lemma_withdraw_then_escrow_holds_less(program_id, accounts[n - 1], datas[n - 1], accounts[n]);
    if n > 1 {
        let shorter = accounts.take(n);
        let fewer = datas.drop_last();
        assert forall|j: int| 0 <= j < fewer.len() implies (spec_process(
            program_id,
            #[trigger] shorter[j],
            fewer[j],
        ) matches Some(Ok(steps)) && spec_next_accounts(shorter[j], steps, shorter[j + 1])) by {
            assert(shorter[j] == accounts[j]);
            assert(shorter[j + 1] == accounts[j + 1]);
            assert(fewer[j] == datas[j]);
            assert(spec_process(program_id, accounts[j], datas[j]) is Some);
        }
        lemma_successive_withdrawals(program_id, shorter, fewer);
        assert(shorter[0] == accounts[0]);
        assert(shorter[n - 1] == accounts[n - 1]);
    } else {
        assert(spec_total_asked(datas) == spec_total_asked(datas.drop_last()) + spec_args_decode(datas.last())->Ok_0.1);
        assert(datas.drop_last().len() == 0);
    }
}

/// Given the accounts of a withdraw that goes through, a withdraw of `n`
/// tokens from the same escrow aborts exactly when `n` exceeds what the
/// escrow holds, and goes through otherwise.
pub proof fn lemma_withdraw_aborts_exactly_beyond_the_balance(
    program_id: Seq<u8>,
    accounts: Seq<AccountState>,
    data: Seq<u8>,
    other: Seq<u8>,
)
    requires
        spec_process(program_id, accounts, data) matches Some(Ok(_)),
        spec_args_decode(other) matches Ok((index, _)) && index == spec_args_decode(data)->Ok_0.0,
    ensures
        spec_token_escrow_decode(accounts[4].data@) matches Ok((_, held)) && (spec_process(
            program_id,
            accounts,
            other,
        ) is None <==> spec_args_decode(other)->Ok_0.1 > held) && (spec_args_decode(other)->Ok_0.1
            <= held ==> spec_process(program_id, accounts, other) matches Some(Ok(_))),
{
}

/// The escrow's record is written before the token program is checked: a
/// withdraw whose token program is not the token program writes the
/// lowered record and then stops with `IncorrectProgramId`, making no
/// transfer; with the token program, both steps are carried out.
pub proof fn lemma_withdraw_writes_before_the_token_program_check(
    program_id: Seq<u8>,
    accounts: Seq<AccountState>,
    data: Seq<u8>,
    outcomes: Seq<Result<(), ProgramError>>,
)
    requires
        spec_process(program_id, accounts, data) matches Some(Ok(_)),
        outcomes.len() == 2,
        outcomes[0] is Ok,
    ensures
        accounts[6].key@ != crate::programs::spec_token_program_id() ==> crate::run::spec_run(
            spec_process(program_id, accounts, data)->0->Ok_0,
            outcomes,
            0,
        ) == (Err::<(), ProgramError>(ProgramError::IncorrectProgramId), 1nat),
        accounts[6].key@ == crate::programs::spec_token_program_id() && outcomes[1] is Ok
            ==> crate::run::spec_run(spec_process(program_id, accounts, data)->0->Ok_0, outcomes, 0)
            == (Ok::<(), ProgramError>(()), 2nat),
{
    let steps = spec_process(program_id, accounts, data)->0->Ok_0;
    assert(crate::run::spec_run(steps, outcomes, 0) == crate::run::spec_run(steps, outcomes, 1));
    assert(crate::run::spec_run(steps, outcomes, 2) == (Ok::<(), ProgramError>(()), 2nat));
}

/// The arguments are the base-256 digits of the index, then of the amount,
/// each least significant first.
pub proof fn lemma_args_bytes_layout(index: u64, amount: u64)
    ensures
        spec_args_bytes(index, amount).len() == 16,
        spec_args_bytes(index, amount)[0] as int == (index as int / 1) % 256,
        spec_args_bytes(index, amount)[1] as int == (index as int / 256) % 256,
        spec_args_bytes(index, amount)[2] as int == (index as int / 65536) % 256,
        spec_args_bytes(index, amount)[3] as int == (index as int / 16777216) % 256,
        spec_args_bytes(index, amount)[4] as int == (index as int / 4294967296) % 256,
        spec_args_bytes(index, amount)[5] as int == (index as int / 1099511627776) % 256,
        spec_args_bytes(index, amount)[6] as int == (index as int / 281474976710656) % 256,
        spec_args_bytes(index, amount)[7] as int == (index as int / 72057594037927936) % 256,
        spec_args_bytes(index, amount)[8] as int == (amount as int / 1) % 256,
        spec_args_bytes(index, amount)[9] as int == (amount as int / 256) % 256,
        spec_args_bytes(index, amount)[10] as int == (amount as int / 65536) % 256,
        spec_args_bytes(index, amount)[11] as int == (amount as int / 16777216) % 256,
        spec_args_bytes(index, amount)[12] as int == (amount as int / 4294967296) % 256,
        spec_args_bytes(index, amount)[13] as int == (amount as int / 1099511627776) % 256,
        spec_args_bytes(index, amount)[14] as int == (amount as int / 281474976710656) % 256,
        spec_args_bytes(index, amount)[15] as int == (amount as int / 72057594037927936) % 256,
{
    crate::codec::lemma_u64_le_digits(index);
    crate::codec::lemma_u64_le_digits(amount);
    let b = spec_args_bytes(index, amount);
}

/// Reading arguments from 16 bytes gives as the index the number whose
/// base-256 digits, least significant first, are the first eight, and as the
/// amount the one of the last eight; a shorter input runs out and a longer
/// one leaves bytes over.
pub proof fn lemma_args_decode_layout(s: Seq<u8>)
    ensures
        s.len() < 16 ==> spec_args_decode(s) is Err && spec_args_decode(s)->Err_0 == BorshError::UnexpectedLengthOfInput,
        s.len() > 16 ==> spec_args_decode(s) is Err && spec_args_decode(s)->Err_0 == BorshError::NotAllBytesRead,
        s.len() == 16 ==> {
            let r = spec_args_decode(s);
            &&& r is Ok
            &&& r->Ok_0.0 as int == (s[0] as int) * 1 + (s[1] as int) * 256 + (s[2] as int) * 65536 + (s[3] as int) * 16777216 + (s[4] as int) * 4294967296 + (s[5] as int) * 1099511627776 + (s[6] as int) * 281474976710656 + (s[7] as int) * 72057594037927936
            &&& r->Ok_0.1 as int == (s[8] as int) * 1 + (s[9] as int) * 256 + (s[10] as int) * 65536 + (s[11] as int) * 16777216 + (s[12] as int) * 4294967296 + (s[13] as int) * 1099511627776 + (s[14] as int) * 281474976710656 + (s[15] as int) * 72057594037927936
        },
{
    if s.len() == 16 {
        crate::codec::lemma_u64_from_le_value(s.subrange(0, 8));
        crate::codec::lemma_u64_from_le_value(s.subrange(8, 16));
    }
}

} // verus!
