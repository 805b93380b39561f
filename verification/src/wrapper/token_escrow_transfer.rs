//! Moving tokens from one escrow to another: the arguments the transfer
//! processor reads, and the instruction that asks for a transfer.
use vstd::prelude::*;
use crate::codec::{
    lemma_u64_le_inverse, lemma_u64_le_roundtrip, read_key, read_u64_le, spec_fixed_length_check,
    spec_u64_from_le, spec_u64_le, write_discriminant, write_key, write_u64_le,
};
use crate::error::BorshError;
use crate::instruction::{AccountMeta, AccountMetaView, Instruction};
use crate::pda::{find_program_address, spec_find_program_address, spec_token_escrow_seeds, token_escrow_seeds};
use crate::state::TokenEscrow;

verus! {

/// The first eight bytes of a transfer instruction's data.
pub const DISCRIMINANT: [u8; 8] = [0x3B, 0x91, 0x06, 0xC4, 0x7E, 0x52, 0xA8, 0x1D];

/// The arguments of a transfer: `amount` tokens go from the escrow of the
/// signing authority under `source_slot` to the escrow of
/// `destination_authority` under `destination_slot`, both held with
/// `validator` for `token_mint`.
#[derive(Debug)]
pub struct Args {
    pub validator: [u8; 32],
    pub token_mint: [u8; 32],
    pub destination_authority: [u8; 32],
    pub source_slot: u64,
    pub destination_slot: u64,
    pub amount: u64,
}

/// The values of the fields of transfer arguments, in order.
pub type ArgsValue = (Seq<u8>, Seq<u8>, Seq<u8>, u64, u64, u64);

/// The bytes of the arguments.
pub open spec fn spec_args_bytes(a: ArgsValue) -> Seq<u8> {
    a.0 + a.1 + a.2 + spec_u64_le(a.3) + spec_u64_le(a.4) + spec_u64_le(a.5)
}

/// What reading the arguments from `s` gives, or why the bytes do not hold
/// exactly one set.
pub open spec fn spec_args_decode(s: Seq<u8>) -> Result<ArgsValue, BorshError> {
    match spec_fixed_length_check(s.len(), 120) {
        Err(e) => Err(e),
        Ok(_) => Ok(
            (
                s.subrange(0, 32),
                s.subrange(32, 64),
                s.subrange(64, 96),
                spec_u64_from_le(s.subrange(96, 104)),
                spec_u64_from_le(s.subrange(104, 112)),
                spec_u64_from_le(s.subrange(112, 120)),
            ),
        ),
    }
}

/// Reading back written arguments gives the arguments.
pub proof fn lemma_args_roundtrip(a: ArgsValue)
    requires
        a.0.len() == 32,
        a.1.len() == 32,
        a.2.len() == 32,
    ensures
        spec_args_decode(spec_args_bytes(a)) == Ok::<ArgsValue, BorshError>(a),
{
    lemma_u64_le_roundtrip(a.3);
    lemma_u64_le_roundtrip(a.4);
    lemma_u64_le_roundtrip(a.5);
    let s = spec_args_bytes(a);
    assert(s.subrange(0, 32) =~= a.0);
    assert(s.subrange(32, 64) =~= a.1);
    assert(s.subrange(64, 96) =~= a.2);
    assert(s.subrange(96, 104) =~= spec_u64_le(a.3));
    assert(s.subrange(104, 112) =~= spec_u64_le(a.4));
    assert(s.subrange(112, 120) =~= spec_u64_le(a.5));
}

/// Writing back arguments read from `s` gives `s`.
pub proof fn lemma_args_decode_encode(s: Seq<u8>)
    ensures
        spec_args_decode(s) matches Ok(a) ==> spec_args_bytes(a) == s,
{
    if s.len() == 120 {
        lemma_u64_le_inverse(s.subrange(96, 104));
        lemma_u64_le_inverse(s.subrange(104, 112));
        lemma_u64_le_inverse(s.subrange(112, 120));
        assert(s =~= s.subrange(0, 32) + s.subrange(32, 64) + s.subrange(64, 96) + s.subrange(96, 104)
            + s.subrange(104, 112) + s.subrange(112, 120));
    }
}

impl Args {
    /// The values of the fields, in order.
    pub open spec fn value(&self) -> ArgsValue {
        (
            self.validator@,
            self.token_mint@,
            self.destination_authority@,
            self.source_slot,
            self.destination_slot,
            self.amount,
        )
    }

    /// Appends the bytes of the arguments.
    pub fn serialize(&self, out: &mut Vec<u8>)
        ensures
            final(out)@ == old(out)@ + spec_args_bytes(self.value()),
    {
        write_key(out, &self.validator);
        write_key(out, &self.token_mint);
        write_key(out, &self.destination_authority);
        write_u64_le(out, self.source_slot);
        write_u64_le(out, self.destination_slot);
        write_u64_le(out, self.amount);
        assert(final(out)@ =~= old(out)@ + spec_args_bytes(self.value()));
    }

    /// Reads arguments that fill `data` exactly.
    pub fn try_from_slice(data: &[u8]) -> (r: Result<Args, BorshError>)
        ensures
            match r {
                Ok(a) => spec_args_decode(data@) == Ok::<ArgsValue, BorshError>(a.value()),
                Err(b) => spec_args_decode(data@) == Err::<ArgsValue, BorshError>(b),
            },
    {
        if data.len() < 120 {
            return Err(BorshError::UnexpectedLengthOfInput);
        }
        if data.len() > 120 {
            return Err(BorshError::NotAllBytesRead);
        }
        let validator = read_key(data, 0);
        let token_mint = read_key(data, 32);
        let destination_authority = read_key(data, 64);
        let source_slot = read_u64_le(data, 96);
        let destination_slot = read_u64_le(data, 104);
        let amount = read_u64_le(data, 112);
        Ok(Args { validator, token_mint, destination_authority, source_slot, destination_slot, amount })
    }
}

/// The address of the escrow that `authority` holds with `validator` for
/// `token_mint` under `slot`, derived under `program_id`, when the address
/// search finds one.
pub open spec fn spec_escrow_address(
    authority: Seq<u8>,
    validator: Seq<u8>,
    token_mint: Seq<u8>,
    slot: u64,
    program_id: Seq<u8>,
) -> Option<Seq<u8>> {
    match spec_find_program_address(spec_token_escrow_seeds(authority, validator, token_mint, slot), program_id) {
        Some((address, _)) => Some(address),
        None => None,
    }
}

/// The accounts that a transfer instruction names: the source authority
/// (read-only, signing), then the escrow addresses of the source and of the
/// destination (writable). They do not depend on the amount.
pub open spec fn spec_instruction_accounts(
    source_authority: Seq<u8>,
    destination_authority: Seq<u8>,
    validator: Seq<u8>,
    token_mint: Seq<u8>,
    source_slot: u64,
    destination_slot: u64,
) -> Seq<AccountMetaView> {
    seq![
        AccountMetaView { pubkey: source_authority, is_signer: true, is_writable: false },
        AccountMetaView {
            pubkey: spec_escrow_address(source_authority, validator, token_mint, source_slot, crate::wrapper::ID@)->0,
            is_signer: false,
            is_writable: true,
        },
        AccountMetaView {
            pubkey: spec_escrow_address(destination_authority, validator, token_mint, destination_slot, crate::wrapper::ID@)->0,
            is_signer: false,
            is_writable: true,
        },
    ]
}

/// The escrow addresses of transfer instructions are the escrows of their
/// parties: the destination escrow of a transfer to `(b, t)` is the source
/// escrow of a transfer out of `(b, t)`, and a transfer from an escrow to
/// itself names that escrow twice.
pub proof fn lemma_instruction_accounts_name_the_escrows(
    a: Seq<u8>,
    b: Seq<u8>,
    c: Seq<u8>,
    validator: Seq<u8>,
    token_mint: Seq<u8>,
    s: u64,
    t: u64,
    u: u64,
)
    ensures
        spec_instruction_accounts(a, b, validator, token_mint, s, t)[2].pubkey == spec_instruction_accounts(
            b,
            c,
            validator,
            token_mint,
            t,
            u,
        )[1].pubkey,
        spec_instruction_accounts(a, a, validator, token_mint, s, s)[1].pubkey == spec_instruction_accounts(
            a,
            a,
            validator,
            token_mint,
            s,
            s,
        )[2].pubkey,
{
}

/// The transfer instruction for the two escrow addresses found.
fn build_instruction(
    source_authority: &[u8; 32],
    destination_authority: &[u8; 32],
    validator: &[u8; 32],
    token_mint: &[u8; 32],
    source_slot: u64,
    destination_slot: u64,
    amount: u64,
    source_token_escrow_pda: [u8; 32],
    destination_token_escrow_pda: [u8; 32],
) -> (r: Instruction)
    ensures
        r.program_id@ == crate::wrapper::ID@,
        r.accounts.deep_view() == seq![
            AccountMetaView { pubkey: source_authority@, is_signer: true, is_writable: false },
            AccountMetaView { pubkey: source_token_escrow_pda@, is_signer: false, is_writable: true },
            AccountMetaView { pubkey: destination_token_escrow_pda@, is_signer: false, is_writable: true },
        ],
        r.data@ == DISCRIMINANT@ + spec_args_bytes(
            (validator@, token_mint@, destination_authority@, source_slot, destination_slot, amount),
        ),
        r.data@.subrange(0, 8) == DISCRIMINANT@,
        spec_args_decode(r.data@.subrange(8, r.data@.len() as int)) == Ok::<ArgsValue, BorshError>(
            (validator@, token_mint@, destination_authority@, source_slot, destination_slot, amount),
        ),
{
    let program_id = crate::wrapper::ID;
    let mut accounts: Vec<AccountMeta> = Vec::new();
    accounts.push(AccountMeta::new_readonly(*source_authority, true));
    accounts.push(AccountMeta::new(source_token_escrow_pda, false));
    accounts.push(AccountMeta::new(destination_token_escrow_pda, false));
    let mut data: Vec<u8> = Vec::new();
    write_discriminant(&mut data, &DISCRIMINANT);
    let args = Args {
        validator: *validator,
        token_mint: *token_mint,
        destination_authority: *destination_authority,
        source_slot,
        destination_slot,
        amount,
    };
    args.serialize(&mut data);
    proof {
        let a = args.value();
        lemma_args_roundtrip(a);
        assert(data@.subrange(0, 8) =~= DISCRIMINANT@);
        assert(data@.subrange(8, data@.len() as int) =~= spec_args_bytes(a));
        assert(accounts.deep_view() =~= seq![
            AccountMetaView { pubkey: source_authority@, is_signer: true, is_writable: false },
            AccountMetaView { pubkey: source_token_escrow_pda@, is_signer: false, is_writable: true },
            AccountMetaView { pubkey: destination_token_escrow_pda@, is_signer: false, is_writable: true },
        ]);
    }
    Instruction { program_id, accounts, data }
}

/// The instruction asking the wrapper program `crate::wrapper::ID` to move
/// `amount` tokens from the escrow of `source_authority` (number
/// `source_slot`) to the escrow of `destination_authority` (number
/// `destination_slot`), both held with `validator` for `token_mint`.
///
/// It names the accounts of `spec_instruction_accounts`; its data is the
/// transfer tag followed by the arguments, which the processor reads back
/// as they were given.
pub fn instruction(
    source_authority: &[u8; 32],
    destination_authority: &[u8; 32],
    validator: &[u8; 32],
    token_mint: &[u8; 32],
    source_slot: u64,
    destination_slot: u64,
    amount: u64,
) -> (r: Instruction)
    requires
        spec_escrow_address(source_authority@, validator@, token_mint@, source_slot, crate::wrapper::ID@) is Some,
        spec_escrow_address(destination_authority@, validator@, token_mint@, destination_slot, crate::wrapper::ID@) is Some,
    ensures
        r.program_id@ == crate::wrapper::ID@,
        r.accounts.deep_view() == spec_instruction_accounts(
            source_authority@,
            destination_authority@,
            validator@,
            token_mint@,
            source_slot,
            destination_slot,
        ),
        r.data@ == DISCRIMINANT@ + spec_args_bytes(
            (validator@, token_mint@, destination_authority@, source_slot, destination_slot, amount),
        ),
        r.data@.subrange(0, 8) == DISCRIMINANT@,
        spec_args_decode(r.data@.subrange(8, r.data@.len() as int)) == Ok::<ArgsValue, BorshError>(
            (validator@, token_mint@, destination_authority@, source_slot, destination_slot, amount),
        ),
{
    let program_id = crate::wrapper::ID;
    let source_token_escrow_pda = TokenEscrow::generate_pda(
        source_authority,
        validator,
        token_mint,
        source_slot,
        &program_id,
    );
    let destination_token_escrow_pda = TokenEscrow::generate_pda(
        destination_authority,
        validator,
        token_mint,
        destination_slot,
        &program_id,
    );
    let r = build_instruction(
        source_authority,
        destination_authority,
        validator,
        token_mint,
        source_slot,
        destination_slot,
        amount,
        source_token_escrow_pda,
        destination_token_escrow_pda,
    );
    assert(r.accounts.deep_view() =~= spec_instruction_accounts(
        source_authority@,
        destination_authority@,
        validator@,
        token_mint@,
        source_slot,
        destination_slot,
    ));
    r
}

/// The transfer instruction of `instruction`, or `None` when the address
/// search finds no address for one of the two escrows (where building the
/// instruction aborts); each address is searched for once.
pub fn checked_instruction(
    source_authority: &[u8; 32],
    destination_authority: &[u8; 32],
    validator: &[u8; 32],
    token_mint: &[u8; 32],
    source_slot: u64,
    destination_slot: u64,
    amount: u64,
) -> (r: Option<Instruction>)
    ensures
        r is None <==> (spec_escrow_address(source_authority@, validator@, token_mint@, source_slot, crate::wrapper::ID@) is None
            || spec_escrow_address(destination_authority@, validator@, token_mint@, destination_slot, crate::wrapper::ID@) is None),
        r matches Some(ix) ==> {
            &&& ix.program_id@ == crate::wrapper::ID@
            &&& ix.accounts.deep_view() == spec_instruction_accounts(
                source_authority@,
                destination_authority@,
                validator@,
                token_mint@,
                source_slot,
                destination_slot,
            )
            &&& ix.data@ == DISCRIMINANT@ + spec_args_bytes(
                (validator@, token_mint@, destination_authority@, source_slot, destination_slot, amount),
            )
            &&& ix.data@.subrange(0, 8) == DISCRIMINANT@
            &&& spec_args_decode(ix.data@.subrange(8, ix.data@.len() as int)) == Ok::<ArgsValue, BorshError>(
                (validator@, token_mint@, destination_authority@, source_slot, destination_slot, amount),
            )
        },
{
    let program_id = crate::wrapper::ID;
    let source_seeds = token_escrow_seeds(source_authority, validator, token_mint, source_slot);
    let source_token_escrow_pda = match find_program_address(&source_seeds, &program_id) {
        Some((address, _)) => address,
        None => return None,
    };
    let destination_seeds = token_escrow_seeds(destination_authority, validator, token_mint, destination_slot);
    let destination_token_escrow_pda = match find_program_address(&destination_seeds, &program_id) {
        Some((address, _)) => address,
        None => return None,
    };
    let r = build_instruction(
        source_authority,
        destination_authority,
        validator,
        token_mint,
        source_slot,
        destination_slot,
        amount,
        source_token_escrow_pda,
        destination_token_escrow_pda,
    );
    assert(r.accounts.deep_view() =~= spec_instruction_accounts(
        source_authority@,
        destination_authority@,
        validator@,
        token_mint@,
        source_slot,
        destination_slot,
    ));
    Some(r)
}

/// The arguments are the validator, the token mint and the destination
/// authority, each byte for byte, then the base-256 digits of the source
/// slot, the destination slot and the amount, each least significant first.
pub proof fn lemma_args_bytes_layout(a: ArgsValue)
    requires
        a.0.len() == 32,
        a.1.len() == 32,
        a.2.len() == 32,
    ensures
        spec_args_bytes(a).len() == 120,
        forall|i: int| 0 <= i < 32 ==> #[trigger] spec_args_bytes(a)[0 + i] == a.0[i],
        forall|i: int| 0 <= i < 32 ==> #[trigger] spec_args_bytes(a)[32 + i] == a.1[i],
        forall|i: int| 0 <= i < 32 ==> #[trigger] spec_args_bytes(a)[64 + i] == a.2[i],
        spec_args_bytes(a)[96] as int == (a.3 as int / 1) % 256,
        spec_args_bytes(a)[97] as int == (a.3 as int / 256) % 256,
        spec_args_bytes(a)[98] as int == (a.3 as int / 65536) % 256,
        spec_args_bytes(a)[99] as int == (a.3 as int / 16777216) % 256,
        spec_args_bytes(a)[100] as int == (a.3 as int / 4294967296) % 256,
        spec_args_bytes(a)[101] as int == (a.3 as int / 1099511627776) % 256,
        spec_args_bytes(a)[102] as int == (a.3 as int / 281474976710656) % 256,
        spec_args_bytes(a)[103] as int == (a.3 as int / 72057594037927936) % 256,
        spec_args_bytes(a)[104] as int == (a.4 as int / 1) % 256,
        spec_args_bytes(a)[105] as int == (a.4 as int / 256) % 256,
        spec_args_bytes(a)[106] as int == (a.4 as int / 65536) % 256,
        spec_args_bytes(a)[107] as int == (a.4 as int / 16777216) % 256,
        spec_args_bytes(a)[108] as int == (a.4 as int / 4294967296) % 256,
        spec_args_bytes(a)[109] as int == (a.4 as int / 1099511627776) % 256,
        spec_args_bytes(a)[110] as int == (a.4 as int / 281474976710656) % 256,
        spec_args_bytes(a)[111] as int == (a.4 as int / 72057594037927936) % 256,
        spec_args_bytes(a)[112] as int == (a.5 as int / 1) % 256,
        spec_args_bytes(a)[113] as int == (a.5 as int / 256) % 256,
        spec_args_bytes(a)[114] as int == (a.5 as int / 65536) % 256,
        spec_args_bytes(a)[115] as int == (a.5 as int / 16777216) % 256,
        spec_args_bytes(a)[116] as int == (a.5 as int / 4294967296) % 256,
        spec_args_bytes(a)[117] as int == (a.5 as int / 1099511627776) % 256,
        spec_args_bytes(a)[118] as int == (a.5 as int / 281474976710656) % 256,
        spec_args_bytes(a)[119] as int == (a.5 as int / 72057594037927936) % 256,
{
    crate::codec::lemma_u64_le_digits(a.3);
    crate::codec::lemma_u64_le_digits(a.4);
    crate::codec::lemma_u64_le_digits(a.5);
    let b = spec_args_bytes(a);
    assert forall|i: int| 0 <= i < 32 implies #[trigger] b[0 + i] == a.0[i] by {}
    assert forall|i: int| 0 <= i < 32 implies #[trigger] b[32 + i] == a.1[i] by {}
    assert forall|i: int| 0 <= i < 32 implies #[trigger] b[64 + i] == a.2[i] by {}
}

/// Reading arguments from 120 bytes gives bytes 0..32 as the validator, 32..64
/// as the token mint and 64..96 as the destination authority, byte for byte,
/// and as the source slot, the destination slot and the amount the numbers
/// whose base-256 digits, least significant first, are bytes 96..104,
/// 104..112 and 112..120; a shorter input runs out and a longer one leaves
/// bytes over.
pub proof fn lemma_args_decode_layout(s: Seq<u8>)
    ensures
        s.len() < 120 ==> spec_args_decode(s) is Err && spec_args_decode(s)->Err_0 == BorshError::UnexpectedLengthOfInput,
        s.len() > 120 ==> spec_args_decode(s) is Err && spec_args_decode(s)->Err_0 == BorshError::NotAllBytesRead,
        s.len() == 120 ==> {
            let r = spec_args_decode(s);
            &&& r is Ok
            &&& r->Ok_0.0.len() == 32
            &&& forall|i: int| 0 <= i < 32 ==> #[trigger] r->Ok_0.0[i] == s[0 + i]
            &&& r->Ok_0.1.len() == 32
            &&& forall|i: int| 0 <= i < 32 ==> #[trigger] r->Ok_0.1[i] == s[32 + i]
            &&& r->Ok_0.2.len() == 32
            &&& forall|i: int| 0 <= i < 32 ==> #[trigger] r->Ok_0.2[i] == s[64 + i]
            &&& r->Ok_0.3 as int == (s[96] as int) * 1 + (s[97] as int) * 256 + (s[98] as int) * 65536 + (s[99] as int) * 16777216 + (s[100] as int) * 4294967296 + (s[101] as int) * 1099511627776 + (s[102] as int) * 281474976710656 + (s[103] as int) * 72057594037927936
            &&& r->Ok_0.4 as int == (s[104] as int) * 1 + (s[105] as int) * 256 + (s[106] as int) * 65536 + (s[107] as int) * 16777216 + (s[108] as int) * 4294967296 + (s[109] as int) * 1099511627776 + (s[110] as int) * 281474976710656 + (s[111] as int) * 72057594037927936
            &&& r->Ok_0.5 as int == (s[112] as int) * 1 + (s[113] as int) * 256 + (s[114] as int) * 65536 + (s[115] as int) * 16777216 + (s[116] as int) * 4294967296 + (s[117] as int) * 1099511627776 + (s[118] as int) * 281474976710656 + (s[119] as int) * 72057594037927936
        },
{
    if s.len() == 120 {
        crate::codec::lemma_u64_from_le_value(s.subrange(96, 104));
        crate::codec::lemma_u64_from_le_value(s.subrange(104, 112));
        crate::codec::lemma_u64_from_le_value(s.subrange(112, 120));
    }
}


/// A transfer instruction names, in order: the source authority, signing
/// and read-only; then the escrow of the source authority under the source
/// slot and the escrow of the destination authority under the destination
/// slot, both writable and not signing, each at the address the address
/// search finds for its escrow seeds under the wrapper program.
pub proof fn lemma_instruction_accounts_layout(
    source_authority: Seq<u8>,
    destination_authority: Seq<u8>,
    validator: Seq<u8>,
    token_mint: Seq<u8>,
    source_slot: u64,
    destination_slot: u64,
)
    ensures
        ({
            let accounts = spec_instruction_accounts(
                source_authority,
                destination_authority,
                validator,
                token_mint,
                source_slot,
                destination_slot,
            );
            &&& accounts.len() == 3
            &&& accounts[0].pubkey == source_authority
            &&& accounts[0].is_signer
            &&& !accounts[0].is_writable
            &&& !accounts[1].is_signer
            &&& accounts[1].is_writable
            &&& !accounts[2].is_signer
            &&& accounts[2].is_writable
            &&& spec_find_program_address(
                spec_token_escrow_seeds(source_authority, validator, token_mint, source_slot),
                crate::wrapper::ID@,
            ) matches Some((address, _)) ==> accounts[1].pubkey == address
            &&& spec_find_program_address(
                spec_token_escrow_seeds(destination_authority, validator, token_mint, destination_slot),
                crate::wrapper::ID@,
            ) matches Some((address, _)) ==> accounts[2].pubkey == address
        }),
{
}

} // verus!
