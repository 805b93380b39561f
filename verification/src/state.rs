//! The escrow account: which record it holds and where it lives.
use vstd::prelude::*;
use crate::codec::{
    read_discriminant, read_u64_le, spec_fixed_length_check, spec_u64_from_le, spec_u64_le,
    write_discriminant, write_u64_le, lemma_u64_le_inverse, lemma_u64_le_roundtrip,
};
use crate::error::BorshError;
use crate::pda::{find_program_address, spec_find_program_address, spec_token_escrow_seeds, token_escrow_seeds};

verus! {

/// The record held in the data of an escrow account: a tag that marks the
/// account as an escrow, and the number of tokens the escrow holds.
#[derive(Debug)]
pub struct TokenEscrow {
    pub discriminant: [u8; 8],
    pub amount: u64,
}

/// The tag of an escrow record (the ASCII bytes `TKESCROW`).
pub open spec fn spec_token_escrow_discriminant() -> Seq<u8> {
    seq![0x54u8, 0x4B, 0x45, 0x53, 0x43, 0x52, 0x4F, 0x57]
}

/// The number of bytes of an escrow record.
pub open spec fn spec_token_escrow_space() -> nat {
    16
}

/// The bytes of the escrow record with tag `discriminant` and `amount`.
pub open spec fn spec_token_escrow_bytes(discriminant: Seq<u8>, amount: u64) -> Seq<u8> {
    discriminant + spec_u64_le(amount)
}

/// What reading an escrow record from `s` gives: its tag and amount, or why
/// the bytes do not hold exactly one record.
pub open spec fn spec_token_escrow_decode(s: Seq<u8>) -> Result<(Seq<u8>, u64), BorshError> {
    match spec_fixed_length_check(s.len(), spec_token_escrow_space()) {
        Err(e) => Err(e),
        Ok(_) => Ok((s.subrange(0, 8), spec_u64_from_le(s.subrange(8, 16)))),
    }
}

/// Reading back a written escrow record gives the record.
pub proof fn lemma_token_escrow_roundtrip(discriminant: Seq<u8>, amount: u64)
    requires
        discriminant.len() == 8,
    ensures
        spec_token_escrow_decode(spec_token_escrow_bytes(discriminant, amount)) == Ok::<
            (Seq<u8>, u64),
            BorshError,
        >((discriminant, amount)),
{
    lemma_u64_le_roundtrip(amount);
    let s = spec_token_escrow_bytes(discriminant, amount);
    assert(s.subrange(0, 8) =~= discriminant);
    assert(s.subrange(8, 16) =~= spec_u64_le(amount));
}

/// Writing back a record read from `s` gives `s`.
pub proof fn lemma_token_escrow_decode_encode(s: Seq<u8>)
    ensures
        spec_token_escrow_decode(s) matches Ok((discriminant, amount)) ==> spec_token_escrow_bytes(
            discriminant,
            amount,
        ) == s,
{
    if s.len() == 16 {
        lemma_u64_le_inverse(s.subrange(8, 16));
        assert(s =~= s.subrange(0, 8) + s.subrange(8, 16));
    }
}

impl TokenEscrow {
    /// The tag of an escrow record.
    pub fn discriminant() -> (r: [u8; 8])
        ensures
            r@ == spec_token_escrow_discriminant(),
    {
        let r: [u8; 8] = [0x54u8, 0x4B, 0x45, 0x53, 0x43, 0x52, 0x4F, 0x57];
        assert(r@ =~= spec_token_escrow_discriminant());
        r
    }

    /// The number of bytes of an escrow record.
    pub fn space() -> (r: usize)
        ensures
            r == spec_token_escrow_space(),
    {
        16
    }

    /// Appends the bytes of the record.
    pub fn serialize(&self, out: &mut Vec<u8>)
        ensures
            final(out)@ == old(out)@ + spec_token_escrow_bytes(self.discriminant@, self.amount),
    {
        write_discriminant(out, &self.discriminant);
        write_u64_le(out, self.amount);
        assert(final(out)@ =~= old(out)@ + spec_token_escrow_bytes(self.discriminant@, self.amount));
    }

    /// Reads a record that fills `data` exactly.
    pub fn try_from_slice(data: &[u8]) -> (r: Result<TokenEscrow, BorshError>)
        ensures
            match r {
                Ok(e) => spec_token_escrow_decode(data@) == Ok::<(Seq<u8>, u64), BorshError>(
                    (e.discriminant@, e.amount),
                ),
                Err(b) => spec_token_escrow_decode(data@) == Err::<(Seq<u8>, u64), BorshError>(b),
            },
    {
        if data.len() < 16 {
            return Err(BorshError::UnexpectedLengthOfInput);
        }
        if data.len() > 16 {
            return Err(BorshError::NotAllBytesRead);
        }
        let discriminant = read_discriminant(data, 0);
        let amount = read_u64_le(data, 8);
        Ok(TokenEscrow { discriminant, amount })
    }

    /// The address of the escrow that `authority` holds with `validator` for
    /// `token_mint` under number `slot`, derived under `program_id`.
    pub fn generate_pda(
        authority: &[u8; 32],
        validator: &[u8; 32],
        token_mint: &[u8; 32],
        slot: u64,
        program_id: &[u8; 32],
    ) -> (r: [u8; 32])
        requires
            spec_find_program_address(
                spec_token_escrow_seeds(authority@, validator@, token_mint@, slot),
                program_id@,
            ) is Some,
        ensures
            spec_find_program_address(
                spec_token_escrow_seeds(authority@, validator@, token_mint@, slot),
                program_id@,
            ) matches Some((address, _)) && r@ == address,
    {
        let seeds = token_escrow_seeds(authority, validator, token_mint, slot);
        find_program_address(&seeds, program_id).unwrap().0
    }
}

/// An escrow record is its tag, byte for byte, followed by the base-256 digits
/// of its amount, least significant first.
pub proof fn lemma_token_escrow_bytes_layout(discriminant: Seq<u8>, amount: u64)
    requires
        discriminant.len() == 8,
    ensures
        spec_token_escrow_bytes(discriminant, amount).len() == 16,
        forall|i: int| 0 <= i < 8 ==> #[trigger] spec_token_escrow_bytes(discriminant, amount)[0 + i] == discriminant[i],
        spec_token_escrow_bytes(discriminant, amount)[8] as int == (amount as int / 1) % 256,
        spec_token_escrow_bytes(discriminant, amount)[9] as int == (amount as int / 256) % 256,
        spec_token_escrow_bytes(discriminant, amount)[10] as int == (amount as int / 65536) % 256,
        spec_token_escrow_bytes(discriminant, amount)[11] as int == (amount as int / 16777216) % 256,
        spec_token_escrow_bytes(discriminant, amount)[12] as int == (amount as int / 4294967296) % 256,
        spec_token_escrow_bytes(discriminant, amount)[13] as int == (amount as int / 1099511627776) % 256,
        spec_token_escrow_bytes(discriminant, amount)[14] as int == (amount as int / 281474976710656) % 256,
        spec_token_escrow_bytes(discriminant, amount)[15] as int == (amount as int / 72057594037927936) % 256,
{
    crate::codec::lemma_u64_le_digits(amount);
    let b = spec_token_escrow_bytes(discriminant, amount);
    assert forall|i: int| 0 <= i < 8 implies #[trigger] b[0 + i] == discriminant[i] by {}
}

/// Reading an escrow record from 16 bytes gives the first eight as the tag,
/// byte for byte, and as the amount the number whose base-256 digits, least
/// significant first, are the last eight; a shorter input runs out and a
/// longer one leaves bytes over.
pub proof fn lemma_token_escrow_decode_layout(s: Seq<u8>)
    ensures
        s.len() < 16 ==> spec_token_escrow_decode(s) is Err && spec_token_escrow_decode(s)->Err_0 == BorshError::UnexpectedLengthOfInput,
        s.len() > 16 ==> spec_token_escrow_decode(s) is Err && spec_token_escrow_decode(s)->Err_0 == BorshError::NotAllBytesRead,
        s.len() == 16 ==> {
            let r = spec_token_escrow_decode(s);
            &&& r is Ok
            &&& r->Ok_0.0.len() == 8
            &&& forall|i: int| 0 <= i < 8 ==> #[trigger] r->Ok_0.0[i] == s[0 + i]
            &&& r->Ok_0.1 as int == (s[8] as int) * 1 + (s[9] as int) * 256 + (s[10] as int) * 65536 + (s[11] as int) * 16777216 + (s[12] as int) * 4294967296 + (s[13] as int) * 1099511627776 + (s[14] as int) * 281474976710656 + (s[15] as int) * 72057594037927936
        },
{
    if s.len() == 16 {
        crate::codec::lemma_u64_from_le_value(s.subrange(8, 16));
    }
}

} // verus!
