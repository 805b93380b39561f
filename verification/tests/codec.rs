use borsh::BorshDeserialize;
use ephemeral_rollups::bridge::token_escrow_withdraw;
use ephemeral_rollups::codec::{keys_equal, read_key, read_u64_le, write_key, write_u64_le};
use ephemeral_rollups::error::BorshError;
use ephemeral_rollups::state::TokenEscrow;
use ephemeral_rollups::wrapper::{token_escrow_create, token_escrow_transfer};

#[test]
fn u64_bytes_are_little_endian() {
    let mut out = Vec::new();
    write_u64_le(&mut out, 0x0102_0304_0506_0708);
    assert_eq!(out, vec![8, 7, 6, 5, 4, 3, 2, 1]);
    assert_eq!(out, borsh::to_vec(&0x0102_0304_0506_0708u64).unwrap());
    assert_eq!(read_u64_le(&out, 0), 0x0102_0304_0506_0708);
    let mut max = Vec::new();
    write_u64_le(&mut max, u64::MAX);
    assert_eq!(max, vec![0xff; 8]);
    assert_eq!(read_u64_le(&[9, 1, 0, 0, 0, 0, 0, 0, 0], 1), 1);
}

#[test]
fn keys_are_copied_verbatim() {
    let key: [u8; 32] = core::array::from_fn(|i| i as u8 * 3);
    let mut out = vec![0xaa];
    write_key(&mut out, &key);
    assert_eq!(out.len(), 33);
    assert_eq!(&out[1..], &key[..]);
    assert_eq!(read_key(&out, 1), key);
    assert!(keys_equal(&key, &key));
    let mut other = key;
    other[31] ^= 1;
    assert!(!keys_equal(&key, &other));
}

#[test]
fn withdraw_args_match_borsh() {
    let args = token_escrow_withdraw::Args { index: 42, amount: 1_000_000 };
    let mut out = Vec::new();
    args.serialize(&mut out);
    assert_eq!(out, borsh::to_vec(&(42u64, 1_000_000u64)).unwrap());
    let back = token_escrow_withdraw::Args::try_from_slice(&out).unwrap();
    assert_eq!(back.index, 42);
    assert_eq!(back.amount, 1_000_000);
}

#[test]
fn withdraw_args_length_errors_match_borsh() {
    let short = [0u8; 15];
    assert!(matches!(
        token_escrow_withdraw::Args::try_from_slice(&short),
        Err(BorshError::UnexpectedLengthOfInput)
    ));
    let borsh_short = <(u64, u64)>::try_from_slice(&short).unwrap_err();
    assert_eq!(borsh_short.to_string(), "Unexpected length of input");
    let long = [0u8; 17];
    assert!(matches!(
        token_escrow_withdraw::Args::try_from_slice(&long),
        Err(BorshError::NotAllBytesRead)
    ));
    let borsh_long = <(u64, u64)>::try_from_slice(&long).unwrap_err();
    assert_eq!(borsh_long.to_string(), "Not all bytes read");
    assert!(token_escrow_withdraw::Args::try_from_slice(&[]).is_err());
}

#[test]
fn create_args_match_borsh() {
    let args = token_escrow_create::Args {
        authority: [1; 32],
        validator: [2; 32],
        token_mint: [3; 32],
        slot: 7,
    };
    let mut out = Vec::new();
    args.serialize(&mut out);
    assert_eq!(out.len(), 104);
    assert_eq!(out, borsh::to_vec(&([1u8; 32], [2u8; 32], [3u8; 32], 7u64)).unwrap());
    let back = token_escrow_create::Args::try_from_slice(&out).unwrap();
    assert_eq!(back.authority, [1; 32]);
    assert_eq!(back.validator, [2; 32]);
    assert_eq!(back.token_mint, [3; 32]);
    assert_eq!(back.slot, 7);
    assert!(matches!(
        token_escrow_create::Args::try_from_slice(&out[..103]),
        Err(BorshError::UnexpectedLengthOfInput)
    ));
    out.push(0);
    assert!(matches!(
        token_escrow_create::Args::try_from_slice(&out),
        Err(BorshError::NotAllBytesRead)
    ));
}

#[test]
fn transfer_args_match_borsh() {
    let args = token_escrow_transfer::Args {
        validator: [4; 32],
        token_mint: [5; 32],
        destination_authority: [6; 32],
        source_slot: 1,
        destination_slot: 2,
        amount: 3,
    };
    let mut out = Vec::new();
    args.serialize(&mut out);
    assert_eq!(
        out,
        borsh::to_vec(&([4u8; 32], [5u8; 32], [6u8; 32], 1u64, 2u64, 3u64)).unwrap()
    );
    let back = token_escrow_transfer::Args::try_from_slice(&out).unwrap();
    assert_eq!(back.destination_authority, [6; 32]);
    assert_eq!(back.source_slot, 1);
    assert_eq!(back.destination_slot, 2);
    assert_eq!(back.amount, 3);
    assert!(token_escrow_transfer::Args::try_from_slice(&out[..119]).is_err());
}

#[test]
fn token_escrow_record_layout() {
    assert_eq!(TokenEscrow::space(), 16);
    assert_eq!(&TokenEscrow::discriminant(), b"TKESCROW");
    let escrow = TokenEscrow { discriminant: TokenEscrow::discriminant(), amount: 500 };
    let mut out = Vec::new();
    escrow.serialize(&mut out);
    assert_eq!(out, borsh::to_vec(&(*b"TKESCROW", 500u64)).unwrap());
    let back = TokenEscrow::try_from_slice(&out).unwrap();
    assert_eq!(back.discriminant, *b"TKESCROW");
    assert_eq!(back.amount, 500);
    assert!(matches!(
        TokenEscrow::try_from_slice(&out[..8]),
        Err(BorshError::UnexpectedLengthOfInput)
    ));
    out.extend_from_slice(&[0; 4]);
    assert!(matches!(TokenEscrow::try_from_slice(&out), Err(BorshError::NotAllBytesRead)));
}
