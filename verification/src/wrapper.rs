//! The wrapper program: creating token escrows and moving tokens between
//! them.
use vstd::prelude::*;

pub mod create;
pub mod token_escrow_create;
pub mod token_escrow_transfer;

verus! {

/// The address of the wrapper program.
pub const ID: [u8; 32] = [
    200, 102, 205, 116, 137, 243, 15, 39, 23, 110, 178, 212, 137, 143, 62, 128,
    144, 7, 36, 187, 32, 57, 99, 15, 32, 127, 1, 29, 21, 80, 10, 230,
];

} // verus!
