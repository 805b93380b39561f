//! The bridge program: withdrawing escrowed tokens back out of the vault.
pub mod create;
pub mod token_escrow_withdraw;
