//! Instructions addressed to a program: which accounts they name and the
//! bytes they carry.
use vstd::prelude::*;

verus! {

/// One account named by an instruction.
#[derive(Debug)]
pub struct AccountMeta {
    pub pubkey: [u8; 32],
    pub is_signer: bool,
    pub is_writable: bool,
}

/// An instruction for `program_id`.
#[derive(Debug)]
pub struct Instruction {
    pub program_id: [u8; 32],
    pub accounts: Vec<AccountMeta>,
    pub data: Vec<u8>,
}

/// The mathematical value of an `AccountMeta`.
pub struct AccountMetaView {
    pub pubkey: Seq<u8>,
    pub is_signer: bool,
    pub is_writable: bool,
}

impl DeepView for AccountMeta {
    type V = AccountMetaView;

    open spec fn deep_view(&self) -> AccountMetaView {
        AccountMetaView { pubkey: self.pubkey@, is_signer: self.is_signer, is_writable: self.is_writable }
    }
}

impl AccountMeta {
    /// A writable account.
    pub fn new(pubkey: [u8; 32], is_signer: bool) -> (r: AccountMeta)
        ensures
            r.pubkey == pubkey,
            r.is_signer == is_signer,
            r.is_writable,
    {
        AccountMeta { pubkey, is_signer, is_writable: true }
    }

    /// A read-only account.
    pub fn new_readonly(pubkey: [u8; 32], is_signer: bool) -> (r: AccountMeta)
        ensures
            r.pubkey == pubkey,
            r.is_signer == is_signer,
            !r.is_writable,
    {
        AccountMeta { pubkey, is_signer, is_writable: false }
    }
}

} // verus!
