use vstd::prelude::*;

verus! {

/// Whether an address names an account (an ed25519 public key) or a contract.
#[derive(Clone, Copy, Debug, PartialEq, Eq, Hash, Structural)]
pub enum AddressKind {
    Account,
    Contract,
}

/// A ledger identity: its kind and its 32-byte key, split into two words.
#[derive(Clone, Copy, Debug, PartialEq, Eq, Hash, Structural)]
pub struct Address {
    pub kind: AddressKind,
    pub key_hi: u128,
    pub key_lo: u128,
}

impl Address {
    pub fn new(kind: AddressKind, key_hi: u128, key_lo: u128) -> (r: Address)
        ensures
            r.kind == kind,
            r.key_hi == key_hi,
            r.key_lo == key_lo,
    {
        Address { kind, key_hi, key_lo }
    }
}

} // verus!
