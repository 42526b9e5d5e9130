use vstd::prelude::*;

verus! {

/// A 256-bit address, held as four 64-bit words.
#[derive(Copy, Clone, Debug, Hash, PartialEq, Eq, Structural)]
pub struct Address {
    pub w0: u64,
    pub w1: u64,
    pub w2: u64,
    pub w3: u64,
}

/// The public key of an account; it is also the account's address.
#[derive(Copy, Clone, Debug, Hash, PartialEq, Eq, Structural)]
pub struct PublicKey {
    pub addr: Address,
}

pub const READ: u8 = 1;
pub const WRITE: u8 = 2;
pub const ADD: u8 = 4;

/// A bit set over READ, WRITE and ADD.
#[derive(Copy, Clone, Debug, Hash, PartialEq, Eq, Structural)]
pub struct AccessRights {
    pub bits: u8,
}

impl AccessRights {
    pub open spec fn spec_contains(self, other: AccessRights) -> bool {
        self.bits & other.bits == other.bits
    }

    pub fn none() -> (r: AccessRights)
        ensures
            r.bits == 0,
    {
        AccessRights { bits: 0 }
    }

    pub fn read() -> (r: AccessRights)
        ensures
            r.bits == READ,
    {
        AccessRights { bits: READ }
    }

    pub fn write() -> (r: AccessRights)
        ensures
            r.bits == WRITE,
    {
        AccessRights { bits: WRITE }
    }

    pub fn add() -> (r: AccessRights)
        ensures
            r.bits == ADD,
    {
        AccessRights { bits: ADD }
    }

    pub fn read_add_write() -> (r: AccessRights)
        ensures
            r.bits == READ | WRITE | ADD,
    {
        AccessRights { bits: READ | WRITE | ADD }
    }

    /// Whether every right in `other` is also in `self`.
    pub fn contains(&self, other: AccessRights) -> (r: bool)
        ensures
            r == self.spec_contains(other),
    {
        self.bits & other.bits == other.bits
    }
}

/// An unforgeable reference: an address together with the rights it grants.
#[derive(Copy, Clone, Debug, Hash, PartialEq, Eq, Structural)]
pub struct URef {
    pub addr: Address,
    pub rights: AccessRights,
}

/// The identifier of a storage slot.
#[derive(Copy, Clone, Debug, Hash, PartialEq, Eq, Structural)]
pub enum Key {
    Account(PublicKey),
    Hash(Address),
    URef(URef),
}

/// The form of a key under which the store files its value: a reference
/// loses its rights, which belong to whoever holds it and not to the slot.
pub open spec fn normalized(k: Key) -> Key {
    match k {
        Key::URef(u) => Key::URef(URef { addr: u.addr, rights: AccessRights { bits: 0 } }),
        _ => k,
    }
}

impl Key {
    pub fn normalize(&self) -> (r: Key)
        ensures
            r == normalized(*self),
    {
        match self {
            Key::URef(u) => Key::URef(URef { addr: u.addr, rights: AccessRights::none() }),
            _ => *self,
        }
    }
}

} // verus!
