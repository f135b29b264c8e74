//! Identities of the parties, and the role an identity plays toward a vault.

use vstd::prelude::*;

verus! {

/// An opaque, comparable identity: the address of a party as the host
/// environment authenticated it.
#[derive(Clone, Copy, Debug, PartialEq, Eq)]
pub struct Identity {
    bytes: [u8; 32],
}

impl View for Identity {
    type V = Seq<u8>;

    closed spec fn view(&self) -> Seq<u8> {
        self.bytes@
    }
}

impl Identity {
    /// Wraps the 32 bytes of an address.
    pub fn new(bytes: [u8; 32]) -> (id: Identity)
        ensures
            id@ == bytes@,
    {
        Identity { bytes }
    }

    /// The 32 bytes of the address.
    pub fn to_bytes(&self) -> (bytes: [u8; 32])
        ensures
            bytes@ == self@,
    {
        self.bytes
    }

    /// Whether two identities are the same address.
    pub fn same(&self, other: &Identity) -> (equal: bool)
        ensures
            equal == (self@ == other@),
    {
        let mut i: usize = 0;
        while i < 32
            invariant
                i <= 32,
                forall|j: int| 0 <= j < i ==> self.bytes@[j] == other.bytes@[j],
            decreases 32 - i,
        {
            if self.bytes[i] != other.bytes[i] {
                return false;
            }
            i += 1;
        }
        assert(self.bytes@ =~= other.bytes@);
        true
    }
}

/// The part an identity plays toward a vault.
#[derive(Clone, Copy, Debug, PartialEq, Eq, Structural)]
pub enum Role {
    /// The party that funds the vault.
    Buyer,
    /// The party that is paid from the vault.
    Seller,
    /// Any other identity.
    Neither,
}

/// The role of `actor` toward a vault held by `buyer` and `seller`. The buyer
/// is looked for first.
pub open spec fn role_of(buyer: Seq<u8>, seller: Seq<u8>, actor: Seq<u8>) -> Role {
    if actor == buyer {
        Role::Buyer
    } else if actor == seller {
        Role::Seller
    } else {
        Role::Neither
    }
}

/// Decides which of the two parties of a vault `actor` is, if any.
pub fn check_role(buyer: &Identity, seller: &Identity, actor: &Identity) -> (role: Role)
    ensures
        role == role_of(buyer@, seller@, actor@),
{
    if actor.same(buyer) {
        Role::Buyer
    } else if actor.same(seller) {
        Role::Seller
    } else {
        Role::Neither
    }
}

} // verus!
