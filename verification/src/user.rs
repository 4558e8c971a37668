//! The Identity Record and the requests that touch it.

use vstd::prelude::*;

use crate::address::Address;
use crate::defs::{BUMP_SIZE, DISCRIMINATOR_SIZE, REGION_SIZE, URI_SIZE};

verus! {

/// A request to create an Identity Record: the identity that will own the
/// record, and the identity that funds its storage (the two may differ).
pub struct CreateUser {
    pub payer: Address,
    pub signer: Address,
}

/// A request to update an Identity Record; only the record's own identity
/// may succeed.
pub struct UpdateUser {
    pub payer: Address,
    pub signer: Address,
}

/// An Identity Record: one per signer identity, at an address that is a pure
/// function of that identity's public key.
pub struct User {
    pub region: Vec<u8>,
    pub uri: Vec<u8>,
    pub geo: Vec<u8>,
    pub two_factor: Vec<u8>,
    pub bump: u8,
}

/// The mathematical value of an Identity Record.
pub struct UserView {
    pub region: Seq<u8>,
    pub uri: Seq<u8>,
    pub geo: Seq<u8>,
    pub two_factor: Seq<u8>,
    pub bump: u8,
}

impl View for User {
    type V = UserView;

    open spec fn view(&self) -> UserView {
        UserView {
            region: self.region@,
            uri: self.uri@,
            geo: self.geo@,
            two_factor: self.two_factor@,
            bump: self.bump,
        }
    }
}

/// Exact storage size in bytes of an Identity Record: discriminator, region,
/// bounded uri, bump.
pub open spec fn user_record_len() -> int {
    DISCRIMINATOR_SIZE + REGION_SIZE + URI_SIZE + BUMP_SIZE
}

impl User {
    /// Exact storage size in bytes to allocate for an Identity Record.
    pub fn len() -> (n: usize)
        ensures
            n == user_record_len(),
    {
        DISCRIMINATOR_SIZE + REGION_SIZE + URI_SIZE + BUMP_SIZE
    }
}

} // verus!
