//! The Metadata Record kept for each coupon mint, and the request that
//! creates it.

use vstd::prelude::*;

use crate::address::Address;
use crate::defs::{
    BUMP_SIZE, DISCRIMINATOR_SIZE, GEO_SIZE, KEY_SIZE, NAME_SIZE, REGION_SIZE, SYMBOL_SIZE,
    URI_SIZE,
};

verus! {

/// A request to create a Metadata Record for a coupon mint: the mint the
/// record describes, and the identities signing and funding the request.
pub struct CreateCouponMint {
    pub mint: Address,
    pub payer: Address,
    pub signer: Address,
}

/// A Metadata Record: one per coupon mint, at an address that is a pure
/// function of the mint's address.
pub struct CouponMetadata {
    pub mint: Address,
    pub name: Vec<u8>,
    pub symbol: Vec<u8>,
    pub uri: Vec<u8>,
    pub region: Vec<u8>,
    pub geo: Vec<u8>,
    pub bump: u8,
}

/// The mathematical value of a Metadata Record.
pub struct CouponMetadataView {
    pub mint: Seq<u8>,
    pub name: Seq<u8>,
    pub symbol: Seq<u8>,
    pub uri: Seq<u8>,
    pub region: Seq<u8>,
    pub geo: Seq<u8>,
    pub bump: u8,
}

impl View for CouponMetadata {
    type V = CouponMetadataView;

    open spec fn view(&self) -> CouponMetadataView {
        CouponMetadataView {
            mint: self.mint@,
            name: self.name@,
            symbol: self.symbol@,
            uri: self.uri@,
            region: self.region@,
            geo: self.geo@,
            bump: self.bump,
        }
    }
}

/// Exact storage size in bytes of a Metadata Record: discriminator, mint
/// key, bounded name, symbol and uri, region, bounded geo, bump.
pub open spec fn coupon_metadata_len() -> int {
    DISCRIMINATOR_SIZE + KEY_SIZE + NAME_SIZE + SYMBOL_SIZE + URI_SIZE + REGION_SIZE + GEO_SIZE
        + BUMP_SIZE
}

impl CouponMetadata {
    /// Exact storage size in bytes to allocate for a Metadata Record.
    pub fn len() -> (n: usize)
        ensures
            n == coupon_metadata_len(),
    {
        DISCRIMINATOR_SIZE + KEY_SIZE + NAME_SIZE + SYMBOL_SIZE + URI_SIZE + REGION_SIZE
            + GEO_SIZE + BUMP_SIZE
    }
}

} // verus!
