//! Deterministic account addressing and initialization for per-identity and
//! per-asset records: exact layout sizing, program-derived addresses with a
//! disambiguation bump, idempotent slot creation, and authorization by
//! re-derivation.

use vstd::prelude::*;

pub mod address;
pub mod coupon;
pub mod defs;
pub mod layout;
pub mod ledger;
pub mod user;

pub use address::Address;
pub use defs::ChristmasError;

use address::{
    addr_eq, address_to_vec, canonical_bump, copy_bytes, derivable, derived_address, digest_of,
    key_views, seed_seq, sha256_digest,
};
use coupon::{coupon_metadata_len, CouponMetadata, CouponMetadataView, CreateCouponMint};
use ledger::{Ledger, Record, RecordView, Slot, SlotView};
use user::{user_record_len, CreateUser, UpdateUser, User, UserView};

verus! {

/// The seed tag under which Identity Record addresses are derived: the
/// bytes of "identity".
pub open spec fn identity_tag() -> Seq<u8> {
    seq![105u8, 100u8, 101u8, 110u8, 116u8, 105u8, 116u8, 121u8]
}

/// The seed tag under which Metadata Record addresses are derived: the
/// bytes of "metadata".
pub open spec fn metadata_tag() -> Seq<u8> {
    seq![109u8, 101u8, 116u8, 97u8, 100u8, 97u8, 116u8, 97u8]
}

/// The identity seed tag as bytes.
pub fn identity_tag_bytes() -> (v: Vec<u8>)
    ensures
        v@ == identity_tag(),
{
    let mut v: Vec<u8> = Vec::new();
    v.push(105);
    v.push(100);
    v.push(101);
    v.push(110);
    v.push(116);
    v.push(105);
    v.push(116);
    v.push(121);
    proof {
        assert(v@ =~= identity_tag());
    }
    v
}

/// The metadata seed tag as bytes.
pub fn metadata_tag_bytes() -> (v: Vec<u8>)
    ensures
        v@ == metadata_tag(),
{
    let mut v: Vec<u8> = Vec::new();
    v.push(109);
    v.push(101);
    v.push(116);
    v.push(97);
    v.push(100);
    v.push(97);
    v.push(116);
    v.push(97);
    proof {
        assert(v@ =~= metadata_tag());
    }
    v
}

/// The full derivation seeds of an Identity Record: the identity tag, then
/// the signer's public key.
pub open spec fn user_seeds(signer: Seq<u8>) -> Seq<Seq<u8>> {
    seed_seq(identity_tag(), seq![signer])
}

/// Whether an Identity Record address exists for this signer.
pub open spec fn user_derivable(signer: Seq<u8>, program: Seq<u8>) -> bool {
    derivable(user_seeds(signer), program)
}

/// The bump of the signer's Identity Record address.
pub open spec fn user_bump(signer: Seq<u8>, program: Seq<u8>) -> u8 {
    canonical_bump(user_seeds(signer), program)
}

/// The address of the signer's Identity Record: a pure function of the
/// signer's public key (and the program id), never of the payer.
pub open spec fn user_address(signer: Seq<u8>, program: Seq<u8>) -> Seq<u8> {
    derived_address(user_seeds(signer), program)
}

/// The full derivation seeds of a Metadata Record: the metadata tag, then
/// the mint's address.
pub open spec fn coupon_seeds(mint: Seq<u8>) -> Seq<Seq<u8>> {
    seed_seq(metadata_tag(), seq![mint])
}

/// Whether a Metadata Record address exists for this mint.
pub open spec fn coupon_derivable(mint: Seq<u8>, program: Seq<u8>) -> bool {
    derivable(coupon_seeds(mint), program)
}

/// The bump of the mint's Metadata Record address.
pub open spec fn coupon_bump(mint: Seq<u8>, program: Seq<u8>) -> u8 {
    canonical_bump(coupon_seeds(mint), program)
}

/// The address of the mint's Metadata Record: a pure function of the mint's
/// address (and the program id).
pub open spec fn coupon_address(mint: Seq<u8>, program: Seq<u8>) -> Seq<u8> {
    derived_address(coupon_seeds(mint), program)
}

/// The Identity Record that creation writes: the submitted region and geo
/// verbatim, an empty uri, the digest of the signer's key followed by the
/// private input, and the derivation's bump.
pub open spec fn created_user(
    signer: Seq<u8>,
    email: Seq<u8>,
    region: Seq<u8>,
    geo: Seq<u8>,
    program: Seq<u8>,
) -> UserView {
    UserView {
        region: region,
        uri: Seq::empty(),
        geo: geo,
        two_factor: digest_of(signer + email),
        bump: user_bump(signer, program),
    }
}

/// The Metadata Record that creation writes: every descriptive field
/// verbatim, and the derivation's bump.
pub open spec fn created_coupon(
    mint: Seq<u8>,
    name: Seq<u8>,
    symbol: Seq<u8>,
    uri: Seq<u8>,
    region: Seq<u8>,
    geo: Seq<u8>,
    program: Seq<u8>,
) -> CouponMetadataView {
    CouponMetadataView {
        mint: mint,
        name: name,
        symbol: symbol,
        uri: uri,
        region: region,
        geo: geo,
        bump: coupon_bump(mint, program),
    }
}

/// Creates the signer's Identity Record, idempotently.
///
/// The record's address and bump are derived from the identity tag and the
/// signer's key alone; the payer only funds the slot. At a free address a
/// slot of exactly `User::len()` bytes is allocated and populated once, its
/// `two_factor` the digest of the signer's key followed by the private
/// input. If the record already exists the call succeeds and changes
/// nothing; a slot of the wrong shape at that address aborts with
/// `SizeMismatch`, and nothing changes.
pub fn create_user(
    ledger: &mut Ledger,
    ctx: &CreateUser,
    email: &Vec<u8>,
    region: &Vec<u8>,
    geo: &Vec<u8>,
) -> (r: Result<(), ChristmasError>)
    requires
        old(ledger).wf(),
        region@.len() == defs::REGION_SIZE,
    ensures
        final(ledger).wf(),
        final(ledger).pid() == old(ledger).pid(),
        !user_derivable(ctx.signer@, old(ledger).pid()) ==> (r matches Err(
            ChristmasError::DerivationExhausted,
        )) && *final(ledger) == *old(ledger),
        user_derivable(ctx.signer@, old(ledger).pid()) ==> (match old(ledger).slot_view(
            user_address(ctx.signer@, old(ledger).pid()),
        ) {
            Option::None => {
                &&& r is Ok
                &&& final(ledger).slot_view(user_address(ctx.signer@, old(ledger).pid()))
                    == Some(
                    (SlotView {
                        size: user_record_len(),
                        funder: ctx.payer@,
                        record: RecordView::Identity(
                            created_user(ctx.signer@, email@, region@, geo@, old(ledger).pid()),
                        ),
                    }),
                )
                &&& forall|x: Seq<u8>|
                    x != user_address(ctx.signer@, old(ledger).pid()) ==> final(ledger).slot_view(x) == old(ledger).slot_view(x)
            },
            Option::Some(sv) => {
                if sv.record is Identity && sv.size == user_record_len() {
                    r is Ok && *final(ledger) == *old(ledger)
                } else {
                    (r matches Err(ChristmasError::SizeMismatch)) && *final(ledger) == *old(ledger)
                }
            },
        }),
{
    let pid = ledger.program_id();
    let tag = identity_tag_bytes();
    let mut keys: Vec<Address> = Vec::new();
    keys.push(ctx.signer);
    proof {
        assert(key_views(keys@) =~= seq![ctx.signer@]);
        assert(seed_seq(tag@, key_views(keys@)) == user_seeds(ctx.signer@));
    }
    let (address, bump) = match crate::address::derive(&tag, &keys, &pid) {
        Ok(p) => p,
        Err(e) => {
            return Err(e);
        },
    };
    match ledger.slot_ref(&address) {
        Some(slot) => {
            let is_identity = match &slot.record {
                Record::Identity(_) => true,
                Record::Metadata(_) => false,
            };
            if is_identity && slot.size == User::len() {
                Ok(())
            } else {
                Err(ChristmasError::SizeMismatch)
            }
        },
        None => {
            let mut message = address_to_vec(&ctx.signer);
            let mut tail = copy_bytes(email);
            message.append(&mut tail);
            let two_factor = sha256_digest(&message);
            let record = User {
                region: copy_bytes(region),
                uri: Vec::new(),
                geo: copy_bytes(geo),
                two_factor,
                bump,
            };
            let slot = Slot { size: User::len(), funder: ctx.payer, record: Record::Identity(record) };
            let placed = ledger.place_slot(address, slot);
            proof {
                assert(placed);
            }
            Ok(())
        },
    }
}

/// Creates the mint's Metadata Record, idempotently.
///
/// The record's address and bump are derived from the metadata tag and the
/// mint's address alone. At a free address a slot of exactly
/// `CouponMetadata::len()` bytes is allocated and populated once with every
/// descriptive field verbatim. If the record already exists the call
/// succeeds and changes nothing; a slot of the wrong shape at that address
/// aborts with `SizeMismatch`, and nothing changes.
pub fn create_coupon_mint(
    ledger: &mut Ledger,
    ctx: &CreateCouponMint,
    name: &Vec<u8>,
    symbol: &Vec<u8>,
    region: &Vec<u8>,
    geo: &Vec<u8>,
    uri: &Vec<u8>,
) -> (r: Result<(), ChristmasError>)
    requires
        old(ledger).wf(),
        region@.len() == defs::REGION_SIZE,
        name@.len() <= defs::NAME_BOUND,
        symbol@.len() <= defs::SYMBOL_BOUND,
        uri@.len() <= defs::URI_BOUND,
        geo@.len() <= defs::GEO_BOUND,
    ensures
        final(ledger).wf(),
        final(ledger).pid() == old(ledger).pid(),
        !coupon_derivable(ctx.mint@, old(ledger).pid()) ==> (r matches Err(
            ChristmasError::DerivationExhausted,
        )) && *final(ledger) == *old(ledger),
        coupon_derivable(ctx.mint@, old(ledger).pid()) ==> (match old(ledger).slot_view(
            coupon_address(ctx.mint@, old(ledger).pid()),
        ) {
            Option::None => {
                &&& r is Ok
                &&& final(ledger).slot_view(coupon_address(ctx.mint@, old(ledger).pid()))
                    == Some(
                    (SlotView {
                        size: coupon_metadata_len(),
                        funder: ctx.payer@,
                        record: RecordView::Metadata(
                            created_coupon(
                                ctx.mint@,
                                name@,
                                symbol@,
                                uri@,
                                region@,
                                geo@,
                                old(ledger).pid(),
                            ),
                        ),
                    }),
                )
                &&& forall|x: Seq<u8>|
                    x != coupon_address(ctx.mint@, old(ledger).pid()) ==> final(ledger).slot_view(x) == old(ledger).slot_view(x)
            },
            Option::Some(sv) => {
                if sv.record is Metadata && sv.size == coupon_metadata_len() {
                    r is Ok && *final(ledger) == *old(ledger)
                } else {
                    (r matches Err(ChristmasError::SizeMismatch)) && *final(ledger) == *old(ledger)
                }
            },
        }),
{
    let pid = ledger.program_id();
    let tag = metadata_tag_bytes();
    let mut keys: Vec<Address> = Vec::new();
    keys.push(ctx.mint);
    proof {
        assert(key_views(keys@) =~= seq![ctx.mint@]);
        assert(seed_seq(tag@, key_views(keys@)) == coupon_seeds(ctx.mint@));
    }
    let (address, bump) = match crate::address::derive(&tag, &keys, &pid) {
        Ok(p) => p,
        Err(e) => {
            return Err(e);
        },
    };
    match ledger.slot_ref(&address) {
        Some(slot) => {
            let is_metadata = match &slot.record {
                Record::Identity(_) => false,
                Record::Metadata(_) => true,
            };
            if is_metadata && slot.size == CouponMetadata::len() {
                Ok(())
            } else {
                Err(ChristmasError::SizeMismatch)
            }
        },
        None => {
            let record = CouponMetadata {
                mint: ctx.mint,
                name: copy_bytes(name),
                symbol: copy_bytes(symbol),
                uri: copy_bytes(uri),
                region: copy_bytes(region),
                geo: copy_bytes(geo),
                bump,
            };
            let slot = Slot {
                size: CouponMetadata::len(),
                funder: ctx.payer,
                record: Record::Metadata(record),
            };
            let placed = ledger.place_slot(address, slot);
            proof {
                assert(placed);
            }
            Ok(())
        },
    }
}

/// The Authorization Gate: admits a requester against an Identity Record's
/// address exactly when re-deriving from the requester's key reproduces
/// that address; the address itself, not any stored field, is the source
/// of truth.
pub fn authorize(record_address: &Address, requester: &Address, program_id: &Address) -> (r:
    Result<(), ChristmasError>)
    ensures
        r is Ok <==> (user_derivable(requester@, program_id@) && user_address(
            requester@,
            program_id@,
        ) == record_address@),
        r matches Err(e) ==> e == ChristmasError::Unauthorized,
{
    let tag = identity_tag_bytes();
    let mut keys: Vec<Address> = Vec::new();
    keys.push(*requester);
    proof {
        assert(key_views(keys@) =~= seq![requester@]);
        assert(seed_seq(tag@, key_views(keys@)) == user_seeds(requester@));
    }
    match crate::address::derive(&tag, &keys, program_id) {
        Ok(p) => {
            if addr_eq(&p.0, record_address) {
                Ok(())
            } else {
                Err(ChristmasError::Unauthorized)
            }
        },
        Err(_) => Err(ChristmasError::Unauthorized),
    }
}

/// Updates the mutable fields of the Identity Record at `record_address`.
///
/// The request passes the Authorization Gate first: the signer must
/// reproduce `record_address` by re-derivation, else the request aborts
/// with `Unauthorized` and no field changes. When authorized, the region
/// and geo are overwritten and the record's uri, two_factor and bump, and
/// the slot's size and funder, are preserved; an address without a
/// well-shaped Identity Record aborts with `SizeMismatch`.
pub fn update_user(
    ledger: &mut Ledger,
    ctx: &UpdateUser,
    record_address: &Address,
    region: &Vec<u8>,
    geo: &Vec<u8>,
) -> (r: Result<(), ChristmasError>)
    requires
        old(ledger).wf(),
        region@.len() == defs::REGION_SIZE,
    ensures
        final(ledger).wf(),
        final(ledger).pid() == old(ledger).pid(),
        !(user_derivable(ctx.signer@, old(ledger).pid()) && user_address(
            ctx.signer@,
            old(ledger).pid(),
        ) == record_address@) ==> (r matches Err(ChristmasError::Unauthorized)) && *final(ledger)
            == *old(ledger),
        (user_derivable(ctx.signer@, old(ledger).pid()) && user_address(
            ctx.signer@,
            old(ledger).pid(),
        ) == record_address@) ==> (match old(ledger).slot_view(record_address@) {
            Option::Some(sv) => {
                if sv.record is Identity && sv.size == user_record_len() {
                    &&& r is Ok
                    &&& final(ledger).slot_view(record_address@) == Some(
                        ledger::updated_identity(sv, region@, geo@),
                    )
                    &&& forall|x: Seq<u8>|
                        x != record_address@ ==> final(ledger).slot_view(x) == old(ledger).slot_view(x)
                } else {
                    (r matches Err(ChristmasError::SizeMismatch)) && *final(ledger) == *old(ledger)
                }
            },
            Option::None => (r matches Err(ChristmasError::SizeMismatch)) && *final(ledger)
                == *old(ledger),
        }),
{
    let pid = ledger.program_id();
    match authorize(record_address, &ctx.signer, &pid) {
        Err(e) => {
            return Err(e);
        },
        Ok(_) => {},
    }
    if ledger.update_identity(record_address, region, geo) {
        Ok(())
    } else {
        Err(ChristmasError::SizeMismatch)
    }
}

/// Payer and signer are separate concerns: the address a creation request
/// targets is a function of the signer's key and the program id alone, so
/// any two requests for the same signer target the same record, whoever
/// pays for either.
pub proof fn lemma_payer_signer_separation(c1: CreateUser, c2: CreateUser, program: Seq<u8>)
    requires
        c1.signer@ == c2.signer@,
    ensures
        user_address(c1.signer@, program) == user_address(c2.signer@, program),
        user_bump(c1.signer@, program) == user_bump(c2.signer@, program),
{
}

} // verus!
