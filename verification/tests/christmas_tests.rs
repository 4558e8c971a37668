use christmas::coupon::{CouponMetadata, CreateCouponMint};
use christmas::defs::ChristmasError;
use christmas::layout::FieldWidth;
use christmas::ledger::{Ledger, Record, Slot};
use christmas::user::{CreateUser, UpdateUser, User};
use christmas::Address;

fn key(seed: u8) -> Address {
    let mut b = [0u8; 32];
    for i in 0..32 {
        b[i] = seed.wrapping_add(i as u8).wrapping_mul(31);
    }
    Address::new(b)
}

fn program_id() -> Address {
    key(240)
}

fn derive_identity(signer: &Address, pid: &Address) -> (Address, u8) {
    let tag = christmas::identity_tag_bytes();
    let keys = vec![*signer];
    christmas::address::derive(&tag, &keys, pid).expect("derivation should succeed")
}

fn derive_metadata(mint: &Address, pid: &Address) -> (Address, u8) {
    let tag = christmas::metadata_tag_bytes();
    let keys = vec![*mint];
    christmas::address::derive(&tag, &keys, pid).expect("derivation should succeed")
}

#[test]
fn derive_is_deterministic() {
    let pid = program_id();
    let signer = key(7);
    let first = derive_identity(&signer, &pid);
    let second = derive_identity(&signer, &pid);
    assert_eq!(first.0.bytes, second.0.bytes);
    assert_eq!(first.1, second.1);
}

#[test]
fn derive_distinct_keys_distinct_addresses() {
    let pid = program_id();
    let mut addresses: Vec<[u8; 32]> = Vec::new();
    for n in 0..24u8 {
        let (a, _) = derive_identity(&key(n), &pid);
        addresses.push(a.bytes);
    }
    for i in 0..addresses.len() {
        for j in 0..i {
            assert_ne!(addresses[i], addresses[j]);
        }
    }
}

#[test]
fn derive_matches_host_derivation() {
    let pid = program_id();
    let signer = key(9);
    let (a, bump) = derive_identity(&signer, &pid);
    let spk = solana_program::pubkey::Pubkey::new_from_array(signer.bytes);
    let ppk = solana_program::pubkey::Pubkey::new_from_array(pid.bytes);
    let (expect, expect_bump) =
        solana_program::pubkey::Pubkey::find_program_address(&[b"identity", spk.as_ref()], &ppk);
    assert_eq!(a.bytes, expect.to_bytes());
    assert_eq!(bump, expect_bump);
}

#[test]
fn metadata_derive_matches_host_derivation() {
    let pid = program_id();
    let mint = key(33);
    let (a, bump) = derive_metadata(&mint, &pid);
    let mpk = solana_program::pubkey::Pubkey::new_from_array(mint.bytes);
    let ppk = solana_program::pubkey::Pubkey::new_from_array(pid.bytes);
    let (expect, expect_bump) =
        solana_program::pubkey::Pubkey::find_program_address(&[b"metadata", mpk.as_ref()], &ppk);
    assert_eq!(a.bytes, expect.to_bytes());
    assert_eq!(bump, expect_bump);
}

#[test]
fn user_len_is_exact() {
    assert_eq!(User::len(), 8 + 3 + 204 + 1);
}

#[test]
fn coupon_metadata_len_is_exact() {
    assert_eq!(CouponMetadata::len(), 8 + 32 + 36 + 14 + 204 + 3 + 12 + 1);
}

#[test]
fn record_size_sums_widths() {
    let schema = vec![
        FieldWidth::Fixed(3),
        FieldWidth::Bounded(204),
        FieldWidth::Fixed(1),
    ];
    assert_eq!(christmas::layout::record_size(&schema), Ok(216));
}

#[test]
fn record_size_rejects_unbounded_field() {
    let schema = vec![FieldWidth::Fixed(3), FieldWidth::Unbounded];
    assert_eq!(
        christmas::layout::record_size(&schema),
        Err(ChristmasError::SchemaOverflow)
    );
}

#[test]
fn record_size_rejects_machine_overflow() {
    let schema = vec![FieldWidth::Bounded(usize::MAX), FieldWidth::Fixed(usize::MAX)];
    assert_eq!(
        christmas::layout::record_size(&schema),
        Err(ChristmasError::SchemaOverflow)
    );
}

#[test]
fn create_identity_scenario() {
    let pid = program_id();
    let signer = key(1);
    let payer = key(2);
    let mut ledger = Ledger::new(pid);
    let ctx = CreateUser { payer, signer };
    let r = christmas::create_user(
        &mut ledger,
        &ctx,
        &b"a@b.com".to_vec(),
        &b"USA".to_vec(),
        &b"NY".to_vec(),
    );
    assert_eq!(r, Ok(()));

    let (address, bump) = derive_identity(&signer, &pid);
    let slot = ledger.slot_ref(&address).expect("record should exist");
    assert_eq!(slot.size, User::len());
    assert_eq!(slot.funder.bytes, payer.bytes);
    let user = match &slot.record {
        Record::Identity(u) => u,
        Record::Metadata(_) => panic!("expected an Identity Record"),
    };
    assert_eq!(user.region, b"USA".to_vec());
    assert_eq!(user.geo, b"NY".to_vec());
    assert_eq!(user.uri, Vec::<u8>::new());
    assert_eq!(user.bump, bump);

    let mut message = signer.bytes.to_vec();
    message.extend_from_slice(b"a@b.com");
    let expect_digest = solana_program::hash::hash(&message).to_bytes().to_vec();
    assert_eq!(user.two_factor, expect_digest);

    let again = christmas::create_user(
        &mut ledger,
        &ctx,
        &b"a@b.com".to_vec(),
        &b"CAN".to_vec(),
        &b"LA".to_vec(),
    );
    assert_eq!(again, Ok(()));
    let slot = ledger.slot_ref(&address).expect("record should still exist");
    let user = match &slot.record {
        Record::Identity(u) => u,
        Record::Metadata(_) => panic!("expected an Identity Record"),
    };
    assert_eq!(user.region, b"USA".to_vec());
}

#[test]
fn create_identity_twice_is_idempotent() {
    let pid = program_id();
    let signer = key(11);
    let payer = key(12);
    let mut ledger = Ledger::new(pid);
    let ctx = CreateUser { payer, signer };
    let email = b"someone@example.com".to_vec();
    assert_eq!(
        christmas::create_user(&mut ledger, &ctx, &email, &b"USA".to_vec(), &b"NY".to_vec()),
        Ok(())
    );
    let (address, _) = derive_identity(&signer, &pid);
    let (region0, geo0, two_factor0, bump0) = {
        let slot = ledger.slot_ref(&address).unwrap();
        match &slot.record {
            Record::Identity(u) => (
                u.region.clone(),
                u.geo.clone(),
                u.two_factor.clone(),
                u.bump,
            ),
            Record::Metadata(_) => panic!("expected an Identity Record"),
        }
    };
    assert_eq!(
        christmas::create_user(
            &mut ledger,
            &ctx,
            &b"other@example.com".to_vec(),
            &b"CAN".to_vec(),
            &b"SF".to_vec()
        ),
        Ok(())
    );
    let slot = ledger.slot_ref(&address).unwrap();
    match &slot.record {
        Record::Identity(u) => {
            assert_eq!(u.region, region0);
            assert_eq!(u.geo, geo0);
            assert_eq!(u.two_factor, two_factor0);
            assert_eq!(u.bump, bump0);
        },
        Record::Metadata(_) => panic!("expected an Identity Record"),
    }
}

#[test]
fn payer_need_not_be_signer() {
    let pid = program_id();
    let signer = key(21);
    let payer = key(22);
    let mut ledger = Ledger::new(pid);
    let ctx = CreateUser { payer, signer };
    assert_eq!(
        christmas::create_user(
            &mut ledger,
            &ctx,
            &b"pay@for.me".to_vec(),
            &b"USA".to_vec(),
            &b"NY".to_vec()
        ),
        Ok(())
    );
    // The record lives at the address derived from the signer alone.
    let spk = solana_program::pubkey::Pubkey::new_from_array(signer.bytes);
    let ppk = solana_program::pubkey::Pubkey::new_from_array(pid.bytes);
    let (expect, _) =
        solana_program::pubkey::Pubkey::find_program_address(&[b"identity", spk.as_ref()], &ppk);
    let address = Address::new(expect.to_bytes());
    let slot = ledger.slot_ref(&address).expect("record should exist");
    assert_eq!(slot.funder.bytes, payer.bytes);
}

#[test]
fn preexisting_slot_of_wrong_size_is_rejected() {
    let pid = program_id();
    let signer = key(41);
    let payer = key(42);
    let mut ledger = Ledger::new(pid);
    let (address, _) = derive_identity(&signer, &pid);
    let squatter = Slot {
        size: 7,
        funder: payer,
        record: Record::Identity(User {
            region: b"ZZZ".to_vec(),
            uri: Vec::new(),
            geo: Vec::new(),
            two_factor: Vec::new(),
            bump: 0,
        }),
    };
    assert!(ledger.place_slot(address, squatter));
    let ctx = CreateUser { payer, signer };
    assert_eq!(
        christmas::create_user(
            &mut ledger,
            &ctx,
            &b"a@b.com".to_vec(),
            &b"USA".to_vec(),
            &b"NY".to_vec()
        ),
        Err(ChristmasError::SizeMismatch)
    );
    // The pre-existing slot is untouched.
    let slot = ledger.slot_ref(&address).unwrap();
    assert_eq!(slot.size, 7);
}

#[test]
fn authorize_admits_only_the_deriving_identity() {
    let pid = program_id();
    let k1 = key(51);
    let k2 = key(52);
    let (address, _) = derive_identity(&k1, &pid);
    assert_eq!(christmas::authorize(&address, &k1, &pid), Ok(()));
    assert_eq!(
        christmas::authorize(&address, &k2, &pid),
        Err(ChristmasError::Unauthorized)
    );
}

#[test]
fn update_by_other_identity_is_unauthorized() {
    let pid = program_id();
    let k1 = key(61);
    let k2 = key(62);
    let mut ledger = Ledger::new(pid);
    let ctx = CreateUser { payer: k1, signer: k1 };
    assert_eq!(
        christmas::create_user(
            &mut ledger,
            &ctx,
            &b"a@b.com".to_vec(),
            &b"USA".to_vec(),
            &b"NY".to_vec()
        ),
        Ok(())
    );
    let (address, _) = derive_identity(&k1, &pid);
    let upd = UpdateUser { payer: k2, signer: k2 };
    assert_eq!(
        christmas::update_user(&mut ledger, &upd, &address, &b"CAN".to_vec(), &b"LA".to_vec()),
        Err(ChristmasError::Unauthorized)
    );
    // The record is unmodified.
    let slot = ledger.slot_ref(&address).unwrap();
    match &slot.record {
        Record::Identity(u) => {
            assert_eq!(u.region, b"USA".to_vec());
            assert_eq!(u.geo, b"NY".to_vec());
        },
        Record::Metadata(_) => panic!("expected an Identity Record"),
    }
}

#[test]
fn update_by_own_identity_succeeds() {
    let pid = program_id();
    let k1 = key(71);
    let mut ledger = Ledger::new(pid);
    let ctx = CreateUser { payer: k1, signer: k1 };
    assert_eq!(
        christmas::create_user(
            &mut ledger,
            &ctx,
            &b"a@b.com".to_vec(),
            &b"USA".to_vec(),
            &b"NY".to_vec()
        ),
        Ok(())
    );
    let (address, bump) = derive_identity(&k1, &pid);
    let two_factor_before = {
        let slot = ledger.slot_ref(&address).unwrap();
        match &slot.record {
            Record::Identity(u) => u.two_factor.clone(),
            Record::Metadata(_) => panic!("expected an Identity Record"),
        }
    };
    let upd = UpdateUser { payer: k1, signer: k1 };
    assert_eq!(
        christmas::update_user(&mut ledger, &upd, &address, &b"CAN".to_vec(), &b"LA".to_vec()),
        Ok(())
    );
    let slot = ledger.slot_ref(&address).unwrap();
    match &slot.record {
        Record::Identity(u) => {
            assert_eq!(u.region, b"CAN".to_vec());
            assert_eq!(u.geo, b"LA".to_vec());
            assert_eq!(u.two_factor, two_factor_before);
            assert_eq!(u.bump, bump);
        },
        Record::Metadata(_) => panic!("expected an Identity Record"),
    }
}

#[test]
fn update_without_record_reports_size_mismatch() {
    let pid = program_id();
    let k1 = key(81);
    let mut ledger = Ledger::new(pid);
    let (address, _) = derive_identity(&k1, &pid);
    let upd = UpdateUser { payer: k1, signer: k1 };
    assert_eq!(
        christmas::update_user(&mut ledger, &upd, &address, &b"USA".to_vec(), &b"NY".to_vec()),
        Err(ChristmasError::SizeMismatch)
    );
}

#[test]
fn create_coupon_mint_scenario() {
    let pid = program_id();
    let mint = key(91);
    let signer = key(92);
    let payer = key(93);
    let mut ledger = Ledger::new(pid);
    let ctx = CreateCouponMint { mint, payer, signer };
    let r = christmas::create_coupon_mint(
        &mut ledger,
        &ctx,
        &b"Free Coffee".to_vec(),
        &b"CUP".to_vec(),
        &b"USA".to_vec(),
        &b"NY".to_vec(),
        &b"https://example.com/cup.json".to_vec(),
    );
    assert_eq!(r, Ok(()));
    let (address, bump) = derive_metadata(&mint, &pid);
    let slot = ledger.slot_ref(&address).expect("record should exist");
    assert_eq!(slot.size, CouponMetadata::len());
    assert_eq!(slot.funder.bytes, payer.bytes);
    let meta = match &slot.record {
        Record::Metadata(m) => m,
        Record::Identity(_) => panic!("expected a Metadata Record"),
    };
    assert_eq!(meta.mint.bytes, mint.bytes);
    assert_eq!(meta.name, b"Free Coffee".to_vec());
    assert_eq!(meta.symbol, b"CUP".to_vec());
    assert_eq!(meta.uri, b"https://example.com/cup.json".to_vec());
    assert_eq!(meta.region, b"USA".to_vec());
    assert_eq!(meta.geo, b"NY".to_vec());
    assert_eq!(meta.bump, bump);

    // Creating the same mint's metadata again changes nothing.
    let again = christmas::create_coupon_mint(
        &mut ledger,
        &ctx,
        &b"Other Name".to_vec(),
        &b"OTH".to_vec(),
        &b"CAN".to_vec(),
        &b"LA".to_vec(),
        &b"https://example.com/other.json".to_vec(),
    );
    assert_eq!(again, Ok(()));
    let slot = ledger.slot_ref(&address).unwrap();
    let meta = match &slot.record {
        Record::Metadata(m) => m,
        Record::Identity(_) => panic!("expected a Metadata Record"),
    };
    assert_eq!(meta.name, b"Free Coffee".to_vec());
}

#[test]
fn identity_and_metadata_records_coexist() {
    let pid = program_id();
    let signer = key(101);
    let mut ledger = Ledger::new(pid);
    let ctx = CreateUser { payer: signer, signer };
    assert_eq!(
        christmas::create_user(
            &mut ledger,
            &ctx,
            &b"a@b.com".to_vec(),
            &b"USA".to_vec(),
            &b"NY".to_vec()
        ),
        Ok(())
    );
    let mctx = CreateCouponMint { mint: signer, payer: signer, signer };
    assert_eq!(
        christmas::create_coupon_mint(
            &mut ledger,
            &mctx,
            &b"Name".to_vec(),
            &b"SYM".to_vec(),
            &b"USA".to_vec(),
            &b"NY".to_vec(),
            &b"uri".to_vec(),
        ),
        Ok(())
    );
    // Different tags give the same key two distinct record addresses.
    let (ua, _) = derive_identity(&signer, &pid);
    let (ma, _) = derive_metadata(&signer, &pid);
    assert_ne!(ua.bytes, ma.bytes);
    assert!(ledger.slot_ref(&ua).is_some());
    assert!(ledger.slot_ref(&ma).is_some());
}

#[test]
fn place_slot_refuses_an_occupied_address() {
    let pid = program_id();
    let address = key(111);
    let funder = key(112);
    let mut ledger = Ledger::new(pid);
    let slot = |n: u8| Slot {
        size: n as usize,
        funder,
        record: Record::Identity(User {
            region: b"USA".to_vec(),
            uri: Vec::new(),
            geo: Vec::new(),
            two_factor: Vec::new(),
            bump: 0,
        }),
    };
    assert!(ledger.place_slot(address, slot(1)));
    assert!(!ledger.place_slot(address, slot(2)));
    assert_eq!(ledger.slot_ref(&address).unwrap().size, 1);
}

#[test]
fn record_size_of_empty_schema_is_the_discriminator() {
    let schema: Vec<FieldWidth> = Vec::new();
    assert_eq!(christmas::layout::record_size(&schema), Ok(8));
}
