//! Address derivation: maps a seed tag plus key material to a single
//! canonical storage address and a disambiguation bump, by searching the
//! bump space from the top down for the first candidate that is not itself
//! a valid signing key.

use vstd::prelude::*;

use crate::defs::ChristmasError;

verus! {

/// Largest number of seeds (the bump seed included) a derivation may use.
pub const MAX_SEEDS: usize = 16;

/// Largest length in bytes of a single seed.
pub const MAX_SEED_LEN: usize = 32;

/// A 32-byte storage address or public key.
#[derive(Clone, Copy, Debug)]
pub struct Address {
    pub bytes: [u8; 32],
}

impl View for Address {
    type V = Seq<u8>;

    open spec fn view(&self) -> Seq<u8> {
        self.bytes@
    }
}

impl Address {
    /// Wraps 32 raw bytes as an address.
    pub fn new(bytes: [u8; 32]) -> (a: Address)
        ensures
            a@ == bytes@,
    {
        Address { bytes }
    }
}

/// Whether two addresses hold the same bytes.
pub fn addr_eq(a: &Address, b: &Address) -> (r: bool)
    ensures
        r == (a@ == b@),
{
    let mut i: usize = 0;
    while i < 32
        invariant
            0 <= i <= 32,
            forall|j: int| 0 <= j < i ==> a@[j] == b@[j],
        decreases 32 - i,
    {
        if a.bytes[i] != b.bytes[i] {
            return false;
        }
        i = i + 1;
    }
    proof {
        assert(a@ =~= b@);
    }
    true
}

/// The candidate address the host derives from a full seed list (bump seed
/// included) and a program id: a 32-byte value when the candidate falls off
/// the ed25519 curve, nothing when it would itself be a valid signing key.
pub uninterp spec fn pda_candidate(seeds: Seq<Seq<u8>>, program: Seq<u8>) -> Option<Seq<u8>>;

/// Relies on solana_program::pubkey::Pubkey::create_program_address: for a
/// seed list within the seed-count and seed-length bounds, the result is a
/// function of the seeds and the program id alone; it is a 32-byte address
/// when the derived point is off the ed25519 curve, and an error otherwise.
#[verifier::external_body]
fn derive_candidate(seeds: &Vec<Vec<u8>>, program_id: &Address) -> (r: Option<Address>)
    requires
        seeds@.len() <= MAX_SEEDS,
        forall|i: int| 0 <= i < seeds@.len() ==> #[trigger] seeds@[i]@.len() <= MAX_SEED_LEN,
    ensures
        r is Some <==> pda_candidate(seeds@.map_values(|s: Vec<u8>| s@), program_id@) is Some,
        r matches Some(a) ==> a@ == pda_candidate(
            seeds@.map_values(|s: Vec<u8>| s@),
            program_id@,
        )->0,
{
    let refs: Vec<&[u8]> = seeds.iter().map(|s| s.as_slice()).collect();
    let program = solana_program::pubkey::Pubkey::new_from_array(program_id.bytes);
    match solana_program::pubkey::Pubkey::create_program_address(refs.as_slice(), &program) {
        Ok(pk) => Some(Address { bytes: pk.to_bytes() }),
        Err(_) => None,
    }
}

/// The digest stored as a record's `two_factor`: a 32-byte value that is a
/// function of the input bytes alone.
pub uninterp spec fn digest_of(message: Seq<u8>) -> Seq<u8>;

/// Relies on solana_program::hash::hash: the SHA-256 digest of the input,
/// 32 bytes, a function of the input bytes alone.
#[verifier::external_body]
pub(crate) fn sha256_digest(message: &Vec<u8>) -> (r: Vec<u8>)
    ensures
        r@ == digest_of(message@),
        r@.len() == 32,
{
    solana_program::hash::hash(message.as_slice()).to_bytes().to_vec()
}

/// The full seed list of a derivation: the tag, then each key, then the
/// single-byte bump seed.
pub open spec fn seeds_with_bump(seeds: Seq<Seq<u8>>, bump: u8) -> Seq<Seq<u8>> {
    seeds.push(seq![bump])
}

/// Whether this bump yields a usable candidate address for these seeds.
pub open spec fn bump_ok(seeds: Seq<Seq<u8>>, program: Seq<u8>, bump: u8) -> bool {
    pda_candidate(seeds_with_bump(seeds, bump), program) is Some
}

/// Whether any bump in the search space yields a usable candidate address.
pub open spec fn derivable(seeds: Seq<Seq<u8>>, program: Seq<u8>) -> bool {
    exists|b: u8| bump_ok(seeds, program, b)
}

/// Whether `bump` is the bump the top-down search returns: it works, and
/// every larger bump fails.
pub open spec fn is_canonical_bump(seeds: Seq<Seq<u8>>, program: Seq<u8>, bump: u8) -> bool {
    bump_ok(seeds, program, bump) && forall|b2: u8| b2 > bump ==> !bump_ok(seeds, program, b2)
}

/// The bump the top-down search returns for these seeds.
pub open spec fn canonical_bump(seeds: Seq<Seq<u8>>, program: Seq<u8>) -> u8 {
    choose|b: u8| is_canonical_bump(seeds, program, b)
}

/// The canonical derived address for these seeds.
pub open spec fn derived_address(seeds: Seq<Seq<u8>>, program: Seq<u8>) -> Seq<u8> {
    pda_candidate(seeds_with_bump(seeds, canonical_bump(seeds, program)), program)->0
}

/// The seed list of a derivation before the bump is appended: the tag first,
/// then each key's bytes.
pub open spec fn seed_seq(tag: Seq<u8>, keys: Seq<Seq<u8>>) -> Seq<Seq<u8>> {
    seq![tag] + keys
}

/// The byte views of a list of keys.
pub open spec fn key_views(keys: Seq<Address>) -> Seq<Seq<u8>> {
    keys.map_values(|a: Address| a@)
}

/// At most one bump can be canonical for a given derivation: repeated
/// derivations from the same seeds agree on the bump, and so on the address.
pub proof fn lemma_canonical_bump_unique(
    seeds: Seq<Seq<u8>>,
    program: Seq<u8>,
    b1: u8,
    b2: u8,
)
    requires
        is_canonical_bump(seeds, program, b1),
        is_canonical_bump(seeds, program, b2),
    ensures
        b1 == b2,
{
    if b1 < b2 {
        assert(!bump_ok(seeds, program, b2));
    }
    if b2 < b1 {
        assert(!bump_ok(seeds, program, b1));
    }
}

/// Copies a byte vector, so a caller can own a seed or a stored field.
pub(crate) fn copy_bytes(src: &Vec<u8>) -> (v: Vec<u8>)
    ensures
        v@ == src@,
{
    let mut v: Vec<u8> = Vec::new();
    let mut i: usize = 0;
    while i < src.len()
        invariant
            0 <= i <= src@.len(),
            v@ =~= src@.take(i as int),
        decreases src@.len() - i,
    {
        v.push(src[i]);
        i = i + 1;
    }
    proof {
        assert(src@.take(src@.len() as int) =~= src@);
    }
    v
}

/// Copies an address's bytes into a seed or a digest message.
pub(crate) fn address_to_vec(a: &Address) -> (v: Vec<u8>)
    ensures
        v@ == a@,
{
    let mut v: Vec<u8> = Vec::new();
    let mut i: usize = 0;
    while i < 32
        invariant
            0 <= i <= 32,
            v@ =~= a@.take(i as int),
        decreases 32 - i,
    {
        v.push(a.bytes[i]);
        i = i + 1;
    }
    proof {
        assert(a@.take(32) =~= a@);
    }
    v
}

/// Derives the canonical storage address and bump for a seed tag plus key
/// material: searches the bump space from the maximum downward and returns
/// the first bump whose candidate address is usable; fails only when every
/// bump in the space is exhausted.
pub fn derive(seed_tag: &Vec<u8>, keys: &Vec<Address>, program_id: &Address) -> (r: Result<
    (Address, u8),
    ChristmasError,
>)
    requires
        seed_tag@.len() <= MAX_SEED_LEN,
        keys@.len() + 2 <= MAX_SEEDS,
    ensures
        r is Ok <==> derivable(seed_seq(seed_tag@, key_views(keys@)), program_id@),
        r matches Ok(p) ==> {
            &&& is_canonical_bump(seed_seq(seed_tag@, key_views(keys@)), program_id@, p.1)
            &&& p.1 == canonical_bump(seed_seq(seed_tag@, key_views(keys@)), program_id@)
            &&& p.0@ == derived_address(seed_seq(seed_tag@, key_views(keys@)), program_id@)
        },
        r matches Err(e) ==> e == ChristmasError::DerivationExhausted,
{
    let ghost sseq: Seq<Seq<u8>> = seed_seq(seed_tag@, key_views(keys@));
    let mut seeds: Vec<Vec<u8>> = Vec::new();
    seeds.push(copy_bytes(seed_tag));
    let mut k: usize = 0;
    while k < keys.len()
        invariant
            0 <= k <= keys@.len(),
            seeds@.len() == 1 + k,
            seeds@.map_values(|s: Vec<u8>| s@) =~= sseq.take(1 + k),
            sseq == seed_seq(seed_tag@, key_views(keys@)),
            forall|i: int| 0 <= i < seeds@.len() ==> #[trigger] seeds@[i]@.len() <= MAX_SEED_LEN,
            seed_tag@.len() <= MAX_SEED_LEN,
            keys@.len() + 2 <= MAX_SEEDS,
        decreases keys@.len() - k,
    {
        seeds.push(address_to_vec(&keys[k]));
        k = k + 1;
    }
    proof {
        assert(seeds@.map_values(|s: Vec<u8>| s@) =~= sseq);
    }

    let mut bump: u8 = 255;
    loop
        invariant
            seeds@.map_values(|s: Vec<u8>| s@) =~= sseq,
            seeds@.len() == 1 + keys@.len(),
            sseq == seed_seq(seed_tag@, key_views(keys@)),
            forall|i: int| 0 <= i < seeds@.len() ==> #[trigger] seeds@[i]@.len() <= MAX_SEED_LEN,
            keys@.len() + 2 <= MAX_SEEDS,
            forall|b2: u8| b2 > bump ==> !bump_ok(sseq, program_id@, b2),
        decreases bump,
    {
        let mut bump_seed: Vec<u8> = Vec::new();
        bump_seed.push(bump);
        seeds.push(bump_seed);
        proof {
            assert(seeds@.map_values(|s: Vec<u8>| s@) =~= seeds_with_bump(sseq, bump));
        }
        let candidate = derive_candidate(&seeds, program_id);
        match candidate {
            Some(addr) => {
                proof {
                    assert(bump_ok(sseq, program_id@, bump));
                    assert(is_canonical_bump(sseq, program_id@, bump));
                    lemma_canonical_bump_unique(
                        sseq,
                        program_id@,
                        bump,
                        canonical_bump(sseq, program_id@),
                    );
                }
                return Ok((addr, bump));
            },
            None => {
                proof {
                    assert(!bump_ok(sseq, program_id@, bump));
                }
            },
        }
        seeds.pop();
        proof {
            assert(seeds@.map_values(|s: Vec<u8>| s@) =~= sseq);
        }
        if bump == 0 {
            proof {
                assert forall|b2: u8| !bump_ok(sseq, program_id@, b2) by {
                    if b2 > 0 {
                        assert(!bump_ok(sseq, program_id@, b2));
                    }
                }
            }
            return Err(ChristmasError::DerivationExhausted);
        }
        bump = bump - 1;
    }
}

} // verus!
