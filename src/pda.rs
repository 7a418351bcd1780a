//! Program address derivation: the canonical bump search over one outside
//! address computation.

use crate::pubkey::Pubkey;
use vstd::prelude::*;
use vstd::slice::slice_to_vec;

verus! {

/// The largest number of seeds one address computation takes, bump included.
pub const MAX_SEEDS: usize = 16;

/// The largest length of one seed.
pub const MAX_SEED_LEN: usize = 32;

/// Why one address computation gave no address.
#[derive(Clone, Copy, Debug, PartialEq, Eq, Structural)]
pub enum AddressError {
    /// Too many seeds, or a seed longer than `MAX_SEED_LEN`.
    MaxSeedLengthExceeded,
    /// The hash lies on the curve, so it is no program address.
    InvalidSeeds,
    /// The program identifier is reserved.
    IllegalOwner,
}

/// The outcome of one address computation.
pub type AddressResult = Result<Pubkey, AddressError>;

/// The seed byte strings of a seed list.
pub open spec fn seeds_view(seeds: Seq<Vec<u8>>) -> Seq<Seq<u8>> {
    seeds.map_values(|s: Vec<u8>| s@)
}

/// The seed list is within the limits of one address computation.
pub open spec fn seeds_fit(seeds: Seq<Seq<u8>>) -> bool {
    &&& seeds.len() <= MAX_SEEDS
    &&& forall|i: int| 0 <= i < seeds.len() ==> #[trigger] seeds[i].len() <= MAX_SEED_LEN
}

/// The address that hashing `seeds` with `program_id` gives, or `None` where
/// the hash lies on the curve.
pub uninterp spec fn program_address_of(seeds: Seq<Seq<u8>>, program_id: Seq<u8>) -> Option<Seq<u8>>;

/// Relies on solana_pubkey::Pubkey::create_program_address: seed limits are
/// checked first; then the hash of the seeds, the program id and a domain
/// separator is the address, unless it lies on the curve.
#[verifier::external_body]
fn create_program_address(seeds: &Vec<Vec<u8>>, program_id: &Pubkey) -> (r: AddressResult)
    ensures
        !seeds_fit(seeds_view(seeds@)) ==> r == AddressResult::Err(AddressError::MaxSeedLengthExceeded),
        seeds_fit(seeds_view(seeds@)) ==> (r is Ok <==> program_address_of(seeds_view(seeds@), program_id@) is Some),
        seeds_fit(seeds_view(seeds@)) && r is Ok ==> program_address_of(seeds_view(seeds@), program_id@) == Some(r->Ok_0@),
        seeds_fit(seeds_view(seeds@)) && r is Err ==> r == AddressResult::Err(AddressError::InvalidSeeds),
{
    let slices: Vec<&[u8]> = seeds.iter().map(|s| s.as_slice()).collect();
    let id = solana_pubkey::Pubkey::new_from_array(program_id.bytes);
    match solana_pubkey::Pubkey::create_program_address(&slices, &id) {
        Ok(k) => Ok(Pubkey { bytes: k.to_bytes() }),
        Err(solana_pubkey::PubkeyError::MaxSeedLengthExceeded) => Err(
            AddressError::MaxSeedLengthExceeded,
        ),
        Err(solana_pubkey::PubkeyError::InvalidSeeds) => Err(AddressError::InvalidSeeds),
        Err(solana_pubkey::PubkeyError::IllegalOwner) => Err(AddressError::IllegalOwner),
    }
}

/// The seed list followed by the one-byte bump seed.
pub open spec fn with_bump(seeds: Seq<Seq<u8>>, bump: u8) -> Seq<Seq<u8>> {
    seeds.push(seq![bump])
}

/// The bump gives an address that is off the curve.
pub open spec fn bump_accepted(seeds: Seq<Seq<u8>>, program_id: Seq<u8>, bump: u8) -> bool {
    program_address_of(with_bump(seeds, bump), program_id) is Some
}

/// The first accepted bump when searching downwards from `top` to 1.
pub open spec fn search_from(seeds: Seq<Seq<u8>>, program_id: Seq<u8>, top: u8) -> Option<u8>
    decreases top,
{
    if top == 0 {
        None
    } else if bump_accepted(seeds, program_id, top) {
        Some(top)
    } else {
        search_from(seeds, program_id, (top - 1) as u8)
    }
}

/// The canonical bump: the first accepted bump from 255 down, where the
/// seeds leave room for the bump.
pub open spec fn canonical_bump(seeds: Seq<Seq<u8>>, program_id: Seq<u8>) -> Option<u8> {
    if seeds_fit(with_bump(seeds, 0)) {
        search_from(seeds, program_id, 255)
    } else {
        None
    }
}

/// The derived address and its canonical bump.
pub open spec fn derived_address(seeds: Seq<Seq<u8>>, program_id: Seq<u8>) -> Option<(Seq<u8>, u8)> {
    match canonical_bump(seeds, program_id) {
        Some(b) => Some((program_address_of(with_bump(seeds, b), program_id)->0, b)),
        None => None,
    }
}

/// `key` is the address derived from `seeds` under `program_id`.
pub open spec fn derives_key(seeds: Seq<Seq<u8>>, program_id: Seq<u8>, key: Seq<u8>) -> bool {
    derived_address(seeds, program_id) matches Some((k, _)) && k == key
}

proof fn lemma_fit_any_bump(seeds: Seq<Seq<u8>>, a: u8, b: u8)
    ensures
        seeds_fit(with_bump(seeds, a)) == seeds_fit(with_bump(seeds, b)),
{
    let sa = with_bump(seeds, a);
    let sb = with_bump(seeds, b);
    assert forall|i: int| 0 <= i < sa.len() implies sa[i].len() == sb[i].len() by {
        if i < seeds.len() {
            assert(sa[i] == seeds[i] && sb[i] == seeds[i]);
        }
    }
    if seeds_fit(sa) {
        assert forall|i: int| 0 <= i < sb.len() implies #[trigger] sb[i].len() <= MAX_SEED_LEN by {
            assert(sa[i].len() <= MAX_SEED_LEN);
        }
    }
    if seeds_fit(sb) {
        assert forall|i: int| 0 <= i < sa.len() implies #[trigger] sa[i].len() <= MAX_SEED_LEN by {
            assert(sb[i].len() <= MAX_SEED_LEN);
        }
    }
}

/// Finds the canonical bump for `seeds` under `program_id`: bumps are tried
/// from 255 down to 1, each appended as a last one-byte seed, and the first
/// that yields an off-curve address wins. `None` when the seeds leave no
/// room for the bump or no bump is accepted.
pub fn find_program_address(seeds: &Vec<Vec<u8>>, program_id: &Pubkey) -> (r: Option<(Pubkey, u8)>)
    ensures
        r is None <==> derived_address(seeds_view(seeds@), program_id@) is None,
        r matches Some((k, b)) ==> derived_address(seeds_view(seeds@), program_id@) == Some((k@, b)),
{
    let ghost sv = seeds_view(seeds@);
    let n = seeds.len();
    let mut candidate: Vec<Vec<u8>> = Vec::new();
    let mut i: usize = 0;
    while i < n
        invariant
            n == seeds@.len(),
            0 <= i <= n,
            candidate@.len() == i,
            forall|j: int| 0 <= j < i ==> #[trigger] candidate@[j]@ == seeds@[j]@,
        decreases n - i,
    {
        candidate.push(slice_to_vec(seeds[i].as_slice()));
        i = i + 1;
    }
    let mut bump: u8 = 255;
    candidate.push(vec![bump]);
    proof {
        lemma_fit_any_bump(sv, 0, 255);
    }
    loop
        invariant
            n == seeds@.len(),
            candidate@.len() == n + 1,
            forall|j: int| 0 <= j < n ==> #[trigger] candidate@[j]@ == seeds@[j]@,
            candidate@[n as int]@ == seq![bump],
            1 <= bump,
            sv == seeds_view(seeds@),
            seeds_fit(with_bump(sv, 0)) == seeds_fit(with_bump(sv, bump)),
            search_from(sv, program_id@, 255) == search_from(sv, program_id@, bump),
        decreases bump,
    {
        assert(seeds_view(candidate@) =~= with_bump(sv, bump));
        match create_program_address(&candidate, program_id) {
            Ok(k) => {
                return Some((k, bump));
            },
            Err(AddressError::InvalidSeeds) => {},
            Err(_) => {
                return None;
            },
        }
        if bump == 1 {
            assert(search_from(sv, program_id@, 0) is None);
            assert(search_from(sv, program_id@, 1) is None);
            return None;
        }
        proof {
            lemma_fit_any_bump(sv, bump, (bump - 1) as u8);
        }
        bump = bump - 1;
        candidate.pop();
        candidate.push(vec![bump]);
    }
}

proof fn lemma_search_from(seeds: Seq<Seq<u8>>, program_id: Seq<u8>, top: u8)
    ensures
        search_from(seeds, program_id, top) matches Some(b) ==> {
            &&& 1 <= b <= top
            &&& bump_accepted(seeds, program_id, b)
            &&& forall|c: u8| b < c <= top ==> !#[trigger] bump_accepted(seeds, program_id, c)
        },
        search_from(seeds, program_id, top) is None ==> forall|c: u8|
            1 <= c <= top ==> !#[trigger] bump_accepted(seeds, program_id, c),
    decreases top,
{
    if top > 0 && !bump_accepted(seeds, program_id, top) {
        lemma_search_from(seeds, program_id, (top - 1) as u8);
    }
}

/// Derivation is deterministic: the same seeds and program identifier always
/// derive the same address and bump.
pub proof fn lemma_derivation_deterministic(
    seeds1: Seq<Seq<u8>>,
    program_id1: Seq<u8>,
    seeds2: Seq<Seq<u8>>,
    program_id2: Seq<u8>,
)
    requires
        seeds1 == seeds2,
        program_id1 == program_id2,
    ensures
        derived_address(seeds1, program_id1) == derived_address(seeds2, program_id2),
{
}

/// The canonical bump is unique: it is accepted, and no other accepted bump
/// comes earlier in the search, so every other accepted bump is lower.
pub proof fn lemma_canonical_bump_unique(seeds: Seq<Seq<u8>>, program_id: Seq<u8>, bump: u8)
    requires
        canonical_bump(seeds, program_id) == Some(bump),
    ensures
        1 <= bump,
        bump_accepted(seeds, program_id, bump),
        forall|c: u8| bump < c ==> !#[trigger] bump_accepted(seeds, program_id, c),
        forall|c: u8| 1 <= c && c != bump && #[trigger] bump_accepted(seeds, program_id, c) ==> c < bump,
{
    lemma_search_from(seeds, program_id, 255);
}

} // verus!
