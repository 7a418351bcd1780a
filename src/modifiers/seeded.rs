//! `Seeded`: the account's key must be the address derived from given seeds;
//! the canonical bump is kept for signing.

use crate::account::{AccountInfo, AccountMeta, ToAccountMetas, SingleAccountSet};
use crate::error::{Error, ErrorCode};
use crate::pda::{derived_address, derives_key, find_program_address, seeds_view};
use crate::pubkey::Pubkey;
use core::marker::PhantomData;
use vstd::prelude::*;
use vstd::slice::slice_to_vec;

verus! {

/// A provider of the seeds an address is derived from.
pub trait Seeds {
    /// The seeds, as byte slices.
    fn seeds(&self) -> Vec<&[u8]>;
}

/// Seeds together with their bump, in the form a signed call takes.
#[derive(Debug, Clone)]
pub struct SeedsWithBump {
    seeds: Vec<Vec<u8>>,
    bump: [u8; 1],
}

impl SeedsWithBump {
    /// The seeds, as byte strings.
    pub closed spec fn seeds_spec(&self) -> Seq<Seq<u8>> {
        seeds_view(self.seeds@)
    }

    /// The bump.
    pub closed spec fn bump_spec(&self) -> u8 {
        self.bump[0]
    }

    /// The bump seed.
    pub fn bump(&self) -> (r: u8)
        ensures
            r == self.bump_spec(),
    {
        self.bump[0]
    }

    /// The seeds without the bump.
    pub fn seeds(&self) -> (r: &[Vec<u8>])
        ensures
            seeds_view(r@) == self.seeds_spec(),
    {
        self.seeds.as_slice()
    }

    /// The seeds followed by the one-byte bump seed.
    pub fn to_signer_seeds(&self) -> (r: Vec<&[u8]>)
        ensures
            r@.len() == self.seeds_spec().len() + 1,
            forall|i: int| 0 <= i < self.seeds_spec().len() ==> #[trigger] r@[i]@ == self.seeds_spec()[i],
            r@[self.seeds_spec().len() as int]@ == seq![self.bump_spec()],
    {
        let mut result: Vec<&[u8]> = Vec::new();
        let mut i: usize = 0;
        while i < self.seeds.len()
            invariant
                0 <= i <= self.seeds@.len(),
                result@.len() == i,
                forall|j: int| 0 <= j < i ==> #[trigger] result@[j]@ == self.seeds@[j]@,
            decreases self.seeds@.len() - i,
        {
            result.push(self.seeds[i].as_slice());
            i = i + 1;
        }
        result.push(self.bump.as_slice());
        proof {
            assert(self.bump@ =~= seq![self.bump[0]]);
        }
        result
    }
}

/// Wraps an account whose key must be the address derived from `S`'s seeds.
#[derive(Debug)]
pub struct Seeded<T, S> {
    inner: T,
    bump: u8,
    seeds: Vec<Vec<u8>>,
    _marker: PhantomData<S>,
}

/// Copies each seed slice into an owned byte string.
fn own_seeds(slices: &Vec<&[u8]>) -> (r: Vec<Vec<u8>>)
    ensures
        r@.len() == slices@.len(),
        forall|i: int| 0 <= i < r@.len() ==> #[trigger] r@[i]@ == slices@[i]@,
{
    let mut r: Vec<Vec<u8>> = Vec::new();
    let mut i: usize = 0;
    while i < slices.len()
        invariant
            0 <= i <= slices@.len(),
            r@.len() == i,
            forall|j: int| 0 <= j < i ==> #[trigger] r@[j]@ == slices@[j]@,
        decreases slices@.len() - i,
    {
        r.push(slice_to_vec(slices[i]));
        i = i + 1;
    }
    r
}

impl<T, S> Seeded<T, S> {
    /// The wrapped value.
    pub closed spec fn inner_view(&self) -> T {
        self.inner
    }

    /// The kept bump.
    pub closed spec fn bump_spec(&self) -> u8 {
        self.bump
    }

    /// The kept seeds, as byte strings.
    pub closed spec fn seeds_spec(&self) -> Seq<Seq<u8>> {
        seeds_view(self.seeds@)
    }

    /// Wraps `inner` with the given bump and seeds, without checking them.
    pub fn new(inner: T, bump: u8, seeds: Vec<Vec<u8>>) -> (r: Self)
        ensures
            r.inner_view() == inner,
            r.bump_spec() == bump,
            r.seeds_spec() == seeds_view(seeds@),
    {
        Seeded { inner, bump, seeds, _marker: PhantomData }
    }

    /// The bump.
    pub fn bump(&self) -> (r: u8)
        ensures
            r == self.bump_spec(),
    {
        self.bump
    }

    /// The seeds without the bump.
    pub fn seeds(&self) -> (r: &[Vec<u8>])
        ensures
            seeds_view(r@) == self.seeds_spec(),
    {
        self.seeds.as_slice()
    }

    /// The seeds and bump, for signing.
    pub fn signer_seeds(&self) -> (r: SeedsWithBump)
        ensures
            r.seeds_spec() == self.seeds_spec(),
            r.bump_spec() == self.bump_spec(),
    {
        let mut seeds: Vec<Vec<u8>> = Vec::new();
        let mut i: usize = 0;
        while i < self.seeds.len()
            invariant
                0 <= i <= self.seeds@.len(),
                seeds@.len() == i,
                forall|j: int| 0 <= j < i ==> #[trigger] seeds@[j]@ == self.seeds@[j]@,
            decreases self.seeds@.len() - i,
        {
            seeds.push(slice_to_vec(self.seeds[i].as_slice()));
            i = i + 1;
        }
        proof {
            assert(seeds_view(seeds@) =~= seeds_view(self.seeds@));
        }
        SeedsWithBump { seeds, bump: [self.bump] }
    }

    /// The wrapped value.
    pub fn inner(&self) -> (r: &T)
        ensures
            *r == self.inner_view(),
    {
        &self.inner
    }

    /// The wrapped value, for changing in place.
    pub fn inner_mut(&mut self) -> (r: &mut T)
        ensures
            *r == old(self).inner_view(),
            final(self).inner_view() == *final(r),
            final(self).bump_spec() == old(self).bump_spec(),
            final(self).seeds_spec() == old(self).seeds_spec(),
    {
        &mut self.inner
    }

    /// Unwraps the value.
    pub fn into_inner(self) -> (r: T)
        ensures
            r == self.inner_view(),
    {
        self.inner
    }
}

impl<T: SingleAccountSet, S> Seeded<T, S> {
    /// Wraps `inner` when its key is the address derived from `seeds` under
    /// `program_id`, keeping the seeds and the canonical bump. Otherwise
    /// `ConstraintSeeds`, carrying (actual key, derived address) when an
    /// address could be derived.
    pub fn try_from_validated_with_seed_list(inner: T, program_id: &Pubkey, seeds: Vec<Vec<u8>>) -> (r:
        Result<Self, Error>)
        ensures
            r is Ok <==> derives_key(seeds_view(seeds@), program_id@, inner.account_view().key@),
            r matches Ok(w) ==> w.inner_view() == inner && w.seeds_spec() == seeds_view(seeds@)
                && derived_address(seeds_view(seeds@), program_id@) == Some(
                (inner.account_view().key@, w.bump_spec()),
            ),
            r matches Err(e) ==> e.code == ErrorCode::ConstraintSeeds && e.account_names@.len() == 0,
            r matches Err(e) ==> (derived_address(seeds_view(seeds@), program_id@) is Some ==> (
            e.pubkeys matches Some((a, x)) && a@ == inner.account_view().key@ && x@ == (
            derived_address(seeds_view(seeds@), program_id@)->0).0)),
    {
        let key = inner.pubkey();
        match find_program_address(&seeds, program_id) {
            None => Err(Error::new(ErrorCode::ConstraintSeeds)),
            Some((expected_key, bump)) => {
                if !key.key_eq(&expected_key) {
                    return Err(Error::new(ErrorCode::ConstraintSeeds).with_pubkeys((key, expected_key)));
                }
                Ok(Seeded { inner, bump, seeds, _marker: PhantomData })
            },
        }
    }
}

impl<T: SingleAccountSet, S: Seeds> Seeded<T, S> {
    /// Wraps `inner` when its key is the address derived from the provider's
    /// seeds under `program_id`, keeping those seeds and the canonical bump;
    /// `ConstraintSeeds` otherwise.
    pub fn try_from_validated_with_seeds(inner: T, program_id: &Pubkey, seeds_provider: &S) -> (r:
        Result<Self, Error>)
        ensures
            r matches Ok(w) ==> w.inner_view() == inner && derived_address(w.seeds_spec(), program_id@)
                == Some((inner.account_view().key@, w.bump_spec())),
            r matches Err(e) ==> e.code == ErrorCode::ConstraintSeeds,
    {
        let slices = seeds_provider.seeds();
        let seeds = own_seeds(&slices);
        Self::try_from_validated_with_seed_list(inner, program_id, seeds)
    }
}

impl<T: SingleAccountSet, S: Seeds + Default> Seeded<T, S> {
    /// Validates against the seeds of `S::default()`; see
    /// `try_from_validated_with_seeds`.
    pub fn try_from_validated(inner: T, program_id: &Pubkey) -> (r: Result<Self, Error>)
        ensures
            r matches Ok(w) ==> w.inner_view() == inner && derived_address(w.seeds_spec(), program_id@)
                == Some((inner.account_view().key@, w.bump_spec())),
            r matches Err(e) ==> e.code == ErrorCode::ConstraintSeeds,
    {
        let seeds_provider = S::default();
        Self::try_from_validated_with_seeds(inner, program_id, &seeds_provider)
    }
}

impl<T: SingleAccountSet, S> SingleAccountSet for Seeded<T, S> {
    open spec fn account_view(&self) -> AccountInfo {
        self.inner_view().account_view()
    }

    fn account_info(&self) -> (r: &AccountInfo) {
        self.inner.account_info()
    }
}

impl<T: ToAccountMetas, S> ToAccountMetas for Seeded<T, S> {
    open spec fn metas_view(&self, is_signer: Option<bool>) -> Seq<AccountMeta> {
        self.inner_view().metas_view(is_signer)
    }

    fn to_account_metas(&self, is_signer: Option<bool>) -> (r: Vec<AccountMeta>) {
        self.inner.to_account_metas(is_signer)
    }
}

} // verus!
