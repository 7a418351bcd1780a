//! `HasOne`: a key held in the wrapped account must equal another account's key.

use crate::account::{AccountInfo, AccountMeta, ToAccountMetas, SingleAccountSet};
use crate::error::{is_bare, Error, ErrorCode};
use crate::pubkey::Pubkey;
use core::marker::PhantomData;
use vstd::prelude::*;

verus! {

/// Picks out of a `T` the key that a relationship compares.
pub trait HasOneTarget<T> {
    /// The name of the slot whose key the picked key must equal.
    fn field() -> &'static str;

    /// The key picked out of `account`.
    fn target(account: &T) -> Pubkey;
}

/// Wraps a value holding a key that must equal another account's key. The
/// comparison needs that other account, so it is made by `validate_has_one`
/// once every account is at hand.
#[derive(Debug)]
pub struct HasOne<T, Target> {
    inner: T,
    _target: PhantomData<Target>,
}

impl<T, Target> HasOne<T, Target> {
    /// The wrapped value.
    pub closed spec fn inner_view(&self) -> T {
        self.inner
    }

    /// Wraps `inner` without checking it.
    pub fn new(inner: T) -> (r: Self)
        ensures
            r.inner_view() == inner,
    {
        HasOne { inner, _target: PhantomData }
    }

    /// The wrapped value.
    pub fn inner(&self) -> (r: &T)
        ensures
            *r == self.inner_view(),
    {
        &self.inner
    }

    /// The wrapped value, for changing in place.
    pub fn inner_mut(&mut self) -> (r: &mut T)
        ensures
            *r == old(self).inner_view(),
            final(self).inner_view() == *final(r),
    {
        &mut self.inner
    }

    /// Unwraps the value.
    pub fn into_inner(self) -> (r: T)
        ensures
            r == self.inner_view(),
    {
        self.inner
    }
}

/// Succeeds exactly when the picked key equals the expected one;
/// `ConstraintHasOne` otherwise.
pub fn check_has_one(actual_target: &Pubkey, expected_target: &Pubkey) -> (r: Result<(), Error>)
    ensures
        r is Ok <==> actual_target@ == expected_target@,
        r matches Err(e) ==> is_bare(e, ErrorCode::ConstraintHasOne),
{
    if !actual_target.key_eq(expected_target) {
        return Err(Error::new(ErrorCode::ConstraintHasOne));
    }
    Ok(())
}

impl<T, Target: HasOneTarget<T>> HasOne<T, Target> {
    /// Wraps `inner` when the key `Target` picks out of it equals
    /// `expected_target`; `ConstraintHasOne` otherwise.
    pub fn try_from_validated_with_target(inner: T, expected_target: &Pubkey) -> (r: Result<
        Self,
        Error,
    >)
        ensures
            r matches Ok(w) ==> w.inner_view() == inner,
            r matches Err(e) ==> is_bare(e, ErrorCode::ConstraintHasOne),
    {
        let actual_target = Target::target(&inner);
        check_has_one(&actual_target, expected_target)?;
        Ok(HasOne { inner, _target: PhantomData })
    }

    /// The key `Target` picks out of the wrapped value.
    pub fn target(&self) -> Pubkey {
        Target::target(&self.inner)
    }

    /// Succeeds when the key `Target` picks out of the wrapped value equals
    /// `expected_target`; `ConstraintHasOne` otherwise.
    pub fn validate_has_one(&self, expected_target: &Pubkey) -> (r: Result<(), Error>)
        ensures
            r matches Err(e) ==> is_bare(e, ErrorCode::ConstraintHasOne),
    {
        let actual_target = Target::target(&self.inner);
        check_has_one(&actual_target, expected_target)
    }
}

impl<T: SingleAccountSet, Target> SingleAccountSet for HasOne<T, Target> {
    open spec fn account_view(&self) -> AccountInfo {
        self.inner_view().account_view()
    }

    fn account_info(&self) -> (r: &AccountInfo) {
        self.inner.account_info()
    }
}

impl<T: ToAccountMetas, Target> ToAccountMetas for HasOne<T, Target> {
    open spec fn metas_view(&self, is_signer: Option<bool>) -> Seq<AccountMeta> {
        self.inner_view().metas_view(is_signer)
    }

    fn to_account_metas(&self, is_signer: Option<bool>) -> (r: Vec<AccountMeta>) {
        self.inner.to_account_metas(is_signer)
    }
}

} // verus!
