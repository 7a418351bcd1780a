//! `Owned`: the account must be owned by a given program.

use crate::account::{AccountInfo, AccountMeta, ToAccountMetas, Id, SingleAccountSet};
use crate::error::{is_bare, Error, ErrorCode};
use crate::pubkey::Pubkey;
use core::marker::PhantomData;
use vstd::prelude::*;

verus! {

/// Wraps an account that must be owned by the program `P` names.
#[derive(Debug)]
pub struct Owned<T, P> {
    inner: T,
    _program: PhantomData<P>,
}

impl<T, P> Owned<T, P> {
    /// The wrapped value.
    pub closed spec fn inner_view(&self) -> T {
        self.inner
    }

    /// Wraps `inner` without checking it.
    pub fn new(inner: T) -> (r: Self)
        ensures
            r.inner_view() == inner,
    {
        Owned { inner, _program: PhantomData }
    }

    /// The wrapped value.
    pub fn inner(&self) -> (r: &T)
        ensures
            *r == self.inner_view(),
    {
        &self.inner
    }

    /// The wrapped value, for changing in place.
    pub fn inner_mut(&mut self) -> (r: &mut T)
        ensures
            *r == old(self).inner_view(),
            final(self).inner_view() == *final(r),
    {
        &mut self.inner
    }

    /// Unwraps the value.
    pub fn into_inner(self) -> (r: T)
        ensures
            r == self.inner_view(),
    {
        self.inner
    }
}

impl<T: SingleAccountSet, P> Owned<T, P> {
    /// Wraps `inner` when its account is owned by `expected_owner`;
    /// `ConstraintOwner` otherwise.
    pub fn try_from_validated_with_owner(inner: T, expected_owner: &Pubkey) -> (r: Result<Self, Error>)
        ensures
            r is Ok <==> inner.account_view().owner@ == expected_owner@,
            r matches Ok(w) ==> w.inner_view() == inner,
            r matches Err(e) ==> is_bare(e, ErrorCode::ConstraintOwner),
    {
        if !inner.owner().key_eq(expected_owner) {
            return Err(Error::new(ErrorCode::ConstraintOwner));
        }
        Ok(Owned { inner, _program: PhantomData })
    }
}

impl<T: SingleAccountSet, P: Id> Owned<T, P> {
    /// Wraps `inner` when its account is owned by the program `P::id()`
    /// names; `ConstraintOwner` otherwise.
    pub fn try_from_validated(inner: T) -> (r: Result<Self, Error>)
        ensures
            r matches Ok(w) ==> w.inner_view() == inner,
            r matches Err(e) ==> is_bare(e, ErrorCode::ConstraintOwner),
    {
        let expected_owner = P::id();
        Self::try_from_validated_with_owner(inner, &expected_owner)
    }
}

impl<T: SingleAccountSet, P> SingleAccountSet for Owned<T, P> {
    open spec fn account_view(&self) -> AccountInfo {
        self.inner_view().account_view()
    }

    fn account_info(&self) -> (r: &AccountInfo) {
        self.inner.account_info()
    }
}

impl<T: ToAccountMetas, P> ToAccountMetas for Owned<T, P> {
    open spec fn metas_view(&self, is_signer: Option<bool>) -> Seq<AccountMeta> {
        self.inner_view().metas_view(is_signer)
    }

    fn to_account_metas(&self, is_signer: Option<bool>) -> (r: Vec<AccountMeta>) {
        self.inner.to_account_metas(is_signer)
    }
}

} // verus!
