//! `Executable`: the account must be an executable program.

use crate::account::{AccountInfo, AccountMeta, ToAccountMetas, SingleAccountSet};
use crate::error::{is_bare, Error, ErrorCode};
use vstd::prelude::*;

verus! {

/// Wraps an account that must be an executable program.
#[derive(Clone, Debug)]
pub struct Executable<T> {
    inner: T,
}

impl<T> Executable<T> {
    /// The wrapped value.
    pub closed spec fn inner_view(&self) -> T {
        self.inner
    }

    /// Wraps `inner` without checking it.
    pub fn new(inner: T) -> (r: Self)
        ensures
            r.inner_view() == inner,
    {
        Executable { inner }
    }

    /// The wrapped value.
    pub fn inner(&self) -> (r: &T)
        ensures
            *r == self.inner_view(),
    {
        &self.inner
    }

    /// The wrapped value, for changing in place.
    pub fn inner_mut(&mut self) -> (r: &mut T)
        ensures
            *r == old(self).inner_view(),
            final(self).inner_view() == *final(r),
    {
        &mut self.inner
    }

    /// Unwraps the value.
    pub fn into_inner(self) -> (r: T)
        ensures
            r == self.inner_view(),
    {
        self.inner
    }
}

impl<T: SingleAccountSet> Executable<T> {
    /// Wraps `inner` when its account is executable; `ConstraintExecutable` otherwise.
    pub fn try_from_validated(inner: T) -> (r: Result<Self, Error>)
        ensures
            r is Ok <==> inner.account_view().executable,
            r matches Ok(w) ==> w.inner_view() == inner,
            r matches Err(e) ==> is_bare(e, ErrorCode::ConstraintExecutable),
    {
        if !inner.is_executable() {
            return Err(Error::new(ErrorCode::ConstraintExecutable));
        }
        Ok(Executable { inner })
    }
}

impl<T: SingleAccountSet> SingleAccountSet for Executable<T> {
    open spec fn account_view(&self) -> AccountInfo {
        self.inner_view().account_view()
    }

    fn account_info(&self) -> (r: &AccountInfo) {
        self.inner.account_info()
    }
}

impl<T: ToAccountMetas> ToAccountMetas for Executable<T> {
    open spec fn metas_view(&self, is_signer: Option<bool>) -> Seq<AccountMeta> {
        self.inner_view().metas_view(is_signer)
    }

    fn to_account_metas(&self, is_signer: Option<bool>) -> (r: Vec<AccountMeta>) {
        self.inner.to_account_metas(is_signer)
    }
}

} // verus!
