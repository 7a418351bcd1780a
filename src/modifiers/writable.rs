//! `Mut`: the account must be writable.

use crate::account::{AccountInfo, AccountMeta, SingleAccountSet, ToAccountMetas};
use crate::error::{is_bare, Error, ErrorCode};
use vstd::prelude::*;

verus! {

/// Wraps an account that must be writable.
#[derive(Clone, Debug)]
pub struct Mut<T> {
    inner: T,
}

impl<T> Mut<T> {
    /// The wrapped value.
    pub closed spec fn inner_view(&self) -> T {
        self.inner
    }

    /// Wraps `inner` without checking it.
    pub fn new(inner: T) -> (r: Self)
        ensures
            r.inner_view() == inner,
    {
        Mut { inner }
    }

    /// The wrapped value.
    pub fn inner(&self) -> (r: &T)
        ensures
            *r == self.inner_view(),
    {
        &self.inner
    }

    /// The wrapped value, for changing in place.
    pub fn inner_mut(&mut self) -> (r: &mut T)
        ensures
            *r == old(self).inner_view(),
            final(self).inner_view() == *final(r),
    {
        &mut self.inner
    }

    /// Unwraps the value.
    pub fn into_inner(self) -> (r: T)
        ensures
            r == self.inner_view(),
    {
        self.inner
    }
}

impl<T: SingleAccountSet> Mut<T> {
    /// Wraps `inner` when its account is writable; `ConstraintMut` otherwise.
    pub fn try_from_validated(inner: T) -> (r: Result<Self, Error>)
        ensures
            r is Ok <==> inner.account_view().is_writable,
            r matches Ok(w) ==> w.inner_view() == inner,
            r matches Err(e) ==> is_bare(e, ErrorCode::ConstraintMut),
    {
        if !inner.is_writable() {
            return Err(Error::new(ErrorCode::ConstraintMut));
        }
        Ok(Mut { inner })
    }
}

impl<T: SingleAccountSet> SingleAccountSet for Mut<T> {
    open spec fn account_view(&self) -> AccountInfo {
        self.inner_view().account_view()
    }

    fn account_info(&self) -> (r: &AccountInfo) {
        self.inner.account_info()
    }
}

/// The listed accounts, each marked writable.
pub open spec fn force_writable(metas: Seq<AccountMeta>) -> Seq<AccountMeta> {
    metas.map_values(|m: AccountMeta| AccountMeta { is_writable: true, ..m })
}

impl<T: ToAccountMetas> ToAccountMetas for Mut<T> {
    open spec fn metas_view(&self, is_signer: Option<bool>) -> Seq<AccountMeta> {
        force_writable(self.inner_view().metas_view(is_signer))
    }

    fn to_account_metas(&self, is_signer: Option<bool>) -> (r: Vec<AccountMeta>) {
        let metas = self.inner.to_account_metas(is_signer);
        let mut r: Vec<AccountMeta> = Vec::new();
        let mut i: usize = 0;
        while i < metas.len()
            invariant
                0 <= i <= metas@.len(),
                r@ =~= force_writable(metas@).subrange(0, i as int),
            decreases metas@.len() - i,
        {
            let m = metas[i];
            r.push(AccountMeta { pubkey: m.pubkey, is_signer: m.is_signer, is_writable: true });
            i = i + 1;
        }
        assert(force_writable(metas@).subrange(0, metas@.len() as int) =~= force_writable(metas@));
        r
    }
}

} // verus!
