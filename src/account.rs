//! The read-only view of one supplied account, and the accessor trait that
//! every wrapper delegates to its inner value.

use crate::error::{is_bare, is_keyed, Error, ErrorCode};
use crate::pubkey::Pubkey;
use vstd::prelude::*;

verus! {

/// One account as supplied to a handler: its key, flags, owner, balance and data.
#[derive(Clone, Debug)]
pub struct AccountInfo {
    pub key: Pubkey,
    pub is_signer: bool,
    pub is_writable: bool,
    pub owner: Pubkey,
    pub lamports: u64,
    pub data: Vec<u8>,
    pub executable: bool,
}

impl AccountInfo {
    /// An account with the given key, flags, owner and balance, and no data.
    pub fn new(
        key: Pubkey,
        is_signer: bool,
        is_writable: bool,
        owner: Pubkey,
        lamports: u64,
        executable: bool,
    ) -> (r: AccountInfo)
        ensures
            r.key == key,
            r.is_signer == is_signer,
            r.is_writable == is_writable,
            r.owner == owner,
            r.lamports == lamports,
            r.data@.len() == 0,
            r.executable == executable,
    {
        AccountInfo { key, is_signer, is_writable, owner, lamports, data: Vec::new(), executable }
    }

    /// The same account holding the given data.
    pub fn with_data(self, data: Vec<u8>) -> (r: AccountInfo)
        ensures
            r == (AccountInfo { data, ..self }),
    {
        AccountInfo { data, ..self }
    }
}

/// A value that stands for exactly one account, with read access to it and
/// the basic checks on it.
pub trait SingleAccountSet {
    /// The account this value stands for.
    spec fn account_view(&self) -> AccountInfo;

    /// The account this value stands for.
    fn account_info(&self) -> (r: &AccountInfo)
        ensures
            *r == self.account_view(),
    ;

    /// The account's key.
    fn pubkey(&self) -> (r: Pubkey)
        ensures
            r == self.account_view().key,
    {
        self.account_info().key
    }

    /// Whether the account signed.
    fn is_signer(&self) -> (r: bool)
        ensures
            r == self.account_view().is_signer,
    {
        self.account_info().is_signer
    }

    /// Whether the account is writable.
    fn is_writable(&self) -> (r: bool)
        ensures
            r == self.account_view().is_writable,
    {
        self.account_info().is_writable
    }

    /// Whether the account is an executable program.
    fn is_executable(&self) -> (r: bool)
        ensures
            r == self.account_view().executable,
    {
        self.account_info().executable
    }

    /// The program that owns the account.
    fn owner(&self) -> (r: Pubkey)
        ensures
            r == self.account_view().owner,
    {
        self.account_info().owner
    }

    /// The account's balance.
    fn lamports(&self) -> (r: u64)
        ensures
            r == self.account_view().lamports,
    {
        self.account_info().lamports
    }

    /// Succeeds exactly when the account signed.
    fn check_signer(&self) -> (r: Result<(), Error>)
        ensures
            r is Ok <==> self.account_view().is_signer,
            r matches Err(e) ==> is_bare(e, ErrorCode::AccountNotSigner),
    {
        if !self.is_signer() {
            return Err(Error::new(ErrorCode::AccountNotSigner));
        }
        Ok(())
    }

    /// Succeeds exactly when the account is writable.
    fn check_writable(&self) -> (r: Result<(), Error>)
        ensures
            r is Ok <==> self.account_view().is_writable,
            r matches Err(e) ==> is_bare(e, ErrorCode::AccountNotMutable),
    {
        if !self.is_writable() {
            return Err(Error::new(ErrorCode::AccountNotMutable));
        }
        Ok(())
    }

    /// Succeeds exactly when the account is owned by `expected_owner`; the
    /// error carries (actual owner, expected owner).
    fn check_owner(&self, expected_owner: &Pubkey) -> (r: Result<(), Error>)
        ensures
            r is Ok <==> self.account_view().owner@ == expected_owner@,
            r matches Err(e) ==> is_keyed(
                e,
                ErrorCode::AccountOwnedByWrongProgram,
                self.account_view().owner@,
                expected_owner@,
            ),
    {
        let owner = self.owner();
        if !owner.key_eq(expected_owner) {
            return Err(
                Error::new(ErrorCode::AccountOwnedByWrongProgram).with_pubkeys(
                    (owner, *expected_owner),
                ),
            );
        }
        Ok(())
    }

    /// Succeeds exactly when the account's key is `expected_key`; the error
    /// carries (actual key, expected key).
    fn check_key(&self, expected_key: &Pubkey) -> (r: Result<(), Error>)
        ensures
            r is Ok <==> self.account_view().key@ == expected_key@,
            r matches Err(e) ==> is_keyed(
                e,
                ErrorCode::ConstraintAddress,
                self.account_view().key@,
                expected_key@,
            ),
    {
        let key = self.pubkey();
        if !key.key_eq(expected_key) {
            return Err(Error::new(ErrorCode::ConstraintAddress).with_pubkeys((key, *expected_key)));
        }
        Ok(())
    }
}

/// How one account is listed in an instruction: its key and whether it
/// signs and is written.
#[derive(Clone, Copy, Debug, PartialEq, Eq)]
pub struct AccountMeta {
    pub pubkey: Pubkey,
    pub is_signer: bool,
    pub is_writable: bool,
}

/// A value that lists the accounts it stands for, as an instruction takes them.
pub trait ToAccountMetas {
    /// The listed accounts; `is_signer`, when given, overrides the signer flag.
    spec fn metas_view(&self, is_signer: Option<bool>) -> Seq<AccountMeta>;

    /// The listed accounts; `is_signer`, when given, overrides the signer flag.
    fn to_account_metas(&self, is_signer: Option<bool>) -> (r: Vec<AccountMeta>)
        ensures
            r@ == self.metas_view(is_signer),
    ;
}

impl ToAccountMetas for AccountInfo {
    open spec fn metas_view(&self, is_signer: Option<bool>) -> Seq<AccountMeta> {
        seq![
            AccountMeta {
                pubkey: self.key,
                is_signer: match is_signer {
                    Some(b) => b,
                    None => self.is_signer,
                },
                is_writable: self.is_writable,
            },
        ]
    }

    fn to_account_metas(&self, is_signer: Option<bool>) -> (r: Vec<AccountMeta>) {
        let signer = match is_signer {
            Some(b) => b,
            None => self.is_signer,
        };
        let mut r: Vec<AccountMeta> = Vec::new();
        r.push(AccountMeta { pubkey: self.key, is_signer: signer, is_writable: self.is_writable });
        assert(r@ =~= self.metas_view(is_signer));
        r
    }
}

/// A type that names one program by its identifier.
pub trait Id {
    /// The program's identifier.
    fn id() -> Pubkey;
}

impl SingleAccountSet for AccountInfo {
    open spec fn account_view(&self) -> AccountInfo {
        *self
    }

    fn account_info(&self) -> (r: &AccountInfo) {
        self
    }
}

} // verus!
