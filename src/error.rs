//! The error taxonomy of a validation pass.

use crate::pubkey::Pubkey;
use vstd::prelude::*;

verus! {

/// The kind of a validation failure.
#[derive(Clone, Copy, Debug, PartialEq, Eq, Structural)]
pub enum ErrorCode {
    /// A slot that must be writable is not.
    ConstraintMut,
    /// A relationship field does not hold the target slot's key.
    ConstraintHasOne,
    /// A slot that must have signed did not.
    ConstraintSigner,
    /// A slot is not owned by the expected program.
    ConstraintOwner,
    /// A slot's key is not the address derived from its seeds.
    ConstraintSeeds,
    /// A slot that must be a program is not executable.
    ConstraintExecutable,
    /// A slot's key is not the expected key.
    ConstraintAddress,
    /// The target of a relationship is an optional slot that was not supplied.
    ConstraintAccountIsNone,
    /// Two writable slots resolve to the same account.
    DuplicateMutableAccount,
    /// The account list ran out before a required slot was filled.
    MissingAccount,
    /// The account data is too short to hold a discriminator.
    AccountDiscriminatorNotFound,
    /// The account data starts with another type's discriminator.
    AccountDiscriminatorMismatch,
    /// The account data is too short to hold a declared field.
    AccountDidNotDeserialize,
    /// The account is not writable.
    AccountNotMutable,
    /// The account is owned by another program.
    AccountOwnedByWrongProgram,
    /// The account did not sign.
    AccountNotSigner,
}

/// The numeric code reported for an error kind.
pub open spec fn code_number(code: ErrorCode) -> u32 {
    match code {
        ErrorCode::ConstraintMut => 2000,
        ErrorCode::ConstraintHasOne => 2001,
        ErrorCode::ConstraintSigner => 2002,
        ErrorCode::ConstraintOwner => 2004,
        ErrorCode::ConstraintSeeds => 2006,
        ErrorCode::ConstraintExecutable => 2007,
        ErrorCode::ConstraintAddress => 2012,
        ErrorCode::ConstraintAccountIsNone => 2020,
        ErrorCode::DuplicateMutableAccount => 2040,
        ErrorCode::MissingAccount => 3005,
        ErrorCode::AccountDiscriminatorNotFound => 3001,
        ErrorCode::AccountDiscriminatorMismatch => 3002,
        ErrorCode::AccountDidNotDeserialize => 3003,
        ErrorCode::AccountNotMutable => 3006,
        ErrorCode::AccountOwnedByWrongProgram => 3007,
        ErrorCode::AccountNotSigner => 3010,
    }
}

impl ErrorCode {
    /// The numeric code reported across the handler boundary.
    pub fn number(&self) -> (r: u32)
        ensures
            r == code_number(*self),
    {
        match self {
            ErrorCode::ConstraintMut => 2000,
            ErrorCode::ConstraintHasOne => 2001,
            ErrorCode::ConstraintSigner => 2002,
            ErrorCode::ConstraintOwner => 2004,
            ErrorCode::ConstraintSeeds => 2006,
            ErrorCode::ConstraintExecutable => 2007,
            ErrorCode::ConstraintAddress => 2012,
            ErrorCode::ConstraintAccountIsNone => 2020,
            ErrorCode::DuplicateMutableAccount => 2040,
            ErrorCode::MissingAccount => 3005,
            ErrorCode::AccountDiscriminatorNotFound => 3001,
            ErrorCode::AccountDiscriminatorMismatch => 3002,
            ErrorCode::AccountDidNotDeserialize => 3003,
            ErrorCode::AccountNotMutable => 3006,
            ErrorCode::AccountOwnedByWrongProgram => 3007,
            ErrorCode::AccountNotSigner => 3010,
        }
    }
}

/// A validation failure: its kind, the two compared keys where a comparison
/// failed, and the names of the slots it is attributed to.
#[derive(Clone, Debug)]
pub struct Error {
    pub code: ErrorCode,
    pub pubkeys: Option<(Pubkey, Pubkey)>,
    pub account_names: Vec<String>,
}

/// What an error says, as values.
pub struct ErrorView {
    pub code: ErrorCode,
    pub keys: Option<(Seq<u8>, Seq<u8>)>,
    pub names: Seq<String>,
}

impl View for Error {
    type V = ErrorView;

    open spec fn view(&self) -> ErrorView {
        ErrorView {
            code: self.code,
            keys: match self.pubkeys {
                Some((a, b)) => Some((a@, b@)),
                None => None,
            },
            names: self.account_names@,
        }
    }
}

/// An error of the given kind with nothing attached.
pub open spec fn fault(code: ErrorCode) -> ErrorView {
    ErrorView { code, keys: None, names: Seq::empty() }
}

/// An error of the given kind carrying the compared keys.
pub open spec fn keyed_fault(code: ErrorCode, actual: Seq<u8>, expected: Seq<u8>) -> ErrorView {
    ErrorView { code, keys: Some((actual, expected)), names: Seq::empty() }
}

/// The same error, attributed to one slot.
pub open spec fn named(e: ErrorView, name: String) -> ErrorView {
    ErrorView { names: seq![name], ..e }
}

/// `e` is an error of kind `code` with no keys and no slot names.
pub open spec fn is_bare(e: Error, code: ErrorCode) -> bool {
    e@ == fault(code)
}

/// `e` is an error of kind `code` carrying the compared keys `(actual, expected)`.
pub open spec fn is_keyed(e: Error, code: ErrorCode, actual: Seq<u8>, expected: Seq<u8>) -> bool {
    e@ == keyed_fault(code, actual, expected)
}

impl Error {
    /// An error of the given kind, with no keys and no slot names.
    pub fn new(code: ErrorCode) -> (r: Error)
        ensures
            is_bare(r, code),
    {
        let r = Error { code, pubkeys: None, account_names: Vec::new() };
        assert(r@.names =~= Seq::<String>::empty());
        r
    }

    /// The same error, carrying the two compared keys.
    pub fn with_pubkeys(self, pubkeys: (Pubkey, Pubkey)) -> (r: Error)
        ensures
            r.code == self.code,
            r.pubkeys == Some(pubkeys),
            r.account_names == self.account_names,
            r@ == (ErrorView { keys: Some((pubkeys.0@, pubkeys.1@)), ..self@ }),
    {
        Error { code: self.code, pubkeys: Some(pubkeys), account_names: self.account_names }
    }

    /// The same error, attributed to the named slot.
    pub fn with_account_name(self, name: &String) -> (r: Error)
        ensures
            r.code == self.code,
            r.pubkeys == self.pubkeys,
            r.account_names@ == seq![*name],
            r@ == named(self@, *name),
    {
        let mut names: Vec<String> = Vec::new();
        names.push(name.clone());
        Error { code: self.code, pubkeys: self.pubkeys, account_names: names }
    }

    /// The same error, attributed to two slots.
    pub fn with_account_names(self, first: &String, second: &String) -> (r: Error)
        ensures
            r.code == self.code,
            r.pubkeys == self.pubkeys,
            r.account_names@ == seq![*first, *second],
            r@ == (ErrorView { names: seq![*first, *second], ..self@ }),
    {
        let mut names: Vec<String> = Vec::new();
        names.push(first.clone());
        names.push(second.clone());
        Error { code: self.code, pubkeys: self.pubkeys, account_names: names }
    }

    /// The numeric code of this error's kind.
    pub fn number(&self) -> (r: u32)
        ensures
            r == code_number(self.code),
    {
        self.code.number()
    }
}

} // verus!
