use anchor_lang::account::{AccountInfo, AccountMeta, Id, SingleAccountSet, ToAccountMetas};
use anchor_lang::error::ErrorCode;
use anchor_lang::modifiers::executable::Executable;
use anchor_lang::modifiers::has_one::{check_has_one, HasOne, HasOneTarget};
use anchor_lang::modifiers::owned::Owned;
use anchor_lang::modifiers::seeded::{Seeded, Seeds};
use anchor_lang::modifiers::writable::Mut;
use anchor_lang::pda::find_program_address;
use anchor_lang::pubkey::Pubkey;

fn key(b: u8) -> Pubkey {
    Pubkey::new_from_array([b; 32])
}

fn account(k: u8, signer: bool, writable: bool, owner: u8, executable: bool) -> AccountInfo {
    AccountInfo::new(key(k), signer, writable, key(owner), 1_000, executable)
}

#[derive(Debug)]
struct ThisProgram;

impl Id for ThisProgram {
    fn id() -> Pubkey {
        key(9)
    }
}

#[derive(Default, Debug)]
struct TestDataSeeds;

impl Seeds for TestDataSeeds {
    fn seeds(&self) -> Vec<&[u8]> {
        vec![b"test_data"]
    }
}

#[derive(Debug)]
struct AuthorityTarget;

impl HasOneTarget<AccountInfo> for AuthorityTarget {
    fn field() -> &'static str {
        "authority"
    }

    fn target(account: &AccountInfo) -> Pubkey {
        let mut b = [0u8; 32];
        b.copy_from_slice(&account.data[8..40]);
        Pubkey::new_from_array(b)
    }
}

#[test]
fn accessors_read_the_account() {
    let a = account(1, true, false, 2, false);
    assert_eq!(a.pubkey(), key(1));
    assert!(a.is_signer());
    assert!(!a.is_writable());
    assert_eq!(a.owner(), key(2));
    assert_eq!(a.lamports(), 1_000);
    assert!(!a.is_executable());
}

#[test]
fn basic_checks_report_their_errors() {
    let a = account(1, false, false, 2, false);
    assert_eq!(a.check_signer().unwrap_err().code, ErrorCode::AccountNotSigner);
    assert_eq!(a.check_writable().unwrap_err().code, ErrorCode::AccountNotMutable);
    let e = a.check_owner(&key(3)).unwrap_err();
    assert_eq!(e.code, ErrorCode::AccountOwnedByWrongProgram);
    assert_eq!(e.pubkeys, Some((key(2), key(3))));
    assert!(a.check_owner(&key(2)).is_ok());
    let e = a.check_key(&key(4)).unwrap_err();
    assert_eq!(e.code, ErrorCode::ConstraintAddress);
    assert_eq!(e.pubkeys, Some((key(1), key(4))));
    assert!(a.check_key(&key(1)).is_ok());
}

#[test]
fn mut_requires_writable() {
    let e = Mut::try_from_validated(account(1, false, false, 2, false)).unwrap_err();
    assert_eq!(e.code, ErrorCode::ConstraintMut);
    assert_eq!(e.number(), 2000);
    let m = Mut::try_from_validated(account(1, false, true, 2, false)).unwrap();
    assert_eq!(m.pubkey(), key(1));
    assert!(m.is_writable());
}

#[test]
fn executable_requires_program() {
    let e = Executable::try_from_validated(account(1, false, false, 2, false)).unwrap_err();
    assert_eq!(e.code, ErrorCode::ConstraintExecutable);
    let x = Executable::try_from_validated(account(1, false, false, 2, true)).unwrap();
    assert!(x.into_inner().executable);
}

#[test]
fn owned_requires_owner() {
    let e = Owned::<AccountInfo, ThisProgram>::try_from_validated(account(1, false, false, 2, false))
        .unwrap_err();
    assert_eq!(e.code, ErrorCode::ConstraintOwner);
    let o = Owned::<AccountInfo, ThisProgram>::try_from_validated(account(1, false, false, 9, false))
        .unwrap();
    assert_eq!(o.owner(), key(9));
}

#[test]
fn wrappers_nest_and_delegate() {
    let inner = Mut::try_from_validated(account(1, true, true, 2, true)).unwrap();
    let mut outer = Executable::try_from_validated(inner).unwrap();
    assert_eq!(outer.pubkey(), key(1));
    assert!(outer.is_signer());
    outer.inner_mut().inner_mut().lamports = 5;
    assert_eq!(outer.lamports(), 5);
    let back = outer.into_inner().into_inner();
    assert_eq!(back.lamports, 5);
}

#[test]
fn nesting_order_does_not_change_the_outcome() {
    let not_writable = account(1, false, false, 2, true);
    let a = Mut::try_from_validated(not_writable.clone())
        .and_then(|m| Executable::try_from_validated(m).map(|_| ()));
    let b = Executable::try_from_validated(not_writable)
        .and_then(|x| Mut::try_from_validated(x).map(|_| ()));
    assert!(a.is_err() && b.is_err());
    let fine = account(1, false, true, 2, true);
    let c = Mut::try_from_validated(fine.clone())
        .and_then(|m| Executable::try_from_validated(m).map(|_| ()));
    let d = Executable::try_from_validated(fine).and_then(|x| Mut::try_from_validated(x).map(|_| ()));
    assert!(c.is_ok() && d.is_ok());
}

#[test]
fn seeded_accepts_derived_key_and_keeps_bump() {
    let program = key(9);
    let (pda, bump) = find_program_address(&vec![b"test_data".to_vec()], &program).unwrap();
    let acc = AccountInfo::new(pda, false, true, program, 0, false);
    let s = Seeded::<AccountInfo, TestDataSeeds>::try_from_validated(acc, &program).unwrap();
    assert_eq!(s.bump(), bump);
    assert_eq!(s.seeds().to_vec(), vec![b"test_data".to_vec()]);
    let swb = s.signer_seeds();
    assert_eq!(swb.bump(), bump);
    let signer: Vec<Vec<u8>> = swb.to_signer_seeds().iter().map(|x| x.to_vec()).collect();
    assert_eq!(signer, vec![b"test_data".to_vec(), vec![bump]]);
}

#[test]
fn seeded_rejects_other_key() {
    let program = key(9);
    let (pda, _) = find_program_address(&vec![b"test_data".to_vec()], &program).unwrap();
    let acc = AccountInfo::new(key(1), false, true, program, 0, false);
    let e = Seeded::try_from_validated_with_seeds(acc, &program, &TestDataSeeds).unwrap_err();
    assert_eq!(e.code, ErrorCode::ConstraintSeeds);
    assert_eq!(e.pubkeys, Some((key(1), pda)));
}

#[test]
fn mut_over_seeded_composes() {
    let program = key(9);
    let (pda, bump) = find_program_address(&vec![b"test_data".to_vec()], &program).unwrap();
    let acc = AccountInfo::new(pda, false, true, program, 0, false);
    let s = Seeded::<AccountInfo, TestDataSeeds>::try_from_validated(acc.clone(), &program).unwrap();
    let m = Mut::try_from_validated(s).unwrap();
    assert_eq!(m.inner().bump(), bump);
    let readonly = AccountInfo::new(pda, false, false, program, 0, false);
    let s = Seeded::<AccountInfo, TestDataSeeds>::try_from_validated(readonly, &program).unwrap();
    assert_eq!(Mut::try_from_validated(s).unwrap_err().code, ErrorCode::ConstraintMut);
}

fn data_with_authority(authority: u8) -> AccountInfo {
    let mut data = vec![0u8; 8];
    data.extend_from_slice(&[authority; 32]);
    account(1, false, true, 9, false).with_data(data)
}

#[test]
fn has_one_compares_the_picked_key() {
    let h = HasOne::<AccountInfo, AuthorityTarget>::try_from_validated_with_target(
        data_with_authority(5),
        &key(5),
    )
    .unwrap();
    assert_eq!(h.target(), key(5));
    assert!(h.validate_has_one(&key(5)).is_ok());
    assert_eq!(h.validate_has_one(&key(6)).unwrap_err().code, ErrorCode::ConstraintHasOne);
    let e = HasOne::<AccountInfo, AuthorityTarget>::try_from_validated_with_target(
        data_with_authority(5),
        &key(6),
    )
    .unwrap_err();
    assert_eq!(e.code, ErrorCode::ConstraintHasOne);
    assert_eq!(AuthorityTarget::field(), "authority");
}

#[test]
fn has_one_new_defers_the_check() {
    let h = HasOne::<AccountInfo, AuthorityTarget>::new(data_with_authority(5));
    assert_eq!(h.pubkey(), key(1));
    assert!(h.validate_has_one(&key(7)).is_err());
}

#[test]
fn owner_given_directly() {
    let a = account(1, false, false, 2, false);
    assert!(Owned::<AccountInfo, ThisProgram>::try_from_validated_with_owner(a.clone(), &key(2)).is_ok());
    let e = Owned::<AccountInfo, ThisProgram>::try_from_validated_with_owner(a, &key(3)).unwrap_err();
    assert_eq!(e.code, ErrorCode::ConstraintOwner);
}

#[test]
fn seed_list_given_directly() {
    let program = key(9);
    let seeds = vec![b"vault".to_vec(), vec![4u8]];
    let (pda, bump) = find_program_address(&seeds, &program).unwrap();
    let acc = AccountInfo::new(pda, false, false, program, 0, false);
    let s = Seeded::<AccountInfo, TestDataSeeds>::try_from_validated_with_seed_list(acc, &program, seeds.clone())
        .unwrap();
    assert_eq!(s.bump(), bump);
    assert_eq!(s.seeds().to_vec(), seeds);
    let other = AccountInfo::new(key(1), false, false, program, 0, false);
    let e = Seeded::<AccountInfo, TestDataSeeds>::try_from_validated_with_seed_list(other, &program, seeds)
        .unwrap_err();
    assert_eq!(e.pubkeys, Some((key(1), pda)));
}

#[test]
fn has_one_key_comparison() {
    assert!(check_has_one(&key(1), &key(1)).is_ok());
    assert_eq!(check_has_one(&key(1), &key(2)).unwrap_err().code, ErrorCode::ConstraintHasOne);
}

#[test]
fn seeded_new_keeps_given_values() {
    let s = Seeded::<AccountInfo, TestDataSeeds>::new(account(1, false, false, 2, false), 250, vec![vec![1, 2]]);
    assert_eq!(s.bump(), 250);
    assert_eq!(s.seeds().to_vec(), vec![vec![1u8, 2]]);
    assert_eq!(s.inner().key, key(1));
}

#[test]
fn account_lists_itself() {
    let a = account(1, true, false, 2, false);
    assert_eq!(
        a.to_account_metas(None),
        vec![AccountMeta { pubkey: key(1), is_signer: true, is_writable: false }]
    );
    assert_eq!(
        a.to_account_metas(Some(false)),
        vec![AccountMeta { pubkey: key(1), is_signer: false, is_writable: false }]
    );
}

#[test]
fn mut_lists_account_as_writable() {
    let m = Mut::new(account(1, false, false, 2, false));
    assert_eq!(
        m.to_account_metas(None),
        vec![AccountMeta { pubkey: key(1), is_signer: false, is_writable: true }]
    );
    let e = Executable::new(Mut::new(account(3, true, false, 2, true)));
    assert_eq!(
        e.to_account_metas(None),
        vec![AccountMeta { pubkey: key(3), is_signer: true, is_writable: true }]
    );
    let o = Owned::<AccountInfo, ThisProgram>::new(account(4, false, false, 2, false));
    assert_eq!(
        o.to_account_metas(Some(true)),
        vec![AccountMeta { pubkey: key(4), is_signer: true, is_writable: false }]
    );
}
