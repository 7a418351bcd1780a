use anchor_lang::account::AccountInfo;
use anchor_lang::error::ErrorCode;
use anchor_lang::pda::find_program_address;
use anchor_lang::pubkey::Pubkey;
use anchor_lang::schema::{
    check_slot, check_wrapper, validate, Schema, SchemaError, SlotDeclaration, Wrapper,
};

fn key(b: u8) -> Pubkey {
    Pubkey::new_from_array([b; 32])
}

fn program() -> Pubkey {
    key(200)
}

fn slot(name: &str, wrappers: Vec<Wrapper>) -> SlotDeclaration {
    SlotDeclaration {
        name: name.to_string(),
        optional: false,
        signer: false,
        dup: false,
        init: false,
        discriminator: None,
        wrappers,
    }
}

fn signer_slot(name: &str) -> SlotDeclaration {
    SlotDeclaration { signer: true, ..slot(name, Vec::new()) }
}

fn acc(k: Pubkey, signer: bool, writable: bool) -> AccountInfo {
    AccountInfo::new(k, signer, writable, program(), 10, false)
}

fn config_schema() -> Schema {
    Schema::compile(vec![
        slot("config", vec![Wrapper::AddressDerived { seeds: vec![b"config".to_vec()] }]),
        signer_slot("signer"),
    ])
    .unwrap()
}

#[test]
fn address_derived_slot_captures_bump() {
    let (pda, bump) = find_program_address(&vec![b"config".to_vec()], &program()).unwrap();
    let accounts = vec![acc(pda, false, false), acc(key(1), true, false)];
    let resolved = validate(&config_schema(), &accounts, &program()).unwrap();
    assert_eq!(resolved.slots[0].bump, Some(bump));
    assert_eq!(resolved.slots[0].account, Some(0));
    assert_eq!(resolved.slots[1].account, Some(1));
    assert_eq!(resolved.slots[1].bump, None);
    assert_eq!(resolved.remaining, 2);
}

#[test]
fn address_derived_slot_rejects_other_key() {
    let (pda, _) = find_program_address(&vec![b"config".to_vec()], &program()).unwrap();
    let accounts = vec![acc(key(3), false, false), acc(key(1), true, false)];
    let e = validate(&config_schema(), &accounts, &program()).unwrap_err();
    assert_eq!(e.code, ErrorCode::ConstraintSeeds);
    assert_eq!(e.pubkeys, Some((key(3), pda)));
    assert_eq!(e.account_names, vec!["config".to_string()]);
    assert_eq!(e.number(), 2006);
}

#[test]
fn signer_slot_must_sign() {
    let (pda, _) = find_program_address(&vec![b"config".to_vec()], &program()).unwrap();
    let accounts = vec![acc(pda, false, false), acc(key(1), false, false)];
    let e = validate(&config_schema(), &accounts, &program()).unwrap_err();
    assert_eq!(e.code, ErrorCode::AccountNotSigner);
    assert_eq!(e.account_names, vec!["signer".to_string()]);
}

fn two_mutable(dup_on_b: bool) -> Schema {
    Schema::compile(vec![
        slot("a", vec![Wrapper::Mutable]),
        SlotDeclaration { dup: dup_on_b, ..slot("b", vec![Wrapper::Mutable]) },
    ])
    .unwrap()
}

#[test]
fn duplicate_mutable_accounts_fail() {
    let same = acc(key(4), false, true);
    let e = validate(&two_mutable(false), &vec![same.clone(), same], &program()).unwrap_err();
    assert_eq!(e.code, ErrorCode::DuplicateMutableAccount);
    assert_eq!(e.account_names, vec!["a".to_string(), "b".to_string()]);
}

#[test]
fn duplicate_mutable_accounts_allowed_with_dup() {
    let same = acc(key(4), false, true);
    assert!(validate(&two_mutable(true), &vec![same.clone(), same], &program()).is_ok());
}

#[test]
fn duplicate_opt_out_on_first_slot_suffices() {
    let schema = Schema::compile(vec![
        SlotDeclaration { dup: true, ..slot("a", vec![Wrapper::Mutable]) },
        slot("b", vec![Wrapper::Mutable]),
    ])
    .unwrap();
    let same = acc(key(4), false, true);
    assert!(validate(&schema, &vec![same.clone(), same], &program()).is_ok());
}

#[test]
fn duplicate_readonly_accounts_are_fine() {
    let schema = Schema::compile(vec![slot("a", Vec::new()), slot("b", Vec::new())]).unwrap();
    let same = acc(key(4), false, true);
    assert!(validate(&schema, &vec![same.clone(), same], &program()).is_ok());
}

#[test]
fn distinct_mutable_accounts_pass() {
    let accounts = vec![acc(key(4), false, true), acc(key(5), false, true)];
    assert!(validate(&two_mutable(false), &accounts, &program()).is_ok());
}

#[test]
fn first_conflicting_pair_is_reported() {
    let schema = Schema::compile(vec![
        slot("a", vec![Wrapper::Mutable]),
        slot("b", vec![Wrapper::Mutable]),
        slot("c", vec![Wrapper::Mutable]),
    ])
    .unwrap();
    let x = acc(key(4), false, true);
    let y = acc(key(5), false, true);
    let e = validate(&schema, &vec![x, y.clone(), y], &program()).unwrap_err();
    assert_eq!(e.account_names, vec!["b".to_string(), "c".to_string()]);
}

fn relation_schema() -> Schema {
    Schema::compile(vec![
        slot(
            "data",
            vec![Wrapper::RelatesTo { target: "authority".to_string(), offset: 8 }],
        ),
        signer_slot("authority"),
    ])
    .unwrap()
}

fn data_account(authority: Pubkey) -> AccountInfo {
    let mut bytes = vec![1u8; 8];
    bytes.extend_from_slice(&authority.to_bytes());
    acc(key(6), false, true).with_data(bytes)
}

#[test]
fn relates_to_mismatch_fails() {
    let accounts = vec![data_account(key(7)), acc(key(8), true, false)];
    let e = validate(&relation_schema(), &accounts, &program()).unwrap_err();
    assert_eq!(e.code, ErrorCode::ConstraintHasOne);
    assert_eq!(e.account_names, vec!["data".to_string()]);
}

#[test]
fn relates_to_match_passes() {
    let accounts = vec![data_account(key(8)), acc(key(8), true, false)];
    assert!(validate(&relation_schema(), &accounts, &program()).is_ok());
}

#[test]
fn relates_to_short_data_fails() {
    let short = acc(key(6), false, true).with_data(vec![0u8; 20]);
    let accounts = vec![short, acc(key(8), true, false)];
    let e = validate(&relation_schema(), &accounts, &program()).unwrap_err();
    assert_eq!(e.code, ErrorCode::AccountDidNotDeserialize);
}

#[test]
fn relates_to_absent_target_fails() {
    let schema = Schema::compile(vec![
        slot("data", vec![Wrapper::RelatesTo { target: "authority".to_string(), offset: 8 }]),
        SlotDeclaration { optional: true, ..slot("authority", Vec::new()) },
    ])
    .unwrap();
    let e = validate(&schema, &vec![data_account(key(8))], &program()).unwrap_err();
    assert_eq!(e.code, ErrorCode::ConstraintAccountIsNone);
    assert_eq!(e.account_names, vec!["authority".to_string()]);
}

#[test]
fn duplicate_check_runs_before_relations() {
    let schema = Schema::compile(vec![
        slot(
            "data",
            vec![Wrapper::Mutable, Wrapper::RelatesTo { target: "other".to_string(), offset: 8 }],
        ),
        slot("other", vec![Wrapper::Mutable]),
    ])
    .unwrap();
    let d = data_account(key(9));
    let e = validate(&schema, &vec![d.clone(), d], &program()).unwrap_err();
    assert_eq!(e.code, ErrorCode::DuplicateMutableAccount);
}

#[test]
fn missing_account_is_reported() {
    let e = validate(&two_mutable(false), &vec![acc(key(4), false, true)], &program()).unwrap_err();
    assert_eq!(e.code, ErrorCode::MissingAccount);
    assert_eq!(e.account_names, vec!["b".to_string()]);
}

#[test]
fn optional_slot_may_be_left_out() {
    let schema = Schema::compile(vec![
        slot("a", Vec::new()),
        SlotDeclaration { optional: true, ..slot("b", vec![Wrapper::Mutable]) },
    ])
    .unwrap();
    let r = validate(&schema, &vec![acc(key(4), false, false)], &program()).unwrap();
    assert_eq!(r.slots[1].account, None);
    let r = validate(&schema, &vec![acc(key(4), false, false), acc(program(), false, false)], &program())
        .unwrap();
    assert_eq!(r.slots[1].account, None);
    assert_eq!(r.remaining, 2);
    let e = validate(&schema, &vec![acc(key(4), false, false), acc(key(5), false, false)], &program())
        .unwrap_err();
    assert_eq!(e.code, ErrorCode::ConstraintMut);
}

#[test]
fn extra_accounts_remain() {
    let accounts = vec![acc(key(4), false, true), acc(key(5), false, true), acc(key(6), false, false)];
    let r = validate(&two_mutable(false), &accounts, &program()).unwrap();
    assert_eq!(r.remaining, 2);
}

#[test]
fn discriminator_is_checked() {
    let schema = Schema::compile(vec![SlotDeclaration {
        discriminator: Some(vec![1, 2, 3]),
        ..slot("typed", Vec::new())
    }])
    .unwrap();
    let good = acc(key(4), false, false).with_data(vec![1, 2, 3, 4]);
    assert!(validate(&schema, &vec![good], &program()).is_ok());
    let bad = acc(key(4), false, false).with_data(vec![1, 2, 4, 4]);
    let e = validate(&schema, &vec![bad], &program()).unwrap_err();
    assert_eq!(e.code, ErrorCode::AccountDiscriminatorMismatch);
    let short = acc(key(4), false, false).with_data(vec![1, 2]);
    let e = validate(&schema, &vec![short], &program()).unwrap_err();
    assert_eq!(e.code, ErrorCode::AccountDiscriminatorNotFound);
}

#[test]
fn owner_and_executable_rules() {
    let owner_rule = Wrapper::OwnedBy { owner: key(30) };
    let a = acc(key(4), false, false);
    let e = check_wrapper(&owner_rule, &a, &program()).unwrap_err();
    assert_eq!(e.code, ErrorCode::ConstraintOwner);
    assert_eq!(e.pubkeys, Some((program(), key(30))));
    let e = check_wrapper(&Wrapper::Executable, &a, &program()).unwrap_err();
    assert_eq!(e.code, ErrorCode::ConstraintExecutable);
    let p = AccountInfo::new(key(4), false, false, key(30), 0, true);
    assert_eq!(check_wrapper(&owner_rule, &p, &program()).unwrap(), None);
    assert_eq!(check_wrapper(&Wrapper::Executable, &p, &program()).unwrap(), None);
}

#[test]
fn wrapper_order_changes_only_the_reported_error() {
    let a = acc(key(4), false, false);
    let first = slot("s", vec![Wrapper::Mutable, Wrapper::Executable]);
    let second = slot("s", vec![Wrapper::Executable, Wrapper::Mutable]);
    let e1 = check_slot(&first, &a, &program()).unwrap_err();
    let e2 = check_slot(&second, &a, &program()).unwrap_err();
    assert_eq!(e1.code, ErrorCode::ConstraintMut);
    assert_eq!(e2.code, ErrorCode::ConstraintExecutable);
    let p = AccountInfo::new(key(4), false, true, program(), 0, true);
    assert!(check_slot(&first, &p, &program()).is_ok());
    assert!(check_slot(&second, &p, &program()).is_ok());
}

#[test]
fn compile_rejects_repeated_names() {
    match Schema::compile(vec![slot("a", Vec::new()), slot("a", Vec::new())]) {
        Err(SchemaError::DuplicateName { name }) => assert_eq!(name, "a"),
        _ => panic!("expected a repeated name"),
    }
}

#[test]
fn compile_rejects_unknown_targets() {
    let r = Schema::compile(vec![slot(
        "data",
        vec![Wrapper::RelatesTo { target: "nobody".to_string(), offset: 0 }],
    )]);
    match r {
        Err(SchemaError::UnknownTarget { slot, target }) => {
            assert_eq!(slot, "data");
            assert_eq!(target, "nobody");
        }
        _ => panic!("expected an unknown target"),
    }
}

#[test]
fn empty_schema_takes_nothing() {
    let schema = Schema::compile(Vec::new()).unwrap();
    let r = validate(&schema, &vec![acc(key(4), false, false)], &program()).unwrap();
    assert!(r.slots.is_empty());
    assert_eq!(r.remaining, 0);
}

#[test]
fn init_slot_takes_an_account_unchecked() {
    let schema = Schema::compile(vec![
        SlotDeclaration { init: true, signer: true, ..slot("data", Vec::new()) },
        signer_slot("payer"),
    ])
    .unwrap();
    let r = validate(&schema, &vec![acc(key(4), false, false), acc(key(5), true, true)], &program()).unwrap();
    assert_eq!(r.slots[0].account, Some(0));
    assert_eq!(r.slots[1].account, Some(1));
}

#[test]
fn compile_rejects_wrappers_on_init_slots() {
    let r = Schema::compile(vec![
        slot("a", Vec::new()),
        SlotDeclaration { init: true, ..slot("b", vec![Wrapper::Mutable]) },
    ]);
    match r {
        Err(SchemaError::WrapperWithInit { slot }) => assert_eq!(slot, "b"),
        _ => panic!("expected a wrapper on an init slot"),
    }
}
