use anchor_lang::pda::find_program_address;
use anchor_lang::pubkey::Pubkey;

fn program() -> Pubkey {
    Pubkey::new_from_array([7u8; 32])
}

#[test]
fn derivation_matches_reference_search() {
    let seeds = vec![b"config".to_vec()];
    let (key, bump) = find_program_address(&seeds, &program()).unwrap();
    let id = solana_pubkey::Pubkey::new_from_array([7u8; 32]);
    let (expected, expected_bump) = solana_pubkey::Pubkey::find_program_address(&[b"config"], &id);
    assert_eq!(key.to_bytes(), expected.to_bytes());
    assert_eq!(bump, expected_bump);
    assert_ne!(key.to_bytes(), [7u8; 32]);
}

#[test]
fn derivation_is_deterministic() {
    let seeds = vec![b"vault".to_vec(), vec![1, 2, 3]];
    let first = find_program_address(&seeds, &program()).unwrap();
    let second = find_program_address(&seeds, &program()).unwrap();
    assert_eq!(first, second);
}

#[test]
fn canonical_bump_is_highest_accepted() {
    let seeds = vec![b"test_data".to_vec()];
    let (key, bump) = find_program_address(&seeds, &program()).unwrap();
    let id = solana_pubkey::Pubkey::new_from_array([7u8; 32]);
    let mut higher = bump as u16 + 1;
    while higher <= 255 {
        let b = [higher as u8];
        let r = solana_pubkey::Pubkey::create_program_address(&[b"test_data", &b], &id);
        assert!(r.is_err());
        higher += 1;
    }
    let again =
        solana_pubkey::Pubkey::create_program_address(&[b"test_data", &[bump]], &id).unwrap();
    assert_eq!(again.to_bytes(), key.to_bytes());
}

#[test]
fn different_programs_derive_different_addresses() {
    let seeds = vec![b"config".to_vec()];
    let a = find_program_address(&seeds, &program()).unwrap();
    let b = find_program_address(&seeds, &Pubkey::new_from_array([8u8; 32])).unwrap();
    assert_ne!(a.0, b.0);
}

#[test]
fn too_many_seeds_derive_nothing() {
    let seeds: Vec<Vec<u8>> = (0..16u8).map(|i| vec![i]).collect();
    assert!(find_program_address(&seeds, &program()).is_none());
    let fifteen: Vec<Vec<u8>> = (0..15u8).map(|i| vec![i]).collect();
    assert!(find_program_address(&fifteen, &program()).is_some());
}

#[test]
fn overlong_seed_derives_nothing() {
    assert!(find_program_address(&vec![vec![0u8; 33]], &program()).is_none());
    assert!(find_program_address(&vec![vec![0u8; 32]], &program()).is_some());
}

#[test]
fn empty_seed_list_derives_an_address() {
    let (key, bump) = find_program_address(&Vec::new(), &program()).unwrap();
    let id = solana_pubkey::Pubkey::new_from_array([7u8; 32]);
    let (expected, expected_bump) = solana_pubkey::Pubkey::find_program_address(&[], &id);
    assert_eq!(key.to_bytes(), expected.to_bytes());
    assert_eq!(bump, expected_bump);
}
