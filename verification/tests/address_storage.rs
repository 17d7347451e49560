use rand::SeedableRng;
use trident_fuzz::address_storage::{AddressStorage, PdaSeeds};
use trident_fuzz::pubkey::Pubkey;

fn make_pubkey(byte: u8) -> Pubkey {
    Pubkey::new_from_array([byte; 32])
}

#[test]
fn test_insert_and_contains() {
    let mut storage = AddressStorage::default();
    let addr1 = make_pubkey(1);
    let addr2 = make_pubkey(2);

    assert!(storage.insert_with_address(addr1));
    assert!(storage.insert_with_address(addr2));

    assert!(storage.contains(&addr1));
    assert!(storage.contains(&addr2));
    assert!(!storage.contains(&make_pubkey(3)));
}

#[test]
fn test_insert_uniqueness() {
    let mut storage = AddressStorage::default();
    let addr = make_pubkey(1);

    assert!(storage.insert_with_address(addr));
    assert!(!storage.insert_with_address(addr));
    assert_eq!(storage.len(), 1);
}

#[test]
fn test_remove() {
    let mut storage = AddressStorage::default();
    let addr1 = make_pubkey(1);
    let addr2 = make_pubkey(2);
    let addr3 = make_pubkey(3);

    storage.insert_with_address(addr1);
    storage.insert_with_address(addr2);
    storage.insert_with_address(addr3);

    assert_eq!(storage.len(), 3);

    assert!(storage.remove(&addr2));
    assert_eq!(storage.len(), 2);
    assert!(!storage.contains(&addr2));
    assert!(storage.contains(&addr1));
    assert!(storage.contains(&addr3));

    assert!(!storage.remove(&addr2));
}

#[test]
fn test_remove_last_element() {
    let mut storage = AddressStorage::default();
    let addr1 = make_pubkey(1);
    let addr2 = make_pubkey(2);

    storage.insert_with_address(addr1);
    storage.insert_with_address(addr2);

    assert!(storage.remove(&addr2));
    assert_eq!(storage.len(), 1);
    assert!(storage.contains(&addr1));
    assert!(!storage.contains(&addr2));
}

#[test]
fn test_remove_only_element() {
    let mut storage = AddressStorage::default();
    let addr = make_pubkey(1);

    storage.insert_with_address(addr);
    assert!(storage.remove(&addr));
    assert!(storage.is_empty());
    assert!(!storage.contains(&addr));
}

#[test]
fn test_is_empty_and_len() {
    let mut storage = AddressStorage::default();

    assert!(storage.is_empty());
    assert_eq!(storage.len(), 0);

    storage.insert_with_address(make_pubkey(1));
    assert!(!storage.is_empty());
    assert_eq!(storage.len(), 1);

    storage.insert_with_address(make_pubkey(2));
    assert_eq!(storage.len(), 2);
}

#[test]
fn test_indices_consistency_after_multiple_removes() {
    let mut storage = AddressStorage::default();
    let addrs: Vec<Pubkey> = (0..5).map(make_pubkey).collect();

    for addr in &addrs {
        storage.insert_with_address(*addr);
    }

    storage.remove(&addrs[1]);
    storage.remove(&addrs[3]);

    assert_eq!(storage.len(), 3);
    assert!(storage.contains(&addrs[0]));
    assert!(!storage.contains(&addrs[1]));
    assert!(storage.contains(&addrs[2]));
    assert!(!storage.contains(&addrs[3]));
    assert!(storage.contains(&addrs[4]));

    // Each stored address is found at its own position, and the positions
    // cover the storage exactly.
    let mut seen = [false; 3];
    for addr in [addrs[0], addrs[2], addrs[4]] {
        let idx = storage.index_of(&addr).unwrap();
        assert!(idx < 3);
        assert!(!seen[idx]);
        seen[idx] = true;
    }
    assert_eq!(seen, [true, true, true]);
}

#[test]
fn swap_remove_moves_last_into_freed_place() {
    let mut storage = AddressStorage::default();
    for b in 1..=3u8 {
        storage.insert_with_address(make_pubkey(b));
    }
    assert!(storage.remove(&make_pubkey(1)));
    assert_eq!(storage.index_of(&make_pubkey(3)), Some(0));
    assert_eq!(storage.index_of(&make_pubkey(2)), Some(1));
}

#[test]
fn remove_undoes_fresh_insert() {
    let mut storage = AddressStorage::default();
    storage.insert_with_address(make_pubkey(1));
    storage.insert_with_address(make_pubkey(2));
    assert!(storage.insert_with_address(make_pubkey(9)));
    assert!(storage.remove(&make_pubkey(9)));
    assert_eq!(storage.len(), 2);
    assert_eq!(storage.index_of(&make_pubkey(1)), Some(0));
    assert_eq!(storage.index_of(&make_pubkey(2)), Some(1));
}

#[test]
fn get_picks_a_stored_address() {
    let mut rng = rand::rngs::StdRng::seed_from_u64(7);
    let mut storage = AddressStorage::default();
    assert_eq!(storage.get(&mut rng), None);
    storage.insert_with_address(make_pubkey(4));
    storage.insert_with_address(make_pubkey(5));
    for _ in 0..20 {
        let a = storage.get(&mut rng).unwrap();
        assert!(a == make_pubkey(4) || a == make_pubkey(5));
    }
}

#[test]
fn get_except_skips_excluded_addresses() {
    let mut rng = rand::rngs::StdRng::seed_from_u64(11);
    let mut storage = AddressStorage::default();
    for b in 1..=3u8 {
        storage.insert_with_address(make_pubkey(b));
    }
    for _ in 0..20 {
        let a = storage.get_except(&mut rng, &[make_pubkey(1), make_pubkey(3)]).unwrap();
        assert_eq!(a, make_pubkey(2));
    }
    assert_eq!(storage.get_except(&mut rng, &[make_pubkey(1), make_pubkey(2), make_pubkey(3)]), None);
}

#[test]
fn insert_with_seeds_stores_the_program_derived_address() {
    let mut rng = rand::rngs::StdRng::seed_from_u64(3);
    let mut storage = AddressStorage::default();
    let program = make_pubkey(7);
    let seeds: &[&[u8]] = &[b"vault", &[1u8, 2, 3]];
    let address = storage.insert(&mut rng, Some(PdaSeeds::new(seeds, program)));
    let (expected, _) = solana_sdk::pubkey::Pubkey::find_program_address(
        seeds,
        &solana_sdk::pubkey::Pubkey::new_from_array([7u8; 32]),
    );
    assert_eq!(address.to_bytes(), expected.to_bytes());
    assert!(storage.contains(&address));
    let again = storage.insert(&mut rng, Some(PdaSeeds::new(seeds, program)));
    assert_eq!(again, address);
    assert_eq!(storage.len(), 1);
}

#[test]
fn insert_without_seeds_stores_a_keypair_address() {
    let mut rng = rand::rngs::StdRng::seed_from_u64(5);
    let mut storage = AddressStorage::default();
    let a = storage.insert(&mut rng, None);
    let b = storage.insert(&mut rng, None);
    assert_ne!(a, b);
    assert_eq!(storage.len(), 2);
}
