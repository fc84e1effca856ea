use anchor_lang::prelude::Pubkey;
use std::str::FromStr;
use thnr::address::{
    derive_address, matches_derived, post_address, post_seed_vec, profile_address,
    profile_seed_vec, program_id, vault_address, vault_seed_vec, Address, ADDRESS_LEN, MAX_SEEDS,
    MAX_SEED_LEN,
};

const PROFILE_OF_ONES: [u8; 32] = [
    121, 196, 246, 10, 186, 243, 188, 32, 22, 75, 189, 222, 71, 251, 214, 134, 23, 212, 166, 211,
    147, 22, 3, 184, 144, 172, 157, 103, 93, 125, 234, 88,
];

const VAULT_OF_ONES: [u8; 32] = [
    215, 127, 193, 84, 72, 105, 158, 12, 219, 214, 68, 156, 198, 244, 34, 35, 8, 138, 141, 209,
    86, 139, 56, 172, 99, 103, 218, 91, 107, 46, 203, 159,
];

const FIRST_POST_OF_ONES: [u8; 32] = [
    157, 170, 210, 88, 114, 191, 103, 39, 188, 89, 30, 96, 99, 225, 173, 216, 231, 111, 0, 234,
    135, 22, 15, 132, 254, 252, 169, 231, 84, 129, 198, 116,
];

const SECOND_POST_OF_ONES: [u8; 32] = [
    151, 37, 124, 24, 2, 48, 27, 49, 65, 211, 40, 28, 248, 14, 235, 48, 212, 224, 71, 54, 97, 89,
    214, 236, 122, 206, 12, 13, 171, 142, 135, 95,
];

fn ones() -> Address {
    Address::new([1u8; 32])
}

#[test]
fn limits_of_a_derivation() {
    assert_eq!(ADDRESS_LEN, 32);
    assert_eq!(MAX_SEEDS, 16);
    assert_eq!(MAX_SEED_LEN, 32);
}

#[test]
fn program_id_is_the_declared_key() {
    let key = Pubkey::from_str("ADcEPjPWwaeGLHcMdPGCJxuFKAMe68WjWLvD2MkRv89c").unwrap();
    assert_eq!(program_id().bytes, key.to_bytes());
}

#[test]
fn same_compares_every_byte() {
    let a = Address::new([7u8; 32]);
    let mut bytes = [7u8; 32];
    assert!(a.same(&Address::new(bytes)));
    bytes[31] = 8;
    assert!(!a.same(&Address::new(bytes)));
    bytes[31] = 7;
    bytes[0] = 0;
    assert!(!a.same(&Address::new(bytes)));
}

#[test]
fn to_seed_gives_the_bytes() {
    let mut bytes = [0u8; 32];
    for (i, b) in bytes.iter_mut().enumerate() {
        *b = i as u8;
    }
    assert_eq!(Address::new(bytes).to_seed(), bytes.to_vec());
}

#[test]
fn seeds_of_a_profile() {
    assert_eq!(profile_seed_vec(&ones()), vec![b"user_profile".to_vec(), vec![1u8; 32]]);
}

#[test]
fn seeds_of_a_vault() {
    assert_eq!(vault_seed_vec(&ones()), vec![b"vault".to_vec(), vec![1u8; 32]]);
}

#[test]
fn seeds_of_a_post_hold_the_index_little_endian() {
    assert_eq!(
        post_seed_vec(&ones(), 0x0102),
        vec![b"post".to_vec(), vec![1u8; 32], vec![2u8, 1, 0, 0, 0, 0, 0, 0]]
    );
    assert_eq!(
        post_seed_vec(&ones(), u64::MAX),
        vec![b"post".to_vec(), vec![1u8; 32], vec![255u8; 8]]
    );
}

#[test]
fn derived_addresses_are_the_known_ones() {
    let program = program_id();
    assert_eq!(profile_address(&program, &ones()), Some(Address::new(PROFILE_OF_ONES)));
    assert_eq!(vault_address(&program, &ones()), Some(Address::new(VAULT_OF_ONES)));
    assert_eq!(post_address(&program, &ones(), 0), Some(Address::new(FIRST_POST_OF_ONES)));
    assert_eq!(post_address(&program, &ones(), 1), Some(Address::new(SECOND_POST_OF_ONES)));
}

#[test]
fn derive_address_gives_address_and_bump() {
    let program = program_id();
    assert_eq!(
        derive_address(&profile_seed_vec(&ones()), &program),
        Some((Address::new(PROFILE_OF_ONES), 254))
    );
    assert_eq!(
        derive_address(&vault_seed_vec(&ones()), &program),
        Some((Address::new(VAULT_OF_ONES), 255))
    );
    assert_eq!(
        derive_address(&post_seed_vec(&ones(), 0), &program),
        Some((Address::new(FIRST_POST_OF_ONES), 253))
    );
}

#[test]
fn derive_address_agrees_with_the_key_type() {
    let program = program_id();
    let key = Pubkey::new_from_array(program.bytes);
    let cases: Vec<Vec<Vec<u8>>> = vec![
        vec![],
        vec![vec![]],
        vec![b"vault".to_vec(), vec![9u8; 32]],
        vec![vec![3u8; 32]; 15],
    ];
    for seeds in cases {
        let parts: Vec<&[u8]> = seeds.iter().map(|s| s.as_slice()).collect();
        let (expected, bump) = Pubkey::find_program_address(&parts, &key);
        assert_eq!(
            derive_address(&seeds, &program),
            Some((Address::new(expected.to_bytes()), bump))
        );
    }
}

#[test]
fn derive_address_is_repeatable_and_depends_on_the_program() {
    let seeds = vault_seed_vec(&ones());
    let here = derive_address(&seeds, &program_id());
    assert_eq!(here, derive_address(&seeds, &program_id()));
    let elsewhere = derive_address(&seeds, &Address::new([0u8; 32]));
    assert!(elsewhere.is_some());
    assert_ne!(here, elsewhere);
}

#[test]
fn derive_address_refuses_sixteen_seeds() {
    let program = program_id();
    assert!(derive_address(&vec![vec![1u8]; 15], &program).is_some());
    assert_eq!(derive_address(&vec![vec![1u8]; 16], &program), None);
    assert_eq!(derive_address(&vec![vec![1u8]; 17], &program), None);
}

#[test]
fn derive_address_refuses_a_long_seed() {
    let program = program_id();
    assert!(derive_address(&vec![vec![1u8; 32]], &program).is_some());
    assert_eq!(derive_address(&vec![vec![1u8; 33]], &program), None);
    assert_eq!(derive_address(&vec![vec![1u8], vec![0u8; 40]], &program), None);
}

#[test]
fn derived_addresses_of_different_records_differ() {
    let program = program_id();
    let two = Address::new([2u8; 32]);
    let all = vec![
        profile_address(&program, &ones()).unwrap(),
        vault_address(&program, &ones()).unwrap(),
        post_address(&program, &ones(), 0).unwrap(),
        post_address(&program, &ones(), 1).unwrap(),
        profile_address(&program, &two).unwrap(),
        vault_address(&program, &two).unwrap(),
        post_address(&program, &two, 0).unwrap(),
        ones(),
        two,
    ];
    for i in 0..all.len() {
        for j in 0..i {
            assert_ne!(all[i], all[j]);
        }
    }
}

#[test]
fn matches_derived_needs_the_same_address() {
    let a = Address::new([5u8; 32]);
    let b = Address::new([6u8; 32]);
    assert!(matches_derived(&Some(a), &a));
    assert!(!matches_derived(&Some(a), &b));
    assert!(!matches_derived(&None, &a));
}
