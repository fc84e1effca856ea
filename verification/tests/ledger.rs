use thnr::address::{program_id, vault_address, vault_seed_vec, profile_seed_vec, Address};
use thnr::ledger::{Authorization, Ledger, Record};
use thnr::records::{Error, Post, UserProfile};

fn key(n: u8) -> Address {
    Address::new([n; 32])
}

fn funded(price: u64) -> Ledger {
    let mut ledger = Ledger::new(program_id(), price);
    assert!(ledger.fund(&key(1), 1_000));
    assert!(ledger.fund(&key(2), 500));
    ledger
}

#[test]
fn new_ledger_is_empty() {
    let ledger = Ledger::new(program_id(), 7);
    assert_eq!(ledger.program(), program_id());
    assert_eq!(ledger.storage_price(), 7);
    assert_eq!(ledger.total_supply(), 0);
    assert!(!ledger.has_account(&key(1)));
    assert_eq!(ledger.balance(&key(1)), 0);
    assert_eq!(ledger.available(&key(1)), 0);
    assert!(ledger.profile(&key(1)).is_none());
    assert!(ledger.post(&key(1)).is_none());
}

#[test]
fn fund_opens_and_fills_wallets() {
    let mut ledger = funded(0);
    assert!(ledger.has_account(&key(1)));
    assert_eq!(ledger.balance(&key(1)), 1_000);
    assert_eq!(ledger.available(&key(1)), 1_000);
    assert!(ledger.fund(&key(1), 24));
    assert_eq!(ledger.balance(&key(1)), 1_024);
    assert_eq!(ledger.total_supply(), 1_524);
}

#[test]
fn fund_of_nothing_opens_no_wallet() {
    let mut ledger = Ledger::new(program_id(), 0);
    assert!(ledger.fund(&key(1), 0));
    assert!(!ledger.has_account(&key(1)));
    assert_eq!(ledger.total_supply(), 0);
}

#[test]
fn fund_stops_where_the_supply_would_overflow() {
    let mut ledger = funded(0);
    assert!(!ledger.fund(&key(3), u64::MAX - 1_499));
    assert!(!ledger.has_account(&key(3)));
    assert_eq!(ledger.total_supply(), 1_500);
    assert!(ledger.fund(&key(3), u64::MAX - 1_500));
    assert_eq!(ledger.balance(&key(3)), u64::MAX - 1_500);
    assert_eq!(ledger.total_supply(), u64::MAX);
    assert!(!ledger.fund(&key(1), 1));
}

#[test]
fn storage_cost_is_space_times_price() {
    assert_eq!(Ledger::new(program_id(), 0).storage_cost(8248), Some(0));
    assert_eq!(Ledger::new(program_id(), 10).storage_cost(48), Some(480));
    assert_eq!(Ledger::new(program_id(), 10).storage_cost(8248), Some(82_480));
    assert_eq!(Ledger::new(program_id(), u64::MAX).storage_cost(1), Some(u64::MAX));
    assert_eq!(Ledger::new(program_id(), u64::MAX).storage_cost(2), None);
}

#[test]
fn transfer_by_signature_moves_the_amount() {
    let mut ledger = funded(0);
    let r = ledger.transfer(&key(1), &key(2), 300, &Authorization::Signature(key(1)));
    assert_eq!(r, Ok(()));
    assert_eq!(ledger.balance(&key(1)), 700);
    assert_eq!(ledger.balance(&key(2)), 800);
    assert_eq!(ledger.total_supply(), 1_500);
}

#[test]
fn transfer_to_a_new_address_opens_a_wallet() {
    let mut ledger = funded(0);
    let r = ledger.transfer(&key(1), &key(9), 1, &Authorization::Signature(key(1)));
    assert_eq!(r, Ok(()));
    assert_eq!(ledger.balance(&key(9)), 1);
    assert!(ledger.has_account(&key(9)));
}

#[test]
fn transfer_of_everything_removes_the_wallet() {
    let mut ledger = funded(0);
    let r = ledger.transfer(&key(1), &key(2), 1_000, &Authorization::Signature(key(1)));
    assert_eq!(r, Ok(()));
    assert!(!ledger.has_account(&key(1)));
    assert_eq!(ledger.balance(&key(2)), 1_500);
}

#[test]
fn transfer_to_oneself_changes_nothing() {
    let mut ledger = funded(0);
    let r = ledger.transfer(&key(1), &key(1), 1_000, &Authorization::Signature(key(1)));
    assert_eq!(r, Ok(()));
    assert_eq!(ledger.balance(&key(1)), 1_000);
    assert_eq!(ledger.total_supply(), 1_500);
}

#[test]
fn transfer_of_nothing_succeeds() {
    let mut ledger = funded(0);
    let r = ledger.transfer(&key(7), &key(8), 0, &Authorization::Signature(key(7)));
    assert_eq!(r, Ok(()));
    assert!(!ledger.has_account(&key(7)));
    assert!(!ledger.has_account(&key(8)));
}

#[test]
fn transfer_needs_the_signature_of_the_source() {
    let mut ledger = funded(0);
    let r = ledger.transfer(&key(1), &key(2), 300, &Authorization::Signature(key(2)));
    assert_eq!(r, Err(Error::Unauthorized));
    assert_eq!(ledger.balance(&key(1)), 1_000);
    assert_eq!(ledger.balance(&key(2)), 500);
}

#[test]
fn transfer_needs_the_amount() {
    let mut ledger = funded(0);
    let r = ledger.transfer(&key(2), &key(1), 501, &Authorization::Signature(key(2)));
    assert_eq!(r, Err(Error::InsufficientFunds));
    assert_eq!(ledger.balance(&key(1)), 1_000);
    assert_eq!(ledger.balance(&key(2)), 500);
}

#[test]
fn transfer_by_seeds_moves_out_of_a_derived_account() {
    let mut ledger = funded(0);
    let vault = vault_address(&program_id(), &key(1)).unwrap();
    assert!(ledger.fund(&vault, 40));
    let r = ledger.transfer(&vault, &key(1), 40, &Authorization::Seeds(vault_seed_vec(&key(1))));
    assert_eq!(r, Ok(()));
    assert_eq!(ledger.balance(&key(1)), 1_040);
    assert!(!ledger.has_account(&vault));
}

#[test]
fn transfer_by_seeds_needs_the_seeds_of_the_source() {
    let mut ledger = funded(0);
    let vault = vault_address(&program_id(), &key(1)).unwrap();
    assert!(ledger.fund(&vault, 40));
    let r = ledger.transfer(&vault, &key(2), 40, &Authorization::Seeds(vault_seed_vec(&key(2))));
    assert_eq!(r, Err(Error::Unauthorized));
    let r = ledger.transfer(&vault, &key(2), 40, &Authorization::Seeds(profile_seed_vec(&key(1))));
    assert_eq!(r, Err(Error::Unauthorized));
    let r = ledger.transfer(&key(1), &key(2), 40, &Authorization::Seeds(vault_seed_vec(&key(1))));
    assert_eq!(r, Err(Error::Unauthorized));
    let r = ledger.transfer(&vault, &key(2), 40, &Authorization::Seeds(vec![vec![0u8; 33]]));
    assert_eq!(r, Err(Error::Unauthorized));
    assert_eq!(ledger.balance(&vault), 40);
    assert_eq!(ledger.balance(&key(2)), 500);
}

#[test]
fn transfer_as_takes_the_proven_address() {
    let mut ledger = funded(0);
    assert_eq!(ledger.transfer_as(&key(1), &key(2), 1, &Some(key(1))), Ok(()));
    assert_eq!(ledger.transfer_as(&key(1), &key(2), 1, &Some(key(2))), Err(Error::Unauthorized));
    assert_eq!(ledger.transfer_as(&key(1), &key(2), 1, &None), Err(Error::Unauthorized));
    assert_eq!(
        ledger.transfer_as(&key(1), &key(2), 1_000, &Some(key(1))),
        Err(Error::InsufficientFunds)
    );
    assert_eq!(ledger.balance(&key(1)), 999);
    assert_eq!(ledger.balance(&key(2)), 501);
}

#[test]
fn create_stores_the_record_and_charges_the_payer() {
    let mut ledger = funded(10);
    let r = ledger.create(&key(5), 48, &key(1), Record::Profile(UserProfile::new(key(1))));
    assert_eq!(r, Ok(()));
    assert_eq!(ledger.profile(&key(5)), Some(UserProfile { user: key(1), post_count: 0 }));
    assert!(ledger.post(&key(5)).is_none());
    assert_eq!(ledger.balance(&key(5)), 480);
    assert_eq!(ledger.available(&key(5)), 0);
    assert_eq!(ledger.balance(&key(1)), 520);
    assert_eq!(ledger.total_supply(), 1_500);
}

#[test]
fn create_refuses_an_address_in_use() {
    let mut ledger = funded(0);
    let r = ledger.create(&key(2), 48, &key(1), Record::Profile(UserProfile::new(key(1))));
    assert_eq!(r, Err(Error::DuplicateInitialization));
    assert!(ledger.profile(&key(2)).is_none());
    assert_eq!(ledger.balance(&key(2)), 500);
}

#[test]
fn create_needs_the_price_of_the_storage() {
    let mut ledger = funded(10);
    let r = ledger.create(&key(5), 51, &key(2), Record::Profile(UserProfile::new(key(2))));
    assert_eq!(r, Err(Error::InsufficientFunds));
    assert!(!ledger.has_account(&key(5)));
    assert_eq!(ledger.balance(&key(2)), 500);
    let r = ledger.create(&key(5), 50, &key(2), Record::Profile(UserProfile::new(key(2))));
    assert_eq!(r, Ok(()));
    assert!(!ledger.has_account(&key(2)));
    assert_eq!(ledger.balance(&key(5)), 500);
}

#[test]
fn a_record_cannot_pay() {
    let mut ledger = funded(10);
    let r = ledger.create(&key(5), 48, &key(1), Record::Profile(UserProfile::new(key(1))));
    assert_eq!(r, Ok(()));
    let r = ledger.transfer(&key(5), &key(1), 1, &Authorization::Signature(key(5)));
    assert_eq!(r, Err(Error::InsufficientFunds));
    assert_eq!(ledger.balance(&key(5)), 480);
}

#[test]
fn close_hands_the_value_to_the_recipient() {
    let mut ledger = funded(10);
    let post = Post::new(key(1), String::from("t"), String::from("c"));
    assert_eq!(ledger.create(&key(5), 10, &key(1), Record::Post(post)), Ok(()));
    assert_eq!(ledger.balance(&key(5)), 100);
    assert!(ledger.fund(&key(5), 7));
    assert_eq!(ledger.close(&key(5), &key(2)), Ok(()));
    assert!(!ledger.has_account(&key(5)));
    assert!(ledger.post(&key(5)).is_none());
    assert_eq!(ledger.balance(&key(2)), 607);
    assert_eq!(ledger.balance(&key(1)), 900);
    assert_eq!(ledger.total_supply(), 1_507);
}

#[test]
fn close_needs_a_record() {
    let mut ledger = funded(0);
    assert_eq!(ledger.close(&key(9), &key(1)), Err(Error::NotFound));
    assert_eq!(ledger.close(&key(2), &key(1)), Err(Error::NotFound));
    assert_eq!(ledger.balance(&key(2)), 500);
    assert_eq!(ledger.balance(&key(1)), 1_000);
}
