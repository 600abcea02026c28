//! Tests of the marketplace state machine: mint, price-set, transfer and
//! buy, their error cases, atomicity, and the genesis bootstrap.
use std::collections::HashMap;
use nanorand::WyRand;
use patternities::balances::BalanceSource;
use patternities::balances::MapBalances;
use patternities::balances::TransferError;
use patternities::hashing::Fnv1aHasher;
use patternities::pallet::Config;
use patternities::pallet::Error;
use patternities::pallet::Event;
use patternities::pallet::GenesisConfig;
use patternities::pallet::Pallet;

fn template() -> Vec<u8> {
    vec![10, 9, 9, 9, 9, 9, 117, 115, 101, 32]
}

fn fresh_pallet(max_owned: u32) -> Pallet {
    Pallet::new(Config {
        max_patternity_owned: max_owned,
        max_byte_cipher: 32,
        text_base: template(),
    })
}

#[test]
fn mint_then_sell_scenario() {
    let mut pallet = fresh_pallet(3);
    let mut rng = WyRand::new_seed(1);
    let hasher = Fnv1aHasher;
    let a = 1u64;
    let b = 2u64;

    let id = pallet
        .create_pattern(&mut rng, &hasher, a, None)
        .expect("mint");
    assert_eq!(pallet.patternity_owned(a).len(), 1);
    assert_eq!(pallet.patternity_cnt(), 1);

    let mut balances = MapBalances::new(0);
    balances.set_balance(b, 100);

    assert_eq!(
        pallet.buy_pattern(&mut balances, b, id, 100),
        Err(Error::PatternNotForSale)
    );
    pallet.set_price(a, id, Some(50)).expect("set price");
    assert_eq!(
        pallet.buy_pattern(&mut balances, b, id, 40),
        Err(Error::PatternBidPriceTooLow)
    );
    pallet.buy_pattern(&mut balances, b, id, 60).expect("buy");

    let record = pallet.patternity(id).expect("stored");
    assert_eq!(record.owner, b);
    assert_eq!(record.price, None);
    assert!(pallet.patternity_owned(a).is_empty());
    assert_eq!(pallet.patternity_owned(b), vec![id]);
    assert_eq!(balances.free_balance(b), 40);
    assert_eq!(balances.free_balance(a), 60);
}

#[test]
fn capacity_boundary_on_mint() {
    let mut pallet = fresh_pallet(2);
    let mut rng = WyRand::new_seed(2);
    let hasher = Fnv1aHasher;
    pallet
        .create_pattern(&mut rng, &hasher, 1, None)
        .expect("first");
    // one below the bound still succeeds
    pallet
        .create_pattern(&mut rng, &hasher, 1, None)
        .expect("second");
    // at the bound the mint fails and changes nothing
    assert_eq!(
        pallet.create_pattern(&mut rng, &hasher, 1, None),
        Err(Error::ExceedMaxPatternityOwned)
    );
    assert_eq!(pallet.patternity_cnt(), 2);
    assert_eq!(pallet.patternity_owned(1).len(), 2);
    assert_eq!(pallet.events.len(), 2);
}

#[test]
fn capacity_boundary_on_transfer_and_buy() {
    let mut pallet = fresh_pallet(1);
    let mut rng = WyRand::new_seed(3);
    let hasher = Fnv1aHasher;
    let id_a = pallet
        .create_pattern(&mut rng, &hasher, 1, None)
        .expect("a");
    let id_b = pallet
        .create_pattern(&mut rng, &hasher, 2, Some(10))
        .expect("b");
    // account 2 is full: transfer into it fails, nothing moves
    assert_eq!(
        pallet.transfer(1, 2, id_a),
        Err(Error::ExceedMaxPatternityOwned)
    );
    assert_eq!(pallet.patternity(id_a).unwrap().owner, 1);
    assert_eq!(pallet.patternity_owned(2), vec![id_b]);
    // account 1 is full too: buying fails after the funds checks
    let mut balances = MapBalances::new(0);
    balances.set_balance(1, 100);
    assert_eq!(
        pallet.buy_pattern(&mut balances, 1, id_b, 10),
        Err(Error::ExceedMaxPatternityOwned)
    );
    assert_eq!(balances.free_balance(1), 100);
    assert_eq!(pallet.patternity(id_b).unwrap().owner, 2);
}

#[test]
fn counter_overflow_fails_and_mutates_nothing() {
    let mut pallet = fresh_pallet(5);
    pallet.patternity_cnt = u64::MAX;
    let mut rng = WyRand::new_seed(4);
    let hasher = Fnv1aHasher;
    assert_eq!(
        pallet.create_pattern(&mut rng, &hasher, 1, None),
        Err(Error::PatternCntOverflow)
    );
    assert_eq!(pallet.patternity_cnt, u64::MAX);
    assert!(pallet.patternity_owned(1).is_empty());
    assert!(pallet.events.is_empty());
}

#[test]
fn counter_increases_by_one_per_mint_only() {
    let mut pallet = fresh_pallet(5);
    let mut rng = WyRand::new_seed(5);
    let hasher = Fnv1aHasher;
    assert_eq!(pallet.patternity_cnt(), 0);
    let id = pallet
        .create_pattern(&mut rng, &hasher, 1, Some(5))
        .expect("mint");
    assert_eq!(pallet.patternity_cnt(), 1);
    // failed operations leave the counter alone
    let _ = pallet.set_price(2, id, None);
    let _ = pallet.transfer(1, 1, id);
    assert_eq!(pallet.patternity_cnt(), 1);
    pallet.transfer(1, 2, id).expect("transfer");
    assert_eq!(pallet.patternity_cnt(), 1);
}

#[test]
fn price_resets_on_transfer() {
    let mut pallet = fresh_pallet(3);
    let mut rng = WyRand::new_seed(6);
    let hasher = Fnv1aHasher;
    let id = pallet
        .create_pattern(&mut rng, &hasher, 1, Some(77))
        .expect("mint");
    assert_eq!(pallet.patternity(id).unwrap().price, Some(77));
    pallet.transfer(1, 2, id).expect("transfer");
    assert_eq!(pallet.patternity(id).unwrap().price, None);
    assert_eq!(pallet.patternity(id).unwrap().owner, 2);
}

#[test]
fn price_resets_on_buy() {
    let mut pallet = fresh_pallet(3);
    let mut rng = WyRand::new_seed(7);
    let hasher = Fnv1aHasher;
    let id = pallet
        .create_pattern(&mut rng, &hasher, 1, Some(30))
        .expect("mint");
    let mut balances = MapBalances::new(0);
    balances.set_balance(2, 30);
    pallet.buy_pattern(&mut balances, 2, id, 30).expect("buy");
    assert_eq!(pallet.patternity(id).unwrap().price, None);
}

#[test]
fn failed_funds_transfer_leaves_ledger_unchanged() {
    let mut pallet = fresh_pallet(3);
    let mut rng = WyRand::new_seed(8);
    let hasher = Fnv1aHasher;
    let id = pallet
        .create_pattern(&mut rng, &hasher, 1, Some(60))
        .expect("mint");
    // the buyer holds the bid, but paying would drop it below the
    // existential minimum, so the collaborator refuses the payment
    let mut balances = MapBalances::new(50);
    balances.set_balance(2, 100);
    assert_eq!(
        pallet.buy_pattern(&mut balances, 2, id, 60),
        Err(Error::NotEnoughBalance)
    );
    assert_eq!(pallet.patternity(id).unwrap().owner, 1);
    assert_eq!(pallet.patternity_owned(1), vec![id]);
    assert!(pallet.patternity_owned(2).is_empty());
    assert_eq!(balances.free_balance(2), 100);
    assert_eq!(balances.free_balance(1), 0);
}

#[test]
fn buy_rejects_low_balance_before_paying() {
    let mut pallet = fresh_pallet(3);
    let mut rng = WyRand::new_seed(9);
    let hasher = Fnv1aHasher;
    let id = pallet
        .create_pattern(&mut rng, &hasher, 1, Some(60))
        .expect("mint");
    let mut balances = MapBalances::new(0);
    balances.set_balance(2, 59);
    assert_eq!(
        pallet.buy_pattern(&mut balances, 2, id, 60),
        Err(Error::NotEnoughBalance)
    );
    assert_eq!(balances.free_balance(2), 59);
}

#[test]
fn buy_error_cases() {
    let mut pallet = fresh_pallet(3);
    let mut rng = WyRand::new_seed(10);
    let hasher = Fnv1aHasher;
    let id = pallet
        .create_pattern(&mut rng, &hasher, 1, Some(10))
        .expect("mint");
    let mut balances = MapBalances::new(0);
    balances.set_balance(1, 50);
    assert_eq!(
        pallet.buy_pattern(&mut balances, 2, 12345, 10),
        Err(Error::PatternNotExist)
    );
    assert_eq!(
        pallet.buy_pattern(&mut balances, 1, id, 10),
        Err(Error::BuyerIsPatternOwner)
    );
}

#[test]
fn transfer_error_cases() {
    let mut pallet = fresh_pallet(3);
    let mut rng = WyRand::new_seed(11);
    let hasher = Fnv1aHasher;
    let id = pallet
        .create_pattern(&mut rng, &hasher, 1, None)
        .expect("mint");
    assert_eq!(pallet.transfer(1, 2, 999), Err(Error::PatternNotExist));
    assert_eq!(pallet.transfer(2, 3, id), Err(Error::NotPatternOwner));
    assert_eq!(pallet.transfer(1, 1, id), Err(Error::TransferToSelf));
    assert_eq!(pallet.patternity(id).unwrap().owner, 1);
}

#[test]
fn set_price_errors_and_delisting() {
    let mut pallet = fresh_pallet(3);
    let mut rng = WyRand::new_seed(12);
    let hasher = Fnv1aHasher;
    let id = pallet
        .create_pattern(&mut rng, &hasher, 1, Some(5))
        .expect("mint");
    assert_eq!(
        pallet.set_price(1, 999, Some(5)),
        Err(Error::PatternNotExist)
    );
    assert_eq!(pallet.set_price(2, id, Some(5)), Err(Error::NotPatternOwner));
    pallet.set_price(1, id, None).expect("delist");
    let mut balances = MapBalances::new(0);
    balances.set_balance(2, 10);
    assert_eq!(
        pallet.buy_pattern(&mut balances, 2, id, 10),
        Err(Error::PatternNotForSale)
    );
}

#[test]
fn is_pattern_owner_reports_ownership() {
    let mut pallet = fresh_pallet(3);
    let mut rng = WyRand::new_seed(13);
    let hasher = Fnv1aHasher;
    let id = pallet
        .create_pattern(&mut rng, &hasher, 7, None)
        .expect("mint");
    assert_eq!(pallet.is_pattern_owner(id, 7), Ok(true));
    assert_eq!(pallet.is_pattern_owner(id, 8), Ok(false));
    assert_eq!(pallet.is_pattern_owner(999, 7), Err(Error::PatternNotExist));
}

#[test]
fn transfer_pattern_to_delists_and_relists() {
    let mut pallet = fresh_pallet(3);
    let mut rng = WyRand::new_seed(14);
    let hasher = Fnv1aHasher;
    let id = pallet
        .create_pattern(&mut rng, &hasher, 1, Some(9))
        .expect("mint");
    pallet.transfer_pattern_to(id, 2).expect("move");
    assert_eq!(pallet.patternity(id).unwrap().owner, 2);
    assert_eq!(pallet.patternity(id).unwrap().price, None);
    assert!(pallet.patternity_owned(1).is_empty());
    assert_eq!(pallet.patternity_owned(2), vec![id]);
    // moving to the present owner only clears the price
    pallet.set_price(2, id, Some(4)).expect("set");
    pallet.transfer_pattern_to(id, 2).expect("move to self");
    assert_eq!(pallet.patternity(id).unwrap().owner, 2);
    assert_eq!(pallet.patternity(id).unwrap().price, None);
    assert_eq!(pallet.patternity_owned(2), vec![id]);
}

#[test]
fn inconsistent_ledger_is_reported() {
    // a record whose owner's list does not hold it: the defensive
    // internal-breach error comes back and nothing is moved
    let mut pallet = fresh_pallet(3);
    let mut rng = WyRand::new_seed(15);
    let hasher = Fnv1aHasher;
    let id = pallet
        .create_pattern(&mut rng, &hasher, 1, None)
        .expect("mint");
    pallet.patternity_owned = HashMap::new();
    assert_eq!(
        pallet.transfer_pattern_to(id, 2),
        Err(Error::PatternityOwned)
    );
    assert_eq!(pallet.patternity(id).unwrap().owner, 1);
}

#[test]
fn events_record_the_history() {
    let mut pallet = fresh_pallet(3);
    let mut rng = WyRand::new_seed(16);
    let hasher = Fnv1aHasher;
    let id = pallet
        .create_pattern(&mut rng, &hasher, 1, None)
        .expect("mint");
    pallet.set_price(1, id, Some(20)).expect("price");
    let mut balances = MapBalances::new(0);
    balances.set_balance(2, 20);
    pallet.buy_pattern(&mut balances, 2, id, 20).expect("buy");
    pallet.transfer(2, 3, id).expect("transfer");
    assert_eq!(
        pallet.events,
        vec![
            Event::Created(1, id),
            Event::PriceSet(1, id, Some(20)),
            Event::Bought(2, 1, id, 20),
            Event::Transferred(2, 3, id),
        ]
    );
}

#[test]
fn genesis_build_mints_each_pair() {
    let mut pallet = fresh_pallet(3);
    let mut rng = WyRand::new_seed(17);
    let hasher = Fnv1aHasher;
    let genesis = GenesisConfig {
        patternity_genesis: vec![(1, None), (1, Some(5)), (2, None)],
    };
    genesis.build(&mut pallet, &mut rng, &hasher);
    assert_eq!(pallet.patternity_cnt(), 3);
    assert_eq!(pallet.patternity_owned(1).len(), 2);
    assert_eq!(pallet.patternity_owned(2).len(), 1);
}

#[test]
fn genesis_default_is_empty() {
    let genesis = GenesisConfig::default();
    assert!(genesis.patternity_genesis.is_empty());
}

#[test]
fn map_balances_transfer_semantics() {
    let mut balances = MapBalances::new(10);
    balances.set_balance(1, 100);
    balances.set_balance(2, 5);
    assert_eq!(balances.transfer(1, 2, 80), Ok(()));
    assert_eq!(balances.free_balance(1), 20);
    assert_eq!(balances.free_balance(2), 85);
    assert_eq!(
        balances.transfer(1, 2, 50),
        Err(TransferError::InsufficientFunds)
    );
    assert_eq!(
        balances.transfer(1, 2, 15),
        Err(TransferError::ExistentialDepositViolation)
    );
    assert_eq!(balances.free_balance(1), 20);
    assert_eq!(balances.free_balance(2), 85);
}
