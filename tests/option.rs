use std::collections::HashMap;

use call_option_oracle::address::{Address, AddressKind};
use call_option_oracle::oracle::Oracle;
use call_option_oracle::option::{DataKey, Effects, EuropeanCallOption, OptionError, Transfer};
use call_option_oracle::price_store::{Asset, PriceData};

fn account(n: u128) -> Address {
    Address::new(AddressKind::Account, 0, n)
}

fn contract(n: u128) -> Address {
    Address::new(AddressKind::Contract, 0, n)
}

/// Token balances, kept the way a token service would.
struct Ledger {
    balances: HashMap<(Address, Address), i128>,
}

impl Ledger {
    fn new() -> Ledger {
        Ledger { balances: HashMap::new() }
    }

    fn balance(&self, token: Address, holder: Address) -> i128 {
        *self.balances.get(&(token, holder)).unwrap_or(&0)
    }

    fn mint(&mut self, token: Address, holder: Address, amount: i128) {
        *self.balances.entry((token, holder)).or_insert(0) += amount;
    }

    fn apply(&mut self, effects: &Effects) {
        for t in effects.transfers.iter() {
            assert!(self.balance(t.token, t.from) >= t.amount, "insufficient balance");
            *self.balances.entry((t.token, t.from)).or_insert(0) -= t.amount;
            *self.balances.entry((t.token, t.to)).or_insert(0) += t.amount;
        }
    }
}

struct Setup {
    ledger: Ledger,
    oracle: Oracle,
    option: EuropeanCallOption,
    seller: Address,
    buyer: Address,
    escrow_token: Address,
    underlying_token: Address,
    oracle_id: Address,
    now: u64,
}

fn setup(price: i128) -> Setup {
    let now: u64 = 12345;
    let seller = account(1);
    let buyer = account(2);
    let escrow_token = contract(10);
    let underlying_token = contract(11);
    let oracle_id = contract(12);
    let mut ledger = Ledger::new();
    ledger.mint(escrow_token, seller, 1000);
    ledger.mint(escrow_token, buyer, 100);
    ledger.mint(underlying_token, buyer, 10000);

    let mut oracle = Oracle::new();
    oracle.initialize(account(3), Asset::Stellar(contract(13)), 18, 60).unwrap();
    oracle.add_price(0, Asset::Stellar(escrow_token), price, now).unwrap();

    Setup {
        ledger,
        oracle,
        option: EuropeanCallOption::new(contract(20)),
        seller,
        buyer,
        escrow_token,
        underlying_token,
        oracle_id,
        now,
    }
}

fn create_option_contract(
    s: &mut Setup,
    strike_price: u32,
    premium: u32,
    escrow_amount: u32,
    expiration_date: u64,
) {
    let effects = s
        .option
        .init_option(
            s.now,
            s.seller,
            strike_price,
            expiration_date,
            premium,
            s.escrow_token,
            escrow_amount,
            s.underlying_token,
            s.oracle_id,
        )
        .unwrap();
    assert_eq!(effects.signer, s.seller);
    assert_eq!(
        effects.transfers,
        vec![Transfer {
            token: s.escrow_token,
            from: s.seller,
            to: s.option.contract,
            amount: 100,
        }]
    );
    s.ledger.apply(&effects);
}

fn check_buy(s: &mut Setup) {
    let effects = s.option.buy_option(s.buyer).unwrap();
    assert_eq!(effects.signer, s.buyer);
    assert_eq!(
        effects.transfers,
        vec![
            Transfer { token: s.escrow_token, from: s.buyer, to: s.seller, amount: 10 },
            Transfer {
                token: s.underlying_token,
                from: s.buyer,
                to: s.option.contract,
                amount: 1000,
            },
        ]
    );
    s.ledger.apply(&effects);
}

#[test]
fn test_in_case_of_strike_is_high() {
    let mut s = setup(9);
    create_option_contract(&mut s, 10, 10, 100, 0);
    assert_eq!(s.ledger.balance(s.escrow_token, s.seller), 900);

    check_buy(&mut s);
    assert_eq!(s.ledger.balance(s.underlying_token, s.buyer), 9000);
    assert_eq!(s.ledger.balance(s.escrow_token, s.buyer), 90);

    let effects = s.option.exercise_option(s.now, &s.oracle).unwrap();
    assert_eq!(effects.signer, s.buyer);
    s.ledger.apply(&effects);

    let c = s.option.contract;
    assert_eq!(s.ledger.balance(s.underlying_token, s.buyer), 10000);
    assert_eq!(s.ledger.balance(s.underlying_token, s.seller), 0);
    assert_eq!(s.ledger.balance(s.escrow_token, s.buyer), 90);
    assert_eq!(s.ledger.balance(s.escrow_token, s.seller), 1010);
    assert_eq!(s.ledger.balance(s.escrow_token, c), 0);
    assert_eq!(s.ledger.balance(s.underlying_token, c), 0);
    assert!(!s.option.is_initialized());
    assert!(!s.option.is_buyer_entered());
}

#[test]
fn test_in_case_of_strike_is_low() {
    let mut s = setup(12);
    create_option_contract(&mut s, 10, 10, 100, 0);
    assert_eq!(s.ledger.balance(s.escrow_token, s.seller), 900);

    check_buy(&mut s);
    let c = s.option.contract;
    assert_eq!(s.ledger.balance(s.underlying_token, s.buyer), 9000);
    assert_eq!(s.ledger.balance(s.escrow_token, s.buyer), 90);
    assert_eq!(s.ledger.balance(s.escrow_token, s.seller), 910);
    assert_eq!(s.ledger.balance(s.escrow_token, c), 100);
    assert_eq!(s.ledger.balance(s.underlying_token, c), 1000);

    let effects = s.option.exercise_option(s.now, &s.oracle).unwrap();
    assert_eq!(effects.signer, s.seller);
    s.ledger.apply(&effects);

    assert_eq!(s.ledger.balance(s.underlying_token, s.buyer), 9000);
    assert_eq!(s.ledger.balance(s.underlying_token, s.seller), 1000);
    assert_eq!(s.ledger.balance(s.escrow_token, s.buyer), 190);
    assert_eq!(s.ledger.balance(s.escrow_token, s.seller), 910);
    assert_eq!(s.ledger.balance(s.escrow_token, c), 0);
    assert_eq!(s.ledger.balance(s.underlying_token, c), 0);
}

#[test]
fn test_withdraw() {
    let mut s = setup(12);
    create_option_contract(&mut s, 10, 10, 100, 0);
    let c = s.option.contract;
    assert_eq!(s.ledger.balance(s.escrow_token, s.seller), 900);
    assert_eq!(s.ledger.balance(s.escrow_token, c), 100);

    let effects = s.option.withdraw().unwrap();
    assert_eq!(effects.signer, s.seller);
    s.ledger.apply(&effects);
    assert_eq!(s.ledger.balance(s.escrow_token, s.seller), 1000);
    assert_eq!(s.ledger.balance(s.escrow_token, c), 0);
    assert!(!s.option.has(DataKey::OptionInfo));
}

#[test]
fn price_equal_to_strike_favours_the_seller() {
    let mut s = setup(10);
    create_option_contract(&mut s, 10, 10, 100, 0);
    check_buy(&mut s);
    let effects = s.option.exercise_option(s.now, &s.oracle).unwrap();
    assert_eq!(effects.signer, s.seller);
    assert_eq!(effects.transfers[0].to, s.seller);
    assert_eq!(effects.transfers[1].to, s.buyer);
}

#[test]
fn exercise_at_price_selects_branch_strictly() {
    for (price, buyer_wins) in [(9i128, true), (12, false), (10, false)] {
        let mut s = setup(0);
        create_option_contract(&mut s, 10, 10, 100, 0);
        check_buy(&mut s);
        let effects = s
            .option
            .exercise_at_price(s.now, Some(PriceData::new(price, s.now)))
            .unwrap();
        let winner = if buyer_wins { s.buyer } else { s.seller };
        assert_eq!(effects.signer, winner);
        assert_eq!(effects.transfers[0].token, s.underlying_token);
        assert_eq!(effects.transfers[0].to, winner);
        assert_eq!(effects.transfers[0].amount, 1000);
    }
}

#[test]
fn init_twice_is_refused() {
    let mut s = setup(9);
    create_option_contract(&mut s, 10, 10, 100, 0);
    let again = s.option.init_option(
        1, s.seller, 5, 0, 1, s.escrow_token, 7, s.underlying_token, s.oracle_id,
    );
    assert_eq!(again.unwrap_err(), OptionError::AlreadyInitialized);
    assert_eq!(s.option.option.unwrap().strike_price, 10);
    assert_eq!(s.option.init_time, Some(12345));
}

#[test]
fn zero_strike_or_escrow_is_refused() {
    let mut s = setup(9);
    let zero_strike = s.option.init_option(
        0, s.seller, 0, 0, 1, s.escrow_token, 100, s.underlying_token, s.oracle_id,
    );
    assert_eq!(zero_strike.unwrap_err(), OptionError::InvalidArgument);
    let zero_escrow = s.option.init_option(
        0, s.seller, 10, 0, 1, s.escrow_token, 0, s.underlying_token, s.oracle_id,
    );
    assert_eq!(zero_escrow.unwrap_err(), OptionError::InvalidArgument);
    assert!(!s.option.is_initialized());
}

#[test]
fn buy_before_init_is_refused() {
    let mut option = EuropeanCallOption::new(contract(20));
    assert_eq!(option.buy_option(account(2)).unwrap_err(), OptionError::NotInitialized);
    assert_eq!(option.withdraw().unwrap_err(), OptionError::NotInitialized);
    assert_eq!(
        option.exercise_at_price(0, Some(PriceData::new(1, 0))).unwrap_err(),
        OptionError::NotReady
    );
}

#[test]
fn deposit_overflow_is_refused() {
    let mut s = setup(9);
    let effects = s
        .option
        .init_option(0, s.seller, 65536, 0, 1, s.escrow_token, 65536, s.underlying_token, s.oracle_id)
        .unwrap();
    assert_eq!(effects.transfers[0].amount, 65536);
    assert_eq!(s.option.buy_option(s.buyer).unwrap_err(), OptionError::ArithmeticOverflow);
    assert!(!s.option.is_buyer_entered());
}

#[test]
fn deposit_is_the_exact_product() {
    let mut s = setup(9);
    s.option
        .init_option(0, s.seller, 65535, 0, 3, s.escrow_token, 65537, s.underlying_token, s.oracle_id)
        .unwrap();
    let effects = s.option.buy_option(s.buyer).unwrap();
    assert_eq!(effects.transfers[0].amount, 3);
    assert_eq!(effects.transfers[1].amount, 4294967295);
}

#[test]
fn second_buy_is_refused() {
    let mut s = setup(9);
    create_option_contract(&mut s, 10, 10, 100, 0);
    check_buy(&mut s);
    assert_eq!(s.option.buy_option(account(9)).unwrap_err(), OptionError::BuyerAlreadyEntered);
    assert_eq!(s.option.buyer, Some(s.buyer));
}

#[test]
fn withdraw_after_buy_is_refused() {
    let mut s = setup(9);
    create_option_contract(&mut s, 10, 10, 100, 0);
    check_buy(&mut s);
    assert_eq!(s.option.withdraw().unwrap_err(), OptionError::BuyerAlreadyEntered);
    assert!(s.option.is_initialized());
}

#[test]
fn exercise_waits_for_maturity() {
    let mut s = setup(9);
    create_option_contract(&mut s, 10, 10, 100, 60);
    check_buy(&mut s);
    assert_eq!(
        s.option.exercise_option(s.now + 59, &s.oracle).unwrap_err(),
        OptionError::DeadlineNotReached
    );
    assert!(s.option.exercise_option(s.now + 60, &s.oracle).is_ok());
}

#[test]
fn exercise_needs_a_buyer_and_a_price() {
    let mut s = setup(9);
    create_option_contract(&mut s, 10, 10, 100, 0);
    assert_eq!(
        s.option.exercise_option(s.now, &s.oracle).unwrap_err(),
        OptionError::NotReady
    );
    check_buy(&mut s);
    let empty = Oracle::new();
    assert_eq!(
        s.option.exercise_option(s.now, &empty).unwrap_err(),
        OptionError::OracleUnavailable
    );
    assert!(s.option.is_buyer_entered());
}

#[test]
fn settlement_asset_is_the_escrow_token() {
    let mut s = setup(9);
    assert_eq!(s.option.settlement_asset(), None);
    create_option_contract(&mut s, 10, 10, 100, 0);
    assert_eq!(s.option.settlement_asset(), Some(Asset::Stellar(s.escrow_token)));
}
