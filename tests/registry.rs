use super_liquidity::aggregator::{ErrorCode, PythQuote};
use super_liquidity::oracle::CoinInfo;
use super_liquidity::registry::{
    Address, GlobalAccount, GlobalState, PythProduct, RegistryError, SwitchboardFeed, MAX_TOKENS,
};

fn addr(b: u8) -> Address {
    Address { bytes: [b; 32] }
}

fn coin(cg: u64, orca: u64, serum: u64) -> CoinInfo {
    CoinInfo {
        orca_price: orca,
        coin_gecko_price: cg,
        serum_price: serum,
        last_update_timestamp: 0,
        authority: addr(9),
        symbol: "SOL".to_string(),
    }
}

#[test]
fn positions_are_permanent() {
    let admin = addr(1);
    let mut g = GlobalState::initialize_global_state(admin, admin).unwrap();
    assert_eq!(g.add_token(admin, addr(10)), Ok(()));
    assert_eq!(g.add_token(admin, addr(11)), Ok(()));
    assert_eq!(g.add_token(admin, addr(10)), Err(RegistryError::TokenAlreadyAdded));
    assert_eq!(g.add_token(addr(2), addr(12)), Err(RegistryError::AdminAccessError));
    assert_eq!(g.add_token(admin, addr(12)), Ok(()));
    assert_eq!(g.tokens, vec![addr(10), addr(11), addr(12)]);
}

#[test]
fn registry_is_bounded() {
    let admin = addr(1);
    let mut g = GlobalState::initialize_global_state(admin, admin).unwrap();
    for i in 0..MAX_TOKENS {
        let mut bytes = [0u8; 32];
        bytes[0] = i as u8;
        bytes[1] = 7;
        assert_eq!(g.add_token(admin, Address { bytes }), Ok(()));
    }
    assert_eq!(g.add_token(admin, addr(200)), Err(RegistryError::RegistryFull));
    assert_eq!(g.tokens.len(), MAX_TOKENS);
}

#[test]
fn initialization_needs_the_admin() {
    assert!(matches!(
        GlobalState::initialize_global_state(addr(1), addr(2)),
        Err(RegistryError::AdminAccessError)
    ));
}

#[test]
fn authority_changes_hands() {
    let admin = addr(1);
    let mut g = GlobalState::initialize_global_state(admin, admin).unwrap();
    assert_eq!(g.change_authority(addr(2), addr(3)), Err(RegistryError::AdminAccessError));
    assert_eq!(g.change_authority(admin, addr(3)), Ok(()));
    assert_eq!(g.admin_account, addr(3));
    assert_eq!(g.add_token(admin, addr(10)), Err(RegistryError::AdminAccessError));
}

#[test]
fn token_positions_are_checked() {
    let admin = addr(1);
    let mut g = GlobalState::initialize_global_state(admin, admin).unwrap();
    g.add_token(admin, addr(10)).unwrap();
    assert_eq!(g.check_token_position(addr(10), 0), Ok(()));
    assert_eq!(g.check_token_position(addr(11), 0), Err(RegistryError::InvalidTokenPosition));
    assert_eq!(g.check_token_position(addr(10), 1), Err(RegistryError::InvalidTokenPosition));
}

fn feed(data: Vec<u8>) -> SwitchboardFeed {
    SwitchboardFeed { account: addr(30), data }
}

fn product(attr: &[u8]) -> PythProduct {
    PythProduct { attr: attr.to_vec(), price_account: addr(20) }
}

fn price_list() -> GlobalAccount {
    let mut p = GlobalAccount::init_global_account(addr(1));
    p.add_token(addr(10), 6, "SOL".to_string(), None, Some(feed(vec![5, 1, 2]))).unwrap();
    p
}

#[test]
fn price_list_refuses_duplicates() {
    let mut p = price_list();
    assert_eq!(
        p.add_token(addr(10), 6, "SOL".to_string(), None, None),
        Err(ErrorCode::TokenAlreadyExists)
    );
    assert_eq!(p.tokens.len(), 1);
    assert_eq!(p.check_token_position(addr(10), 0), Ok(()));
    assert_eq!(p.check_token_position(addr(10), 1), Err(ErrorCode::InvalidTokenPosition));
}

#[test]
fn price_list_is_bounded() {
    let mut p = GlobalAccount::init_global_account(addr(1));
    for i in 0..MAX_TOKENS {
        let mut bytes = [0u8; 32];
        bytes[0] = i as u8;
        assert_eq!(p.add_token(Address { bytes }, 6, "T".to_string(), None, None), Ok(()));
    }
    assert_eq!(
        p.add_token(addr(200), 6, "T".to_string(), None, None),
        Err(ErrorCode::RegistryFull)
    );
}

#[test]
fn price_update_writes_price_and_time() {
    let mut p = price_list();
    assert_eq!(p.update_token_price(0, &coin(95, 95, 95), None, None, 77), Ok(95));
    assert_eq!(p.tokens[0].price, 95);
    assert_eq!(p.tokens[0].last_update_timestamp, 77);
}

#[test]
fn rejected_update_is_idempotent() {
    let mut p = price_list();
    p.update_token_price(0, &coin(95, 95, 95), None, None, 5).unwrap();
    let divergent = coin(100, 500, 900);
    let first = p.update_token_price(0, &divergent, None, Some(1300), 6);
    assert_eq!(first, Err(ErrorCode::PriceUpdateError));
    assert_eq!(p.tokens[0].price, 95);
    assert_eq!(p.tokens[0].last_update_timestamp, 5);
    let second = p.update_token_price(0, &divergent, None, Some(1300), 7);
    assert_eq!(second, first);
    assert_eq!(p.tokens[0].price, 95);
    assert_eq!(p.tokens[0].last_update_timestamp, 5);
}

#[test]
fn switchboard_price_counts_only_with_a_feed() {
    let mut p = GlobalAccount::init_global_account(addr(1));
    p.add_token(addr(10), 6, "SOL".to_string(), None, None).unwrap();
    assert_eq!(p.update_token_price(0, &coin(100, 100, 100), None, Some(1300), 1), Ok(100));
}

#[test]
fn pyth_quote_is_required_where_configured() {
    let mut p = GlobalAccount::init_global_account(addr(1));
    p.add_token(addr(10), 2, "SOL".to_string(), Some(product(b"\x06symbolSOL/USD")), None).unwrap();
    assert_eq!(
        p.update_token_price(0, &coin(100, 100, 100), None, None, 1),
        Err(ErrorCode::PythPriceAccountError)
    );
    let quote = PythQuote { price: 10000, expo: -2, trading: true };
    assert_eq!(p.update_token_price(0, &coin(100, 100, 100), Some(quote), None, 1), Ok(100));
    let halted = PythQuote { price: 99999, expo: -2, trading: false };
    assert_eq!(p.update_token_price(0, &coin(101, 101, 101), Some(halted), None, 2), Ok(101));
}

#[test]
fn price_update_checks_position() {
    let mut p = price_list();
    assert_eq!(
        p.update_token_price(3, &coin(95, 95, 95), None, None, 1),
        Err(ErrorCode::InvalidTokenPosition)
    );
}

#[test]
fn feeds_are_checked_when_added() {
    let mut p = GlobalAccount::init_global_account(addr(1));
    assert_eq!(
        p.add_token(addr(10), 6, "SOL".to_string(), None, Some(feed(vec![4, 5]))),
        Err(ErrorCode::SwitchboardAccountError)
    );
    assert_eq!(
        p.add_token(addr(10), 6, "SOL".to_string(), None, Some(feed(vec![]))),
        Err(ErrorCode::SwitchboardAccountError)
    );
    assert_eq!(
        p.add_token(addr(10), 6, "SOL".to_string(), Some(product(b"symbolBTC/USD")), None),
        Err(ErrorCode::PythProductAccountError)
    );
    assert_eq!(
        p.add_token(addr(10), 6, "SOL".to_string(), Some(product(b"symbolSOL/EUR")), None),
        Err(ErrorCode::PythProductAccountError)
    );
    assert!(p.tokens.is_empty());
    assert_eq!(
        p.add_token(addr(10), 6, "SOL".to_string(), Some(product(b"symbolSOL/USD")), Some(feed(vec![5]))),
        Ok(())
    );
    assert_eq!(p.tokens[0].pyth_price_account, Some(addr(20)));
    assert_eq!(p.tokens[0].switchboard_optimized_feed_account, Some(addr(30)));
    assert_eq!(p.tokens[0].price, 0);
}

#[test]
fn coin_record_must_match_symbol() {
    let mut p = price_list();
    let mut other = coin(95, 95, 95);
    other.symbol = "BTC".to_string();
    assert_eq!(
        p.update_token_price(0, &other, None, None, 1),
        Err(ErrorCode::CoinSymbolMismatch)
    );
    assert_eq!(p.tokens[0].price, 0);
}
