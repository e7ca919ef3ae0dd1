use super_liquidity::oracle::CoinInfo;
use super_liquidity::registry::{Address, GlobalAccount, GlobalState};
use super_liquidity::swap::{dynamic_fee, receive_amount, swap, ErrorCode};
use super_liquidity::vault::{UserCoinVault, UserVault};

fn addr(b: u8) -> Address {
    Address { bytes: [b; 32] }
}

fn coin(symbol: &str, p: u64) -> CoinInfo {
    CoinInfo {
        orca_price: p,
        coin_gecko_price: p,
        serum_price: p,
        last_update_timestamp: 0,
        authority: addr(9),
        symbol: symbol.to_string(),
    }
}

/// Token A at position 0 priced 0.95, token B at position 1 priced 1.00,
/// both with two decimals.
fn market() -> (GlobalState, GlobalAccount) {
    let admin = addr(1);
    let mut g = GlobalState::initialize_global_state(admin, admin).unwrap();
    g.add_token(admin, addr(10)).unwrap();
    g.add_token(admin, addr(11)).unwrap();
    let mut p = GlobalAccount::init_global_account(admin);
    p.add_token(addr(10), 2, "A".to_string(), None, None).unwrap();
    p.add_token(addr(11), 2, "B".to_string(), None, None).unwrap();
    p.update_token_price(0, &coin("A", 95), None, None, 1).unwrap();
    p.update_token_price(1, &coin("B", 100), None, None, 1).unwrap();
    (g, p)
}

fn provider(g: &GlobalState) -> UserVault {
    let mut v = UserVault::init_user_liquidity_provider(addr(5));
    v.update_user_liquidity_provider(addr(5), 0, 0, 0, 0, u64::MAX, true, false, false, 0, 1).unwrap();
    v.update_user_liquidity_provider(addr(5), 1, 0, 0, 0, u64::MAX, false, true, false, 0, 1).unwrap();
    v.deposit(g, addr(5), addr(11), 1, 5000, 5000, 1).unwrap();
    v
}

fn slots(v: &UserVault) -> Vec<UserCoinVault> {
    v.vaults.clone()
}

#[test]
fn swap_slippage_example() {
    let (g, p) = market();
    let mut v = provider(&g);
    let before = slots(&v);
    let r = swap(&mut v, &g, &p, 0, 1, addr(10), addr(11), 1000, 960, 9);
    assert_eq!(r, Err(ErrorCode::InsufficientAmount));
    assert_eq!(slots(&v), before);
}

#[test]
fn swap_settles_both_slots() {
    let (g, p) = market();
    let mut v = provider(&g);
    let r = swap(&mut v, &g, &p, 0, 1, addr(10), addr(11), 1000, 950, 9);
    assert_eq!(r, Ok(950));
    assert_eq!(v.vaults[0].amount, 1000);
    assert_eq!(v.vaults[1].amount, 4050);
    assert_eq!(v.vaults[1].timestamp, 9);
    let sum: u64 = v.vaults.iter().map(|s| s.amount).sum();
    assert_eq!(sum, 5000 + 1000 - 950);
}

#[test]
fn fixed_fees_reduce_the_amount() {
    let (g, p) = market();
    let mut v = provider(&g);
    v.update_user_liquidity_provider(addr(5), 0, 100, 0, 0, u64::MAX, true, false, false, 0, 1).unwrap();
    v.update_user_liquidity_provider(addr(5), 1, 0, 100, 0, u64::MAX, false, true, false, 0, 1).unwrap();
    assert_eq!(swap(&mut v, &g, &p, 0, 1, addr(10), addr(11), 1000, 0, 9), Ok(930));
}

#[test]
fn swap_refusals() {
    let (g, p) = market();
    let base = provider(&g);

    let mut v = base.clone();
    assert_eq!(swap(&mut v, &g, &p, 0, 1, addr(10), addr(10), 1000, 0, 9), Err(ErrorCode::SameToken));
    assert_eq!(
        swap(&mut v, &g, &p, 0, 2, addr(10), addr(11), 1000, 0, 9),
        Err(ErrorCode::InvalidTokenPosition)
    );
    assert_eq!(
        swap(&mut v, &g, &p, 1, 0, addr(10), addr(11), 1000, 0, 9),
        Err(ErrorCode::InvalidTokenPosition)
    );
    assert_eq!(
        swap(&mut v, &g, &p, 0, 1, addr(10), addr(11), 10000, 0, 9),
        Err(ErrorCode::VaultInsufficientAmount)
    );

    let mut off = base.clone();
    off.update_user_liquidity_provider(addr(5), 1, 0, 0, 0, u64::MAX, false, false, false, 0, 1).unwrap();
    assert_eq!(swap(&mut off, &g, &p, 0, 1, addr(10), addr(11), 1000, 0, 9), Err(ErrorCode::VaultProvideOff));

    let mut closed = base.clone();
    closed.update_user_liquidity_provider(addr(5), 0, 0, 0, 0, u64::MAX, false, false, false, 0, 1).unwrap();
    assert_eq!(
        swap(&mut closed, &g, &p, 0, 1, addr(10), addr(11), 1000, 0, 9),
        Err(ErrorCode::VaultRecieveOff)
    );

    let mut limited = base.clone();
    limited.update_user_liquidity_provider(addr(5), 1, 0, 0, 0, u64::MAX, false, true, true, 101, 1).unwrap();
    assert_eq!(
        swap(&mut limited, &g, &p, 0, 1, addr(10), addr(11), 1000, 0, 9),
        Err(ErrorCode::PriceUnderLimitPrice)
    );
    let mut at_limit = base.clone();
    at_limit.update_user_liquidity_provider(addr(5), 1, 0, 0, 0, u64::MAX, false, true, true, 100, 1).unwrap();
    assert_eq!(swap(&mut at_limit, &g, &p, 0, 1, addr(10), addr(11), 1000, 0, 9), Ok(950));

    let mut capped = base.clone();
    capped.update_user_liquidity_provider(addr(5), 0, 0, 0, 0, 500, true, false, false, 0, 1).unwrap();
    assert_eq!(
        swap(&mut capped, &g, &p, 0, 1, addr(10), addr(11), 1000, 0, 9),
        Err(ErrorCode::ExceedsMaxAmount)
    );

    let mut floored = base.clone();
    floored.update_user_liquidity_provider(addr(5), 1, 0, 0, 4500, u64::MAX, false, true, false, 0, 1).unwrap();
    assert_eq!(
        swap(&mut floored, &g, &p, 0, 1, addr(10), addr(11), 1000, 0, 9),
        Err(ErrorCode::ExceedsMinAmount)
    );
    assert_eq!(slots(&floored)[1].amount, 5000);
}

#[test]
fn unpriced_token_cannot_be_bought() {
    let admin = addr(1);
    let mut g = GlobalState::initialize_global_state(admin, admin).unwrap();
    g.add_token(admin, addr(10)).unwrap();
    g.add_token(admin, addr(11)).unwrap();
    let mut p = GlobalAccount::init_global_account(admin);
    p.add_token(addr(10), 2, "A".to_string(), None, None).unwrap();
    p.add_token(addr(11), 2, "B".to_string(), None, None).unwrap();
    p.update_token_price(0, &coin("A", 95), None, None, 1).unwrap();
    let mut v = provider(&g);
    assert_eq!(swap(&mut v, &g, &p, 0, 1, addr(10), addr(11), 1000, 0, 9), Err(ErrorCode::InvalidPrice));
}

#[test]
fn portfolio_swap_uses_dynamic_fees() {
    let (g, p) = market();
    let mut v = UserVault::init_user_portfolio(addr(5));
    v.deposit(&g, addr(5), addr(10), 0, 1000, 1000, 1).unwrap();
    v.deposit(&g, addr(5), addr(11), 1, 1000, 1000, 1).unwrap();
    v.update_user_portfolio(addr(5), &g, 0, 5000, false, 0, 10000, 2).unwrap();
    v.update_user_portfolio(addr(5), &g, 1, 5000, false, 0, 10000, 2).unwrap();
    assert_eq!((v.vaults[0].min, v.vaults[0].max), (2500, 7500));
    assert_eq!(swap(&mut v, &g, &p, 0, 1, addr(10), addr(11), 100, 0, 9), Ok(94));
    assert_eq!(v.vaults[0].amount, 1100);
    assert_eq!(v.vaults[1].amount, 906);
}

#[test]
fn portfolio_bounds_are_weights() {
    let (g, p) = market();
    let mut v = UserVault::init_user_portfolio(addr(5));
    v.deposit(&g, addr(5), addr(10), 0, 1000, 1000, 1).unwrap();
    v.deposit(&g, addr(5), addr(11), 1, 1000, 1000, 1).unwrap();
    v.update_user_portfolio(addr(5), &g, 0, 5000, false, 0, 1000, 2).unwrap();
    v.update_user_portfolio(addr(5), &g, 1, 5000, false, 0, 1000, 2).unwrap();
    assert_eq!(
        swap(&mut v, &g, &p, 0, 1, addr(10), addr(11), 100, 0, 9),
        Err(ErrorCode::ExceedsMinAmount)
    );
}

#[test]
fn empty_portfolio_has_no_weights() {
    let (g, p) = market();
    let mut v = UserVault::init_user_portfolio(addr(5));
    assert_eq!(
        swap(&mut v, &g, &p, 0, 1, addr(10), addr(11), 100, 0, 9),
        Err(ErrorCode::ZeroPortfolioValue)
    );
}

#[test]
fn dynamic_fee_values() {
    assert_eq!(dynamic_fee(5000, 10000), 17);
    assert_eq!(dynamic_fee(0, 0), 30);
    assert_eq!(dynamic_fee(10000, 10000), 30);
    assert_eq!(dynamic_fee(0, 5000), 5);
    assert_eq!(dynamic_fee(5128, 5000), 29);
}

#[test]
fn quote_values() {
    assert_eq!(receive_amount(95, 0, 2, 100, 0, 2, 1000), Some(950));
    assert_eq!(receive_amount(95, 100, 2, 100, 100, 2, 1000), Some(930));
    assert_eq!(receive_amount(u64::MAX, 0, 0, 1, 0, 30, 1), None);
    assert_eq!(receive_amount(1, 0, 0, 1, 0, 0, u64::MAX), Some(u64::MAX as u128));
    assert_eq!(receive_amount(5, 0, 200, 1, 0, 0, 7), Some(0));
}
