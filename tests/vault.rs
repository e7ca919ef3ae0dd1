use super_liquidity::registry::{Address, GlobalState};
use super_liquidity::vault::{UserVault, VaultError, VaultType, VAULT_SLOTS};

fn addr(b: u8) -> Address {
    Address { bytes: [b; 32] }
}

fn registry() -> GlobalState {
    let admin = addr(1);
    let mut g = GlobalState::initialize_global_state(admin, admin).unwrap();
    g.add_token(admin, addr(10)).unwrap();
    g.add_token(admin, addr(11)).unwrap();
    g
}

fn total(v: &UserVault) -> u128 {
    v.vaults.iter().map(|s| s.amount as u128).sum()
}

#[test]
fn default_vault_type() {
    assert_eq!(VaultType::default(), VaultType::LiquidityProvider);
}

#[test]
fn fresh_liquidity_provider() {
    let v = UserVault::init_user_liquidity_provider(addr(5));
    assert_eq!(v.vaults.len(), VAULT_SLOTS);
    assert_eq!(v.vault_type, VaultType::LiquidityProvider);
    let s = v.vaults[7];
    assert_eq!((s.amount, s.min, s.max, s.buy_fee, s.sell_fee), (0, 0, u64::MAX, 10, 10));
    assert!(!s.receive_status && !s.provide_status);
}

#[test]
fn fresh_portfolio() {
    let v = UserVault::init_user_portfolio(addr(5));
    assert_eq!(v.vault_type, VaultType::PortfolioManager { auto_fee: true, tolerance: 1000 });
    assert!(v.vaults.iter().all(|s| s.receive_status && s.provide_status));
}

#[test]
fn deposit_and_withdraw_conserve_balance() {
    let g = registry();
    let mut v = UserVault::init_user_liquidity_provider(addr(5));
    assert_eq!(v.deposit(&g, addr(5), addr(10), 0, 500, 800, 3), Ok(()));
    assert_eq!(v.deposit(&g, addr(5), addr(11), 1, 200, 200, 4), Ok(()));
    assert_eq!(total(&v), 700);
    assert_eq!(v.vaults[0].timestamp, 3);
    assert_eq!(v.withdraw(&g, addr(5), addr(10), 0, 120), Ok(()));
    assert_eq!(v.vaults[0].amount, 380);
    assert_eq!(total(&v), 580);
}

#[test]
fn withdraw_beyond_balance_fails() {
    let g = registry();
    let mut v = UserVault::init_user_liquidity_provider(addr(5));
    v.deposit(&g, addr(5), addr(10), 0, 100, 100, 1).unwrap();
    assert_eq!(v.withdraw(&g, addr(5), addr(10), 0, 101), Err(VaultError::VaultInsufficientFunds));
    assert_eq!(v.vaults[0].amount, 100);
    assert_eq!(v.withdraw(&g, addr(5), addr(10), 0, 100), Ok(()));
    assert_eq!(v.vaults[0].amount, 0);
}

#[test]
fn deposit_refusals() {
    let g = registry();
    let mut v = UserVault::init_user_liquidity_provider(addr(5));
    assert_eq!(v.deposit(&g, addr(6), addr(10), 0, 1, 1, 1), Err(VaultError::NotTheOwner));
    assert_eq!(v.deposit(&g, addr(5), addr(11), 0, 1, 1, 1), Err(VaultError::InvalidTokenPosition));
    assert_eq!(v.deposit(&g, addr(5), addr(10), 2, 1, 1, 1), Err(VaultError::InvalidTokenPosition));
    assert_eq!(v.deposit(&g, addr(5), addr(10), 0, 5, 4, 1), Err(VaultError::InsufficientFunds));
    v.deposit(&g, addr(5), addr(10), 0, u64::MAX, u64::MAX, 1).unwrap();
    assert_eq!(v.deposit(&g, addr(5), addr(10), 0, 1, 1, 1), Err(VaultError::ArithmeticOverflow));
    assert_eq!(v.withdraw(&g, addr(6), addr(10), 0, 1), Err(VaultError::NotTheOwner));
    assert_eq!(total(&v), u64::MAX as u128);
}

#[test]
fn liquidity_provider_settings() {
    let mut v = UserVault::init_user_liquidity_provider(addr(5));
    assert_eq!(
        v.update_user_liquidity_provider(addr(5), 3, 20, 30, 1, 99, true, true, true, 7, 9),
        Ok(())
    );
    let s = v.vaults[3];
    assert_eq!((s.buy_fee, s.sell_fee, s.min, s.max, s.limit_price, s.timestamp), (20, 30, 1, 99, 7, 9));
    assert!(s.receive_status && s.provide_status && s.limit_price_status);
    assert_eq!(
        v.update_user_liquidity_provider(addr(5), 3, 10001, 30, 1, 99, true, true, true, 7, 9),
        Err(VaultError::ExceedsBasisPoints)
    );
    assert_eq!(
        v.update_user_liquidity_provider(addr(5), 50, 1, 1, 1, 99, true, true, true, 7, 9),
        Err(VaultError::InvalidTokenPosition)
    );
    assert_eq!(
        v.update_user_liquidity_provider(addr(6), 3, 1, 1, 1, 99, true, true, true, 7, 9),
        Err(VaultError::NotTheOwner)
    );
    let mut p = UserVault::init_user_portfolio(addr(5));
    assert_eq!(
        p.update_user_liquidity_provider(addr(5), 3, 1, 1, 1, 99, true, true, true, 7, 9),
        Err(VaultError::WrongVaultType)
    );
}

#[test]
fn portfolio_bands() {
    let g = registry();
    let mut p = UserVault::init_user_portfolio(addr(5));
    assert_eq!(p.update_user_portfolio(addr(5), &g, 0, 5000, false, 0, 1000, 2), Ok(()));
    assert_eq!((p.vaults[0].min, p.vaults[0].mid, p.vaults[0].max), (4750, 5000, 5250));
    assert_eq!(p.update_user_portfolio(addr(5), &g, 1, 4000, true, 3, 2000, 4), Ok(()));
    assert_eq!((p.vaults[0].min, p.vaults[0].max), (4500, 5500));
    assert_eq!((p.vaults[1].min, p.vaults[1].max), (3600, 4400));
    assert_eq!(p.vaults[1].limit_price, 3);
    assert_eq!(p.vaults[2].max, u64::MAX);
    assert_eq!(
        p.update_user_portfolio(addr(5), &g, 0, 10001, false, 0, 1000, 2),
        Err(VaultError::ExceedsBasisPoints)
    );
    let mut lp = UserVault::init_user_liquidity_provider(addr(5));
    assert_eq!(
        lp.update_user_portfolio(addr(5), &g, 0, 5000, false, 0, 1000, 2),
        Err(VaultError::WrongVaultType)
    );
}
