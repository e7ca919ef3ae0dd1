//! Trades against a user's vault at oracle prices.
//!
//! A trader sells one token into the vault's slot for it and buys another out
//! of the slot that provides it. The price is the ratio of the two registry
//! prices, net of fees: fixed per slot for a liquidity provider, or derived
//! from each asset's distance to its target weight for a portfolio.
use vstd::prelude::*;
use crate::math::{checked_pow10, div_pow10, pow10, BASIS_POINTS};
use crate::registry::{Address, GlobalAccount, GlobalState, TokenData};
use crate::vault::{
    deposited, lemma_deposit_conserves, lemma_total_amount_update, lemma_withdraw_conserves,
    total_amount, withdrawn, UserCoinVault, UserVault, VaultType, VAULT_SLOTS,
};

verus! {

/// Largest rebalancing part of a dynamic fee, in basis points.
pub const MAX_DYNAMIC_FEE: u128 = 25;

/// Floor of a dynamic fee, in basis points.
pub const MIN_DYNAMIC_FEE: u128 = 5;

/// Why a swap was refused; nothing changes when it is.
#[derive(Debug, Clone, Copy, PartialEq, Eq, Structural)]
pub enum ErrorCode {
    /// The trader would receive less than the least amount asked for.
    InsufficientAmount,
    /// The providing slot holds less than the amount to send.
    VaultInsufficientAmount,
    /// The receiving slot would exceed its upper bound.
    ExceedsMaxAmount,
    /// The providing slot would fall below its lower bound.
    ExceedsMinAmount,
    /// The providing slot does not provide.
    VaultProvideOff,
    /// The receiving slot does not receive.
    VaultRecieveOff,
    /// The bought token's price is below the providing slot's limit price.
    PriceUnderLimitPrice,
    /// A position names no registered token, or another one.
    InvalidTokenPosition,
    /// Both sides of the trade are the same token.
    SameToken,
    /// The bought token has no price.
    InvalidPrice,
    /// A fixed fee beyond 10000 basis points.
    InvalidFee,
    /// The portfolio is worth nothing, so it has no weights.
    ZeroPortfolioValue,
    /// An intermediate value does not fit its integer type.
    ArithmeticOverflow,
}

/// The value of `amount` units at `price`, with `decimals` decimals.
pub open spec fn usd(price: u64, amount: u64, decimals: u8) -> int {
    (price * amount) / (pow10(decimals as nat) as int)
}

proof fn lemma_usd_nonneg(price: u64, amount: u64, decimals: u8)
    ensures
        usd(price, amount, decimals) >= 0,
{
    crate::math::lemma_pow10_positive(decimals as nat);
    assert(usd(price, amount, decimals) >= 0) by (nonlinear_arith)
        requires
            pow10(decimals as nat) >= 1,
    ;
}

/// The value of the slots below `k`, leaving out the two traded positions.
pub open spec fn others_value(
    prices: Seq<TokenData>,
    slots: Seq<UserCoinVault>,
    k: int,
    sell: int,
    buy: int,
) -> int
    decreases k,
{
    if k <= 0 {
        0
    } else {
        let i = k - 1;
        others_value(prices, slots, i, sell, buy) + if i == sell || i == buy {
            0
        } else {
            usd(prices[i].price, slots[i].amount, prices[i].decimals)
        }
    }
}

/// A value as a share of `total`, in basis points; `None` where the scaled
/// value overflows.
pub open spec fn weight(value: int, total: int) -> Option<u128> {
    if value * BASIS_POINTS > u128::MAX {
        None
    } else {
        Some((value * BASIS_POINTS / total) as u128)
    }
}

/// The dynamic fee of an asset at `weight` with target `mid`, in basis
/// points: `min/max · 25 + 5`, the ratio of the smaller weight to the larger
/// one taken in basis points. Two zero weights count as equal.
pub open spec fn rebalancing_fee(weight: int, mid: int) -> int {
    let lo = if weight <= mid {
        weight
    } else {
        mid
    };
    let hi = if weight <= mid {
        mid
    } else {
        weight
    };
    if hi == 0 {
        MAX_DYNAMIC_FEE + MIN_DYNAMIC_FEE
    } else {
        lo * BASIS_POINTS / hi * MAX_DYNAMIC_FEE / BASIS_POINTS as int + MIN_DYNAMIC_FEE
    }
}

/// What `sell_amount` of the sold token buys: the sold price net of its fee,
/// over the bought price grossed up by its fee, scaled between the two
/// tokens' decimals. `None` where an intermediate value overflows a `u128`.
pub open spec fn receive_quote(
    sell_price: u64,
    sell_fee: int,
    sell_decimals: u8,
    buy_price: u64,
    buy_fee: int,
    buy_decimals: u8,
    sell_amount: u64,
) -> Option<u128> {
    let net_sell = sell_price * (BASIS_POINTS - sell_fee) / BASIS_POINTS as int;
    let scaled = net_sell * pow10(buy_decimals as nat);
    let gross_buy = buy_price * (BASIS_POINTS + buy_fee) / BASIS_POINTS as int;
    if scaled > u128::MAX {
        None
    } else {
        let out = sell_amount * (scaled / gross_buy);
        if out > u128::MAX {
            None
        } else {
            Some((out / pow10(sell_decimals as nat) as int) as u128)
        }
    }
}

/// How many positions hold both a price and a vault slot.
pub open spec fn counted_positions(registry: Seq<Address>, prices: Seq<TokenData>) -> int {
    let a = if registry.len() <= prices.len() {
        registry.len() as int
    } else {
        prices.len() as int
    };
    if a <= VAULT_SLOTS {
        a
    } else {
        VAULT_SLOTS as int
    }
}

pub open spec fn valid_position(
    registry: Seq<Address>,
    prices: Seq<TokenData>,
    position: u8,
    mint: Address,
) -> bool {
    &&& position < VAULT_SLOTS
    &&& position < registry.len()
    &&& position < prices.len()
    &&& registry[position as int] == mint
    &&& prices[position as int].mint == mint
}

/// The buy-side and sell-side fees of a trade, in basis points.
pub open spec fn trade_fees(
    vault_type: VaultType,
    slots: Seq<UserCoinVault>,
    prices: Seq<TokenData>,
    n: int,
    sell: int,
    buy: int,
) -> Result<(int, int), ErrorCode> {
    match vault_type {
        VaultType::PortfolioManager { auto_fee: true, .. } => {
            let others = others_value(prices, slots, n, sell, buy);
            let buy_usd = usd(prices[buy].price, slots[buy].amount, prices[buy].decimals);
            let sell_usd = usd(prices[sell].price, slots[sell].amount, prices[sell].decimals);
            let total = others + buy_usd + sell_usd;
            if total > u128::MAX {
                Err(ErrorCode::ArithmeticOverflow)
            } else if total == 0 {
                Err(ErrorCode::ZeroPortfolioValue)
            } else {
                match (weight(buy_usd, total), weight(sell_usd, total)) {
                    (Some(wb), Some(ws)) => Ok(
                        (
                            rebalancing_fee(wb as int, slots[buy].mid as int),
                            rebalancing_fee(ws as int, slots[sell].mid as int),
                        ),
                    ),
                    _ => Err(ErrorCode::ArithmeticOverflow),
                }
            }
        },
        _ => if slots[sell].buy_fee > BASIS_POINTS || slots[buy].sell_fee > BASIS_POINTS {
            Err(ErrorCode::InvalidFee)
        } else {
            Ok((slots[sell].buy_fee as int, slots[buy].sell_fee as int))
        },
    }
}

/// Whether the slots stay within their bounds after the trade.
pub open spec fn bounds_check(
    vault_type: VaultType,
    slots: Seq<UserCoinVault>,
    prices: Seq<TokenData>,
    n: int,
    sell: int,
    buy: int,
    sell_amount: u64,
    receive: u64,
) -> Result<(), ErrorCode> {
    let s = slots[sell];
    let b = slots[buy];
    match vault_type {
        VaultType::LiquidityProvider => if b.amount - receive < b.min {
            Err(ErrorCode::ExceedsMinAmount)
        } else if s.amount + sell_amount > s.max {
            Err(ErrorCode::ExceedsMaxAmount)
        } else {
            Ok(())
        },
        VaultType::PortfolioManager { .. } => {
            let others = others_value(prices, slots, n, sell, buy);
            let end_buy = usd(prices[buy].price, (b.amount - receive) as u64, prices[buy].decimals);
            let end_sell = usd(
                prices[sell].price,
                (s.amount + sell_amount) as u64,
                prices[sell].decimals,
            );
            let end_total = others + end_buy + end_sell;
            if end_total > u128::MAX {
                Err(ErrorCode::ArithmeticOverflow)
            } else if end_total == 0 {
                Err(ErrorCode::ZeroPortfolioValue)
            } else {
                match (weight(end_buy, end_total), weight(end_sell, end_total)) {
                    (Some(wb), Some(ws)) => if wb < b.min {
                        Err(ErrorCode::ExceedsMinAmount)
                    } else if ws > s.max {
                        Err(ErrorCode::ExceedsMaxAmount)
                    } else {
                        Ok(())
                    },
                    _ => Err(ErrorCode::ArithmeticOverflow),
                }
            }
        },
    }
}

/// The amount a trade sends to the trader, or why it is refused.
pub open spec fn swap_outcome(
    vault_type: VaultType,
    slots: Seq<UserCoinVault>,
    registry: Seq<Address>,
    prices: Seq<TokenData>,
    sell_position: u8,
    buy_position: u8,
    sell_mint: Address,
    buy_mint: Address,
    sell_amount: u64,
    min_receive: u64,
) -> Result<u64, ErrorCode> {
    let n = counted_positions(registry, prices);
    let (sell, buy) = (sell_position as int, buy_position as int);
    if sell_mint == buy_mint {
        Err(ErrorCode::SameToken)
    } else if !valid_position(registry, prices, sell_position, sell_mint) || !valid_position(
        registry,
        prices,
        buy_position,
        buy_mint,
    ) {
        Err(ErrorCode::InvalidTokenPosition)
    } else if !slots[buy].provide_status {
        Err(ErrorCode::VaultProvideOff)
    } else if !slots[sell].receive_status {
        Err(ErrorCode::VaultRecieveOff)
    } else if slots[buy].limit_price_status && prices[buy].price < slots[buy].limit_price {
        Err(ErrorCode::PriceUnderLimitPrice)
    } else {
        match trade_fees(vault_type, slots, prices, n, sell, buy) {
            Err(e) => Err(e),
            Ok((buy_fee, sell_fee)) => if prices[buy].price == 0 {
                Err(ErrorCode::InvalidPrice)
            } else {
                match receive_quote(
                    prices[sell].price,
                    sell_fee,
                    prices[sell].decimals,
                    prices[buy].price,
                    buy_fee,
                    prices[buy].decimals,
                    sell_amount,
                ) {
                    None => Err(ErrorCode::ArithmeticOverflow),
                    Some(receive) => if receive > u64::MAX {
                        Err(ErrorCode::ArithmeticOverflow)
                    } else if receive < min_receive {
                        Err(ErrorCode::InsufficientAmount)
                    } else if slots[buy].amount < receive {
                        Err(ErrorCode::VaultInsufficientAmount)
                    } else if slots[sell].amount + sell_amount > u64::MAX {
                        Err(ErrorCode::ArithmeticOverflow)
                    } else {
                        match bounds_check(
                            vault_type,
                            slots,
                            prices,
                            n,
                            sell,
                            buy,
                            sell_amount,
                            receive as u64,
                        ) {
                            Err(e) => Err(e),
                            Ok(_) => Ok(receive as u64),
                        }
                    },
                }
            },
        }
    }
}

/// The slots after a trade: the sold token credited to its slot, the bought
/// one debited from its slot and that slot stamped with `now`.
pub open spec fn settled(
    slots: Seq<UserCoinVault>,
    sell: int,
    buy: int,
    sell_amount: u64,
    receive: u64,
    now: u32,
) -> Seq<UserCoinVault> {
    let credited = slots.update(
        sell,
        UserCoinVault { amount: (slots[sell].amount + sell_amount) as u64, ..slots[sell] },
    );
    credited.update(
        buy,
        UserCoinVault { amount: (credited[buy].amount - receive) as u64, timestamp: now, ..credited[buy] },
    )
}

/// A trade credits exactly what is sold and debits exactly what is sent.
pub proof fn lemma_swap_conserves(
    slots: Seq<UserCoinVault>,
    sell: int,
    buy: int,
    sell_amount: u64,
    receive: u64,
    now: u32,
)
    requires
        0 <= sell < slots.len(),
        0 <= buy < slots.len(),
        sell != buy,
        slots[sell].amount + sell_amount <= u64::MAX,
        receive <= slots[buy].amount,
    ensures
        total_amount(settled(slots, sell, buy, sell_amount, receive, now)) == total_amount(slots)
            + sell_amount - receive,
{
    let credited = slots.update(
        sell,
        UserCoinVault { amount: (slots[sell].amount + sell_amount) as u64, ..slots[sell] },
    );
    lemma_total_amount_update(
        slots,
        sell,
        UserCoinVault { amount: (slots[sell].amount + sell_amount) as u64, ..slots[sell] },
    );
    lemma_total_amount_update(
        credited,
        buy,
        UserCoinVault { amount: (credited[buy].amount - receive) as u64, timestamp: now, ..credited[buy] },
    );
}

/// One balance movement on a vault's slots, as the vault operations make
/// them.
pub enum Movement {
    Deposit { position: int, amount: u64, now: u32 },
    Withdraw { position: int, amount: u64 },
    Trade { sell: int, buy: int, sell_amount: u64, receive: u64, now: u32 },
}

/// Whether a movement can be made on these slots: its positions exist, a
/// credit does not overflow and a debit does not exceed the balance.
pub open spec fn admissible(slots: Seq<UserCoinVault>, m: Movement) -> bool {
    match m {
        Movement::Deposit { position, amount, .. } => 0 <= position < slots.len()
            && slots[position].amount + amount <= u64::MAX,
        Movement::Withdraw { position, amount } => 0 <= position < slots.len() && amount
            <= slots[position].amount,
        Movement::Trade { sell, buy, sell_amount, receive, .. } => 0 <= sell < slots.len() && 0
            <= buy < slots.len() && sell != buy && slots[sell].amount + sell_amount <= u64::MAX
            && receive <= slots[buy].amount,
    }
}

/// The slots after a movement, and what it added to their total; a movement
/// that cannot be made is refused and changes nothing.
pub open spec fn moved(slots: Seq<UserCoinVault>, m: Movement) -> (Seq<UserCoinVault>, int) {
    if !admissible(slots, m) {
        (slots, 0)
    } else {
        match m {
            Movement::Deposit { position, amount, now } => (
                deposited(slots, position, amount, now),
                amount as int,
            ),
            Movement::Withdraw { position, amount } => (
                withdrawn(slots, position, amount),
                -amount,
            ),
            Movement::Trade { sell, buy, sell_amount, receive, now } => (
                settled(slots, sell, buy, sell_amount, receive, now),
                sell_amount - receive,
            ),
        }
    }
}

/// The slots after a series of movements, and the credits less the debits
/// of those that were made.
pub open spec fn replay(slots: Seq<UserCoinVault>, ms: Seq<Movement>) -> (Seq<UserCoinVault>, int)
    decreases ms.len(),
{
    if ms.len() == 0 {
        (slots, 0)
    } else {
        let (before, net) = replay(slots, ms.drop_last());
        let (after, change) = moved(before, ms.last());
        (after, net + change)
    }
}

/// Balances are conserved: after any series of deposits, withdrawals and
/// trades, the total held is the total before plus the credits less the
/// debits; no balance ever goes below zero, since a debit beyond a balance
/// is refused.
pub proof fn lemma_balances_conserved(slots: Seq<UserCoinVault>, ms: Seq<Movement>)
    ensures
        total_amount(replay(slots, ms).0) == total_amount(slots) + replay(slots, ms).1,
        replay(slots, ms).0.len() == slots.len(),
    decreases ms.len(),
{
    if ms.len() > 0 {
        lemma_balances_conserved(slots, ms.drop_last());
        let before = replay(slots, ms.drop_last()).0;
        let m = ms.last();
        if admissible(before, m) {
            match m {
                Movement::Deposit { position, amount, now } => {
                    lemma_deposit_conserves(before, position, amount, now);
                },
                Movement::Withdraw { position, amount } => {
                    lemma_withdraw_conserves(before, position, amount);
                },
                Movement::Trade { sell, buy, sell_amount, receive, now } => {
                    lemma_swap_conserves(before, sell, buy, sell_amount, receive, now);
                },
            }
        }
    }
}

/// The value of `amount` units at `price` with `decimals` decimals.
pub fn usd_value(price: u64, amount: u64, decimals: u8) -> (r: u128)
    ensures
        r == usd(price, amount, decimals),
{
    assert(price * amount <= u128::MAX) by (nonlinear_arith)
        requires
            price <= u64::MAX,
            amount <= u64::MAX,
    ;
    div_pow10(price as u128 * amount as u128, decimals as u32)
}

proof fn lemma_others_value_monotonic(
    prices: Seq<TokenData>,
    slots: Seq<UserCoinVault>,
    j: int,
    k: int,
    sell: int,
    buy: int,
)
    requires
        0 <= j <= k,
    ensures
        0 <= others_value(prices, slots, j, sell, buy) <= others_value(prices, slots, k, sell, buy),
    decreases k,
{
    if k > 0 {
        let i = k - 1;
        if j < k {
            lemma_others_value_monotonic(prices, slots, j, i, sell, buy);
        } else {
            lemma_others_value_monotonic(prices, slots, i, i, sell, buy);
        }
        if i != sell && i != buy {
            crate::math::lemma_pow10_positive(prices[i].decimals as nat);
            assert(usd(prices[i].price, slots[i].amount, prices[i].decimals) >= 0) by (
            nonlinear_arith)
                requires
                    pow10(prices[i].decimals as nat) >= 1,
            ;
        }
    }
}

/// The value of the first `n` slots other than the two traded ones; `None`
/// where it exceeds a `u128`.
fn others_value_of(
    prices: &Vec<TokenData>,
    slots: &Vec<UserCoinVault>,
    n: usize,
    sell: usize,
    buy: usize,
) -> (r: Option<u128>)
    requires
        n <= prices.len(),
        n <= slots.len(),
    ensures
        others_value(prices@, slots@, n as int, sell as int, buy as int) > u128::MAX ==> r is None,
        others_value(prices@, slots@, n as int, sell as int, buy as int) <= u128::MAX ==> r == Some(
            others_value(prices@, slots@, n as int, sell as int, buy as int) as u128,
        ),
{
    let mut total: u128 = 0;
    let mut i: usize = 0;
    while i < n
        invariant
            n <= prices.len(),
            n <= slots.len(),
            i <= n,
            total == others_value(prices@, slots@, i as int, sell as int, buy as int),
        decreases n - i,
    {
        if i != sell && i != buy {
            let v = usd_value(prices[i].price, slots[i].amount, prices[i].decimals);
            match total.checked_add(v) {
                Some(t) => {
                    total = t;
                },
                None => {
                    proof {
                        lemma_others_value_monotonic(
                            prices@,
                            slots@,
                            i + 1,
                            n as int,
                            sell as int,
                            buy as int,
                        );
                    }
                    return None;
                },
            }
        }
        i = i + 1;
    }
    Some(total)
}

/// `value` as a share of `total` in basis points.
fn share(value: u128, total: u128) -> (r: Option<u128>)
    requires
        total > 0,
    ensures
        r == weight(value as int, total as int),
{
    match value.checked_mul(BASIS_POINTS as u128) {
        None => None,
        Some(scaled) => Some(scaled / total),
    }
}

/// The dynamic fee of an asset at `weight` with target `mid`.
pub fn dynamic_fee(weight: u128, mid: u64) -> (r: u128)
    requires
        weight <= BASIS_POINTS,
        mid <= BASIS_POINTS,
    ensures
        r == rebalancing_fee(weight as int, mid as int),
        MIN_DYNAMIC_FEE <= r <= MAX_DYNAMIC_FEE + MIN_DYNAMIC_FEE,
{
    let m = mid as u128;
    let (lo, hi) = if weight <= m {
        (weight, m)
    } else {
        (m, weight)
    };
    if hi == 0 {
        return MAX_DYNAMIC_FEE + MIN_DYNAMIC_FEE;
    }
    assert(lo * BASIS_POINTS / (hi as int) <= BASIS_POINTS) by (nonlinear_arith)
        requires
            lo <= hi,
            hi > 0,
    ;
    let ratio = lo * BASIS_POINTS as u128 / hi;
    assert(ratio * MAX_DYNAMIC_FEE / (BASIS_POINTS as int) <= MAX_DYNAMIC_FEE) by (nonlinear_arith)
        requires
            ratio <= BASIS_POINTS,
    ;
    ratio * MAX_DYNAMIC_FEE / BASIS_POINTS as u128 + MIN_DYNAMIC_FEE
}

/// What `sell_amount` of the sold token buys, net of both fees.
pub fn receive_amount(
    sell_price: u64,
    sell_fee: u128,
    sell_decimals: u8,
    buy_price: u64,
    buy_fee: u128,
    buy_decimals: u8,
    sell_amount: u64,
) -> (r: Option<u128>)
    requires
        sell_fee <= BASIS_POINTS,
        buy_fee <= BASIS_POINTS,
        buy_price > 0,
    ensures
        r == receive_quote(
            sell_price,
            sell_fee as int,
            sell_decimals,
            buy_price,
            buy_fee as int,
            buy_decimals,
            sell_amount,
        ),
{
    let bp = BASIS_POINTS as u128;
    assert(sell_price * (BASIS_POINTS - sell_fee) <= u64::MAX * BASIS_POINTS) by (nonlinear_arith)
        requires
            sell_fee <= BASIS_POINTS,
    ;
    let net_sell = sell_price as u128 * (bp - sell_fee) / bp;
    let scaled = match checked_pow10(buy_decimals as u32) {
        Some(p) => match net_sell.checked_mul(p) {
            Some(s) => s,
            None => {
                return None;
            },
        },
        None => {
            if net_sell == 0 {
                assert(net_sell * pow10(buy_decimals as nat) == 0) by (nonlinear_arith)
                    requires
                        net_sell == 0,
                ;
                0
            } else {
                assert(net_sell * pow10(buy_decimals as nat) >= pow10(buy_decimals as nat)) by (
                nonlinear_arith)
                    requires
                        net_sell >= 1,
                ;
                return None;
            }
        },
    };
    assert(buy_price * (BASIS_POINTS + buy_fee) <= u64::MAX * (2 * BASIS_POINTS)) by (
    nonlinear_arith)
        requires
            buy_fee <= BASIS_POINTS,
    ;
    assert(buy_price * (BASIS_POINTS + buy_fee) / (BASIS_POINTS as int) >= 1) by (nonlinear_arith)
        requires
            buy_price >= 1,
    ;
    let gross_buy = buy_price as u128 * (bp + buy_fee) / bp;
    let effective = scaled / gross_buy;
    match (sell_amount as u128).checked_mul(effective) {
        None => None,
        Some(out) => Some(div_pow10(out, sell_decimals as u32)),
    }
}

/// The buy-side and sell-side fees of a trade against `user_vault`.
fn fees_of(
    user_vault: &UserVault,
    prices: &Vec<TokenData>,
    others: Option<u128>,
    n: usize,
    sell: usize,
    buy: usize,
) -> (r: Result<(u128, u128), ErrorCode>)
    requires
        user_vault.wf(),
        n <= prices.len(),
        n <= VAULT_SLOTS,
        sell < n,
        buy < n,
        others_value(prices@, user_vault.vaults@, n as int, sell as int, buy as int) > u128::MAX
            ==> others is None,
        others_value(prices@, user_vault.vaults@, n as int, sell as int, buy as int) <= u128::MAX
            ==> others == Some(
            others_value(prices@, user_vault.vaults@, n as int, sell as int, buy as int) as u128,
        ),
    ensures
        match trade_fees(user_vault.vault_type, user_vault.vaults@, prices@, n as int, sell as int, buy as int) {
            Ok((b, s)) => r == Ok::<(u128, u128), ErrorCode>((b as u128, s as u128)),
            Err(e) => r == Err::<(u128, u128), ErrorCode>(e),
        },
        r matches Ok((b, s)) ==> b <= BASIS_POINTS && s <= BASIS_POINTS,
{
    let ghost slots = user_vault.vaults@;
    proof {
        lemma_others_value_monotonic(prices@, slots, 0, n as int, sell as int, buy as int);
    }
    let s = user_vault.vaults[sell];
    let b = user_vault.vaults[buy];
    let auto_fee = match user_vault.vault_type {
        VaultType::PortfolioManager { auto_fee, .. } => auto_fee,
        VaultType::LiquidityProvider => false,
    };
    if !auto_fee {
        if s.buy_fee as u64 > BASIS_POINTS || b.sell_fee as u64 > BASIS_POINTS {
            return Err(ErrorCode::InvalidFee);
        }
        return Ok((s.buy_fee as u128, b.sell_fee as u128));
    }
    proof {
        lemma_usd_nonneg(prices@[buy as int].price, b.amount, prices@[buy as int].decimals);
        lemma_usd_nonneg(prices@[sell as int].price, s.amount, prices@[sell as int].decimals);
    }
    let others = match others {
        Some(o) => o,
        None => {
            return Err(ErrorCode::ArithmeticOverflow);
        },
    };
    let buy_usd = usd_value(prices[buy].price, b.amount, prices[buy].decimals);
    let sell_usd = usd_value(prices[sell].price, s.amount, prices[sell].decimals);
    let total = match others.checked_add(buy_usd) {
        Some(t) => match t.checked_add(sell_usd) {
            Some(t2) => t2,
            None => {
                return Err(ErrorCode::ArithmeticOverflow);
            },
        },
        None => {
            return Err(ErrorCode::ArithmeticOverflow);
        },
    };
    if total == 0 {
        return Err(ErrorCode::ZeroPortfolioValue);
    }
    match (share(buy_usd, total), share(sell_usd, total)) {
        (Some(wb), Some(ws)) => {
            assert(wb <= BASIS_POINTS) by (nonlinear_arith)
                requires
                    wb == buy_usd * BASIS_POINTS / (total as int),
                    buy_usd <= total,
                    total > 0,
            ;
            assert(ws <= BASIS_POINTS) by (nonlinear_arith)
                requires
                    ws == sell_usd * BASIS_POINTS / (total as int),
                    sell_usd <= total,
                    total > 0,
            ;
            Ok((dynamic_fee(wb, b.mid), dynamic_fee(ws, s.mid)))
        },
        _ => Err(ErrorCode::ArithmeticOverflow),
    }
}

/// Checks the bounds of both slots after the trade.
fn check_bounds(
    user_vault: &UserVault,
    prices: &Vec<TokenData>,
    others: Option<u128>,
    n: usize,
    sell: usize,
    buy: usize,
    sell_amount: u64,
    receive: u64,
) -> (r: Result<(), ErrorCode>)
    requires
        user_vault.wf(),
        n <= prices.len(),
        n <= VAULT_SLOTS,
        sell < n,
        buy < n,
        receive <= user_vault.vaults@[buy as int].amount,
        user_vault.vaults@[sell as int].amount + sell_amount <= u64::MAX,
        others_value(prices@, user_vault.vaults@, n as int, sell as int, buy as int) > u128::MAX
            ==> others is None,
        others_value(prices@, user_vault.vaults@, n as int, sell as int, buy as int) <= u128::MAX
            ==> others == Some(
            others_value(prices@, user_vault.vaults@, n as int, sell as int, buy as int) as u128,
        ),
    ensures
        r == bounds_check(
            user_vault.vault_type,
            user_vault.vaults@,
            prices@,
            n as int,
            sell as int,
            buy as int,
            sell_amount,
            receive,
        ),
{
    let ghost slots = user_vault.vaults@;
    proof {
        lemma_others_value_monotonic(prices@, slots, 0, n as int, sell as int, buy as int);
    }
    let s = user_vault.vaults[sell];
    let b = user_vault.vaults[buy];
    let credited = s.amount + sell_amount;
    let debited = b.amount - receive;
    match user_vault.vault_type {
        VaultType::LiquidityProvider => {
            if debited < b.min {
                return Err(ErrorCode::ExceedsMinAmount);
            }
            if credited > s.max {
                return Err(ErrorCode::ExceedsMaxAmount);
            }
            Ok(())
        },
        VaultType::PortfolioManager { .. } => {
            proof {
                lemma_usd_nonneg(prices@[buy as int].price, debited, prices@[buy as int].decimals);
                lemma_usd_nonneg(prices@[sell as int].price, credited, prices@[sell as int].decimals);
            }
            let others = match others {
                Some(o) => o,
                None => {
                    return Err(ErrorCode::ArithmeticOverflow);
                },
            };
            let end_buy = usd_value(prices[buy].price, debited, prices[buy].decimals);
            let end_sell = usd_value(prices[sell].price, credited, prices[sell].decimals);
            let end_total = match others.checked_add(end_buy) {
                Some(t) => match t.checked_add(end_sell) {
                    Some(t2) => t2,
                    None => {
                        return Err(ErrorCode::ArithmeticOverflow);
                    },
                },
                None => {
                    return Err(ErrorCode::ArithmeticOverflow);
                },
            };
            if end_total == 0 {
                return Err(ErrorCode::ZeroPortfolioValue);
            }
            match (share(end_buy, end_total), share(end_sell, end_total)) {
                (Some(wb), Some(ws)) => {
                    if wb < b.min as u128 {
                        return Err(ErrorCode::ExceedsMinAmount);
                    }
                    if ws > s.max as u128 {
                        return Err(ErrorCode::ExceedsMaxAmount);
                    }
                    Ok(())
                },
                _ => Err(ErrorCode::ArithmeticOverflow),
            }
        },
    }
}

/// Trades `sell_amount` of the token at `sell_position` for the token at
/// `buy_position` against `user_vault`, at the prices of `prices`: the vault
/// receives what is sold into its slot for it and sends the bought token out
/// of the other slot. Returns the amount sent; the token transfers go with
/// it. On any refusal nothing changes.
pub fn swap(
    user_vault: &mut UserVault,
    registry: &GlobalState,
    prices: &GlobalAccount,
    sell_position: u8,
    buy_position: u8,
    sell_mint: Address,
    buy_mint: Address,
    sell_amount: u64,
    min_receive: u64,
    now: u32,
) -> (r: Result<u64, ErrorCode>)
    requires
        old(user_vault).wf(),
    ensures
        final(user_vault).wf(),
        final(user_vault).user == old(user_vault).user,
        final(user_vault).vault_type == old(user_vault).vault_type,
        r == swap_outcome(
            old(user_vault).vault_type,
            old(user_vault).vaults@,
            registry.tokens@,
            prices.tokens@,
            sell_position,
            buy_position,
            sell_mint,
            buy_mint,
            sell_amount,
            min_receive,
        ),
        r is Err ==> final(user_vault).vaults@ == old(user_vault).vaults@,
        r matches Ok(receive) ==> final(user_vault).vaults@ == settled(
            old(user_vault).vaults@,
            sell_position as int,
            buy_position as int,
            sell_amount,
            receive,
            now,
        ),
{
    if sell_mint == buy_mint {
        return Err(ErrorCode::SameToken);
    }
    let sell = sell_position as usize;
    let buy = buy_position as usize;
    if !(sell < VAULT_SLOTS && buy < VAULT_SLOTS && registry.check_token_position(
        sell_mint,
        sell_position,
    ).is_ok() && registry.check_token_position(buy_mint, buy_position).is_ok()
        && prices.check_token_position(sell_mint, sell_position).is_ok()
        && prices.check_token_position(buy_mint, buy_position).is_ok()) {
        return Err(ErrorCode::InvalidTokenPosition);
    }
    let s = user_vault.vaults[sell];
    let b = user_vault.vaults[buy];
    let sell_price = prices.tokens[sell].price;
    let sell_decimals = prices.tokens[sell].decimals;
    let buy_price = prices.tokens[buy].price;
    let buy_decimals = prices.tokens[buy].decimals;
    if !b.provide_status {
        return Err(ErrorCode::VaultProvideOff);
    }
    if !s.receive_status {
        return Err(ErrorCode::VaultRecieveOff);
    }
    if b.limit_price_status && buy_price < b.limit_price {
        return Err(ErrorCode::PriceUnderLimitPrice);
    }
    let n = if registry.tokens.len() <= prices.tokens.len() {
        registry.tokens.len()
    } else {
        prices.tokens.len()
    };
    let n = if n <= VAULT_SLOTS {
        n
    } else {
        VAULT_SLOTS
    };
    let others = others_value_of(&prices.tokens, &user_vault.vaults, n, sell, buy);
    let (buy_fee, sell_fee) = match fees_of(user_vault, &prices.tokens, others, n, sell, buy) {
        Ok(f) => f,
        Err(e) => {
            return Err(e);
        },
    };
    if buy_price == 0 {
        return Err(ErrorCode::InvalidPrice);
    }
    let receive = match receive_amount(
        sell_price,
        sell_fee,
        sell_decimals,
        buy_price,
        buy_fee,
        buy_decimals,
        sell_amount,
    ) {
        None => {
            return Err(ErrorCode::ArithmeticOverflow);
        },
        Some(v) => v,
    };
    if receive > u64::MAX as u128 {
        return Err(ErrorCode::ArithmeticOverflow);
    }
    let receive = receive as u64;
    if receive < min_receive {
        return Err(ErrorCode::InsufficientAmount);
    }
    if b.amount < receive {
        return Err(ErrorCode::VaultInsufficientAmount);
    }
    let credited = match s.amount.checked_add(sell_amount) {
        Some(c) => c,
        None => {
            return Err(ErrorCode::ArithmeticOverflow);
        },
    };
    match check_bounds(user_vault, &prices.tokens, others, n, sell, buy, sell_amount, receive) {
        Ok(_) => {},
        Err(e) => {
            return Err(e);
        },
    }
    let debited = b.amount - receive;
    user_vault.vaults.set(sell, UserCoinVault { amount: credited, ..s });
    user_vault.vaults.set(buy, UserCoinVault { amount: debited, timestamp: now, ..b });
    Ok(receive)
}

} // verus!
