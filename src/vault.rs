//! Per-user balance records: one slot per registry position, each with its
//! balance, bounds and fee settings.
use vstd::prelude::*;
use crate::math::BASIS_POINTS;
use crate::registry::{Address, GlobalState};

verus! {

/// Slots in every user vault, one per registry position.
pub const VAULT_SLOTS: usize = 50;

/// Fee of a fresh slot, in basis points.
pub const DEFAULT_FEE: u16 = 10;

/// Tolerance of a fresh portfolio, in basis points.
pub const DEFAULT_TOLERANCE: u16 = 1000;

/// Why a vault operation was refused.
#[derive(Debug, Clone, Copy, PartialEq, Eq, Structural)]
pub enum VaultError {
    /// The caller does not own the vault.
    NotTheOwner,
    /// The position names no registered token, or another one.
    InvalidTokenPosition,
    /// The depositor's account holds less than the amount.
    InsufficientFunds,
    /// The vault holds less than the amount to withdraw.
    VaultInsufficientFunds,
    /// The balance would exceed `u64::MAX`.
    ArithmeticOverflow,
    /// A fee, weight or tolerance beyond 10000 basis points.
    ExceedsBasisPoints,
    /// The operation belongs to the other kind of vault.
    WrongVaultType,
}

/// How a vault prices its trades.
#[derive(Debug, Clone, Copy, PartialEq, Eq, Structural)]
pub enum VaultType {
    /// Fees follow each asset's distance from its target weight.
    PortfolioManager { auto_fee: bool, tolerance: u16 },
    /// Fixed fees per slot, set by the owner.
    LiquidityProvider,
}

impl Default for VaultType {
    fn default() -> (r: VaultType)
        ensures
            r == VaultType::LiquidityProvider,
    {
        VaultType::LiquidityProvider
    }
}

/// One slot of a user vault.
#[derive(Debug, Clone, Copy, PartialEq, Eq, Structural)]
pub struct UserCoinVault {
    /// Balance held for the user, in the token's smallest unit.
    pub amount: u64,
    /// Lower bound: a token amount for a liquidity provider, a weight in
    /// basis points for a portfolio.
    pub min: u64,
    /// Target weight in basis points; portfolios only.
    pub mid: u64,
    /// Upper bound, read as `min` is.
    pub max: u64,
    pub buy_fee: u16,
    pub sell_fee: u16,
    pub timestamp: u32,
    /// Whether the slot may receive the token that a trader sells.
    pub receive_status: bool,
    /// Whether the slot may provide the token that a trader buys.
    pub provide_status: bool,
    pub limit_price_status: bool,
    /// Lowest price at which the slot provides its token.
    pub limit_price: u64,
}

/// A user's vault: one slot per registry position.
#[derive(Debug, Clone)]
pub struct UserVault {
    pub user: Address,
    pub vault_type: VaultType,
    pub vaults: Vec<UserCoinVault>,
}

/// Sum of the balances of all slots.
pub open spec fn total_amount(slots: Seq<UserCoinVault>) -> int
    decreases slots.len(),
{
    if slots.len() == 0 {
        0
    } else {
        total_amount(slots.drop_last()) + slots.last().amount
    }
}

/// Changing one slot changes the total by the change of its balance.
pub proof fn lemma_total_amount_update(slots: Seq<UserCoinVault>, i: int, v: UserCoinVault)
    requires
        0 <= i < slots.len(),
    ensures
        total_amount(slots.update(i, v)) == total_amount(slots) - slots[i].amount + v.amount,
    decreases slots.len(),
{
    let u = slots.update(i, v);
    if i == slots.len() - 1 {
        assert(u.drop_last() =~= slots.drop_last());
    } else {
        assert(u.drop_last() =~= slots.drop_last().update(i, v));
        lemma_total_amount_update(slots.drop_last(), i, v);
    }
}

/// A fresh slot.
pub open spec fn fresh_slot(portfolio: bool) -> UserCoinVault {
    UserCoinVault {
        amount: 0,
        min: 0,
        mid: 0,
        max: u64::MAX,
        buy_fee: DEFAULT_FEE,
        sell_fee: DEFAULT_FEE,
        timestamp: 0,
        receive_status: portfolio,
        provide_status: portfolio,
        limit_price_status: false,
        limit_price: 0,
    }
}

/// The band around a target weight: `mid ± mid·tolerance/2`, in basis points.
pub open spec fn band_max(mid: u64, tolerance: u16) -> u64 {
    (mid + mid * tolerance / (BASIS_POINTS as int) / 2) as u64
}

pub open spec fn band_min(mid: u64, tolerance: u16) -> u64 {
    (mid - mid * tolerance / (BASIS_POINTS as int) / 2) as u64
}

/// The slots after `amount` is credited to `position` at time `now`.
pub open spec fn deposited(slots: Seq<UserCoinVault>, position: int, amount: u64, now: u32) -> Seq<
    UserCoinVault,
> {
    slots.update(
        position,
        UserCoinVault { amount: (slots[position].amount + amount) as u64, timestamp: now, ..slots[position] },
    )
}

/// The slots after `amount` is debited from `position`.
pub open spec fn withdrawn(slots: Seq<UserCoinVault>, position: int, amount: u64) -> Seq<
    UserCoinVault,
> {
    slots.update(position, UserCoinVault { amount: (slots[position].amount - amount) as u64, ..slots[position] })
}

/// A deposit adds exactly its amount to the vault's total balance.
pub proof fn lemma_deposit_conserves(slots: Seq<UserCoinVault>, position: int, amount: u64, now: u32)
    requires
        0 <= position < slots.len(),
        slots[position].amount + amount <= u64::MAX,
    ensures
        total_amount(deposited(slots, position, amount, now)) == total_amount(slots) + amount,
{
    lemma_total_amount_update(
        slots,
        position,
        UserCoinVault { amount: (slots[position].amount + amount) as u64, timestamp: now, ..slots[position] },
    );
}

/// A withdrawal takes exactly its amount from the vault's total balance.
pub proof fn lemma_withdraw_conserves(slots: Seq<UserCoinVault>, position: int, amount: u64)
    requires
        0 <= position < slots.len(),
        amount <= slots[position].amount,
    ensures
        total_amount(withdrawn(slots, position, amount)) == total_amount(slots) - amount,
{
    lemma_total_amount_update(
        slots,
        position,
        UserCoinVault { amount: (slots[position].amount - amount) as u64, ..slots[position] },
    );
}

impl UserVault {
    pub open spec fn wf(&self) -> bool {
        &&& self.vaults.len() == VAULT_SLOTS
        &&& forall|i: int| 0 <= i < self.vaults.len() ==> (#[trigger] self.vaults@[i]).mid <= BASIS_POINTS
    }

    /// Whether the vault is well formed: one slot per position, each target
    /// weight within 10000 basis points.
    pub fn well_formed(&self) -> (r: bool)
        ensures
            r == self.wf(),
    {
        if self.vaults.len() != VAULT_SLOTS {
            return false;
        }
        let mut i: usize = 0;
        while i < self.vaults.len()
            invariant
                i <= self.vaults.len(),
                forall|k: int| 0 <= k < i ==> (#[trigger] self.vaults@[k]).mid <= BASIS_POINTS,
            decreases self.vaults.len() - i,
        {
            if self.vaults[i].mid > BASIS_POINTS {
                return false;
            }
            i = i + 1;
        }
        true
    }

    fn fresh(user: Address, vault_type: VaultType, portfolio: bool) -> (r: UserVault)
        ensures
            r.wf(),
            r.user == user,
            r.vault_type == vault_type,
            forall|i: int| 0 <= i < VAULT_SLOTS ==> r.vaults@[i] == fresh_slot(portfolio),
    {
        let slot = UserCoinVault {
            amount: 0,
            min: 0,
            mid: 0,
            max: u64::MAX,
            buy_fee: DEFAULT_FEE,
            sell_fee: DEFAULT_FEE,
            timestamp: 0,
            receive_status: portfolio,
            provide_status: portfolio,
            limit_price_status: false,
            limit_price: 0,
        };
        let mut vaults: Vec<UserCoinVault> = Vec::new();
        let mut i: usize = 0;
        while i < VAULT_SLOTS
            invariant
                i <= VAULT_SLOTS,
                vaults.len() == i,
                forall|k: int| 0 <= k < i ==> vaults@[k] == slot,
            decreases VAULT_SLOTS - i,
        {
            vaults.push(slot);
            i = i + 1;
        }
        UserVault { user, vault_type, vaults }
    }

    /// A liquidity provider's vault: fixed fees, every slot closed to trades
    /// until its owner opens it.
    pub fn init_user_liquidity_provider(user: Address) -> (r: UserVault)
        ensures
            r.wf(),
            r.user == user,
            r.vault_type == VaultType::LiquidityProvider,
            forall|i: int| 0 <= i < VAULT_SLOTS ==> r.vaults@[i] == fresh_slot(false),
    {
        UserVault::fresh(user, VaultType::LiquidityProvider, false)
    }

    /// A portfolio's vault: automatic fees, every slot open to trades.
    pub fn init_user_portfolio(user: Address) -> (r: UserVault)
        ensures
            r.wf(),
            r.user == user,
            r.vault_type == (VaultType::PortfolioManager {
                auto_fee: true,
                tolerance: DEFAULT_TOLERANCE,
            }),
            forall|i: int| 0 <= i < VAULT_SLOTS ==> r.vaults@[i] == fresh_slot(true),
    {
        UserVault::fresh(
            user,
            VaultType::PortfolioManager { auto_fee: true, tolerance: DEFAULT_TOLERANCE },
            true,
        )
    }

    /// Sets the fees, bounds, switches and limit price of one slot of a
    /// liquidity provider's vault.
    pub fn update_user_liquidity_provider(
        &mut self,
        signer: Address,
        position: u8,
        buy_fee: u16,
        sell_fee: u16,
        min: u64,
        max: u64,
        receive_status: bool,
        provide_status: bool,
        limit_price_status: bool,
        limit_price: u64,
        now: u32,
    ) -> (r: Result<(), VaultError>)
        requires
            old(self).wf(),
        ensures
            final(self).wf(),
            final(self).user == old(self).user,
            final(self).vault_type == old(self).vault_type,
            r == (if signer != old(self).user {
                Err(VaultError::NotTheOwner)
            } else if old(self).vault_type != VaultType::LiquidityProvider {
                Err(VaultError::WrongVaultType)
            } else if position >= VAULT_SLOTS {
                Err(VaultError::InvalidTokenPosition)
            } else if buy_fee > BASIS_POINTS || sell_fee > BASIS_POINTS {
                Err(VaultError::ExceedsBasisPoints)
            } else {
                Ok::<(), VaultError>(())
            }),
            r is Err ==> final(self).vaults@ == old(self).vaults@,
            r is Ok ==> final(self).vaults@ == old(self).vaults@.update(
                position as int,
                UserCoinVault {
                    buy_fee,
                    sell_fee,
                    min,
                    max,
                    timestamp: now,
                    receive_status,
                    provide_status,
                    limit_price_status,
                    limit_price,
                    ..old(self).vaults@[position as int]
                },
            ),
    {
        if signer != self.user {
            return Err(VaultError::NotTheOwner);
        }
        match self.vault_type {
            VaultType::LiquidityProvider => {},
            _ => {
                return Err(VaultError::WrongVaultType);
            },
        }
        let pos = position as usize;
        if pos >= VAULT_SLOTS {
            return Err(VaultError::InvalidTokenPosition);
        }
        if buy_fee as u64 > BASIS_POINTS || sell_fee as u64 > BASIS_POINTS {
            return Err(VaultError::ExceedsBasisPoints);
        }
        let old_slot = self.vaults[pos];
        let slot = UserCoinVault {
            buy_fee,
            sell_fee,
            min,
            max,
            timestamp: now,
            receive_status,
            provide_status,
            limit_price_status,
            limit_price,
            ..old_slot
        };
        self.vaults.set(pos, slot);
        Ok(())
    }

    /// Sets the target weight and limit price of one slot of a portfolio. The
    /// slot's band becomes `mid ± mid·tolerance/2`; where `tolerance` differs
    /// from the vault's own, the band of every registered slot is recomputed
    /// from its target with `tolerance`.
    pub fn update_user_portfolio(
        &mut self,
        signer: Address,
        registry: &GlobalState,
        position: u8,
        mid: u64,
        limit_price_status: bool,
        limit_price: u64,
        tolerance: u16,
        now: u32,
    ) -> (r: Result<(), VaultError>)
        requires
            old(self).wf(),
            registry.wf(),
        ensures
            final(self).wf(),
            final(self).user == old(self).user,
            final(self).vault_type == old(self).vault_type,
            r == (if signer != old(self).user {
                Err(VaultError::NotTheOwner)
            } else if old(self).vault_type is LiquidityProvider {
                Err(VaultError::WrongVaultType)
            } else if position >= VAULT_SLOTS {
                Err(VaultError::InvalidTokenPosition)
            } else if mid > BASIS_POINTS || tolerance > BASIS_POINTS {
                Err(VaultError::ExceedsBasisPoints)
            } else {
                Ok::<(), VaultError>(())
            }),
            r is Err ==> final(self).vaults@ == old(self).vaults@,
            r is Ok ==> {
                let set = UserCoinVault {
                    mid,
                    timestamp: now,
                    limit_price_status,
                    limit_price,
                    ..old(self).vaults@[position as int]
                };
                let same = old(self).vault_type->PortfolioManager_tolerance == tolerance;
                forall|i: int|
                    0 <= i < VAULT_SLOTS ==> #[trigger] final(self).vaults@[i] == if i == position {
                        UserCoinVault {
                            max: band_max(mid, tolerance),
                            min: band_min(mid, tolerance),
                            ..set
                        }
                    } else if !same && i < registry.tokens.len() {
                        UserCoinVault {
                            max: band_max(old(self).vaults@[i].mid, tolerance),
                            min: band_min(old(self).vaults@[i].mid, tolerance),
                            ..old(self).vaults@[i]
                        }
                    } else {
                        old(self).vaults@[i]
                    }
            },
    {
        if signer != self.user {
            return Err(VaultError::NotTheOwner);
        }
        let current_tolerance = match self.vault_type {
            VaultType::PortfolioManager { tolerance, .. } => tolerance,
            VaultType::LiquidityProvider => {
                return Err(VaultError::WrongVaultType);
            },
        };
        let pos = position as usize;
        if pos >= VAULT_SLOTS {
            return Err(VaultError::InvalidTokenPosition);
        }
        if mid > BASIS_POINTS || tolerance as u64 > BASIS_POINTS {
            return Err(VaultError::ExceedsBasisPoints);
        }
        let old_slot = self.vaults[pos];
        let set = UserCoinVault { mid, timestamp: now, limit_price_status, limit_price, ..old_slot };
        self.vaults.set(pos, set);
        let n = if registry.tokens.len() < VAULT_SLOTS {
            registry.tokens.len()
        } else {
            VAULT_SLOTS
        };
        if current_tolerance == tolerance {
            self.set_band(pos, tolerance);
        } else {
            let ghost start = self.vaults@;
            let mut i: usize = 0;
            while i < n
                invariant
                    i <= n,
                    n <= VAULT_SLOTS,
                    pos < VAULT_SLOTS,
                    tolerance <= BASIS_POINTS,
                    self.wf(),
                    start.len() == VAULT_SLOTS,
                    forall|k: int| 0 <= k < VAULT_SLOTS ==> (#[trigger] start[k]).mid <= BASIS_POINTS,
                    self.user == old(self).user,
                    self.vault_type == old(self).vault_type,
                    forall|k: int|
                        0 <= k < VAULT_SLOTS ==> #[trigger] self.vaults@[k] == if k < i {
                            UserCoinVault {
                                max: band_max(start[k].mid, tolerance),
                                min: band_min(start[k].mid, tolerance),
                                ..start[k]
                            }
                        } else {
                            start[k]
                        },
                decreases n - i,
            {
                self.set_band(i, tolerance);
                i = i + 1;
            }
            if pos >= n {
                self.set_band(pos, tolerance);
            }
        }
        Ok(())
    }

    /// Sets the band of slot `i` around its target.
    fn set_band(&mut self, i: usize, tolerance: u16)
        requires
            old(self).wf(),
            i < VAULT_SLOTS,
            tolerance <= BASIS_POINTS,
        ensures
            final(self).wf(),
            final(self).user == old(self).user,
            final(self).vault_type == old(self).vault_type,
            final(self).vaults@ == old(self).vaults@.update(
                i as int,
                UserCoinVault {
                    max: band_max(old(self).vaults@[i as int].mid, tolerance),
                    min: band_min(old(self).vaults@[i as int].mid, tolerance),
                    ..old(self).vaults@[i as int]
                },
            ),
    {
        let slot = self.vaults[i];
        let mid = slot.mid;
        assert(mid * tolerance <= BASIS_POINTS * BASIS_POINTS) by (nonlinear_arith)
            requires
                mid <= BASIS_POINTS,
                tolerance <= BASIS_POINTS,
        ;
        let half = mid * tolerance as u64 / BASIS_POINTS / 2;
        assert(half <= mid) by (nonlinear_arith)
            requires
                half == mid * tolerance / (BASIS_POINTS as int) / 2,
                tolerance <= BASIS_POINTS,
        ;
        self.vaults.set(i, UserCoinVault { max: mid + half, min: mid - half, ..slot });
    }

    /// Credits `amount` of the token at `position` to its slot, stamped with
    /// `now`. The caller must own the vault, `mint` must be the registered
    /// token there, and `available`, what the depositor's account holds, must
    /// cover the amount; the token transfer into custody goes with it.
    pub fn deposit(
        &mut self,
        registry: &GlobalState,
        signer: Address,
        mint: Address,
        position: u8,
        amount: u64,
        available: u64,
        now: u32,
    ) -> (r: Result<(), VaultError>)
        requires
            old(self).wf(),
        ensures
            final(self).wf(),
            final(self).user == old(self).user,
            final(self).vault_type == old(self).vault_type,
            r == (if signer != old(self).user {
                Err(VaultError::NotTheOwner)
            } else if !(position < VAULT_SLOTS && position < registry.tokens.len()
                && registry.tokens@[position as int] == mint) {
                Err(VaultError::InvalidTokenPosition)
            } else if available < amount {
                Err(VaultError::InsufficientFunds)
            } else if old(self).vaults@[position as int].amount + amount > u64::MAX {
                Err(VaultError::ArithmeticOverflow)
            } else {
                Ok::<(), VaultError>(())
            }),
            r is Err ==> final(self).vaults@ == old(self).vaults@,
            r is Ok ==> final(self).vaults@ == deposited(old(self).vaults@, position as int, amount, now),
    {
        if signer != self.user {
            return Err(VaultError::NotTheOwner);
        }
        let pos = position as usize;
        if !(pos < VAULT_SLOTS && registry.check_token_position(mint, position).is_ok()) {
            return Err(VaultError::InvalidTokenPosition);
        }
        if available < amount {
            return Err(VaultError::InsufficientFunds);
        }
        let slot = self.vaults[pos];
        let total = match slot.amount.checked_add(amount) {
            Some(t) => t,
            None => {
                return Err(VaultError::ArithmeticOverflow);
            },
        };
        self.vaults.set(pos, UserCoinVault { amount: total, timestamp: now, ..slot });
        Ok(())
    }

    /// Debits `amount` of the token at `position` from its slot, before the
    /// token transfer out of custody is made. The caller must own the vault
    /// and the slot must hold the amount.
    pub fn withdraw(
        &mut self,
        registry: &GlobalState,
        signer: Address,
        mint: Address,
        position: u8,
        amount: u64,
    ) -> (r: Result<(), VaultError>)
        requires
            old(self).wf(),
        ensures
            final(self).wf(),
            final(self).user == old(self).user,
            final(self).vault_type == old(self).vault_type,
            r == (if signer != old(self).user {
                Err(VaultError::NotTheOwner)
            } else if !(position < VAULT_SLOTS && position < registry.tokens.len()
                && registry.tokens@[position as int] == mint) {
                Err(VaultError::InvalidTokenPosition)
            } else if old(self).vaults@[position as int].amount < amount {
                Err(VaultError::VaultInsufficientFunds)
            } else {
                Ok::<(), VaultError>(())
            }),
            r is Err ==> final(self).vaults@ == old(self).vaults@,
            r is Ok ==> final(self).vaults@ == withdrawn(old(self).vaults@, position as int, amount),
    {
        if signer != self.user {
            return Err(VaultError::NotTheOwner);
        }
        let pos = position as usize;
        if !(pos < VAULT_SLOTS && registry.check_token_position(mint, position).is_ok()) {
            return Err(VaultError::InvalidTokenPosition);
        }
        let slot = self.vaults[pos];
        if slot.amount < amount {
            return Err(VaultError::VaultInsufficientFunds);
        }
        self.vaults.set(pos, UserCoinVault { amount: slot.amount - amount, ..slot });
        Ok(())
    }
}

} // verus!
