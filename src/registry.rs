//! The token registries: the price list that the aggregator keeps, and the
//! list of tradable tokens that the vaults are indexed by. Both are
//! append-only: a token's position never changes once assigned.
use vstd::prelude::*;
use crate::aggregator::{
    self, aggregate_price, calculate_price, check_switchboard_account, get_pyth_price,
    is_optimized_result, occurs_in, product_names_symbol, pyth_price_of, usd_pair, PythQuote,
};
use vstd::utf8::encode_utf8;
use crate::oracle::CoinInfo;

verus! {

/// The most tokens a registry holds.
pub const MAX_TOKENS: usize = 64;

/// A 32-byte account or token identity.
#[derive(Debug, Clone, Copy, Eq)]
pub struct Address {
    pub bytes: [u8; 32],
}

impl PartialEq for Address {
    fn eq(&self, other: &Address) -> (r: bool) {
        let mut i: usize = 0;
        while i < 32
            invariant
                i <= 32,
                forall|k: int| 0 <= k < i ==> self.bytes@[k] == other.bytes@[k],
            decreases 32 - i,
        {
            if self.bytes[i] != other.bytes[i] {
                return false;
            }
            i = i + 1;
        }
        assert(self.bytes@ =~= other.bytes@);
        proof {
            lemma_address_eq(*self, *other);
        }
        true
    }
}

impl vstd::std_specs::cmp::PartialEqSpecImpl for Address {
    open spec fn obeys_eq_spec() -> bool {
        true
    }

    open spec fn eq_spec(&self, other: &Address) -> bool {
        self == other
    }
}

/// Two addresses with the same bytes are the same address.
pub proof fn lemma_address_eq(a: Address, b: Address)
    requires
        a.bytes@ == b.bytes@,
    ensures
        a == b,
{
    assert(a.bytes == b.bytes);
}

/// What the price registry knows of one token.
#[derive(Debug, Clone)]
pub struct TokenData {
    pub mint: Address,
    pub price: u64,
    pub last_update_timestamp: u64,
    pub decimals: u8,
    /// The Pyth price account that feeds this token, if any.
    pub pyth_price_account: Option<Address>,
    /// The Switchboard result account that feeds this token, if any.
    pub switchboard_optimized_feed_account: Option<Address>,
    pub symbol: String,
}

/// A Pyth product account as read: its attribute bytes and the price account
/// that it points to.
#[derive(Debug, Clone)]
pub struct PythProduct {
    pub attr: Vec<u8>,
    pub price_account: Address,
}

/// A Switchboard result account: its address and its bytes.
#[derive(Debug, Clone)]
pub struct SwitchboardFeed {
    pub account: Address,
    pub data: Vec<u8>,
}

/// The aggregator's price registry.
#[derive(Debug, Clone)]
pub struct GlobalAccount {
    pub authority: Address,
    pub tokens: Vec<TokenData>,
}

pub open spec fn has_mint(tokens: Seq<TokenData>, mint: Address) -> bool {
    exists|i: int| 0 <= i < tokens.len() && (#[trigger] tokens[i]).mint == mint
}

pub open spec fn distinct_mints(tokens: Seq<TokenData>) -> bool {
    forall|i: int, j: int|
        0 <= i < tokens.len() && 0 <= j < tokens.len() && i != j ==> (#[trigger] tokens[i]).mint
            != (#[trigger] tokens[j]).mint
}

/// The source that stands in for the Pyth feed: the feed's own price where it
/// has one and trades, the CoinGecko price where the token has no feed or the
/// feed is not trading.
pub open spec fn pyth_source(
    token: TokenData,
    coin: CoinInfo,
    pyth: Option<PythQuote>,
) -> Result<u64, aggregator::ErrorCode> {
    if token.pyth_price_account is None {
        Ok(coin.coin_gecko_price)
    } else {
        match pyth {
            None => Err(aggregator::ErrorCode::PythPriceAccountError),
            Some(quote) => match pyth_price_of(quote, token.decimals) {
                Err(e) => Err(e),
                Ok(None) => Ok(coin.coin_gecko_price),
                Ok(Some(p)) => Ok(p),
            },
        }
    }
}

/// The Switchboard source: its price where the token has a feed and the feed
/// gave one, else the CoinGecko price.
pub open spec fn switchboard_source(token: TokenData, coin: CoinInfo, price: Option<u64>) -> u64 {
    if token.switchboard_optimized_feed_account is None || price is None {
        coin.coin_gecko_price
    } else {
        price->Some_0
    }
}

/// The new price of the token at `position`, from the five sources.
pub open spec fn updated_price(
    token: TokenData,
    coin: CoinInfo,
    pyth: Option<PythQuote>,
    switchboard_price: Option<u64>,
) -> Result<u64, aggregator::ErrorCode> {
    match pyth_source(token, coin, pyth) {
        Err(e) => Err(e),
        Ok(pyth) => aggregate_price(
            seq![
                coin.coin_gecko_price,
                coin.orca_price,
                coin.serum_price,
                pyth,
                switchboard_source(token, coin, switchboard_price),
            ],
        ),
    }
}

/// The registry's tokens and the outcome after an update of the price at
/// `position`: on success the token's price and timestamp change, on a
/// refusal nothing does.
pub open spec fn price_update(
    tokens: Seq<TokenData>,
    position: u8,
    coin: CoinInfo,
    pyth: Option<PythQuote>,
    switchboard_price: Option<u64>,
    now: u64,
) -> (Seq<TokenData>, Result<u64, aggregator::ErrorCode>) {
    if position >= tokens.len() {
        (tokens, Err(aggregator::ErrorCode::InvalidTokenPosition))
    } else if coin.symbol@ != tokens[position as int].symbol@ {
        (tokens, Err(aggregator::ErrorCode::CoinSymbolMismatch))
    } else {
        let token = tokens[position as int];
        match updated_price(token, coin, pyth, switchboard_price) {
            Err(e) => (tokens, Err(e)),
            Ok(p) => (
                tokens.update(
                    position as int,
                    TokenData { price: p, last_update_timestamp: now, ..token },
                ),
                Ok(p),
            ),
        }
    }
}

/// A refused price update is idempotent: it leaves the registry as it was,
/// so the same update is refused again, with the same error, and the stored
/// price never changes.
pub proof fn lemma_rejection_is_idempotent(
    tokens: Seq<TokenData>,
    position: u8,
    coin: CoinInfo,
    pyth: Option<PythQuote>,
    switchboard_price: Option<u64>,
    now: u64,
    later: u64,
)
    requires
        price_update(tokens, position, coin, pyth, switchboard_price, now).1 is Err,
    ensures
        ({
            let (first, r1) = price_update(tokens, position, coin, pyth, switchboard_price, now);
            let (second, r2) = price_update(
                first,
                position,
                coin,
                pyth,
                switchboard_price,
                later,
            );
            &&& first == tokens
            &&& second == tokens
            &&& r2 == r1
        }),
{
}

/// Whether a token may join the price registry, or why not.
pub open spec fn admission(
    tokens: Seq<TokenData>,
    mint: Address,
    symbol: Seq<char>,
    pyth_product: Option<PythProduct>,
    switchboard_feed: Option<SwitchboardFeed>,
) -> Result<(), aggregator::ErrorCode> {
    if has_mint(tokens, mint) {
        Err(aggregator::ErrorCode::TokenAlreadyExists)
    } else if tokens.len() >= MAX_TOKENS {
        Err(aggregator::ErrorCode::RegistryFull)
    } else if switchboard_feed is Some && !is_optimized_result(switchboard_feed->Some_0.data@) {
        Err(aggregator::ErrorCode::SwitchboardAccountError)
    } else if pyth_product is Some && !occurs_in(
        pyth_product->Some_0.attr@,
        usd_pair(encode_utf8(symbol)),
    ) {
        Err(aggregator::ErrorCode::PythProductAccountError)
    } else {
        Ok(())
    }
}

impl GlobalAccount {
    pub open spec fn wf(&self) -> bool {
        &&& self.tokens.len() <= MAX_TOKENS
        &&& distinct_mints(self.tokens@)
    }

    /// Whether the registry is well formed: within capacity, no mint twice.
    pub fn well_formed(&self) -> (r: bool)
        ensures
            r == self.wf(),
    {
        if self.tokens.len() > MAX_TOKENS {
            return false;
        }
        let n = self.tokens.len();
        let mut i: usize = 0;
        while i < n
            invariant
                n == self.tokens.len(),
                i <= n,
                forall|a: int, b: int|
                    0 <= a < i && 0 <= b < n && a != b ==> (#[trigger] self.tokens@[a]).mint
                        != (#[trigger] self.tokens@[b]).mint,
            decreases n - i,
        {
            let mut j: usize = 0;
            while j < n
                invariant
                    n == self.tokens.len(),
                    i < n,
                    j <= n,
                    forall|a: int, b: int|
                        0 <= a < i && 0 <= b < n && a != b ==> (#[trigger] self.tokens@[a]).mint
                            != (#[trigger] self.tokens@[b]).mint,
                    forall|b: int|
                        0 <= b < j && b != i ==> self.tokens@[i as int].mint != (#[trigger] self.tokens@[b]).mint,
                decreases n - j,
            {
                if j != i && self.tokens[i].mint == self.tokens[j].mint {
                    return false;
                }
                j = j + 1;
            }
            i = i + 1;
        }
        true
    }

    /// An empty registry kept by `authority`.
    pub fn init_global_account(authority: Address) -> (r: GlobalAccount)
        ensures
            r.wf(),
            r.authority == authority,
            r.tokens@.len() == 0,
    {
        GlobalAccount { authority, tokens: Vec::new() }
    }

    /// Whether a token with this mint is registered.
    pub fn contains_mint(&self, mint: Address) -> (r: bool)
        ensures
            r == has_mint(self.tokens@, mint),
    {
        let mut i: usize = 0;
        while i < self.tokens.len()
            invariant
                i <= self.tokens.len(),
                forall|k: int| 0 <= k < i ==> (#[trigger] self.tokens@[k]).mint != mint,
            decreases self.tokens.len() - i,
        {
            if self.tokens[i].mint == mint {
                return true;
            }
            i = i + 1;
        }
        false
    }

    /// Appends a token at the next position, with no price yet. A Switchboard
    /// feed must hold an optimized aggregator result, and a Pyth product must
    /// name the symbol quoted in USD; the token is then fed by the product's
    /// price account.
    pub fn add_token(
        &mut self,
        mint: Address,
        decimals: u8,
        symbol: String,
        pyth_product: Option<PythProduct>,
        switchboard_feed: Option<SwitchboardFeed>,
    ) -> (r: Result<(), aggregator::ErrorCode>)
        requires
            old(self).wf(),
        ensures
            final(self).wf(),
            final(self).authority == old(self).authority,
            r == admission(old(self).tokens@, mint, symbol@, pyth_product, switchboard_feed),
            r is Err ==> final(self).tokens@ == old(self).tokens@,
            r is Ok ==> final(self).tokens@ == old(self).tokens@.push(
                TokenData {
                    mint,
                    price: 0,
                    last_update_timestamp: 0,
                    decimals,
                    pyth_price_account: match pyth_product {
                        Some(p) => Some(p.price_account),
                        None => None,
                    },
                    switchboard_optimized_feed_account: match switchboard_feed {
                        Some(f) => Some(f.account),
                        None => None,
                    },
                    symbol,
                },
            ),
    {
        if self.contains_mint(mint) {
            return Err(aggregator::ErrorCode::TokenAlreadyExists);
        }
        if self.tokens.len() >= MAX_TOKENS {
            return Err(aggregator::ErrorCode::RegistryFull);
        }
        let switchboard_optimized_feed_account = match switchboard_feed {
            Some(f) => {
                if check_switchboard_account(f.data.as_slice()).is_err() {
                    return Err(aggregator::ErrorCode::SwitchboardAccountError);
                }
                Some(f.account)
            },
            None => None,
        };
        let pyth_price_account = match pyth_product {
            Some(p) => {
                if !product_names_symbol(p.attr.as_slice(), symbol.as_str()) {
                    return Err(aggregator::ErrorCode::PythProductAccountError);
                }
                Some(p.price_account)
            },
            None => None,
        };
        let ghost before = self.tokens@;
        self.tokens.push(
            TokenData {
                mint,
                price: 0,
                last_update_timestamp: 0,
                decimals,
                pyth_price_account,
                switchboard_optimized_feed_account,
                symbol,
            },
        );
        proof {
            assert forall|i: int, j: int|
                0 <= i < self.tokens@.len() && 0 <= j < self.tokens@.len() && i != j implies (
                #[trigger] self.tokens@[i]).mint != (#[trigger] self.tokens@[j]).mint by {
                if i < before.len() && j < before.len() {
                    assert(self.tokens@[i] == before[i]);
                    assert(self.tokens@[j] == before[j]);
                } else if i < before.len() {
                    assert(self.tokens@[i] == before[i]);
                } else {
                    assert(self.tokens@[j] == before[j]);
                }
            }
        }
        Ok(())
    }

    /// Checks that `position` holds the token `mint`.
    pub fn check_token_position(&self, mint: Address, position: u8) -> (r: Result<
        (),
        aggregator::ErrorCode,
    >)
        ensures
            r is Ok <==> position < self.tokens.len() && self.tokens@[position as int].mint == mint,
            r is Err ==> r == Err::<(), aggregator::ErrorCode>(
                aggregator::ErrorCode::InvalidTokenPosition,
            ),
    {
        let pos = position as usize;
        if pos < self.tokens.len() && self.tokens[pos].mint == mint {
            Ok(())
        } else {
            Err(aggregator::ErrorCode::InvalidTokenPosition)
        }
    }

    /// Fuses the five sources of the token at `position` into its new price:
    /// CoinGecko, Orca and Serum from `coin`, which must be the record for the
    /// token's symbol, the quote read from the token's
    /// Pyth account, and the price that its Switchboard feed gave. Only the token's price and
    /// timestamp change, and only on success.
    pub fn update_token_price(
        &mut self,
        position: u8,
        coin: &CoinInfo,
        pyth: Option<PythQuote>,
        switchboard_price: Option<u64>,
        now: u64,
    ) -> (r: Result<u64, aggregator::ErrorCode>)
        requires
            old(self).wf(),
        ensures
            final(self).wf(),
            final(self).authority == old(self).authority,
            (final(self).tokens@, r) == price_update(
                old(self).tokens@,
                position,
                *coin,
                pyth,
                switchboard_price,
                now,
            ),
    {
        let pos = position as usize;
        if pos >= self.tokens.len() {
            return Err(aggregator::ErrorCode::InvalidTokenPosition);
        }
        if coin.symbol != self.tokens[pos].symbol {
            return Err(aggregator::ErrorCode::CoinSymbolMismatch);
        }
        let decimals = self.tokens[pos].decimals;
        let pyth = if self.tokens[pos].pyth_price_account.is_none() {
            coin.coin_gecko_price
        } else {
            match pyth {
                None => {
                    return Err(aggregator::ErrorCode::PythPriceAccountError);
                },
                Some(quote) => match get_pyth_price(quote, decimals) {
                    Err(e) => {
                        return Err(e);
                    },
                    Ok(None) => coin.coin_gecko_price,
                    Ok(Some(p)) => p,
                },
            }
        };
        let switchboard = match switchboard_price {
            Some(p) => if self.tokens[pos].switchboard_optimized_feed_account.is_some() {
                p
            } else {
                coin.coin_gecko_price
            },
            None => coin.coin_gecko_price,
        };
        let price = match calculate_price(
            coin.coin_gecko_price,
            coin.orca_price,
            coin.serum_price,
            pyth,
            switchboard,
        ) {
            Err(e) => {
                return Err(e);
            },
            Ok(p) => p,
        };
        let ghost before = self.tokens@;
        let mut token = self.tokens.remove(pos);
        token.price = price;
        token.last_update_timestamp = now;
        self.tokens.insert(pos, token);
        proof {
            assert(self.tokens@ =~= before.update(
                pos as int,
                TokenData { price, last_update_timestamp: now, ..before[pos as int] },
            ));
            assert forall|i: int| 0 <= i < self.tokens@.len() implies (
            #[trigger] self.tokens@[i]).mint == before[i].mint by {}
        }
        Ok(price)
    }
}

/// Why a change to the token registry was refused.
#[derive(Debug, Clone, Copy, PartialEq, Eq, Structural)]
pub enum RegistryError {
    /// The caller is not the registry's administrator.
    AdminAccessError,
    /// The token is registered already.
    TokenAlreadyAdded,
    /// The registry holds as many tokens as it can.
    RegistryFull,
    /// The position names no registered token, or another one.
    InvalidTokenPosition,
}

/// The list of tradable tokens; a token's position is its index, and each
/// user's vault slots are indexed the same way.
#[derive(Debug, Clone)]
pub struct GlobalState {
    pub admin_account: Address,
    pub tokens: Vec<Address>,
}

pub open spec fn distinct(tokens: Seq<Address>) -> bool {
    forall|i: int, j: int|
        0 <= i < tokens.len() && 0 <= j < tokens.len() && i != j ==> tokens[i] != tokens[j]
}

/// The registry's tokens after `caller` asks to add `mint`, or why not.
pub open spec fn token_added(
    tokens: Seq<Address>,
    admin: Address,
    caller: Address,
    mint: Address,
) -> Result<Seq<Address>, RegistryError> {
    if caller != admin {
        Err(RegistryError::AdminAccessError)
    } else if tokens.contains(mint) {
        Err(RegistryError::TokenAlreadyAdded)
    } else if tokens.len() >= MAX_TOKENS {
        Err(RegistryError::RegistryFull)
    } else {
        Ok(tokens.push(mint))
    }
}

/// The tokens after a series of requests `(caller, mint)`, each refused one
/// leaving the list as it was.
pub open spec fn tokens_after(
    tokens: Seq<Address>,
    admin: Address,
    requests: Seq<(Address, Address)>,
) -> Seq<Address>
    decreases requests.len(),
{
    if requests.len() == 0 {
        tokens
    } else {
        let before = tokens_after(tokens, admin, requests.drop_last());
        match token_added(before, admin, requests.last().0, requests.last().1) {
            Ok(t) => t,
            Err(_) => before,
        }
    }
}

/// Positions are permanent: after any series of additions, every token that
/// was registered keeps its position, and the list only grows.
pub proof fn lemma_positions_are_permanent(
    tokens: Seq<Address>,
    admin: Address,
    requests: Seq<(Address, Address)>,
)
    ensures
        tokens_after(tokens, admin, requests).len() >= tokens.len(),
        forall|i: int|
            0 <= i < tokens.len() ==> #[trigger] tokens_after(tokens, admin, requests)[i]
                == tokens[i],
    decreases requests.len(),
{
    if requests.len() > 0 {
        lemma_positions_are_permanent(tokens, admin, requests.drop_last());
    }
}

impl GlobalState {
    pub open spec fn wf(&self) -> bool {
        &&& self.tokens.len() <= MAX_TOKENS
        &&& distinct(self.tokens@)
    }

    /// An empty registry administered by `admin_account`, created only by
    /// the configured administrator `admin`.
    pub fn initialize_global_state(admin: Address, admin_account: Address) -> (r: Result<
        GlobalState,
        RegistryError,
    >)
        ensures
            admin_account != admin ==> r == Err::<GlobalState, RegistryError>(
                RegistryError::AdminAccessError,
            ),
            admin_account == admin ==> (r matches Ok(g) && g.wf() && g.admin_account == admin
                && g.tokens@.len() == 0),
    {
        if admin_account != admin {
            return Err(RegistryError::AdminAccessError);
        }
        Ok(GlobalState { admin_account, tokens: Vec::new() })
    }

    /// Whether the registry is well formed: within capacity, no token twice.
    pub fn well_formed(&self) -> (r: bool)
        ensures
            r == self.wf(),
    {
        if self.tokens.len() > MAX_TOKENS {
            return false;
        }
        let n = self.tokens.len();
        let mut i: usize = 0;
        while i < n
            invariant
                n == self.tokens.len(),
                i <= n,
                forall|a: int, b: int|
                    0 <= a < i && 0 <= b < n && a != b ==> #[trigger] self.tokens@[a]
                        != #[trigger] self.tokens@[b],
            decreases n - i,
        {
            let mut j: usize = 0;
            while j < n
                invariant
                    n == self.tokens.len(),
                    i < n,
                    j <= n,
                    forall|a: int, b: int|
                        0 <= a < i && 0 <= b < n && a != b ==> #[trigger] self.tokens@[a]
                            != #[trigger] self.tokens@[b],
                    forall|b: int| 0 <= b < j && b != i ==> self.tokens@[i as int] != #[trigger] self.tokens@[b],
                decreases n - j,
            {
                if j != i && self.tokens[i] == self.tokens[j] {
                    return false;
                }
                j = j + 1;
            }
            i = i + 1;
        }
        true
    }

    /// Whether `mint` is registered.
    pub fn contains(&self, mint: Address) -> (r: bool)
        ensures
            r == self.tokens@.contains(mint),
    {
        let mut i: usize = 0;
        while i < self.tokens.len()
            invariant
                i <= self.tokens.len(),
                forall|k: int| 0 <= k < i ==> self.tokens@[k] != mint,
            decreases self.tokens.len() - i,
        {
            if self.tokens[i] == mint {
                return true;
            }
            i = i + 1;
        }
        false
    }

    /// Appends `mint` at the next position, if `caller` is the administrator
    /// and the token is new.
    pub fn add_token(&mut self, caller: Address, mint: Address) -> (r: Result<(), RegistryError>)
        requires
            old(self).wf(),
        ensures
            final(self).wf(),
            final(self).admin_account == old(self).admin_account,
            match token_added(old(self).tokens@, old(self).admin_account, caller, mint) {
                Ok(t) => r is Ok && final(self).tokens@ == t,
                Err(e) => r == Err::<(), RegistryError>(e) && final(self).tokens@ == old(
                    self,
                ).tokens@,
            },
    {
        if caller != self.admin_account {
            return Err(RegistryError::AdminAccessError);
        }
        if self.contains(mint) {
            return Err(RegistryError::TokenAlreadyAdded);
        }
        if self.tokens.len() >= MAX_TOKENS {
            return Err(RegistryError::RegistryFull);
        }
        self.tokens.push(mint);
        Ok(())
    }

    /// Hands the administration to `new_admin`, if `caller` administers it now.
    pub fn change_authority(&mut self, caller: Address, new_admin: Address) -> (r: Result<
        (),
        RegistryError,
    >)
        ensures
            caller != old(self).admin_account ==> r == Err::<(), RegistryError>(
                RegistryError::AdminAccessError,
            ) && *final(self) == *old(self),
            caller == old(self).admin_account ==> r is Ok && final(self).admin_account == new_admin
                && final(self).tokens == old(self).tokens,
    {
        if caller != self.admin_account {
            return Err(RegistryError::AdminAccessError);
        }
        self.admin_account = new_admin;
        Ok(())
    }

    /// Checks that `position` holds the token `mint`.
    pub fn check_token_position(&self, mint: Address, position: u8) -> (r: Result<(), RegistryError>)
        ensures
            r is Ok <==> position < self.tokens.len() && self.tokens@[position as int] == mint,
            r is Err ==> r == Err::<(), RegistryError>(RegistryError::InvalidTokenPosition),
    {
        let pos = position as usize;
        if pos < self.tokens.len() && self.tokens[pos] == mint {
            Ok(())
        } else {
            Err(RegistryError::InvalidTokenPosition)
        }
    }
}

} // verus!
