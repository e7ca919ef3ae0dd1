//! The on-chain record of a coin's off-chain prices (CoinGecko, Orca, Serum),
//! kept by one authority and read by the aggregator as three of its sources.
use vstd::prelude::*;
use vstd::utf8::encode_utf8;
use crate::registry::Address;

verus! {

/// Symbols are shorter than this many bytes.
pub const MAX_SYMBOL_LEN: usize = 36;

/// Marks a deleted record, so that its account is not used again.
pub const DELETED_SYMBOL: &'static str = "*DELETED*";

#[derive(Debug, Clone, Copy, PartialEq, Eq, Structural)]
pub enum ErrorCode {
    /// The caller is not the record's authority.
    Unauthorized,
    /// The symbol is too long.
    SymbolTooLong,
    /// Returning the record's lamports would overflow the payer's balance.
    LamportsOverflow,
}

#[derive(Debug, Clone)]
pub struct CoinInfo {
    pub orca_price: u64,
    pub coin_gecko_price: u64,
    pub serum_price: u64,
    pub last_update_timestamp: u64,
    pub authority: Address,
    pub symbol: String,
}

/// The fields of a price event, as emitted after each write.
#[derive(Debug, Clone)]
pub struct NewCoinInfo {
    pub symbol: String,
    pub coin_gecko_price: u64,
    pub orca_price: u64,
    pub serum_price: u64,
    pub last_update_timestamp: u64,
}

impl CoinInfo {
    /// The event that reports this record.
    pub fn event(&self) -> (r: NewCoinInfo)
        ensures
            r.symbol@ == self.symbol@,
            r.coin_gecko_price == self.coin_gecko_price,
            r.orca_price == self.orca_price,
            r.serum_price == self.serum_price,
            r.last_update_timestamp == self.last_update_timestamp,
    {
        NewCoinInfo {
            symbol: self.symbol.clone(),
            coin_gecko_price: self.coin_gecko_price,
            orca_price: self.orca_price,
            serum_price: self.serum_price,
            last_update_timestamp: self.last_update_timestamp,
        }
    }
}

/// The length of a symbol in UTF-8 bytes, as `str::len` reports it.
pub open spec fn symbol_len(symbol: Seq<char>) -> usize {
    encode_utf8(symbol).len() as usize
}

/// A new record holding the three prices, kept by `authority`; the symbol
/// must be shorter than `MAX_SYMBOL_LEN` bytes.
pub fn create_coin(
    coin_gecko_price: u64,
    orca_price: u64,
    serum_price: u64,
    symbol: String,
    authority: Address,
    now: u64,
) -> (r: Result<CoinInfo, ErrorCode>)
    ensures
        symbol_len(symbol@) >= MAX_SYMBOL_LEN ==> r == Err::<CoinInfo, ErrorCode>(
            ErrorCode::SymbolTooLong,
        ),
        r is Ok <==> symbol_len(symbol@) < MAX_SYMBOL_LEN,
        r matches Ok(c) ==> {
            &&& c.coin_gecko_price == coin_gecko_price
            &&& c.orca_price == orca_price
            &&& c.serum_price == serum_price
            &&& c.last_update_timestamp == now
            &&& c.authority == authority
            &&& c.symbol@ == symbol@
        },
{
    if symbol.as_str().len() >= MAX_SYMBOL_LEN {
        return Err(ErrorCode::SymbolTooLong);
    }
    Ok(CoinInfo {
        orca_price,
        coin_gecko_price,
        serum_price,
        last_update_timestamp: now,
        authority,
        symbol,
    })
}

/// Writes three new prices, if `signer` is the record's authority.
pub fn update_coin(
    coin: &mut CoinInfo,
    signer: Address,
    coin_gecko_price: u64,
    orca_price: u64,
    serum_price: u64,
    now: u64,
) -> (r: Result<(), ErrorCode>)
    ensures
        r is Err <==> signer != old(coin).authority,
        r is Err ==> r == Err::<(), ErrorCode>(ErrorCode::Unauthorized) && *final(coin) == *old(coin),
        r is Ok ==> *final(coin) == (CoinInfo {
            coin_gecko_price,
            orca_price,
            serum_price,
            last_update_timestamp: now,
            ..*old(coin)
        }),
{
    if coin.authority != signer {
        return Err(ErrorCode::Unauthorized);
    }
    coin.coin_gecko_price = coin_gecko_price;
    coin.orca_price = orca_price;
    coin.serum_price = serum_price;
    coin.last_update_timestamp = now;
    Ok(())
}

/// Marks the record deleted and hands its lamports to the payer: returns the
/// payer's new balance, after which the record holds none.
pub fn delete_coin(coin: &mut CoinInfo, signer: Address, payer_lamports: u64, coin_lamports: u64) -> (r:
    Result<u64, ErrorCode>)
    ensures
        signer != old(coin).authority ==> r == Err::<u64, ErrorCode>(ErrorCode::Unauthorized),
        signer == old(coin).authority && payer_lamports + coin_lamports > u64::MAX ==> r == Err::<
            u64,
            ErrorCode,
        >(ErrorCode::LamportsOverflow),
        r is Ok <==> signer == old(coin).authority && payer_lamports + coin_lamports <= u64::MAX,
        r is Err ==> *final(coin) == *old(coin),
        r matches Ok(total) ==> {
            &&& signer == old(coin).authority
            &&& total == payer_lamports + coin_lamports
            &&& final(coin).symbol@ == DELETED_SYMBOL@
            &&& *final(coin) == (CoinInfo { symbol: final(coin).symbol, ..*old(coin) })
        },
{
    if coin.authority != signer {
        return Err(ErrorCode::Unauthorized);
    }
    let total = match payer_lamports.checked_add(coin_lamports) {
        Some(t) => t,
        None => {
            return Err(ErrorCode::LamportsOverflow);
        },
    };
    coin.symbol = DELETED_SYMBOL.to_owned();
    Ok(total)
}

} // verus!
