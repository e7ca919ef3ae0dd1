//! A single-price coin record, for deployments that feed one price per coin
//! instead of three.
use vstd::prelude::*;
use crate::oracle::{symbol_len, ErrorCode, DELETED_SYMBOL, MAX_SYMBOL_LEN};
use crate::registry::Address;

verus! {

#[derive(Debug, Clone)]
pub struct CoinInfo {
    pub price: u64,
    pub last_update_timestamp: u64,
    pub authority: Address,
    pub symbol: String,
}

/// The fields of a price event, as emitted after each write.
#[derive(Debug, Clone)]
pub struct NewCoinInfo {
    pub symbol: String,
    pub price: u64,
    pub last_update_timestamp: u64,
}

impl CoinInfo {
    /// The event that reports this record.
    pub fn event(&self) -> (r: NewCoinInfo)
        ensures
            r.symbol@ == self.symbol@,
            r.price == self.price,
            r.last_update_timestamp == self.last_update_timestamp,
    {
        NewCoinInfo {
            symbol: self.symbol.clone(),
            price: self.price,
            last_update_timestamp: self.last_update_timestamp,
        }
    }
}

/// A new record holding `price`, kept by `authority`; the symbol must be
/// shorter than `MAX_SYMBOL_LEN` bytes.
pub fn create_coin(price: u64, symbol: String, authority: Address, now: u64) -> (r: Result<
    CoinInfo,
    ErrorCode,
>)
    ensures
        symbol_len(symbol@) >= MAX_SYMBOL_LEN ==> r == Err::<CoinInfo, ErrorCode>(
            ErrorCode::SymbolTooLong,
        ),
        r is Ok <==> symbol_len(symbol@) < MAX_SYMBOL_LEN,
        r matches Ok(c) ==> {
            &&& c.price == price
            &&& c.last_update_timestamp == now
            &&& c.authority == authority
            &&& c.symbol@ == symbol@
        },
{
    if symbol.as_str().len() >= MAX_SYMBOL_LEN {
        return Err(ErrorCode::SymbolTooLong);
    }
    Ok(CoinInfo { price, last_update_timestamp: now, authority, symbol })
}

/// Writes a new price, if `signer` is the record's authority.
pub fn update_coin(coin: &mut CoinInfo, signer: Address, price: u64, now: u64) -> (r: Result<
    (),
    ErrorCode,
>)
    ensures
        r is Err <==> signer != old(coin).authority,
        r is Err ==> r == Err::<(), ErrorCode>(ErrorCode::Unauthorized) && *final(coin) == *old(coin),
        r is Ok ==> *final(coin) == (CoinInfo { price, last_update_timestamp: now, ..*old(coin) }),
{
    if coin.authority != signer {
        return Err(ErrorCode::Unauthorized);
    }
    coin.price = price;
    coin.last_update_timestamp = now;
    Ok(())
}

/// Marks the record deleted and hands its lamports to the payer: returns the
/// payer's new balance, after which the record holds none.
pub fn delete_coin(coin: &mut CoinInfo, signer: Address, payer_lamports: u64, coin_lamports: u64) -> (r:
    Result<u64, ErrorCode>)
    ensures
        signer != old(coin).authority ==> r == Err::<u64, ErrorCode>(ErrorCode::Unauthorized),
        signer == old(coin).authority && payer_lamports + coin_lamports > u64::MAX ==> r == Err::<
            u64,
            ErrorCode,
        >(ErrorCode::LamportsOverflow),
        r is Ok <==> signer == old(coin).authority && payer_lamports + coin_lamports <= u64::MAX,
        r is Err ==> *final(coin) == *old(coin),
        r matches Ok(total) ==> {
            &&& total == payer_lamports + coin_lamports
            &&& final(coin).symbol@ == DELETED_SYMBOL@
            &&& *final(coin) == (CoinInfo { symbol: final(coin).symbol, ..*old(coin) })
        },
{
    if coin.authority != signer {
        return Err(ErrorCode::Unauthorized);
    }
    let total = match payer_lamports.checked_add(coin_lamports) {
        Some(t) => t,
        None => {
            return Err(ErrorCode::LamportsOverflow);
        },
    };
    coin.symbol = DELETED_SYMBOL.to_owned();
    Ok(total)
}

} // verus!
