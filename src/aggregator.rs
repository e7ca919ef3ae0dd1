//! Fusing independent price sources into one trusted price.
//!
//! Five sources are sorted and split into three overlapping windows of three;
//! the window whose coefficient of variation is smallest wins, provided it is
//! tight enough. The three-source mode keeps the closest pair instead.
use vstd::prelude::*;
use vstd::relations::{sorted_by, total_ordering};
use vstd::string::StringSliceAdditionalSpecFns;
use vstd::seq_lib::{lemma_sorted_unique, to_multiset_update};
use crate::math::{checked_pow10, div_pow10, isqrt, pow10, sqrt_floor};

verus! {

/// Largest accepted coefficient of variation, in thousandths (0.5%).
pub const MAX_VARIATION: u128 = 5;

/// Scale of a coefficient of variation: thousandths.
pub const VARIATION_SCALE: u128 = 1000;

#[derive(Debug, Clone, Copy, PartialEq, Eq, Structural)]
pub enum ErrorCode {
    /// The position names no registered token.
    InvalidTokenPosition,
    /// The token is registered already.
    TokenAlreadyExists,
    /// The registry holds as many tokens as it can.
    RegistryFull,
    /// The coin record is for another symbol than the token.
    CoinSymbolMismatch,
    /// The token has a Pyth feed but no quote was read from it.
    PythPriceAccountError,
    /// The Pyth product account does not name the token's symbol in USD.
    PythProductAccountError,
    /// The Switchboard account does not hold an optimized aggregator result.
    SwitchboardAccountError,
    /// No tight cluster of sources: the stored price is kept.
    PriceUpdateError,
    /// A window of sources averages to zero.
    ZeroAveragePrice,
    /// An intermediate value does not fit its integer type.
    ArithmeticOverflow,
}

pub open spec fn price_order() -> spec_fn(u64, u64) -> bool {
    |a: u64, b: u64| a <= b
}

/// The sources in ascending order.
pub open spec fn sorted_prices(s: Seq<u64>) -> Seq<u64> {
    s.sort_by(price_order())
}

pub proof fn lemma_price_order_total()
    ensures
        total_ordering(price_order()),
{
}

pub open spec fn seq_sum(s: Seq<u64>) -> int
    decreases s.len(),
{
    if s.len() == 0 {
        0
    } else {
        seq_sum(s.drop_last()) + s.last()
    }
}

/// The floored mean.
pub open spec fn mean(s: Seq<u64>) -> int {
    seq_sum(s) / (s.len() as int)
}

pub open spec fn abs_diff(a: int, b: int) -> int {
    if a >= b {
        a - b
    } else {
        b - a
    }
}

/// Sum of the squared distances of the values from `a`.
pub open spec fn sq_dev_sum(s: Seq<u64>, a: int) -> int
    decreases s.len(),
{
    if s.len() == 0 {
        0
    } else {
        sq_dev_sum(s.drop_last(), a) + abs_diff(s.last() as int, a) * abs_diff(s.last() as int, a)
    }
}

/// The sample standard deviation around the floored mean, truncated; `None`
/// where the sum of squares does not fit in a `u128`.
pub open spec fn std_dev_of(s: Seq<u64>) -> Option<u64> {
    let q = sq_dev_sum(s, mean(s));
    if q > u128::MAX {
        None
    } else {
        Some(isqrt((q / (s.len() - 1)) as nat) as u64)
    }
}

/// The coefficient of variation in thousandths.
pub open spec fn variation_of(s: Seq<u64>) -> Result<u128, ErrorCode> {
    if mean(s) == 0 {
        Err(ErrorCode::ZeroAveragePrice)
    } else {
        match std_dev_of(s) {
            None => Err(ErrorCode::ArithmeticOverflow),
            Some(d) => Ok((d * VARIATION_SCALE / mean(s)) as u128),
        }
    }
}

pub open spec fn window(s: Seq<u64>, k: int) -> Seq<u64> {
    s.subrange(k, k + 3)
}

/// Selection among the three windows of five sorted prices.
pub open spec fn select_window(s: Seq<u64>) -> Result<u64, ErrorCode> {
    let low = variation_of(window(s, 0));
    let mid = variation_of(window(s, 1));
    let high = variation_of(window(s, 2));
    if low is Err {
        Err(low->Err_0)
    } else if mid is Err {
        Err(mid->Err_0)
    } else if high is Err {
        Err(high->Err_0)
    } else {
        let (l, m, h) = (low->Ok_0, mid->Ok_0, high->Ok_0);
        let least = if l <= m && l <= h {
            l
        } else if m <= h {
            m
        } else {
            h
        };
        if least > MAX_VARIATION {
            Err(ErrorCode::PriceUpdateError)
        } else if least == l {
            Ok(mean(window(s, 0)) as u64)
        } else if least == m {
            Ok(mean(window(s, 1)) as u64)
        } else {
            Ok(mean(window(s, 2)) as u64)
        }
    }
}

/// The price that five sources agree on, or why there is none.
pub open spec fn aggregate_price(sources: Seq<u64>) -> Result<u64, ErrorCode> {
    select_window(sorted_prices(sources))
}

/// Sorts ascending.
pub fn insertion_sort(arr: &mut Vec<u64>)
    ensures
        final(arr)@ == sorted_prices(old(arr)@),
{
    let ghost orig = arr@;
    let n = arr.len();
    let mut i: usize = 1;
    while i < n
        invariant
            n == arr.len(),
            1 <= i,
            forall|a: int, b: int| 0 <= a < b < i && b < n ==> arr@[a] <= arr@[b],
            arr@.to_multiset() == orig.to_multiset(),
        decreases n - i,
    {
        let mut j: usize = i;
        while j > 0 && arr[j - 1] > arr[j]
            invariant
                n == arr.len(),
                i < n,
                j <= i,
                forall|a: int, b: int| 0 <= a < b <= i && a != j && b != j ==> arr@[a] <= arr@[b],
                forall|b: int| j < b <= i ==> arr@[j as int] <= arr@[b],
                arr@.to_multiset() == orig.to_multiset(),
            decreases j,
        {
            let lower = arr[j - 1];
            let upper = arr[j];
            let ghost before = arr@;
            proof {
                to_multiset_update(before, j - 1, upper);
                to_multiset_update(before.update(j - 1, upper), j as int, lower);
            }
            arr.set(j - 1, upper);
            arr.set(j, lower);
            proof {
                broadcast use vstd::multiset::group_multiset_axioms;
                broadcast use vstd::seq_lib::group_to_multiset_ensures;

                assert(arr@ == before.update(j - 1, upper).update(j as int, lower));
                let m = before.to_multiset();
                assert(before.contains(lower) && before.contains(upper)) by {
                    assert(before[j - 1] == lower);
                    assert(before[j as int] == upper);
                }
                assert(m.count(lower) > 0 && m.count(upper) > 0);
                assert(m.insert(upper).remove(lower).insert(lower).remove(upper) =~= m);
            }
            j = j - 1;
        }
        i = i + 1;
    }
    proof {
        lemma_price_order_total();
        orig.lemma_sort_by_ensures(price_order());
        assert(sorted_by(arr@, price_order()));
        lemma_sorted_unique(arr@, sorted_prices(orig), price_order());
    }
}

proof fn lemma_prefix_step(s: Seq<u64>, i: int)
    requires
        0 <= i < s.len(),
    ensures
        s.subrange(0, i + 1).drop_last() == s.subrange(0, i),
        s.subrange(0, i + 1).last() == s[i],
{
    assert(s.subrange(0, i + 1).drop_last() =~= s.subrange(0, i));
}

proof fn lemma_sq_dev_sum_prefix(s: Seq<u64>, a: int, k: int)
    requires
        0 <= k <= s.len(),
    ensures
        0 <= sq_dev_sum(s.subrange(0, k), a) <= sq_dev_sum(s, a),
    decreases s.len(),
{
    if k == s.len() {
        assert(s.subrange(0, k) =~= s);
        lemma_sq_dev_sum_nonneg(s, a);
    } else {
        let t = s.drop_last();
        assert(t.subrange(0, k) =~= s.subrange(0, k));
        lemma_sq_dev_sum_prefix(t, a, k);
        let d = abs_diff(s.last() as int, a);
        assert(d * d >= 0) by (nonlinear_arith);
    }
}

proof fn lemma_sq_dev_sum_nonneg(s: Seq<u64>, a: int)
    ensures
        sq_dev_sum(s, a) >= 0,
    decreases s.len(),
{
    if s.len() > 0 {
        lemma_sq_dev_sum_nonneg(s.drop_last(), a);
        let d = abs_diff(s.last() as int, a);
        assert(d * d >= 0) by (nonlinear_arith);
    }
}

/// The floored mean of the values.
pub fn average(arr: &Vec<u64>) -> (r: u64)
    requires
        arr.len() > 0,
    ensures
        r == mean(arr@),
{
    let n = arr.len();
    let mut sum: u128 = 0;
    let mut i: usize = 0;
    while i < n
        invariant
            n == arr.len(),
            i <= n,
            sum == seq_sum(arr@.subrange(0, i as int)),
            sum <= i * (u64::MAX as int),
        decreases n - i,
    {
        proof {
            lemma_prefix_step(arr@, i as int);
        }
        sum = sum + arr[i] as u128;
        i = i + 1;
    }
    proof {
        assert(arr@.subrange(0, n as int) =~= arr@);
        assert((sum as int) / (n as int) <= u64::MAX) by (nonlinear_arith)
            requires
                sum <= n * (u64::MAX as int),
                n > 0,
        ;
    }
    (sum / n as u128) as u64
}

/// The sample standard deviation of the values around their floored mean,
/// truncated; `None` where the sum of squares overflows.
pub fn std_dev(arr: &Vec<u64>) -> (r: Option<u64>)
    requires
        arr.len() >= 2,
    ensures
        r == std_dev_of(arr@),
{
    let avg = average(arr);
    let n = arr.len();
    let mut sum: u128 = 0;
    let mut i: usize = 0;
    while i < n
        invariant
            n == arr.len(),
            n >= 2,
            avg == mean(arr@),
            i <= n,
            sum == sq_dev_sum(arr@.subrange(0, i as int), avg as int),
        decreases n - i,
    {
        proof {
            lemma_prefix_step(arr@, i as int);
        }
        let x = arr[i];
        let diff: u128 = if x >= avg {
            (x - avg) as u128
        } else {
            (avg - x) as u128
        };
        assert(diff * diff <= u128::MAX) by (nonlinear_arith)
            requires
                diff <= u64::MAX,
        ;
        match sum.checked_add(diff * diff) {
            Some(next) => {
                sum = next;
            },
            None => {
                proof {
                    lemma_sq_dev_sum_prefix(arr@, avg as int, i + 1);
                }
                return None;
            },
        }
        i = i + 1;
    }
    proof {
        assert(arr@.subrange(0, n as int) =~= arr@);
    }
    Some(sqrt_floor(sum / (n - 1) as u128))
}

/// The coefficient of variation of the values in thousandths: their standard
/// deviation over their mean.
pub fn variation_coefficient(arr: &Vec<u64>) -> (r: Result<u128, ErrorCode>)
    requires
        arr.len() >= 2,
    ensures
        r == variation_of(arr@),
{
    let avg = average(arr);
    if avg == 0 {
        return Err(ErrorCode::ZeroAveragePrice);
    }
    match std_dev(arr) {
        None => Err(ErrorCode::ArithmeticOverflow),
        Some(d) => {
            assert((d * VARIATION_SCALE) / (avg as int) <= d * VARIATION_SCALE) by (nonlinear_arith)
                requires
                    avg >= 1,
            ;
            Ok(d as u128 * VARIATION_SCALE / avg as u128)
        },
    }
}

fn window_of(values: &Vec<u64>, k: usize) -> (r: Vec<u64>)
    requires
        k + 3 <= values.len(),
    ensures
        r@ == window(values@, k as int),
{
    let mut w: Vec<u64> = Vec::new();
    w.push(values[k]);
    w.push(values[k + 1]);
    w.push(values[k + 2]);
    assert(w@ =~= window(values@, k as int));
    w
}

/// Fuses five independently sourced prices: the mean of the tightest window
/// of three sorted prices, unless even that window varies by more than half
/// a percent.
pub fn calculate_price(v1: u64, v2: u64, v3: u64, v4: u64, v5: u64) -> (r: Result<u64, ErrorCode>)
    ensures
        r == aggregate_price(seq![v1, v2, v3, v4, v5]),
{
    let mut values: Vec<u64> = Vec::new();
    values.push(v1);
    values.push(v2);
    values.push(v3);
    values.push(v4);
    values.push(v5);
    assert(values@ =~= seq![v1, v2, v3, v4, v5]);
    insertion_sort(&mut values);
    proof {
        lemma_price_order_total();
        seq![v1, v2, v3, v4, v5].lemma_sort_by_ensures(price_order());
        vstd::seq_lib::to_multiset_len(values@);
        vstd::seq_lib::to_multiset_len(seq![v1, v2, v3, v4, v5]);
    }
    let min_set = window_of(&values, 0);
    let mid_set = window_of(&values, 1);
    let max_set = window_of(&values, 2);
    let low = match variation_coefficient(&min_set) {
        Ok(c) => c,
        Err(e) => {
            return Err(e);
        },
    };
    let mid = match variation_coefficient(&mid_set) {
        Ok(c) => c,
        Err(e) => {
            return Err(e);
        },
    };
    let high = match variation_coefficient(&max_set) {
        Ok(c) => c,
        Err(e) => {
            return Err(e);
        },
    };
    let least = if low <= mid && low <= high {
        low
    } else if mid <= high {
        mid
    } else {
        high
    };
    if least > MAX_VARIATION {
        Err(ErrorCode::PriceUpdateError)
    } else if least == low {
        Ok(average(&min_set))
    } else if least == mid {
        Ok(average(&mid_set))
    } else {
        Ok(average(&max_set))
    }
}

/// The legacy three-source price: the floored mean of the two closest
/// sources, preferring the pair (a, b), then (b, c), then (c, a) on ties.
pub open spec fn closest_pair_mean(a: u64, b: u64, c: u64) -> u64 {
    let ab = abs_diff(a as int, b as int);
    let bc = abs_diff(b as int, c as int);
    let ca = abs_diff(c as int, a as int);
    if ab <= bc && ab <= ca {
        ((a + b) / 2) as u64
    } else if bc <= ca {
        ((b + c) / 2) as u64
    } else {
        ((c + a) / 2) as u64
    }
}

fn distance(a: u64, b: u64) -> (r: u64)
    ensures
        r == abs_diff(a as int, b as int),
{
    if a >= b {
        a - b
    } else {
        b - a
    }
}

fn midpoint(a: u64, b: u64) -> (r: u64)
    ensures
        r == (a + b) / 2,
{
    ((a as u128 + b as u128) / 2) as u64
}

/// Fuses three prices by dropping the one furthest from the other two; never
/// fails.
pub fn calculate_price_three(a: u64, b: u64, c: u64) -> (r: u64)
    ensures
        r == closest_pair_mean(a, b, c),
{
    let ab = distance(a, b);
    let bc = distance(b, c);
    let ca = distance(c, a);
    if ab <= bc && ab <= ca {
        midpoint(a, b)
    } else if bc <= ca {
        midpoint(b, c)
    } else {
        midpoint(c, a)
    }
}

/// A decoded Pyth price account: its aggregate price, the exponent of that
/// price, and whether the feed is trading.
#[derive(Debug, Clone, Copy, PartialEq, Eq, Structural)]
pub struct PythQuote {
    pub price: i64,
    pub expo: i32,
    pub trading: bool,
}

pub open spec fn abs_exponent(expo: i32) -> nat {
    if expo < 0 {
        (-expo) as nat
    } else {
        expo as nat
    }
}

/// A Pyth price `price * 10^-|expo|` restated with `decimals` decimals; a
/// negative price counts as zero, and `None` marks a result beyond `u64`.
pub open spec fn rescaled_price(price: i64, expo: i32, decimals: u8) -> Option<u64> {
    let p: nat = if price < 0 {
        0
    } else {
        price as nat
    };
    let e = abs_exponent(expo);
    if e < decimals {
        let v = p * pow10((decimals - e) as nat);
        if v > u64::MAX {
            None
        } else {
            Some(v as u64)
        }
    } else {
        Some((p / pow10((e - decimals) as nat)) as u64)
    }
}

/// The price that a Pyth quote gives with `decimals` decimals: `Ok(None)`
/// where the feed is not trading, so that the source is left out.
pub open spec fn pyth_price_of(quote: PythQuote, decimals: u8) -> Result<Option<u64>, ErrorCode> {
    if !quote.trading {
        Ok(None)
    } else {
        match rescaled_price(quote.price, quote.expo, decimals) {
            None => Err(ErrorCode::ArithmeticOverflow),
            Some(v) => Ok(Some(v)),
        }
    }
}

/// Restates a Pyth price with `decimals` decimals.
pub fn rescale_price(price: i64, expo: i32, decimals: u8) -> (r: Option<u64>)
    ensures
        r == rescaled_price(price, expo, decimals),
{
    let p: u64 = if price < 0 {
        0
    } else {
        price as u64
    };
    let e: u32 = if expo < 0 {
        (-(expo as i64)) as u32
    } else {
        expo as u32
    };
    proof {
        crate::math::lemma_pow10_positive(((e as int) - (decimals as int)) as nat);
    }
    if e < decimals as u32 {
        match checked_pow10(decimals as u32 - e) {
            None => {
                proof {
                    assert(p * pow10((decimals - e) as nat) > u64::MAX || p == 0) by (nonlinear_arith)
                        requires
                            pow10((decimals - e) as nat) > u128::MAX,
                    ;
                }
                if p == 0 {
                    assert(p * pow10((decimals - e) as nat) == 0);
                    Some(0)
                } else {
                    None
                }
            },
            Some(scale) => {
                match (p as u128).checked_mul(scale) {
                    Some(v) => {
                        if v > u64::MAX as u128 {
                            None
                        } else {
                            Some(v as u64)
                        }
                    },
                    None => None,
                }
            },
        }
    } else {
        let v = div_pow10(p as u128, e - decimals as u32);
        assert(v <= p) by (nonlinear_arith)
            requires
                v == (p as nat) / pow10((e - decimals) as nat),
                pow10((e - decimals) as nat) >= 1,
        ;
        Some(v as u64)
    }
}

/// The price of a Pyth quote restated with `decimals` decimals, or `None`
/// where the feed is not trading.
pub fn get_pyth_price(quote: PythQuote, decimals: u8) -> (r: Result<Option<u64>, ErrorCode>)
    ensures
        r == pyth_price_of(quote, decimals),
{
    if !quote.trading {
        return Ok(None);
    }
    match rescale_price(quote.price, quote.expo, decimals) {
        None => Err(ErrorCode::ArithmeticOverflow),
        Some(v) => Ok(Some(v)),
    }
}

/// Relies on switchboard_program's `SwitchboardAccountType`: the tag byte
/// that opens an optimized aggregator-result account, 5 in its definition.
#[verifier::external_body]
fn optimized_result_tag() -> (r: u8)
    ensures
        r == 5,
{
    switchboard_program::SwitchboardAccountType::TYPE_AGGREGATOR_RESULT_PARSE_OPTIMIZED as u8
}

/// Whether the bytes of a Switchboard account open with the tag of an
/// optimized aggregator result.
pub open spec fn is_optimized_result(data: Seq<u8>) -> bool {
    data.len() > 0 && data[0] == 5
}

/// Checks that a Switchboard account holds an optimized aggregator result.
pub fn check_switchboard_account(data: &[u8]) -> (r: Result<(), ErrorCode>)
    ensures
        r is Ok <==> is_optimized_result(data@),
        r is Err ==> r == Err::<(), ErrorCode>(ErrorCode::SwitchboardAccountError),
{
    if data.len() == 0 || data[0] != optimized_result_tag() {
        Err(ErrorCode::SwitchboardAccountError)
    } else {
        Ok(())
    }
}

/// Whether `needle` occurs in `hay` at offset `i`.
pub open spec fn occurs_at(hay: Seq<u8>, needle: Seq<u8>, i: int) -> bool {
    0 <= i && i + needle.len() <= hay.len() && hay.subrange(i, i + needle.len()) == needle
}

pub open spec fn occurs_in(hay: Seq<u8>, needle: Seq<u8>) -> bool {
    exists|i: int| occurs_at(hay, needle, i)
}

/// The quote suffix of a USD-denominated Pyth product.
pub open spec fn usd_pair(symbol: Seq<u8>) -> Seq<u8> {
    symbol + seq![47u8, 85u8, 83u8, 68u8]
}

fn occurs_at_exec(hay: &[u8], needle: &Vec<u8>, i: usize) -> (r: bool)
    requires
        i + needle.len() <= hay.len(),
    ensures
        r == occurs_at(hay@, needle@, i as int),
{
    let mut k: usize = 0;
    while k < needle.len()
        invariant
            i + needle.len() <= hay.len(),
            k <= needle.len(),
            forall|j: int| 0 <= j < k ==> hay@[i + j] == needle@[j],
        decreases needle.len() - k,
    {
        if hay[i + k] != needle[k] {
            assert(hay@.subrange(i as int, i + needle.len())[k as int] != needle@[k as int]);
            return false;
        }
        k = k + 1;
    }
    assert(hay@.subrange(i as int, i + needle.len()) =~= needle@);
    true
}

/// Whether a Pyth product's attributes name `symbol` quoted in USD
/// (`SYMBOL/USD`).
pub fn product_names_symbol(attr: &[u8], symbol: &str) -> (r: bool)
    ensures
        r == occurs_in(attr@, usd_pair(symbol.spec_bytes())),
{
    let bytes = symbol.as_bytes();
    let mut needle: Vec<u8> = Vec::new();
    let mut k: usize = 0;
    while k < bytes.len()
        invariant
            k <= bytes.len(),
            needle@ == bytes@.subrange(0, k as int),
        decreases bytes.len() - k,
    {
        needle.push(bytes[k]);
        k = k + 1;
        assert(needle@ =~= bytes@.subrange(0, k as int));
    }
    needle.push(47u8);
    needle.push(85u8);
    needle.push(83u8);
    needle.push(68u8);
    assert(needle@ =~= usd_pair(bytes@));
    if needle.len() > attr.len() {
        return false;
    }
    let last = attr.len() - needle.len();
    let mut i: usize = 0;
    while i <= last
        invariant
            last == attr.len() - needle.len(),
            needle.len() <= attr.len(),
            needle@ == usd_pair(bytes@),
            bytes@ == symbol.spec_bytes(),
            forall|j: int| 0 <= j < i ==> !occurs_at(attr@, needle@, j),
        decreases last + 1 - i,
    {
        if occurs_at_exec(attr, &needle, i) {
            assert(occurs_at(attr@, usd_pair(symbol.spec_bytes()), i as int));
            return true;
        }
        i = i + 1;
    }
    false
}

} // verus!
