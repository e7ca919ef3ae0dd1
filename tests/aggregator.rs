use super_liquidity::aggregator::{
    average, calculate_price, calculate_price_three, check_switchboard_account, get_pyth_price,
    insertion_sort, product_names_symbol, rescale_price, std_dev, variation_coefficient, ErrorCode,
    PythQuote,
};

#[test]
fn aggregator_example() {
    let r = calculate_price(1000000000, 2000000000, 3001000000000, 3004000000000, 3005000000000);
    assert_eq!(r, Ok(3003333333333));
}

#[test]
fn aggregator_example_in_any_order() {
    let r = calculate_price(3005000000000, 1000000000, 3004000000000, 2000000000, 3001000000000);
    assert_eq!(r, Ok(3003333333333));
}

#[test]
fn divergence_rejection_example() {
    assert_eq!(calculate_price(100, 500, 900, 1300, 1700), Err(ErrorCode::PriceUpdateError));
}

#[test]
fn legacy_three_source_example() {
    assert_eq!(calculate_price_three(100, 102, 200), 101);
}

#[test]
fn three_source_tie_keeps_first_pair() {
    assert_eq!(calculate_price_three(10, 20, 30), 15);
    assert_eq!(calculate_price_three(200, 100, 102), 101);
    assert_eq!(calculate_price_three(u64::MAX, u64::MAX, 0), u64::MAX);
}

#[test]
fn window_tie_prefers_lowest() {
    let r = calculate_price(1000003, 1000000, 1000002, 1000001, 1000000);
    assert_eq!(r, Ok(1000000));
}

#[test]
fn identical_sources_agree() {
    assert_eq!(calculate_price(42, 42, 42, 42, 42), Ok(42));
}

#[test]
fn zero_average_rejected() {
    assert_eq!(calculate_price(0, 0, 0, 0, 0), Err(ErrorCode::ZeroAveragePrice));
    assert_eq!(calculate_price(0, 0, 1, 100, 100), Err(ErrorCode::ZeroAveragePrice));
}

#[test]
fn insertion_sort_orders() {
    let mut v = vec![5, 3, 9, 1, 1];
    insertion_sort(&mut v);
    assert_eq!(v, vec![1, 1, 3, 5, 9]);
    let mut empty: Vec<u64> = vec![];
    insertion_sort(&mut empty);
    assert!(empty.is_empty());
}

#[test]
fn statistics_of_a_window() {
    assert_eq!(average(&vec![1, 2]), 1);
    assert_eq!(average(&vec![u64::MAX, u64::MAX, u64::MAX]), u64::MAX);
    assert_eq!(std_dev(&vec![10, 20, 30]), Some(10));
    assert_eq!(std_dev(&vec![2, 4, 4, 4, 5, 5, 7, 9]), Some(2));
    assert_eq!(variation_coefficient(&vec![10, 20, 30]), Ok(500));
    assert_eq!(variation_coefficient(&vec![0, 0, 0]), Err(ErrorCode::ZeroAveragePrice));
}

#[test]
fn rescale_pyth_prices() {
    assert_eq!(rescale_price(12345, -2, 4), Some(1234500));
    assert_eq!(rescale_price(12345, -5, 2), Some(12));
    assert_eq!(rescale_price(12345, -2, 2), Some(12345));
    assert_eq!(rescale_price(-7, -2, 4), Some(0));
    assert_eq!(rescale_price(i64::MAX, 0, 20), None);
    assert_eq!(rescale_price(0, 0, 200), Some(0));
    assert_eq!(rescale_price(5, i32::MIN, 0), Some(0));
}

#[test]
fn pyth_quote_not_trading_is_left_out() {
    let quote = PythQuote { price: 100, expo: -2, trading: false };
    assert_eq!(get_pyth_price(quote, 2), Ok(None));
    let trading = PythQuote { price: 100, expo: -2, trading: true };
    assert_eq!(get_pyth_price(trading, 4), Ok(Some(10000)));
    let huge = PythQuote { price: i64::MAX, expo: 0, trading: true };
    assert_eq!(get_pyth_price(huge, 30), Err(ErrorCode::ArithmeticOverflow));
}

#[test]
fn switchboard_result_tag() {
    assert_eq!(check_switchboard_account(&[5, 0, 0]), Ok(()));
    assert_eq!(check_switchboard_account(&[1, 5]), Err(ErrorCode::SwitchboardAccountError));
    assert_eq!(check_switchboard_account(&[]), Err(ErrorCode::SwitchboardAccountError));
}

#[test]
fn product_symbol_search() {
    assert!(product_names_symbol(b"\x06symbol\x07SOL/USD", "SOL"));
    assert!(product_names_symbol(b"SOL/USD", "SOL"));
    assert!(!product_names_symbol(b"SOL/US", "SOL"));
    assert!(!product_names_symbol(b"mSOL/EUR", "SOL"));
    assert!(product_names_symbol(b"xSOLSOL/USDx", "SOL"));
    assert!(!product_names_symbol(b"", "SOL"));
}
