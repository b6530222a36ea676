use geid_rewards::error::ContractError;
use geid_rewards::uint256::{Decimal256, U256, DECIMAL_FRACTIONAL};

const MAX: U256 = U256 { bytes: [255u8; 32] };

fn amount(value: u128) -> U256 {
    U256::from_u128(value)
}

#[test]
fn sum_of_small_amounts() {
    let a = U256::from_u128(10);
    let b = U256::from_u128(32);
    assert_eq!(a.checked_add(&b), Ok(U256::from_u128(42)));
}

#[test]
fn sum_past_the_limit_overflows() {
    let one = U256::from_u128(1);
    assert_eq!(MAX.checked_add(&one), Err(ContractError::ArithmeticOverflow));
    assert_eq!(MAX.checked_add(&MAX), Err(ContractError::ArithmeticOverflow));
    assert_eq!(MAX.checked_add(&U256::zero()), Ok(MAX));
}

#[test]
fn sum_carries_into_the_high_half() {
    let low = U256::from_u128(u128::MAX);
    let mut expected = [0u8; 32];
    expected[15] = 1;
    assert_eq!(low.checked_add(&amount(1)), Ok(U256::from_be_bytes(expected)));
}

#[test]
fn bytes_of_an_amount() {
    let mut expected = [0u8; 32];
    expected[30] = 0x01;
    expected[31] = 0x02;
    assert_eq!(amount(258).to_be_bytes(), expected);
    assert_eq!(U256::from_be_bytes(expected), amount(258));
    assert_eq!(amount(0).to_be_bytes(), [0u8; 32]);
    let mut high = [0u8; 32];
    for (i, b) in high.iter_mut().enumerate().skip(16) {
        *b = (i - 15) as u8;
    }
    assert_eq!(amount(0x0102030405060708090a0b0c0d0e0f10).to_be_bytes(), high);
    let mut full = [0u8; 32];
    for b in full.iter_mut().skip(16) {
        *b = 255;
    }
    assert_eq!(amount(u128::MAX).to_be_bytes(), full);
}

#[test]
fn zero_and_default() {
    assert_eq!(U256::zero(), amount(0));
    assert_eq!(U256::default(), amount(0));
    assert!(U256::zero().is_zero());
    assert!(!amount(1).is_zero());
    assert!(!MAX.is_zero());
    let mut high = [0u8; 32];
    high[0] = 1;
    assert!(!U256::from_be_bytes(high).is_zero());
}

#[test]
fn quotients() {
    assert_eq!(amount(7).checked_div(&amount(2)), Ok(amount(3)));
    assert_eq!(amount(0).checked_div(&amount(2)), Ok(amount(0)));
    assert_eq!(amount(2).checked_div(&amount(7)), Ok(amount(0)));
    assert_eq!(MAX.checked_div(&MAX), Ok(amount(1)));
    assert_eq!(MAX.checked_div(&amount(1)), Ok(MAX));
    assert_eq!(amount(7).checked_div(&amount(0)), Err(ContractError::DivisionByZero));
    assert_eq!(amount(0).checked_div(&amount(0)), Err(ContractError::DivisionByZero));
}

#[test]
fn ratios() {
    assert_eq!(amount(5).checked_multiply_ratio(&amount(99), &amount(100)), Ok(amount(4)));
    assert_eq!(amount(1000).checked_multiply_ratio(&amount(1), &amount(3)), Ok(amount(333)));
    assert_eq!(amount(0).checked_multiply_ratio(&amount(5), &amount(3)), Ok(amount(0)));
    // The product is taken at full width.
    assert_eq!(MAX.checked_multiply_ratio(&MAX, &MAX), Ok(MAX));
    assert_eq!(MAX.checked_multiply_ratio(&amount(3), &amount(3)), Ok(MAX));
    assert_eq!(
        MAX.checked_multiply_ratio(&amount(3), &amount(2)),
        Err(ContractError::ArithmeticOverflow)
    );
    assert_eq!(
        amount(1).checked_multiply_ratio(&amount(1), &amount(0)),
        Err(ContractError::DivisionByZero)
    );
    assert_eq!(
        MAX.checked_multiply_ratio(&MAX, &amount(0)),
        Err(ContractError::DivisionByZero)
    );
}

#[test]
fn decimal_numbers_have_eighteen_places() {
    assert_eq!(DECIMAL_FRACTIONAL, 1_000_000_000_000_000_000);
    assert_eq!(Decimal256::one().atomics(), amount(1_000_000_000_000_000_000));
    assert_eq!(Decimal256::zero().atomics(), amount(0));
    assert_eq!(Decimal256::new(amount(5)).atomics(), amount(5));
}
