//! Unsigned 256-bit amounts and the fixed-point shares computed from them.
//!
//! The arithmetic is done by `cosmwasm_std::Uint256`; this module holds the
//! values as plain bytes and states what each operation returns.

use crate::bigendian::{
    be_value, is_zero_be, lemma_be_value_bound, lemma_be_value_concat, lemma_be_value_injective,
    lemma_be_value_leading_zeros, lemma_be_value_single, lemma_be_value_zero, lemma_pow256_step,
};
use crate::error::ContractError;
use vstd::arithmetic::power::{lemma_pow0, pow};
use vstd::prelude::*;

verus! {

/// The first number that no longer fits in 256 bits: 2^256.
pub open spec fn u256_limit() -> nat {
    pow(256, 32) as nat
}

/// The number of atomic units in one whole share: 10^18.
pub const DECIMAL_FRACTIONAL: u128 = 1_000_000_000_000_000_000u128;

/// An unsigned 256-bit integer, held as its 32 bytes, most significant first.
#[derive(Clone, Copy, Debug, PartialEq, Eq)]
pub struct U256 {
    pub bytes: [u8; 32],
}

impl View for U256 {
    type V = nat;

    /// The number that the 32 bytes spell.
    open spec fn view(&self) -> nat {
        be_value(self.bytes@)
    }
}

/// `cosmwasm_std::OverflowError`, the error of `Uint256::checked_add`. It
/// is passed on unread.
#[verifier::external_type_specification]
#[verifier::external_body]
pub struct ExOverflowError(cosmwasm_std::OverflowError);

/// `cosmwasm_std::DivideByZeroError`, the error of `Uint256::checked_div`.
/// It is passed on unread.
#[verifier::external_type_specification]
#[verifier::external_body]
pub struct ExDivideByZeroError(cosmwasm_std::DivideByZeroError);

/// Why a multiplication by a ratio gave no result.
enum RatioError {
    /// The denominator was zero.
    DivideByZero,
    /// The floored quotient does not fit in 256 bits.
    Overflow,
}

/// `cosmwasm_std::Uint256::checked_add`, on numbers that
/// `Uint256::from_be_bytes` reads and with a sum that `Uint256::to_be_bytes`
/// writes: the sum of the two numbers where it fits in 256 bits, and an
/// error where it does not.
#[verifier::external_body]
fn uint256_checked_add(a: &U256, b: &U256) -> (sum: Result<U256, cosmwasm_std::OverflowError>)
    ensures
        sum is Ok <==> a@ + b@ < u256_limit(),
        sum matches Ok(s) ==> s@ == a@ + b@,
{
    let x = cosmwasm_std::Uint256::from_be_bytes(a.bytes);
    let y = cosmwasm_std::Uint256::from_be_bytes(b.bytes);
    match x.checked_add(y) {
        Ok(s) => Ok(U256 { bytes: s.to_be_bytes() }),
        Err(e) => Err(e),
    }
}

/// `cosmwasm_std::Uint256::checked_div`, with the same conversions: the
/// floored quotient of the two numbers, and an error exactly where the
/// divisor is zero.
#[verifier::external_body]
fn uint256_checked_div(a: &U256, b: &U256) -> (quotient: Result<
    U256,
    cosmwasm_std::DivideByZeroError,
>)
    ensures
        quotient is Ok <==> b@ != 0,
        quotient matches Ok(q) ==> q@ == a@ / b@,
{
    let x = cosmwasm_std::Uint256::from_be_bytes(a.bytes);
    let y = cosmwasm_std::Uint256::from_be_bytes(b.bytes);
    match x.checked_div(y) {
        Ok(q) => Ok(U256 { bytes: q.to_be_bytes() }),
        Err(e) => Err(e),
    }
}

/// `cosmwasm_std::Uint256::checked_multiply_ratio`, with the same
/// conversions: `a * numerator / denominator`, floored, with the product
/// taken at full width. It fails where the denominator is zero, and
/// otherwise where the quotient does not fit in 256 bits. The two variants
/// of its error are handed on as the two variants of `RatioError`.
#[verifier::external_body]
fn uint256_checked_multiply_ratio(a: &U256, numerator: &U256, denominator: &U256) -> (ratio: Result<
    U256,
    RatioError,
>)
    ensures
        denominator@ == 0 ==> ratio matches Err(RatioError::DivideByZero),
        denominator@ != 0 && (a@ * numerator@) / denominator@ >= u256_limit() ==> ratio matches Err(
            RatioError::Overflow,
        ),
        denominator@ != 0 && (a@ * numerator@) / denominator@ < u256_limit() ==> ratio is Ok,
        ratio matches Ok(r) ==> r@ == (a@ * numerator@) / denominator@,
{
    let x = cosmwasm_std::Uint256::from_be_bytes(a.bytes);
    let n = cosmwasm_std::Uint256::from_be_bytes(numerator.bytes);
    let d = cosmwasm_std::Uint256::from_be_bytes(denominator.bytes);
    match x.checked_multiply_ratio(n, d) {
        Ok(r) => Ok(U256 { bytes: r.to_be_bytes() }),
        Err(cosmwasm_std::CheckedMultiplyRatioError::DivideByZero) => Err(RatioError::DivideByZero),
        Err(cosmwasm_std::CheckedMultiplyRatioError::Overflow) => Err(RatioError::Overflow),
    }
}

/// What an addition of 256-bit numbers gives: the sum, or
/// `ArithmeticOverflow` where the sum does not fit.
pub open spec fn sum_outcome(a: nat, b: nat) -> Result<nat, ContractError> {
    if a + b < u256_limit() {
        Ok(a + b)
    } else {
        Err(ContractError::ArithmeticOverflow)
    }
}

/// What a division of 256-bit numbers gives: the floored quotient, or
/// `DivisionByZero` where the divisor is zero.
pub open spec fn quotient_outcome(a: nat, divisor: nat) -> Result<nat, ContractError> {
    if divisor == 0 {
        Err(ContractError::DivisionByZero)
    } else {
        Ok(a / divisor)
    }
}

/// What `a * numerator / denominator` gives: `DivisionByZero` where the
/// denominator is zero; otherwise the floored quotient of the full product,
/// or `ArithmeticOverflow` where that quotient does not fit in 256 bits.
pub open spec fn ratio_outcome(a: nat, numerator: nat, denominator: nat) -> Result<
    nat,
    ContractError,
> {
    if denominator == 0 {
        Err(ContractError::DivisionByZero)
    } else if (a * numerator) / denominator >= u256_limit() {
        Err(ContractError::ArithmeticOverflow)
    } else {
        Ok((a * numerator) / denominator)
    }
}

/// True when `result` is the amount, or the error, that `outcome` names.
pub open spec fn agrees(
    result: Result<U256, ContractError>,
    outcome: Result<nat, ContractError>,
) -> bool {
    match (result, outcome) {
        (Ok(amount), Ok(n)) => amount@ == n,
        (Err(e), Err(f)) => e == f,
        _ => false,
    }
}

impl U256 {
    /// Zero.
    pub fn zero() -> (z: U256)
        ensures
            z@ == 0,
    {
        let z = U256 { bytes: [0u8; 32] };
        proof {
            lemma_be_value_zero(z.bytes@);
        }
        z
    }

    /// The number spelled by 32 bytes, most significant first.
    pub fn from_be_bytes(bytes: [u8; 32]) -> (n: U256)
        ensures
            n.bytes == bytes,
            n@ == be_value(bytes@),
    {
        U256 { bytes }
    }

    /// The 32 bytes of the number, most significant first.
    pub fn to_be_bytes(&self) -> (bytes: [u8; 32])
        ensures
            bytes == self.bytes,
            be_value(bytes@) == self@,
    {
        self.bytes
    }

    /// The 256-bit number equal to `value`.
    pub fn from_u128(value: u128) -> (n: U256)
        ensures
            n@ == value,
    {
        let mut bytes: [u8; 32] = [0u8; 32];
        let mut rest: u128 = value;
        let mut i: usize = 0;
        proof {
            lemma_pow0(256);
        }
        while i < 16
            invariant
                i <= 16,
                forall|j: int| 0 <= j < 32 - i ==> bytes@[j] == 0,
                be_value(bytes@.subrange(32 - i, 32)) + rest * pow(256, i as nat) == value,
            decreases 16 - i,
        {
            let low: u8 = (rest % 256) as u8;
            let ghost before = bytes@;
            bytes[31 - i] = low;
            proof {
                let tail = before.subrange(32 - i, 32);
                assert(bytes@.subrange(31 - i, 32) =~= seq![low] + tail);
                lemma_be_value_concat(seq![low], tail);
                lemma_be_value_single(low);
                lemma_pow256_step(i as nat);
                let p = pow(256, i as nat);
                let r = rest as int;
                assert((r / 256) * (256 * p) + (r % 256) * p == r * p) by (nonlinear_arith);
            }
            rest = rest / 256;
            i += 1;
        }
        proof {
            let p = pow(256, 16);
            assert(p == 0x1_0000_0000_0000_0000_0000_0000_0000_0000int) by {
                reveal_with_fuel(pow, 17);
            }
            let r = rest as int;
            assert(r >= 1 ==> r * p >= p) by (nonlinear_arith)
                requires
                    p > 0,
            ;
            assert(rest == 0);
            let zeros = bytes@.subrange(0, 16);
            let low = bytes@.subrange(16, 32);
            assert(bytes@ =~= zeros + low);
            lemma_be_value_leading_zeros(zeros, low);
        }
        U256 { bytes }
    }

    /// Tells whether the number is zero.
    pub fn is_zero(&self) -> (zero: bool)
        ensures
            zero == (self@ == 0),
    {
        is_zero_be(self.bytes.as_slice())
    }

    /// The sum of the two numbers, or `ArithmeticOverflow` where it does not
    /// fit in 256 bits.
    pub fn checked_add(&self, other: &U256) -> (sum: Result<U256, ContractError>)
        ensures
            agrees(sum, sum_outcome(self@, other@)),
    {
        match uint256_checked_add(self, other) {
            Ok(s) => Ok(s),
            Err(_) => Err(ContractError::ArithmeticOverflow),
        }
    }

    /// The floored quotient of the two numbers, or `DivisionByZero` where
    /// the divisor is zero.
    pub fn checked_div(&self, divisor: &U256) -> (quotient: Result<U256, ContractError>)
        ensures
            agrees(quotient, quotient_outcome(self@, divisor@)),
    {
        match uint256_checked_div(self, divisor) {
            Ok(q) => Ok(q),
            Err(_) => Err(ContractError::DivisionByZero),
        }
    }

    /// `self * numerator / denominator`, floored, with the product taken at
    /// full width: `DivisionByZero` where the denominator is zero, and
    /// otherwise `ArithmeticOverflow` where the quotient does not fit in 256
    /// bits.
    pub fn checked_multiply_ratio(&self, numerator: &U256, denominator: &U256) -> (ratio: Result<
        U256,
        ContractError,
    >)
        ensures
            agrees(ratio, ratio_outcome(self@, numerator@, denominator@)),
    {
        match uint256_checked_multiply_ratio(self, numerator, denominator) {
            Ok(r) => Ok(r),
            Err(RatioError::DivideByZero) => Err(ContractError::DivisionByZero),
            Err(RatioError::Overflow) => Err(ContractError::ArithmeticOverflow),
        }
    }
}

impl Default for U256 {
    /// Zero.
    fn default() -> (z: U256)
        ensures
            z@ == 0,
    {
        U256::zero()
    }
}

/// A number with 18 decimal places, held as the count of its atomic units:
/// the number times 10^18.
#[derive(Clone, Copy, Debug, PartialEq, Eq)]
pub struct Decimal256 {
    pub atomics: U256,
}

impl View for Decimal256 {
    type V = nat;

    /// The count of atomic units.
    open spec fn view(&self) -> nat {
        self.atomics@
    }
}

impl Decimal256 {
    /// The number that has `atomics` atomic units.
    pub fn new(atomics: U256) -> (d: Decimal256)
        ensures
            d.atomics == atomics,
    {
        Decimal256 { atomics }
    }

    /// The number 1.
    pub fn one() -> (d: Decimal256)
        ensures
            d@ == DECIMAL_FRACTIONAL,
    {
        Decimal256 { atomics: U256::from_u128(DECIMAL_FRACTIONAL) }
    }

    /// The number 0.
    pub fn zero() -> (d: Decimal256)
        ensures
            d@ == 0,
    {
        Decimal256 { atomics: U256::zero() }
    }

    /// The count of atomic units.
    pub fn atomics(&self) -> (atomics: U256)
        ensures
            atomics == self.atomics,
    {
        self.atomics
    }
}

/// Two amounts of one value are one amount.
pub proof fn lemma_u256_view_injective(a: U256, b: U256)
    requires
        a@ == b@,
    ensures
        a == b,
{
    lemma_be_value_injective(a.bytes@, b.bytes@);
    assert(a.bytes == b.bytes);
}

/// Every amount is below 2^256.
pub proof fn lemma_u256_bound(a: U256)
    ensures
        a@ < u256_limit(),
{
    lemma_be_value_bound(a.bytes@);
}

} // verus!
