//! Unsigned counters: the arithmetic that the state modules need of their
//! number types, stated over natural numbers.

use vstd::prelude::*;

verus! {

/// An unsigned integer type with a zero, a one, and checked arithmetic.
///
/// Every value stands for a natural number no larger than `limit()`.
pub trait Unsigned: Copy + Sized {
    /// The natural number that the value stands for.
    spec fn to_nat(self) -> nat;

    /// The largest number that the type can hold.
    spec fn limit() -> nat;

    /// No value exceeds the limit of its type.
    proof fn lemma_within_limit(self)
        ensures
            self.to_nat() <= Self::limit(),
    ;

    /// The additive identity.
    fn zero() -> (r: Self)
        ensures
            r.to_nat() == 0,
    ;

    /// The multiplicative identity.
    fn one() -> (r: Self)
        ensures
            r.to_nat() == 1,
    ;

    /// The sum, or `None` where it would exceed the limit.
    fn checked_add(self, rhs: Self) -> (r: Option<Self>)
        ensures
            self.to_nat() + rhs.to_nat() <= Self::limit() ==> r is Some && r.unwrap().to_nat()
                == self.to_nat() + rhs.to_nat(),
            self.to_nat() + rhs.to_nat() > Self::limit() ==> r is None,
    ;

    /// The difference, or `None` where it would fall below zero.
    fn checked_sub(self, rhs: Self) -> (r: Option<Self>)
        ensures
            self.to_nat() >= rhs.to_nat() ==> r is Some && r.unwrap().to_nat() == self.to_nat()
                - rhs.to_nat(),
            self.to_nat() < rhs.to_nat() ==> r is None,
    ;

    /// The sum of two values whose sum the type can hold.
    fn plus(self, rhs: Self) -> (r: Self)
        requires
            self.to_nat() + rhs.to_nat() <= Self::limit(),
        ensures
            r.to_nat() == self.to_nat() + rhs.to_nat(),
    ;
}

/// Calls `<u32 as num::Zero>::zero`, which returns the literal `0`.
#[verifier::external_body]
fn zero_u32() -> (r: u32)
    ensures
        r == 0,
{
    num::Zero::zero()
}

/// Calls `<u32 as num::One>::one`, which returns the literal `1`.
#[verifier::external_body]
fn one_u32() -> (r: u32)
    ensures
        r == 1,
{
    num::One::one()
}

/// Calls `<u32 as num::CheckedAdd>::checked_add`, which forwards to
/// `u32::checked_add`: the sum where it fits in a `u32`, else `None`.
#[verifier::external_body]
fn checked_add_u32(a: u32, b: u32) -> (r: Option<u32>)
    ensures
        a + b <= u32::MAX ==> r == Some((a + b) as u32),
        a + b > u32::MAX ==> r is None,
{
    num::CheckedAdd::checked_add(&a, &b)
}

/// Calls `<u32 as num::CheckedSub>::checked_sub`, which forwards to
/// `u32::checked_sub`: the difference where it is not negative, else `None`.
#[verifier::external_body]
fn checked_sub_u32(a: u32, b: u32) -> (r: Option<u32>)
    ensures
        a >= b ==> r == Some((a - b) as u32),
        a < b ==> r is None,
{
    num::CheckedSub::checked_sub(&a, &b)
}

/// Calls `<u128 as num::Zero>::zero`, which returns the literal `0`.
#[verifier::external_body]
fn zero_u128() -> (r: u128)
    ensures
        r == 0,
{
    num::Zero::zero()
}

/// Calls `<u128 as num::One>::one`, which returns the literal `1`.
#[verifier::external_body]
fn one_u128() -> (r: u128)
    ensures
        r == 1,
{
    num::One::one()
}

/// Calls `<u128 as num::CheckedAdd>::checked_add`, which forwards to
/// `u128::checked_add`: the sum where it fits in a `u128`, else `None`.
#[verifier::external_body]
fn checked_add_u128(a: u128, b: u128) -> (r: Option<u128>)
    ensures
        a + b <= u128::MAX ==> r == Some((a + b) as u128),
        a + b > u128::MAX ==> r is None,
{
    num::CheckedAdd::checked_add(&a, &b)
}

/// Calls `<u128 as num::CheckedSub>::checked_sub`, which forwards to
/// `u128::checked_sub`: the difference where it is not negative, else `None`.
#[verifier::external_body]
fn checked_sub_u128(a: u128, b: u128) -> (r: Option<u128>)
    ensures
        a >= b ==> r == Some((a - b) as u128),
        a < b ==> r is None,
{
    num::CheckedSub::checked_sub(&a, &b)
}

impl Unsigned for u32 {
    open spec fn to_nat(self) -> nat {
        self as nat
    }

    open spec fn limit() -> nat {
        u32::MAX as nat
    }

    proof fn lemma_within_limit(self) {
    }

    fn zero() -> (r: Self) {
        zero_u32()
    }

    fn one() -> (r: Self) {
        one_u32()
    }

    fn checked_add(self, rhs: Self) -> (r: Option<Self>) {
        checked_add_u32(self, rhs)
    }

    fn checked_sub(self, rhs: Self) -> (r: Option<Self>) {
        checked_sub_u32(self, rhs)
    }

    fn plus(self, rhs: Self) -> (r: Self) {
        self + rhs
    }
}

impl Unsigned for u128 {
    open spec fn to_nat(self) -> nat {
        self as nat
    }

    open spec fn limit() -> nat {
        u128::MAX as nat
    }

    proof fn lemma_within_limit(self) {
    }

    fn zero() -> (r: Self) {
        zero_u128()
    }

    fn one() -> (r: Self) {
        one_u128()
    }

    fn checked_add(self, rhs: Self) -> (r: Option<Self>) {
        checked_add_u128(self, rhs)
    }

    fn checked_sub(self, rhs: Self) -> (r: Option<Self>) {
        checked_sub_u128(self, rhs)
    }

    fn plus(self, rhs: Self) -> (r: Self) {
        self + rhs
    }
}

} // verus!
