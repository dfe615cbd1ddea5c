//! Integers of arbitrary size, as the engine's BigInt values need them.
use vstd::prelude::*;
use crate::decimal::{decimal, decimal_value, is_decimal};

verus! {

#[verifier::external_type_specification]
#[verifier::external_body]
pub struct ExBigInt(num_bigint::BigInt);

/// The integer that a `num_bigint::BigInt` holds.
pub uninterp spec fn big_value(b: num_bigint::BigInt) -> int;

/// `Clone::clone` of `num_bigint::BigInt`: the copy holds the same integer.
pub assume_specification[ <num_bigint::BigInt as Clone>::clone ](b: &num_bigint::BigInt) -> (r:
    num_bigint::BigInt)
    ensures
        big_value(r) == big_value(*b),
;

/// `num_bigint::BigInt::from(i64)`: the big integer that holds `n`.
#[verifier::external_body]
fn big_from_i64(n: i64) -> (b: num_bigint::BigInt)
    ensures
        big_value(b) == n,
{
    num_bigint::BigInt::from(n)
}

/// `num_traits::ToPrimitive::to_i64` of `num_bigint::BigInt`: the integer as
/// an `i64` where it fits, and `None` where it does not.
#[verifier::external_body]
fn big_to_i64(b: &num_bigint::BigInt) -> (r: Option<i64>)
    ensures
        match r {
            Some(n) => n == big_value(*b),
            None => big_value(*b) < i64::MIN || big_value(*b) > i64::MAX,
        },
{
    num_traits::ToPrimitive::to_i64(b)
}

/// `PartialEq::eq` of `num_bigint::BigInt`: two big integers are equal when
/// they hold the same integer.
#[verifier::external_body]
fn big_eq(a: &num_bigint::BigInt, b: &num_bigint::BigInt) -> (r: bool)
    ensures
        r == (big_value(*a) == big_value(*b)),
{
    a == b
}

/// `num_bigint::BigInt::to_str_radix` with radix 10: a minus sign for a
/// negative number, then the digits of the magnitude without leading zeros.
#[verifier::external_body]
fn big_to_decimal(b: &num_bigint::BigInt) -> (s: String)
    ensures
        s@ == decimal(big_value(*b)),
{
    b.to_str_radix(10)
}

/// `num_bigint::BigInt::parse_bytes` with radix 10, on the bytes of a text:
/// a text made of an optional minus sign and digits is read as the integer
/// it denotes. Nothing is claimed of other texts.
#[verifier::external_body]
fn big_parse_decimal(s: &str) -> (r: Option<num_bigint::BigInt>)
    ensures
        is_decimal(s@) ==> r.is_some() && big_value(r.unwrap()) == decimal_value(s@),
{
    num_bigint::BigInt::parse_bytes(s.as_bytes(), 10)
}

/// A big integer in one of two shapes: a machine integer, or an integer of
/// arbitrary size.
#[derive(Clone, Debug)]
pub enum BigIntOrI64 {
    Int(i64),
    BigInt(num_bigint::BigInt),
}

impl BigIntOrI64 {
    /// The integer held, whatever the shape.
    pub open spec fn value(self) -> int {
        match self {
            BigIntOrI64::Int(i) => i as int,
            BigIntOrI64::BigInt(b) => big_value(b),
        }
    }

    /// Whether two values hold the same integer; the shape does not matter.
    pub fn same(&self, other: &Self) -> (r: bool)
        ensures
            r == (self.value() == other.value()),
    {
        match (self, other) {
            (BigIntOrI64::Int(i), BigIntOrI64::Int(j)) => *i == *j,
            (BigIntOrI64::Int(i), BigIntOrI64::BigInt(b)) => big_eq(b, &big_from_i64(*i)),
            (BigIntOrI64::BigInt(b), BigIntOrI64::Int(i)) => big_eq(b, &big_from_i64(*i)),
            (BigIntOrI64::BigInt(a), BigIntOrI64::BigInt(b)) => big_eq(a, b),
        }
    }
}

/// A value of the script language's BigInt type.
#[derive(Clone, Debug)]
pub struct JsBigInt {
    pub inner: BigIntOrI64,
}

impl View for JsBigInt {
    type V = int;

    open spec fn view(&self) -> int {
        self.inner.value()
    }
}

impl JsBigInt {
    /// The BigInt that holds a machine integer.
    pub fn from_i64(n: i64) -> (b: Self)
        ensures
            b@ == n,
            b.inner == BigIntOrI64::Int(n),
    {
        JsBigInt { inner: BigIntOrI64::Int(n) }
    }

    /// The BigInt that holds an integer of arbitrary size.
    pub fn from_bigint(bigint: num_bigint::BigInt) -> (b: Self)
        ensures
            b@ == big_value(bigint),
            b.inner == BigIntOrI64::BigInt(bigint),
    {
        JsBigInt { inner: BigIntOrI64::BigInt(bigint) }
    }

    /// A copy that holds the same integer.
    pub fn duplicate(&self) -> (copy: Self)
        ensures
            copy@ == self@,
    {
        match &self.inner {
            BigIntOrI64::Int(n) => JsBigInt::from_i64(*n),
            BigIntOrI64::BigInt(bigint) => JsBigInt::from_bigint(bigint.clone()),
        }
    }

    /// Returns `Some` if the value fits into `i64` and `None` otherwise.
    pub fn as_i64(&self) -> (r: Option<i64>)
        ensures
            r == (if i64::MIN <= self@ <= i64::MAX {
                Some(self@ as i64)
            } else {
                None
            }),
    {
        match &self.inner {
            BigIntOrI64::Int(n) => Some(*n),
            BigIntOrI64::BigInt(bigint) => big_to_i64(bigint),
        }
    }

    /// Converts the value into a `num_bigint::BigInt`.
    pub fn into_bigint(self) -> (b: num_bigint::BigInt)
        ensures
            big_value(b) == self@,
    {
        match self.inner {
            BigIntOrI64::Int(n) => big_from_i64(n),
            BigIntOrI64::BigInt(bigint) => bigint,
        }
    }

    /// The decimal text of the value.
    pub fn to_decimal(&self) -> (s: String)
        ensures
            s@ == decimal(self@),
    {
        match &self.inner {
            BigIntOrI64::Int(n) => crate::decimal::signed_to_string(*n),
            BigIntOrI64::BigInt(bigint) => big_to_decimal(bigint),
        }
    }

    /// Reads a decimal text. A text made of an optional minus sign and digits
    /// gives the integer it denotes.
    pub fn parse_decimal(text: &str) -> (r: Option<Self>)
        ensures
            is_decimal(text@) ==> r.is_some() && r.unwrap()@ == decimal_value(text@),
    {
        match big_parse_decimal(text) {
            Some(bigint) => Some(JsBigInt::from_bigint(bigint)),
            None => None,
        }
    }
}

impl PartialEq for JsBigInt {
    fn eq(&self, other: &Self) -> (r: bool) {
        self.inner.same(&other.inner)
    }
}

impl vstd::std_specs::cmp::PartialEqSpecImpl for JsBigInt {
    open spec fn obeys_eq_spec() -> bool {
        true
    }

    open spec fn eq_spec(&self, other: &Self) -> bool {
        self@ == other@
    }
}

} // verus!
