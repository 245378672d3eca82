//! Money as an exact fixed-point decimal with four fractional digits.

use primitive_fixed_point_decimal::ConstScaleFpdec;
use primitive_fixed_point_decimal::ParseError;
use std::str::FromStr;
use vstd::prelude::*;

verus! {

/// The error of `primitive_fixed_point_decimal` for a literal that is no
/// decimal of the scale. It is carried through unopened.
#[verifier::external_type_specification]
#[verifier::external_body]
pub struct ExParseError(ParseError);

/// What `ConstScaleFpdec::<i64, 4>::from_str` returns for a text: the scaled
/// integer of the decimal it reads, or the reason it reads none.
pub uninterp spec fn parsed_mantissa(text: Seq<char>) -> Result<i64, ParseError>;

/// What the `Display` impl of `ConstScaleFpdec<i64, 4>` writes for the decimal
/// with this scaled integer. With no precision set it is the shortest text,
/// without trailing zeros; with a precision it has that many fractional
/// digits.
pub uninterp spec fn decimal_text(mantissa: int, precision: Option<nat>) -> Seq<char>;

/// The number of fractional digits of an amount.
pub const SCALE: usize = 4;

/// The largest precision that the `Display` impl of `ConstScaleFpdec` takes.
pub const MAX_PRECISION: usize = 200;

/// The shortest decimal text of a count of ten-thousandths.
pub open spec fn shortest_text(mantissa: int) -> Seq<char> {
    decimal_text(mantissa, None)
}

/// The decimal text, with four fractional digits, of a count of
/// ten-thousandths.
pub open spec fn fixed_text(mantissa: int) -> Seq<char> {
    decimal_text(mantissa, Some(SCALE as nat))
}

/// Calls `ConstScaleFpdec::<i64, 4>::from_str` and hands out the scaled
/// integer of the decimal. The contract only gives the result its name: the
/// same text always reads as the same value or fails with the same error.
#[verifier::external_body]
fn parse_mantissa(text: &str) -> (r: Result<i64, ParseError>)
    ensures
        r == parsed_mantissa(text@),
{
    match ConstScaleFpdec::<i64, 4>::from_str(text) {
        Ok(decimal) => Ok(decimal.mantissa()),
        Err(error) => Err(error),
    }
}

/// Calls `to_string`, which goes through the `Display` impl of
/// `ConstScaleFpdec<i64, 4>` with no option set, on the decimal with the
/// given scaled integer. The contract only names the text.
#[verifier::external_body]
fn write_shortest(mantissa: i64) -> (r: String)
    ensures
        r@ == decimal_text(mantissa as int, None),
{
    ConstScaleFpdec::<i64, 4>::from_mantissa(mantissa).to_string()
}

/// Formats the decimal with the given scaled integer through the `Display`
/// impl of `ConstScaleFpdec<i64, 4>` at the given precision. That impl
/// panics on a precision above 200, which is left out. The contract only
/// names the text.
#[verifier::external_body]
fn write_with_precision(mantissa: i64, precision: usize) -> (r: String)
    requires
        precision <= MAX_PRECISION,
    ensures
        r@ == decimal_text(mantissa as int, Some(precision as nat)),
{
    format!("{:.*}", precision, ConstScaleFpdec::<i64, 4>::from_mantissa(mantissa))
}

/// An exact amount of money: an integer count of ten-thousandths.
#[derive(Clone, Copy, Debug, PartialEq, Eq, Structural)]
pub struct Amount {
    /// The count of ten-thousandths.
    pub mantissa: i64,
}

impl View for Amount {
    type V = int;

    /// The amount in ten-thousandths, as a mathematical integer.
    open spec fn view(&self) -> int {
        self.mantissa as int
    }
}

/// Whether a count of ten-thousandths can be held by an `Amount`.
pub open spec fn representable(value: int) -> bool {
    i64::MIN <= value <= i64::MAX
}

/// The amount that a text reads as, or the reason it reads as none.
pub open spec fn parsed_amount(text: Seq<char>) -> Result<Amount, ParseError> {
    match parsed_mantissa(text) {
        Ok(mantissa) => Ok(Amount { mantissa }),
        Err(error) => Err(error),
    }
}

impl Amount {
    /// The amount of `mantissa` ten-thousandths.
    pub fn from_mantissa(mantissa: i64) -> (r: Amount)
        ensures
            r@ == mantissa,
    {
        Amount { mantissa }
    }

    /// The amount in ten-thousandths.
    pub fn mantissa(&self) -> (r: i64)
        ensures
            r == self@,
    {
        self.mantissa
    }

    /// The amount zero.
    pub fn zero() -> (r: Amount)
        ensures
            r@ == 0,
    {
        Amount { mantissa: 0 }
    }

    /// The exact sum, or `None` where it is not representable.
    pub fn checked_add(self, rhs: Amount) -> (r: Option<Amount>)
        ensures
            r is Some <==> representable(self@ + rhs@),
            r matches Some(sum) ==> sum@ == self@ + rhs@,
    {
        match self.mantissa.checked_add(rhs.mantissa) {
            Some(mantissa) => Some(Amount { mantissa }),
            None => None,
        }
    }

    /// The exact difference, or `None` where it is not representable.
    pub fn checked_sub(self, rhs: Amount) -> (r: Option<Amount>)
        ensures
            r is Some <==> representable(self@ - rhs@),
            r matches Some(difference) ==> difference@ == self@ - rhs@,
    {
        match self.mantissa.checked_sub(rhs.mantissa) {
            Some(mantissa) => Some(Amount { mantissa }),
            None => None,
        }
    }

    /// The exact sum.
    pub fn plus(self, rhs: Amount) -> (r: Amount)
        requires
            representable(self@ + rhs@),
        ensures
            r@ == self@ + rhs@,
    {
        Amount { mantissa: self.mantissa + rhs.mantissa }
    }

    /// The exact difference.
    pub fn minus(self, rhs: Amount) -> (r: Amount)
        requires
            representable(self@ - rhs@),
        ensures
            r@ == self@ - rhs@,
    {
        Amount { mantissa: self.mantissa - rhs.mantissa }
    }

    /// Reads a decimal literal with at most four fractional digits.
    pub fn parse(text: &str) -> (r: Result<Amount, ParseError>)
        ensures
            r == parsed_amount(text@),
    {
        match parse_mantissa(text) {
            Ok(mantissa) => Ok(Amount { mantissa }),
            Err(error) => Err(error),
        }
    }

    /// The amount as the shortest decimal text, without trailing zeros.
    pub fn to_string(&self) -> (r: String)
        ensures
            r@ == shortest_text(self@),
    {
        write_shortest(self.mantissa)
    }

    /// The amount as decimal text with exactly four fractional digits.
    pub fn to_fixed_string(&self) -> (r: String)
        ensures
            r@ == fixed_text(self@),
    {
        write_with_precision(self.mantissa, SCALE)
    }
}

impl FromStr for Amount {
    type Err = ParseError;

    /// Reads a decimal literal, as `Amount::parse` does.
    fn from_str(text: &str) -> (r: Result<Amount, ParseError>)
        ensures
            r == parsed_amount(text@),
    {
        Amount::parse(text)
    }
}

} // verus!
