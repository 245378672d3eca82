//! The failures that stop a run.

use crate::account::AccountError;
use lexical_core::Error as LexicalError;
use primitive_fixed_point_decimal::ParseError;
use std::str::Utf8Error;
use vstd::prelude::*;

verus! {

/// The error of `std::str::from_utf8`. It is carried through unopened.
#[verifier::external_type_specification]
#[verifier::external_body]
pub struct ExUtf8Error(Utf8Error);

/// The error of `lexical_core::parse`. It is carried through unopened.
#[verifier::external_type_specification]
#[verifier::external_body]
pub struct ExLexicalError(LexicalError);

/// Why a run stopped. Each failure of a row carries the row's line.
#[derive(Debug)]
pub enum Error {
    /// The amount is not valid UTF-8.
    Utf8(Utf8Error),
    /// The amount is no decimal with at most four fractional digits.
    Parse(ParseError),
    /// The client or the transaction id is no unsigned integer of its width.
    LexicalParse(LexicalError),
    /// The row has no transaction type; the line.
    MissingTransactionType(u64),
    /// The row has no client; the line.
    MissingClient(u64),
    /// The row has no transaction id; the line.
    MissingTransactionId(u64),
    /// A deposit or withdrawal has no amount; the line.
    MissingAmount(u64),
    /// The amount starts with a minus sign; the line.
    NegativeAmount(u64),
    /// The transaction type is none of the five known ones; the line.
    UnknownTransactionType(u64),
    /// A dispute names a transaction not open to dispute; its id and the line.
    NoTransaction(u64, u64),
    /// A resolution or chargeback names a transaction not under dispute; its
    /// id and the line.
    NoDispute(u64, u64),
}

impl Error {
    /// The failure of an account, as a failure of the row on `line`.
    pub open spec fn on_line(error: AccountError, line: u64) -> Error {
        match error {
            AccountError::NoTransaction(id) => Error::NoTransaction(id, line),
            AccountError::NoDispute(id) => Error::NoDispute(id, line),
        }
    }

    /// Attaches the line of the row to the failure of an account.
    pub fn from_account(error: AccountError, line: u64) -> (r: Error)
        ensures
            r == Error::on_line(error, line),
    {
        match error {
            AccountError::NoTransaction(id) => Error::NoTransaction(id, line),
            AccountError::NoDispute(id) => Error::NoDispute(id, line),
        }
    }
}

} // verus!
