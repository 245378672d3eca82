//! Reading the fields of a row into a transaction record.

use crate::amount::{parsed_amount, Amount};
use crate::error::Error;
use lexical_core::Error as LexicalError;
use std::str::Utf8Error;
use vstd::prelude::*;
use vstd::string::StringSliceAdditionalSpecFns;
use vstd::utf8::{decode_utf8, encode_utf8, valid_utf8};

verus! {

broadcast use vstd::utf8::encode_utf8_decode_utf8;

/// The ASCII minus sign.
pub const MINUS_SIGN: u8 = 0x2d;

/// The five kinds of transaction.
#[derive(Clone, Copy, Debug, PartialEq, Eq, Structural)]
pub enum TransactionType {
    Deposit,
    Withdrawal,
    Resolve,
    Dispute,
    Chargeback,
}

/// One row of the input, read and typed.
#[derive(Clone, Copy, Debug, PartialEq, Eq, Structural)]
pub struct TransactionRecord {
    pub kind: TransactionType,
    pub client: u16,
    pub transaction_id: u64,
    /// The amount of the row, where it has one. Deposits and withdrawals
    /// need it; the other kinds do not look at it.
    pub amount: Option<Amount>,
    /// The line of the row in the input, counted from one.
    pub line: u64,
}

/// What `lexical_core::parse::<u16>` returns for these bytes.
pub uninterp spec fn lexical_u16(bytes: Seq<u8>) -> Result<u16, LexicalError>;

/// What `lexical_core::parse::<u64>` returns for these bytes.
pub uninterp spec fn lexical_u64(bytes: Seq<u8>) -> Result<u64, LexicalError>;

/// The error that `std::str::from_utf8` returns for bytes that are not valid
/// UTF-8.
pub uninterp spec fn utf8_failure(bytes: Seq<u8>) -> Utf8Error;

/// What `str::trim` leaves of a text: the text without its leading and
/// trailing Unicode white space.
pub uninterp spec fn unicode_trimmed(text: Seq<char>) -> Seq<char>;

/// Calls `lexical_core::parse::<u16>`, which reads the whole of `bytes` as a
/// decimal number. The contract only gives the result its name.
#[verifier::external_body]
fn parse_u16(bytes: &[u8]) -> (r: Result<u16, LexicalError>)
    ensures
        r == lexical_u16(bytes@),
{
    lexical_core::parse::<u16>(bytes)
}

/// Calls `lexical_core::parse::<u64>`, which reads the whole of `bytes` as a
/// decimal number. The contract only gives the result its name.
#[verifier::external_body]
fn parse_u64(bytes: &[u8]) -> (r: Result<u64, LexicalError>)
    ensures
        r == lexical_u64(bytes@),
{
    lexical_core::parse::<u64>(bytes)
}

/// Calls `std::str::from_utf8`. It succeeds exactly on valid UTF-8, and the
/// text then has the bytes it was given; the error is only named.
#[verifier::external_body]
fn text_of(bytes: &[u8]) -> (r: Result<&str, Utf8Error>)
    ensures
        r is Ok <==> valid_utf8(bytes@),
        r matches Ok(text) ==> text.spec_bytes() == bytes@,
        r matches Err(error) ==> error == utf8_failure(bytes@),
{
    std::str::from_utf8(bytes)
}

/// Calls `str::trim`. The contract only gives the result its name.
#[verifier::external_body]
fn trim_text(text: &str) -> (r: &str)
    ensures
        r@ == unicode_trimmed(text@),
{
    text.trim()
}

/// The ASCII white space: space, tab, line feed, form feed, carriage return.
pub open spec fn is_ascii_space(byte: u8) -> bool {
    byte == 0x20 || byte == 0x09 || byte == 0x0a || byte == 0x0c || byte == 0x0d
}

/// The bytes without their leading ASCII white space.
pub open spec fn trimmed_start(bytes: Seq<u8>) -> Seq<u8>
    decreases bytes.len(),
{
    if bytes.len() > 0 && is_ascii_space(bytes.first()) {
        trimmed_start(bytes.drop_first())
    } else {
        bytes
    }
}

/// The bytes without their trailing ASCII white space.
pub open spec fn trimmed_end(bytes: Seq<u8>) -> Seq<u8>
    decreases bytes.len(),
{
    if bytes.len() > 0 && is_ascii_space(bytes.last()) {
        trimmed_end(bytes.drop_last())
    } else {
        bytes
    }
}

/// The bytes without their leading and trailing ASCII white space.
pub open spec fn trimmed(bytes: Seq<u8>) -> Seq<u8> {
    trimmed_end(trimmed_start(bytes))
}

/// Whether `start` and `end` bound the core of the bytes: nothing but white
/// space lies before and after it, and none at either end of it.
pub open spec fn bounds_core(bytes: Seq<u8>, start: int, end: int) -> bool {
    &&& 0 <= start <= end <= bytes.len()
    &&& forall|i: int| 0 <= i < start ==> is_ascii_space(#[trigger] bytes[i])
    &&& forall|i: int| end <= i < bytes.len() ==> is_ascii_space(#[trigger] bytes[i])
    &&& start < end ==> !is_ascii_space(bytes[start]) && !is_ascii_space(bytes[end - 1])
}

/// Trimmed bytes are the core of the bytes they were taken from.
pub proof fn trimmed_is_the_core(bytes: Seq<u8>) -> (bounds: (int, int))
    ensures
        bounds_core(bytes, bounds.0, bounds.1),
        trimmed(bytes) == bytes.subrange(bounds.0, bounds.1),
{
    assert(bytes.subrange(0, bytes.len() as int) =~= bytes);
    let start = start_of(bytes, 0);
    let end = end_of(bytes, start, bytes.len() as int);
    (start, end)
}

/// Walks over leading white space from `from` on.
proof fn start_of(bytes: Seq<u8>, from: int) -> (start: int)
    requires
        0 <= from <= bytes.len(),
    ensures
        from <= start <= bytes.len(),
        trimmed_start(bytes.subrange(from, bytes.len() as int)) == bytes.subrange(
            start,
            bytes.len() as int,
        ),
        forall|i: int| from <= i < start ==> is_ascii_space(#[trigger] bytes[i]),
        start < bytes.len() ==> !is_ascii_space(bytes[start]),
    decreases bytes.len() - from,
{
    let rest = bytes.subrange(from, bytes.len() as int);
    if from < bytes.len() && is_ascii_space(bytes[from]) {
        assert(rest.first() == bytes[from]);
        assert(rest.drop_first() =~= bytes.subrange(from + 1, bytes.len() as int));
        start_of(bytes, from + 1)
    } else {
        if from < bytes.len() {
            assert(rest.first() == bytes[from]);
        }
        from
    }
}

/// Walks back over trailing white space from `to` down to `start`.
proof fn end_of(bytes: Seq<u8>, start: int, to: int) -> (end: int)
    requires
        0 <= start <= to <= bytes.len(),
    ensures
        start <= end <= to,
        trimmed_end(bytes.subrange(start, to)) == bytes.subrange(start, end),
        forall|i: int| end <= i < to ==> is_ascii_space(#[trigger] bytes[i]),
        start < end ==> !is_ascii_space(bytes[end - 1]),
    decreases to - start,
{
    let part = bytes.subrange(start, to);
    if start < to && is_ascii_space(bytes[to - 1]) {
        assert(part.last() == bytes[to - 1]);
        assert(part.drop_last() =~= bytes.subrange(start, to - 1));
        end_of(bytes, start, to - 1)
    } else {
        if start < to {
            assert(part.last() == bytes[to - 1]);
        }
        to
    }
}

/// Whether a byte is ASCII white space.
fn is_space(byte: u8) -> (r: bool)
    ensures
        r == is_ascii_space(byte),
{
    byte == 0x20 || byte == 0x09 || byte == 0x0a || byte == 0x0c || byte == 0x0d
}

/// The bytes without their leading and trailing ASCII white space.
pub fn trim_ascii(bytes: &[u8]) -> (r: &[u8])
    ensures
        r@ == trimmed(bytes@),
{
    let mut start: usize = 0;
    let mut end: usize = bytes.len();
    while start < end && is_space(bytes[start])
        invariant
            start <= end == bytes@.len(),
            forall|i: int| 0 <= i < start ==> is_ascii_space(#[trigger] bytes@[i]),
        decreases end - start,
    {
        start += 1;
    }
    while end > start && is_space(bytes[end - 1])
        invariant
            start <= end <= bytes@.len(),
            forall|i: int| 0 <= i < start ==> is_ascii_space(#[trigger] bytes@[i]),
            forall|i: int| end <= i < bytes@.len() ==> is_ascii_space(#[trigger] bytes@[i]),
            start < bytes@.len() ==> !is_ascii_space(bytes@[start as int]),
        decreases end - start,
    {
        end -= 1;
    }
    proof {
        let bounds = trimmed_is_the_core(bytes@);
        // Both pairs of bounds cut the same white space off both ends.
        if bounds.0 < start {
            assert(is_ascii_space(bytes@[bounds.0]));
        }
        if start < bounds.0 {
            assert(is_ascii_space(bytes@[start as int]));
        }
        if start < bytes@.len() {
            if bounds.1 < end {
                assert(is_ascii_space(bytes@[end - 1]));
            }
            if end < bounds.1 {
                assert(is_ascii_space(bytes@[bounds.1 - 1]));
            }
        } else {
            assert(bytes@.subrange(start as int, end as int) =~= bytes@.subrange(
                bounds.0,
                bounds.1,
            ));
        }
    }
    &bytes[start..end]
}

/// The name of each kind of transaction, as the bytes of the word.
pub open spec fn name_of(kind: TransactionType) -> Seq<u8> {
    match kind {
        TransactionType::Deposit => encode_utf8("deposit"@),
        TransactionType::Withdrawal => encode_utf8("withdrawal"@),
        TransactionType::Dispute => encode_utf8("dispute"@),
        TransactionType::Resolve => encode_utf8("resolve"@),
        TransactionType::Chargeback => encode_utf8("chargeback"@),
    }
}

/// The kind of transaction that a field names, once trimmed. Names are
/// matched byte for byte: case counts.
pub open spec fn transaction_type_of(field: Seq<u8>) -> Option<TransactionType> {
    let name = trimmed(field);
    if name == name_of(TransactionType::Deposit) {
        Some(TransactionType::Deposit)
    } else if name == name_of(TransactionType::Withdrawal) {
        Some(TransactionType::Withdrawal)
    } else if name == name_of(TransactionType::Dispute) {
        Some(TransactionType::Dispute)
    } else if name == name_of(TransactionType::Resolve) {
        Some(TransactionType::Resolve)
    } else if name == name_of(TransactionType::Chargeback) {
        Some(TransactionType::Chargeback)
    } else {
        None
    }
}

/// Whether two runs of bytes are the same.
fn same_bytes(left: &[u8], right: &[u8]) -> (r: bool)
    ensures
        r == (left@ == right@),
{
    if left.len() != right.len() {
        return false;
    }
    let mut i: usize = 0;
    while i < left.len()
        invariant
            i <= left@.len() == right@.len(),
            forall|j: int| 0 <= j < i ==> left@[j] == right@[j],
        decreases left@.len() - i,
    {
        if left[i] != right[i] {
            return false;
        }
        i += 1;
    }
    assert(left@ =~= right@);
    true
}

/// Reads the kind of transaction from the first field of a row. Surrounding
/// ASCII white space is ignored; any other name is refused with the line.
pub fn parse_transaction_type(raw: &[u8], line_number: u64) -> (r: Result<TransactionType, Error>)
    ensures
        r == match transaction_type_of(raw@) {
            Some(kind) => Ok::<TransactionType, Error>(kind),
            None => Err::<TransactionType, Error>(Error::UnknownTransactionType(line_number)),
        },
{
    let name = trim_ascii(raw);
    if same_bytes(name, "deposit".as_bytes()) {
        Ok(TransactionType::Deposit)
    } else if same_bytes(name, "withdrawal".as_bytes()) {
        Ok(TransactionType::Withdrawal)
    } else if same_bytes(name, "dispute".as_bytes()) {
        Ok(TransactionType::Dispute)
    } else if same_bytes(name, "resolve".as_bytes()) {
        Ok(TransactionType::Resolve)
    } else if same_bytes(name, "chargeback".as_bytes()) {
        Ok(TransactionType::Chargeback)
    } else {
        Err(Error::UnknownTransactionType(line_number))
    }
}

/// The amount that a field holds. An empty field, once trimmed of ASCII
/// white space, holds none. A field that starts with a minus sign is refused
/// with the line; one that is not valid UTF-8, or that is no decimal with at
/// most four fractional digits, is refused with the error of the reader that
/// found it.
pub open spec fn scaled_value_of(field: Seq<u8>, line: u64) -> Result<Option<Amount>, Error> {
    let literal = trimmed(field);
    if literal.len() == 0 {
        Ok(None)
    } else if literal[0] == MINUS_SIGN {
        Err(Error::NegativeAmount(line))
    } else if !valid_utf8(literal) {
        Err(Error::Utf8(utf8_failure(literal)))
    } else {
        match parsed_amount(unicode_trimmed(decode_utf8(literal))) {
            Ok(amount) => Ok(Some(amount)),
            Err(error) => Err(Error::Parse(error)),
        }
    }
}

/// Reads the amount of a row from its field.
pub fn parse_scaled_value(byte_array: &[u8], line_number: u64) -> (r: Result<Option<Amount>, Error>)
    ensures
        r == scaled_value_of(byte_array@, line_number),
{
    let literal = trim_ascii(byte_array);
    if literal.len() == 0 {
        return Ok(None);
    }
    if literal[0] == MINUS_SIGN {
        return Err(Error::NegativeAmount(line_number));
    }
    match text_of(literal) {
        Err(error) => Err(Error::Utf8(error)),
        Ok(text) => match Amount::parse(trim_text(text)) {
            Ok(amount) => Ok(Some(amount)),
            Err(error) => Err(Error::Parse(error)),
        },
    }
}

/// The record that the fields of a row give, or the first failure in the
/// order type, client, transaction id, amount. A row may be short: a field
/// that is not there is missing. The amount is read wherever the row has the
/// field, whatever the kind of the transaction.
pub open spec fn record_of(fields: Seq<&[u8]>, line: u64) -> Result<TransactionRecord, Error> {
    if fields.len() < 1 {
        Err(Error::MissingTransactionType(line))
    } else if transaction_type_of(fields[0]@) is None {
        Err(Error::UnknownTransactionType(line))
    } else if fields.len() < 2 {
        Err(Error::MissingClient(line))
    } else if lexical_u16(fields[1]@) is Err {
        Err(Error::LexicalParse(lexical_u16(fields[1]@)->Err_0))
    } else if fields.len() < 3 {
        Err(Error::MissingTransactionId(line))
    } else if lexical_u64(fields[2]@) is Err {
        Err(Error::LexicalParse(lexical_u64(fields[2]@)->Err_0))
    } else if fields.len() >= 4 && scaled_value_of(fields[3]@, line) is Err {
        Err(scaled_value_of(fields[3]@, line)->Err_0)
    } else {
        Ok(
            TransactionRecord {
                kind: transaction_type_of(fields[0]@)->Some_0,
                client: lexical_u16(fields[1]@)->Ok_0,
                transaction_id: lexical_u64(fields[2]@)->Ok_0,
                amount: if fields.len() >= 4 {
                    scaled_value_of(fields[3]@, line)->Ok_0
                } else {
                    None
                },
                line,
            },
        )
    }
}

/// Reads the fields of a row into a record.
pub fn parse_record(fields: &[&[u8]], line_number: u64) -> (r: Result<TransactionRecord, Error>)
    ensures
        r == record_of(fields@, line_number),
{
    if fields.len() < 1 {
        return Err(Error::MissingTransactionType(line_number));
    }
    let kind = match parse_transaction_type(fields[0], line_number) {
        Ok(kind) => kind,
        Err(error) => {
            return Err(error);
        },
    };
    if fields.len() < 2 {
        return Err(Error::MissingClient(line_number));
    }
    let client = match parse_u16(fields[1]) {
        Ok(client) => client,
        Err(error) => {
            return Err(Error::LexicalParse(error));
        },
    };
    if fields.len() < 3 {
        return Err(Error::MissingTransactionId(line_number));
    }
    let transaction_id = match parse_u64(fields[2]) {
        Ok(transaction_id) => transaction_id,
        Err(error) => {
            return Err(Error::LexicalParse(error));
        },
    };
    let amount = if fields.len() >= 4 {
        match parse_scaled_value(fields[3], line_number) {
            Ok(amount) => amount,
            Err(error) => {
                return Err(error);
            },
        }
    } else {
        None
    };
    Ok(TransactionRecord { kind, client, transaction_id, amount, line: line_number })
}

} // verus!
