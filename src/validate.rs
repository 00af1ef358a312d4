//! Field validation and its typed errors.
use vstd::prelude::*;
use crate::decimal::Decimal;
use crate::text::trimmed;
use crate::text::{char_count_capped, has_more_chars_than};

verus! {

/// Why a field's value was refused.
#[derive(Clone, Copy, Debug, PartialEq, Eq, Structural)]
pub enum Reason {
    Required,
    MustBePositive,
    MustHaveLongerLen,
    MustHaveShorterLen,
    ParseDecimalError,
    ParseDateError,
    ParseMoneyError,
}

/// A refused field: its name and the reason.
#[derive(Clone, Debug, PartialEq, Eq)]
pub struct Invalid {
    pub field: String,
    pub reason: Reason,
}

/// Whether `e` names the field `field` and gives the reason `reason`.
pub open spec fn is_invalid(e: Invalid, field: Seq<char>, reason: Reason) -> bool {
    e.field@ == field && e.reason == reason
}

impl Invalid {
    /// The field is missing.
    pub fn required(field: String) -> (r: Invalid)
        ensures
            is_invalid(r, field@, Reason::Required),
    {
        Invalid { field, reason: Reason::Required }
    }

    /// The field is missing.
    pub fn required_str(field: &str) -> (r: Invalid)
        ensures
            is_invalid(r, field@, Reason::Required),
    {
        Invalid::required(field.to_owned())
    }

    /// The field holds no decimal number.
    pub fn parse_decimal_error(field: &str) -> (r: Invalid)
        ensures
            is_invalid(r, field@, Reason::ParseDecimalError),
    {
        Invalid { field: field.to_owned(), reason: Reason::ParseDecimalError }
    }

    /// The field holds no amount of money.
    pub fn parse_money_error(field: &str) -> (r: Invalid)
        ensures
            is_invalid(r, field@, Reason::ParseMoneyError),
    {
        Invalid { field: field.to_owned(), reason: Reason::ParseMoneyError }
    }

    /// The field holds no date.
    pub fn parse_date_error(field: &str) -> (r: Invalid)
        ensures
            is_invalid(r, field@, Reason::ParseDateError),
    {
        Invalid { field: field.to_owned(), reason: Reason::ParseDateError }
    }
}

/// Refuses a value that is zero or below.
pub fn validate_positive(field: &str, value: &Decimal) -> (r: Result<(), Invalid>)
    ensures
        value@.0 > 0 ==> r is Ok,
        value@.0 <= 0 ==> (r matches Err(e) && is_invalid(e, field@, Reason::MustBePositive)),
{
    if !value.is_positive() {
        return Err(Invalid { field: field.to_owned(), reason: Reason::MustBePositive });
    }
    Ok(())
}

/// The outcome of trimming a value and holding its length in characters to
/// `[min_len, max_len]`.
pub open spec fn trim_and_validate_len_spec(
    field: Seq<char>,
    value: Seq<char>,
    min_len: nat,
    max_len: nat,
    r: Result<String, Invalid>,
) -> bool {
    let t = trimmed(value);
    if t.len() < min_len {
        r matches Err(e) && is_invalid(e, field, Reason::MustHaveLongerLen)
    } else if t.len() > max_len {
        r matches Err(e) && is_invalid(e, field, Reason::MustHaveShorterLen)
    } else {
        r matches Ok(s) && s@ == t
    }
}

/// Trims white space from both ends of `value`, then refuses it where it has fewer
/// than `min_len` or more than `max_len` characters.
pub fn trim_and_validate_len(field: &str, value: &str, min_len: usize, max_len: usize) -> (r:
    Result<String, Invalid>)
    ensures
        trim_and_validate_len_spec(field@, value@, min_len as nat, max_len as nat, r),
{
    let value = value.trim();
    if char_count_capped(value, min_len) < min_len {
        return Err(Invalid { field: field.to_owned(), reason: Reason::MustHaveLongerLen });
    }
    if has_more_chars_than(value, max_len) {
        return Err(Invalid { field: field.to_owned(), reason: Reason::MustHaveShorterLen });
    }
    Ok(value.to_owned())
}

} // verus!
