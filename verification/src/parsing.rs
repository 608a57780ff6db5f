//! Reading numbers and addresses from the text of the settings.

use vstd::prelude::*;
use crate::primitives::Address;

verus! {

/// The value of a decimal digit.
pub open spec fn digit_value(c: char) -> Option<nat> {
    if 48 <= c as int <= 57 {
        Some((c as int - 48) as nat)
    } else {
        None
    }
}

/// The number that a string of decimal digits stands for, the most
/// significant digit first; nothing if one of the characters is no digit.
pub open spec fn digits_value(digits: Seq<char>) -> Option<nat>
    decreases digits.len(),
{
    if digits.len() == 0 {
        Some(0nat)
    } else {
        match (digits_value(digits.drop_last()), digit_value(digits.last())) {
            (Some(front), Some(last)) => Some(10 * front + last),
            _ => None,
        }
    }
}

/// The number that a text stands for: an optional `+`, then one or more
/// decimal digits and nothing else.
pub open spec fn decimal(text: Seq<char>) -> Option<nat> {
    let digits = if text.len() > 0 && text[0] == '+' {
        text.drop_first()
    } else {
        text
    };
    if digits.len() == 0 {
        None
    } else {
        digits_value(digits)
    }
}

/// The 32-bit number that a text stands for, if it stands for one that
/// fits.
pub open spec fn parsed_u32(text: Seq<char>) -> Option<u32> {
    match decimal(text) {
        Some(n) => if n <= u32::MAX {
            Some(n as u32)
        } else {
            None
        },
        None => None,
    }
}

/// The 64-bit number that a text stands for, if it stands for one that
/// fits.
pub open spec fn parsed_u64(text: Seq<char>) -> Option<u64> {
    match decimal(text) {
        Some(n) => if n <= u64::MAX {
            Some(n as u64)
        } else {
            None
        },
        None => None,
    }
}

/// The address that a text of hexadecimal digits stands for, if it stands
/// for one.
pub uninterp spec fn parsed_address(text: Seq<char>) -> Option<Seq<u8>>;

/// The error of `str::parse` for a text that is no number.
#[verifier::external_type_specification]
#[verifier::external_body]
pub struct ExParseIntError(core::num::ParseIntError);

/// The error of the address parser for a text that is no address.
#[verifier::external_type_specification]
#[verifier::external_body]
pub struct ExFromHexError(rustc_hex::FromHexError);

/// Reads a decimal number with `str::parse::<u32>`. The text is a number
/// where it is an optional `+` and then decimal digits only, at least one,
/// whose value fits in 32 bits; every other text gives the parser's error.
#[verifier::external_body]
pub(crate) fn parse_u32(text: &str) -> (res: Result<u32, core::num::ParseIntError>)
    ensures
        res matches Ok(n) ==> parsed_u32(text@) == Some(n),
        res is Err ==> parsed_u32(text@) is None,
{
    text.parse::<u32>()
}

/// Reads a decimal number with `str::parse::<u64>`. The text is a number
/// where it is an optional `+` and then decimal digits only, at least one,
/// whose value fits in 64 bits; every other text gives the parser's error.
#[verifier::external_body]
pub(crate) fn parse_u64(text: &str) -> (res: Result<u64, core::num::ParseIntError>)
    ensures
        res matches Ok(n) ==> parsed_u64(text@) == Some(n),
        res is Err ==> parsed_u64(text@) is None,
{
    text.parse::<u64>()
}

/// Reads an address with the `FromStr` of `ethers::types::H160`, which
/// takes forty hexadecimal digits, with or without `0x` before them, and
/// passes over blanks, tabs and line ends among the digits. The contract
/// says no more than that the result depends on the text alone: the twenty
/// bytes where the parser takes the text, its error otherwise.
#[verifier::external_body]
pub(crate) fn parse_address(text: &str) -> (res: Result<Address, rustc_hex::FromHexError>)
    ensures
        res matches Ok(a) ==> parsed_address(text@) == Some(a@),
        res is Err ==> parsed_address(text@) is None,
{
    match text.parse::<ethers::types::H160>() {
        Ok(address) => Ok(Address { bytes: address.0 }),
        Err(e) => Err(e),
    }
}

/// Reads a 32-bit number from a text of the settings.
pub fn read_u32(text: &String) -> (res: Option<u32>)
    ensures
        res == parsed_u32(text@),
{
    match parse_u32(text.as_str()) {
        Ok(n) => Some(n),
        Err(_) => None,
    }
}

/// Reads a 64-bit number from a text of the settings.
pub fn read_u64(text: &String) -> (res: Option<u64>)
    ensures
        res == parsed_u64(text@),
{
    match parse_u64(text.as_str()) {
        Ok(n) => Some(n),
        Err(_) => None,
    }
}

/// Reads an address from a text of the settings.
pub fn read_address(text: &String) -> (res: Option<Address>)
    ensures
        res matches Some(a) ==> parsed_address(text@) == Some(a@),
        res is None ==> parsed_address(text@) is None,
{
    match parse_address(text.as_str()) {
        Ok(a) => Some(a),
        Err(_) => None,
    }
}

} // verus!
