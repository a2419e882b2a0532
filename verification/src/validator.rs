//! The decision on one card record: accepted or not, and of which brand.

use vstd::prelude::*;
use vstd::std_specs::iter::IteratorSpec;
use crate::brand::{classify, get_brand, Brand};
use crate::clock::local_year_month;
use crate::digits::{digits_of, extract_digits, lemma_digits_are_small};
use crate::expiry::{expiration_of, parse_expiration, YearMonth};
use crate::luhn::{check_luhn, lemma_luhn_usual_form, luhn_holds, luhn_sum};

verus! {

/// What validation says of one record.
#[derive(Clone, Copy, Debug, PartialEq, Eq, Structural)]
pub struct Verdict {
    /// Whether the record passed every check.
    pub valid: bool,
    /// The brand of the number, whether or not the record passed.
    pub brand: Brand,
}

/// Whether `number` holds 15 or 16 decimal digits of which the last is the
/// check digit of the others.
pub open spec fn number_passes(number: Seq<char>) -> bool {
    let digits = digits_of(number);
    15 <= digits.len() <= 16 && luhn_holds(digits)
}

/// Whether `expiration` names a month that is not strictly before `today`.
/// A card that expires in the current month is still fresh.
pub open spec fn is_fresh(expiration: Seq<char>, today: YearMonth) -> bool {
    match expiration_of(expiration) {
        Some(date) => !date.before(today),
        None => false,
    }
}

/// Whether the security code `cvv` is three characters long. Which
/// characters they are is not looked at.
pub open spec fn cvv_passes(cvv: Seq<char>) -> bool {
    cvv.len() == 3
}

/// Whether a record passes every check as of `today`.
pub open spec fn accepts(
    number: Seq<char>,
    expiration: Seq<char>,
    cvv: Seq<char>,
    today: YearMonth,
) -> bool {
    &&& number_passes(number)
    &&& is_fresh(expiration, today)
    &&& cvv_passes(cvv)
    &&& classify(number) != Brand::Unknown
}

/// For a number that passes, the checksum of the digits before the last and
/// the last digit add up to a multiple of ten, which is the usual form of the
/// test.
pub proof fn lemma_passing_number_in_usual_form(number: Seq<char>)
    requires
        number_passes(number),
    ensures
        (luhn_sum(digits_of(number).drop_last()) + digits_of(number).last()) % 10 == 0,
{
    lemma_digits_are_small(number);
    lemma_luhn_usual_form(digits_of(number));
}

/// Tests whether `text` is exactly three characters long.
fn is_three_long(text: &str) -> (b: bool)
    ensures
        b == (text@.len() == 3),
{
    let mut rest = text.chars();
    let first = rest.next();
    let second = rest.next();
    let third = rest.next();
    let fourth = rest.next();
    first.is_some() && second.is_some() && third.is_some() && fourth.is_none()
}

/// Validates one record as of `today`.
///
/// The record is valid where its number passes the checksum with 15 or 16
/// digits, its expiration date can be read and is not before `today`, its
/// security code is three characters long and its brand is known. The brand
/// is reported in either case. Nothing tells which check failed.
pub fn validate(number: &str, expiration: &str, cvv: &str, today: YearMonth) -> (verdict: Verdict)
    ensures
        verdict.valid == accepts(number@, expiration@, cvv@, today),
        verdict.brand == classify(number@),
        verdict.valid ==> 15 <= digits_of(number@).len() <= 16,
        verdict.valid ==> luhn_holds(digits_of(number@)),
        verdict.valid ==> (expiration_of(expiration@) matches Some(date) && !date.before(today)),
        verdict.valid ==> cvv@.len() == 3,
        verdict.valid ==> verdict.brand != Brand::Unknown,
{
    let brand: Brand = get_brand(number);
    let digits: Vec<u8> = extract_digits(number);
    if digits.len() > 16 || digits.len() < 15 {
        return Verdict { valid: false, brand };
    }
    if !check_luhn(&digits) {
        return Verdict { valid: false, brand };
    }
    match parse_expiration(expiration) {
        None => {
            return Verdict { valid: false, brand };
        },
        Some(date) => {
            if date.is_before(&today) {
                return Verdict { valid: false, brand };
            }
        },
    }
    if !is_three_long(cvv) {
        return Verdict { valid: false, brand };
    }
    let known: bool = match brand {
        Brand::Unknown => false,
        _ => true,
    };
    Verdict { valid: known, brand }
}

/// Validates one record as of the current local month.
///
/// The answer is the one that [`validate`] gives for some month of a
/// calendar: the one that the machine's clock and time zone gave.
pub fn validate_card(card_number: &str, expiration_date: &str, cvv: &str) -> (valid: bool)
    ensures
        exists|today: YearMonth|
            1 <= today.month <= 12 && valid == #[trigger] accepts(
                card_number@,
                expiration_date@,
                cvv@,
                today,
            ),
        valid ==> number_passes(card_number@) && cvv_passes(cvv@) && classify(card_number@)
            != Brand::Unknown && expiration_of(expiration_date@) is Some,
        !number_passes(card_number@) || !cvv_passes(cvv@) || classify(card_number@)
            == Brand::Unknown || expiration_of(expiration_date@) is None ==> !valid,
{
    let today: YearMonth = local_year_month();
    let verdict: Verdict = validate(card_number, expiration_date, cvv, today);
    verdict.valid
}

} // verus!
