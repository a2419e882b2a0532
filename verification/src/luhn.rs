//! The checksum over a card number's digits.

use vstd::prelude::*;

verus! {

/// What the digit `d` adds to the checksum when it stands `pos` places from
/// the right end of the payload (the rightmost payload digit has `pos` 0).
///
/// At even places the digit is doubled, and 9 is taken off a result over 9,
/// which is the sum of the two decimal digits of the doubled value.
pub open spec fn luhn_term(d: u8, pos: int) -> int {
    if pos % 2 == 0 {
        if 2 * d > 9 {
            2 * d - 9
        } else {
            2 * d
        }
    } else {
        d as int
    }
}

/// The sum of the terms of all digits of `payload`, each weighted by its
/// place counted from the right.
pub open spec fn luhn_sum(payload: Seq<u8>) -> int
    decreases payload.len(),
{
    if payload.len() == 0 {
        0
    } else {
        luhn_term(payload.first(), payload.len() - 1) + luhn_sum(payload.drop_first())
    }
}

/// The check digit that belongs to `payload`.
pub open spec fn luhn_check_digit(payload: Seq<u8>) -> int {
    (luhn_sum(payload) * 9) % 10
}

/// Whether the last digit of `digits` is the check digit of those before it.
pub open spec fn luhn_holds(digits: Seq<u8>) -> bool {
    digits.len() > 0 && luhn_check_digit(digits.drop_last()) == digits.last()
}

/// The checksum is never negative.
pub proof fn lemma_luhn_sum_nonnegative(payload: Seq<u8>)
    ensures
        luhn_sum(payload) >= 0,
    decreases payload.len(),
{
    if payload.len() > 0 {
        lemma_luhn_sum_nonnegative(payload.drop_first());
    }
}

/// For a check digit of at most nine, the test agrees with the usual one:
/// the checksum of the payload and the check digit add up to a multiple of
/// ten.
pub proof fn lemma_luhn_usual_form(digits: Seq<u8>)
    requires
        digits.len() > 0,
        digits.last() <= 9,
    ensures
        luhn_holds(digits) <==> (luhn_sum(digits.drop_last()) + digits.last()) % 10 == 0,
{
    lemma_luhn_sum_nonnegative(digits.drop_last());
}

/// The checksum of the first `len` digits of `digits`, modulo ten.
fn checksum_mod_ten(digits: &Vec<u8>, len: usize) -> (sum: u8)
    requires
        len <= digits.len(),
    ensures
        sum == luhn_sum(digits@.take(len as int)) % 10,
{
    let ghost payload = digits@.take(len as int);
    let mut sum: u8 = 0;
    let mut i: usize = len;
    while i > 0
        invariant
            i <= len <= digits.len(),
            payload == digits@.take(len as int),
            0 <= sum < 10,
            sum == luhn_sum(payload.skip(i as int)) % 10,
        decreases i,
    {
        i = i - 1;
        let d: u8 = digits[i];
        let place: usize = len - 1 - i;
        let doubled: u16 = if place % 2 == 0 {
            2 * (d as u16)
        } else {
            d as u16
        };
        let term: u16 = if place % 2 == 0 && doubled > 9 {
            doubled - 9
        } else {
            doubled
        };
        proof {
            let tail = payload.skip(i as int);
            assert(tail.first() == d);
            assert(tail.len() - 1 == place);
            assert(tail.drop_first() =~= payload.skip(i as int + 1));
            assert(term == luhn_term(d, place as int));
            lemma_luhn_sum_nonnegative(payload.skip(i as int + 1));
        }
        sum = ((sum as u16 + term) % 10) as u8;
    }
    proof {
        assert(payload.skip(0) =~= payload);
    }
    sum
}

/// Computes the check digit that belongs to `payload`.
pub fn check_digit(payload: &Vec<u8>) -> (digit: u8)
    ensures
        digit == luhn_check_digit(payload@),
{
    let sum: u8 = checksum_mod_ten(payload, payload.len());
    proof {
        assert(payload@.take(payload.len() as int) =~= payload@);
        lemma_luhn_sum_nonnegative(payload@);
    }
    ((sum as u16 * 9) % 10) as u8
}

/// Tests whether the last of `digits` is the check digit of the others.
///
/// An empty sequence has no check digit and fails.
pub fn check_luhn(digits: &Vec<u8>) -> (ok: bool)
    ensures
        ok == luhn_holds(digits@),
{
    let n: usize = digits.len();
    if n == 0 {
        return false;
    }
    let sum: u8 = checksum_mod_ten(digits, n - 1);
    proof {
        assert(digits@.take(n - 1) =~= digits@.drop_last());
        lemma_luhn_sum_nonnegative(digits@.drop_last());
    }
    (sum as u16 * 9) % 10 == digits[n - 1] as u16
}

} // verus!
