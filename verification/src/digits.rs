//! Decimal digits in text: which characters are digits, what they are worth,
//! and the digits that a text holds.

use vstd::prelude::*;

verus! {

/// Whether `c` is one of the ten ASCII decimal digits.
pub open spec fn is_digit(c: char) -> bool {
    '0' <= c <= '9'
}

/// The value of the decimal digit `c`, or `None` for any other character.
pub open spec fn decimal_digit(c: char) -> Option<u8> {
    if is_digit(c) {
        Some((c as int - '0' as int) as u8)
    } else {
        None
    }
}

/// The value of `c` as a decimal digit; zero for a character that is none.
pub open spec fn digit_value(c: char) -> nat {
    match decimal_digit(c) {
        Some(d) => d as nat,
        None => 0,
    }
}

/// `decimal_digit` as a function value, for use with `Seq::filter_map`.
pub open spec fn digit_reader() -> spec_fn(char) -> Option<u8> {
    |c: char| decimal_digit(c)
}

/// The values of the decimal digits in `text`, in the order in which they
/// stand there; every other character is passed over.
pub open spec fn digits_of(text: Seq<char>) -> Seq<u8> {
    text.filter_map(digit_reader())
}

/// Whether every character of `text` is a decimal digit.
pub open spec fn all_digits(text: Seq<char>) -> bool {
    forall|i: int| 0 <= i < text.len() ==> is_digit(#[trigger] text[i])
}

/// A text holds no more digits than characters, and each digit is at most
/// nine.
pub proof fn lemma_digits_are_small(text: Seq<char>)
    ensures
        digits_of(text).len() <= text.len(),
        forall|i: int| 0 <= i < digits_of(text).len() ==> #[trigger] digits_of(text)[i] <= 9,
    decreases text.len(),
{
    if text.len() > 0 {
        lemma_digits_are_small(text.drop_last());
    }
}

/// The number that the decimal notation of `head`, followed by the
/// characters of `tail` read as digits, writes.
///
/// With `head` zero it is the value of the numeral `tail`.
pub open spec fn append_decimal(head: nat, tail: Seq<char>) -> nat
    decreases tail.len(),
{
    if tail.len() == 0 {
        head
    } else {
        append_decimal(head, tail.drop_last()) * 10 + digit_value(tail.last())
    }
}

/// The value of the numeral `text`.
pub open spec fn decimal_value(text: Seq<char>) -> nat {
    append_decimal(0, text)
}

/// More digits never write a smaller number: what the first `i` characters
/// of `tail` write is at most what all of them write.
pub proof fn lemma_append_decimal_grows(head: nat, tail: Seq<char>, i: int)
    requires
        0 <= i <= tail.len(),
    ensures
        append_decimal(head, tail.take(i)) <= append_decimal(head, tail),
    decreases tail.len(),
{
    if i == tail.len() {
        assert(tail.take(i) =~= tail);
    } else {
        lemma_append_decimal_grows(head, tail.drop_last(), i);
        assert(tail.drop_last().take(i) =~= tail.take(i));
    }
}

/// Writing digits after a numeral is writing them after its value.
pub proof fn lemma_append_decimal_concat(head: nat, first: Seq<char>, second: Seq<char>)
    ensures
        append_decimal(head, first + second) == append_decimal(
            append_decimal(head, first),
            second,
        ),
    decreases second.len(),
{
    if second.len() == 0 {
        assert(first + second =~= first);
    } else {
        lemma_append_decimal_concat(head, first, second.drop_last());
        assert((first + second).drop_last() =~= first + second.drop_last());
    }
}

/// Reads `c` as a decimal digit.
pub fn to_digit(c: char) -> (d: Option<u8>)
    ensures
        d == decimal_digit(c),
{
    if c >= '0' && c <= '9' {
        Some((c as u32 - '0' as u32) as u8)
    } else {
        None
    }
}

/// Extracts the decimal digits of `text`, keeping their order.
pub fn extract_digits(text: &str) -> (digits: Vec<u8>)
    ensures
        digits@ == digits_of(text@),
{
    let mut digits: Vec<u8> = Vec::new();
    for c in it: text.chars()
        invariant
            it.seq() == text@,
            digits@ == digits_of(text@.take(it.index() as int)),
    {
        proof {
            text@.lemma_filter_map_take_succ(digit_reader(), it.index() as int);
        }
        match to_digit(c) {
            Some(d) => {
                digits.push(d);
            },
            None => {},
        }
    }
    proof {
        assert(text@.take(text@.len() as int) =~= text@);
    }
    digits
}

} // verus!
