//! Expiration dates in the form `MM/YY`, and the months they are held against.

use vstd::prelude::*;
use crate::digits::{all_digits, append_decimal, decimal_value, is_digit, to_digit};
use crate::digits::{lemma_append_decimal_concat, lemma_append_decimal_grows};

verus! {

/// A month of a year.
///
/// The month is kept as it was written or handed in: nothing confines it to
/// the twelve months of a calendar.
#[derive(Clone, Copy, Debug, PartialEq, Eq, Structural)]
pub struct YearMonth {
    pub year: i32,
    pub month: u32,
}

impl YearMonth {
    /// Whether `self` lies strictly before `other`: in an earlier year, or in
    /// the same year and an earlier month.
    pub open spec fn before(self, other: YearMonth) -> bool {
        self.year < other.year || (self.year == other.year && self.month < other.month)
    }

    /// Tests whether `self` lies strictly before `other`.
    pub fn is_before(&self, other: &YearMonth) -> (b: bool)
        ensures
            b == self.before(*other),
    {
        self.year < other.year || (self.year == other.year && self.month < other.month)
    }
}

/// The month that `text` writes: an optional `+`, then one or more decimal
/// digits whose value fits in 32 bits. Leading zeros do not count, and the
/// value is not held to the range of a calendar.
pub open spec fn month_of(text: Seq<char>) -> Option<u32> {
    let numeral = if text.len() > 0 && text[0] == '+' {
        text.skip(1)
    } else {
        text
    };
    if numeral.len() > 0 && all_digits(numeral) && decimal_value(numeral) <= u32::MAX {
        Some(decimal_value(numeral) as u32)
    } else {
        None
    }
}

/// The year that `text` stands for: the number written by `20` followed by
/// `text`, which must hold decimal digits only and stay within a signed
/// 32-bit number. Two digits give a year of this century; fewer or more are
/// read the same way.
pub open spec fn year_of(text: Seq<char>) -> Option<i32> {
    if all_digits(text) && append_decimal(20, text) <= i32::MAX {
        Some(append_decimal(20, text) as i32)
    } else {
        None
    }
}

/// Whether `text` has a `/` at `i` and nowhere else.
pub open spec fn is_sole_slash(text: Seq<char>, i: int) -> bool {
    &&& 0 <= i < text.len()
    &&& text[i] == '/'
    &&& forall|j: int| 0 <= j < text.len() && #[trigger] text[j] == '/' ==> j == i
}

/// The two parts that `/` separates in `text`, if it holds exactly one `/`.
pub open spec fn split_fields(text: Seq<char>) -> Option<(Seq<char>, Seq<char>)> {
    if exists|i: int| is_sole_slash(text, i) {
        let i = choose|i: int| is_sole_slash(text, i);
        Some((text.take(i), text.skip(i + 1)))
    } else {
        None
    }
}

/// The month and year that the expiration date `text` names, if it has the
/// form of a month, one `/`, and a year.
pub open spec fn expiration_of(text: Seq<char>) -> Option<YearMonth> {
    match split_fields(text) {
        Some((month_text, year_text)) => match (month_of(month_text), year_of(year_text)) {
            (Some(month), Some(year)) => Some(YearMonth { year, month }),
            _ => None,
        },
        None => None,
    }
}

/// The year is what the numeral `20` followed by the year's text writes.
pub proof fn lemma_year_prefixes_twenty(text: Seq<char>)
    ensures
        append_decimal(20, text) == decimal_value(seq!['2', '0'] + text),
{
    let twenty = seq!['2', '0'];
    lemma_append_decimal_concat(0, twenty, text);
    assert(twenty.drop_last() =~= seq!['2']);
    assert(seq!['2'].drop_last() =~= Seq::<char>::empty());
    assert(append_decimal(0, seq!['2']) == 2) by {
        reveal_with_fuel(append_decimal, 2);
    }
    assert(append_decimal(0, twenty) == 20);
}

/// A text with a `/` at two places has no sole `/`.
proof fn lemma_two_slashes(text: Seq<char>, a: int, b: int)
    requires
        0 <= a < b < text.len(),
        text[a] == '/',
        text[b] == '/',
    ensures
        split_fields(text) is None,
{
    assert forall|i: int| !is_sole_slash(text, i) by {
        if is_sole_slash(text, i) {
            assert(text[a] == '/' && text[b] == '/');
        }
    }
}

/// With its sole `/` at `k`, a text splits there.
proof fn lemma_split_at(text: Seq<char>, k: int)
    requires
        is_sole_slash(text, k),
    ensures
        split_fields(text) == Some((text.take(k), text.skip(k + 1))),
{
    let i = choose|i: int| is_sole_slash(text, i);
    assert(text[i] == '/');
    assert(i == k);
}

/// The characters of `s`, in order.
fn chars_of(s: &str) -> (v: Vec<char>)
    ensures
        v@ == s@,
{
    let mut v: Vec<char> = Vec::new();
    for c in it: s.chars()
        invariant
            it.seq() == s@,
            v@ == s@.take(it.index() as int),
    {
        v.push(c);
    }
    v
}

/// Reads the characters of `chars` from `from` up to `to` as decimal digits
/// written after `head`, as long as the number stays within `limit`.
fn read_decimal(chars: &Vec<char>, from: usize, to: usize, head: u64, limit: u64) -> (r: Option<u64>)
    requires
        from <= to <= chars.len(),
        head <= limit <= u32::MAX,
    ensures
        r == ({
            let numeral = chars@.subrange(from as int, to as int);
            if all_digits(numeral) && append_decimal(head as nat, numeral) <= limit {
                Some(append_decimal(head as nat, numeral) as u64)
            } else {
                None
            }
        }),
{
    let ghost numeral = chars@.subrange(from as int, to as int);
    let mut acc: u64 = head;
    let mut i: usize = from;
    while i < to
        invariant
            from <= i <= to <= chars.len(),
            head <= limit <= u32::MAX,
            numeral == chars@.subrange(from as int, to as int),
            all_digits(numeral.take(i - from)),
            acc == append_decimal(head as nat, numeral.take(i - from)),
            acc <= limit,
        decreases to - i,
    {
        let ghost seen = numeral.take(i - from);
        let ghost next = numeral.take(i + 1 - from);
        proof {
            assert(next.drop_last() =~= seen);
            assert(next.last() == chars@[i as int]);
        }
        match to_digit(chars[i]) {
            None => {
                assert(!is_digit(numeral[i - from]));
                return None;
            },
            Some(d) => {
                acc = acc * 10 + d as u64;
                proof {
                    assert(acc == append_decimal(head as nat, next));
                    assert forall|j: int| 0 <= j < next.len() implies is_digit(
                        #[trigger] next[j],
                    ) by {
                        if j < seen.len() {
                            assert(next[j] == seen[j]);
                        }
                    }
                }
                if acc > limit {
                    proof {
                        lemma_append_decimal_grows(head as nat, numeral, i + 1 - from);
                    }
                    return None;
                }
            },
        }
        i = i + 1;
    }
    proof {
        assert(numeral.take(to - from) =~= numeral);
    }
    Some(acc)
}

/// Reads an expiration date of the form `MM/YY`.
///
/// The text must hold exactly one `/`. What stands before it is the month: an
/// optional `+` and at least one digit. What stands after it is the year,
/// read after the digits `20`. `None` where the text has another form or a
/// number is too large.
pub fn parse_expiration(expiration: &str) -> (r: Option<YearMonth>)
    ensures
        r == expiration_of(expiration@),
{
    let chars: Vec<char> = chars_of(expiration);
    let n: usize = chars.len();
    let mut slash: Option<usize> = None;
    let mut i: usize = 0;
    while i < n
        invariant
            i <= n,
            n == chars.len(),
            chars@ == expiration@,
            match slash {
                Some(k) => k < i && chars@[k as int] == '/' && forall|j: int|
                    0 <= j < i && #[trigger] chars@[j] == '/' ==> j == k,
                None => forall|j: int| 0 <= j < i ==> #[trigger] chars@[j] != '/',
            },
        decreases n - i,
    {
        if chars[i] == '/' {
            match slash {
                Some(k) => {
                    proof {
                        lemma_two_slashes(chars@, k as int, i as int);
                    }
                    return None;
                },
                None => {
                    slash = Some(i);
                },
            }
        }
        i = i + 1;
    }
    let k: usize = match slash {
        Some(k) => k,
        None => {
            assert forall|i: int| !is_sole_slash(chars@, i) by {}
            return None;
        },
    };
    proof {
        assert(is_sole_slash(chars@, k as int));
        lemma_split_at(chars@, k as int);
        assert(chars@.take(k as int) =~= chars@.subrange(0, k as int));
        assert(chars@.skip(k + 1) =~= chars@.subrange(k + 1, n as int));
    }
    let signed: bool = k > 0 && chars[0] == '+';
    let start: usize = if signed {
        1
    } else {
        0
    };
    proof {
        let month_text = chars@.take(k as int);
        if signed {
            assert(month_text.skip(1) =~= chars@.subrange(1, k as int));
        } else {
            assert(month_text =~= chars@.subrange(0, k as int));
        }
    }
    if start == k {
        return None;
    }
    let month: u64 = match read_decimal(&chars, start, k, 0, 0xFFFF_FFFF) {
        Some(m) => m,
        None => {
            return None;
        },
    };
    let year: u64 = match read_decimal(&chars, k + 1, n, 20, 0x7FFF_FFFF) {
        Some(y) => y,
        None => {
            return None;
        },
    };
    Some(YearMonth { year: year as i32, month: month as u32 })
}

} // verus!
