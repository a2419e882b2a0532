//! Card brands, and the prefix rules that infer a brand from a card number.

use vstd::prelude::*;
use vstd::std_specs::iter::IteratorSpec;

verus! {

/// The brand of a payment card, as far as its number's first characters tell.
#[derive(Clone, Copy, Debug, PartialEq, Eq, Structural)]
pub enum Brand {
    Visa,
    Mastercard,
    AmericanExpress,
    Maestro,
    Discover,
    /// No prefix rule matches.
    Unknown,
}

/// The brand of the number `number`: the first prefix rule that matches decides.
///
/// The rules read the raw text, not the digits extracted from it: a number
/// that begins with a space or a letter has no brand.
pub open spec fn classify(number: Seq<char>) -> Brand {
    if seq!['3', '4'].is_prefix_of(number) || seq!['3', '7'].is_prefix_of(number) {
        Brand::AmericanExpress
    } else if seq!['4'].is_prefix_of(number) {
        Brand::Visa
    } else if seq!['5'].is_prefix_of(number) {
        Brand::Mastercard
    } else if seq!['6', '7'].is_prefix_of(number) {
        Brand::Maestro
    } else if seq!['6', '5'].is_prefix_of(number) || seq!['6', '4'].is_prefix_of(number) {
        Brand::Discover
    } else {
        Brand::Unknown
    }
}

/// The brand that the first one or two characters of `first`, `second`
/// indicate, where `None` stands for a character that the number lacks.
pub open spec fn brand_of_leading(first: Option<char>, second: Option<char>) -> Brand {
    match (first, second) {
        (Some('3'), Some('4')) | (Some('3'), Some('7')) => Brand::AmericanExpress,
        (Some('4'), _) => Brand::Visa,
        (Some('5'), _) => Brand::Mastercard,
        (Some('6'), Some('7')) => Brand::Maestro,
        (Some('6'), Some('5')) | (Some('6'), Some('4')) => Brand::Discover,
        _ => Brand::Unknown,
    }
}

/// The character of `s` at `i`, if `s` is that long.
pub open spec fn char_at(s: Seq<char>, i: int) -> Option<char> {
    if 0 <= i < s.len() {
        Some(s[i])
    } else {
        None
    }
}

/// A sequence of one character is a prefix of `s` when `s` starts with it.
pub proof fn lemma_prefix_of_one(s: Seq<char>, a: char)
    ensures
        seq![a].is_prefix_of(s) <==> char_at(s, 0) == Some(a),
{
    if s.len() >= 1 {
        assert(s.subrange(0, 1)[0] == s[0]);
    }
}

/// A sequence of two characters is a prefix of `s` when `s` starts with them.
pub proof fn lemma_prefix_of_two(s: Seq<char>, a: char, b: char)
    ensures
        seq![a, b].is_prefix_of(s) <==> char_at(s, 0) == Some(a) && char_at(s, 1) == Some(b),
{
    if s.len() >= 2 {
        assert(s.subrange(0, 2)[0] == s[0]);
        assert(s.subrange(0, 2)[1] == s[1]);
    }
}

/// The brand of a number depends on its first two characters only.
pub proof fn lemma_classify_reads_two(number: Seq<char>)
    ensures
        classify(number) == brand_of_leading(char_at(number, 0), char_at(number, 1)),
{
    lemma_prefix_of_two(number, '3', '4');
    lemma_prefix_of_two(number, '3', '7');
    lemma_prefix_of_one(number, '4');
    lemma_prefix_of_one(number, '5');
    lemma_prefix_of_two(number, '6', '7');
    lemma_prefix_of_two(number, '6', '5');
    lemma_prefix_of_two(number, '6', '4');
}

impl Brand {
    /// The brand's name as it is written in reports.
    pub open spec fn label_text(self) -> Seq<char> {
        match self {
            Brand::Visa => "Visa"@,
            Brand::Mastercard => "Mastercard"@,
            Brand::AmericanExpress => "American Express"@,
            Brand::Maestro => "Maestro"@,
            Brand::Discover => "Discover"@,
            Brand::Unknown => "Unknown"@,
        }
    }

    /// The brand's name as it is written in reports.
    pub fn label(&self) -> (name: &'static str)
        ensures
            name@ == self.label_text(),
    {
        match self {
            Brand::Visa => "Visa",
            Brand::Mastercard => "Mastercard",
            Brand::AmericanExpress => "American Express",
            Brand::Maestro => "Maestro",
            Brand::Discover => "Discover",
            Brand::Unknown => "Unknown",
        }
    }
}

/// Infers the brand of `card_number` from its first characters.
///
/// Total: a number that no rule covers, the empty one included, is `Unknown`.
pub fn get_brand(card_number: &str) -> (brand: Brand)
    ensures
        brand == classify(card_number@),
{
    let mut rest = card_number.chars();
    let first = rest.next();
    let second = rest.next();
    proof {
        lemma_classify_reads_two(card_number@);
    }
    match first {
        Some('4') => Brand::Visa,
        Some('5') => Brand::Mastercard,
        Some('3') => match second {
            Some('4') | Some('7') => Brand::AmericanExpress,
            _ => Brand::Unknown,
        },
        Some('6') => match second {
            Some('7') => Brand::Maestro,
            Some('5') | Some('4') => Brand::Discover,
            _ => Brand::Unknown,
        },
        _ => Brand::Unknown,
    }
}

} // verus!
