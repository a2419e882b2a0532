//! Card records as they come in and as they go out, and the filter that
//! turns a batch of the first into a batch of the second.

use vstd::prelude::*;
use crate::brand::{classify, Brand};
use crate::clock::local_year_month;
use crate::expiry::YearMonth;
use crate::validator::{accepts, validate, Verdict};

verus! {

/// A card record as it comes in: three texts, none of them checked yet.
#[derive(Clone, Debug, PartialEq, Eq)]
pub struct Card {
    pub number: String,
    pub exp_date: String,
    pub cvv: String,
}

/// What a [`Card`] holds.
pub struct CardView {
    pub number: Seq<char>,
    pub exp_date: Seq<char>,
    pub cvv: Seq<char>,
}

impl View for Card {
    type V = CardView;

    open spec fn view(&self) -> CardView {
        CardView { number: self.number@, exp_date: self.exp_date@, cvv: self.cvv@ }
    }
}

/// A record that passed validation, with the brand of its number.
#[derive(Clone, Debug, PartialEq, Eq)]
pub struct ValidatedCard {
    pub card_number: String,
    pub exp_date: String,
    pub cvv: String,
    pub brand: Brand,
    /// Always `true` in a record that [`validate_batch`] gives out.
    pub valid: bool,
}

/// What a [`ValidatedCard`] holds.
pub struct ValidatedCardView {
    pub card_number: Seq<char>,
    pub exp_date: Seq<char>,
    pub cvv: Seq<char>,
    pub brand: Brand,
    pub valid: bool,
}

impl View for ValidatedCard {
    type V = ValidatedCardView;

    open spec fn view(&self) -> ValidatedCardView {
        ValidatedCardView {
            card_number: self.card_number@,
            exp_date: self.exp_date@,
            cvv: self.cvv@,
            brand: self.brand,
            valid: self.valid,
        }
    }
}

impl ValidatedCardView {
    /// The incoming record that this one was made from.
    pub open spec fn card(self) -> CardView {
        CardView { number: self.card_number, exp_date: self.exp_date, cvv: self.cvv }
    }
}

/// What the records of `cards` hold, one by one.
pub open spec fn card_views(cards: Seq<Card>) -> Seq<CardView> {
    cards.map_values(|card: Card| card@)
}

/// What the records of `cards` hold, one by one.
pub open spec fn validated_views(cards: Seq<ValidatedCard>) -> Seq<ValidatedCardView> {
    cards.map_values(|card: ValidatedCard| card@)
}

/// The outgoing record for `card` if it is accepted as of `today`.
pub open spec fn enrich(card: CardView, today: YearMonth) -> Option<ValidatedCardView> {
    if accepts(card.number, card.exp_date, card.cvv, today) {
        Some(
            ValidatedCardView {
                card_number: card.number,
                exp_date: card.exp_date,
                cvv: card.cvv,
                brand: classify(card.number),
                valid: true,
            },
        )
    } else {
        None
    }
}

/// `enrich` as of `today` as a function value, for use with `Seq::filter_map`.
pub open spec fn enricher(today: YearMonth) -> spec_fn(CardView) -> Option<ValidatedCardView> {
    |card: CardView| enrich(card, today)
}

/// The outgoing batch for `cards` as of `today`: the accepted records, each
/// with its brand, in the order in which they came.
pub open spec fn accepted(cards: Seq<CardView>, today: YearMonth) -> Seq<ValidatedCardView> {
    cards.filter_map(enricher(today))
}

/// The incoming records that the outgoing records `cards` were made from.
pub open spec fn cards_again(cards: Seq<ValidatedCardView>) -> Seq<CardView> {
    cards.map_values(|card: ValidatedCardView| card.card())
}

/// One more incoming record adds its outgoing record to the batch, or
/// nothing.
pub proof fn lemma_accepted_push(cards: Seq<CardView>, card: CardView, today: YearMonth)
    ensures
        accepted(cards.push(card), today) == match enrich(card, today) {
            Some(kept) => accepted(cards, today).push(kept),
            None => accepted(cards, today),
        },
{
    assert(cards.push(card).drop_last() =~= cards);
    match enrich(card, today) {
        Some(kept) => {
            assert(accepted(cards, today) + seq![kept] =~= accepted(cards, today).push(kept));
        },
        None => {},
    }
}

/// Records are judged one by one: the outgoing batch of two batches joined
/// is the two outgoing batches joined. A batch may thus be validated in
/// parts.
pub proof fn lemma_accepted_in_parts(first: Seq<CardView>, second: Seq<CardView>, today: YearMonth)
    ensures
        accepted(first + second, today) == accepted(first, today) + accepted(second, today),
    decreases second.len(),
{
    if second.len() == 0 {
        assert(first + second =~= first);
        assert(accepted(first, today) + accepted(second, today) =~= accepted(first, today));
    } else {
        let rest = second.drop_last();
        let last = second.last();
        lemma_accepted_in_parts(first, rest, today);
        assert((first + rest).push(last) =~= first + second);
        assert(rest.push(last) =~= second);
        lemma_accepted_push(first + rest, last, today);
        lemma_accepted_push(rest, last, today);
        match enrich(last, today) {
            Some(kept) => {
                assert((accepted(first, today) + accepted(rest, today)).push(kept) =~= accepted(
                    first,
                    today,
                ) + accepted(rest, today).push(kept));
            },
            None => {},
        }
    }
}

/// An outgoing record, handed in again as of the same month, is accepted
/// again and comes out unchanged.
pub proof fn lemma_accepted_record_is_accepted_again(card: CardView, today: YearMonth)
    ensures
        enrich(card, today) matches Some(kept) ==> enrich(kept.card(), today) == Some(kept),
{
}

/// Every record of the outgoing batch is marked valid, carries the brand of
/// its number, which is a known one, and is made from an incoming record
/// that passes every check as of `today`.
pub proof fn lemma_accepted_records_pass(cards: Seq<CardView>, today: YearMonth)
    ensures
        accepted(cards, today).len() <= cards.len(),
        forall|i: int|
            0 <= i < accepted(cards, today).len() ==> {
                let kept = #[trigger] accepted(cards, today)[i];
                &&& kept.valid
                &&& kept.brand == classify(kept.card_number)
                &&& kept.brand != Brand::Unknown
                &&& accepts(kept.card_number, kept.exp_date, kept.cvv, today)
                &&& cards.contains(kept.card())
            },
    decreases cards.len(),
{
    if cards.len() > 0 {
        let rest = cards.drop_last();
        lemma_accepted_records_pass(rest, today);
        assert(rest.push(cards.last()) =~= cards);
        lemma_accepted_push(rest, cards.last(), today);
        assert forall|i: int| 0 <= i < accepted(cards, today).len() implies {
            let kept = #[trigger] accepted(cards, today)[i];
            &&& kept.valid
            &&& kept.brand == classify(kept.card_number)
            &&& kept.brand != Brand::Unknown
            &&& accepts(kept.card_number, kept.exp_date, kept.cvv, today)
            &&& cards.contains(kept.card())
        } by {
            let kept = accepted(cards, today)[i];
            if i < accepted(rest, today).len() {
                assert(kept == accepted(rest, today)[i]);
                let k = choose|k: int| 0 <= k < rest.len() && rest[k] == kept.card();
                assert(cards[k] == kept.card());
            } else {
                assert(enrich(cards.last(), today) == Some(kept));
                assert(cards[cards.len() - 1] == kept.card());
            }
        }
    }
}

/// The outgoing batch holds what is accepted and nothing else: a record is
/// in it exactly when it is the outgoing record of an incoming one.
pub proof fn lemma_accepted_is_the_accepted_subset(
    cards: Seq<CardView>,
    today: YearMonth,
    kept: ValidatedCardView,
)
    ensures
        accepted(cards, today).contains(kept) <==> exists|i: int|
            0 <= i < cards.len() && enrich(#[trigger] cards[i], today) == Some(kept),
    decreases cards.len(),
{
    if cards.len() > 0 {
        let rest = cards.drop_last();
        let last = cards.last();
        lemma_accepted_is_the_accepted_subset(rest, today, kept);
        assert(rest.push(last) =~= cards);
        lemma_accepted_push(rest, last, today);
        let before = accepted(rest, today);
        let all = accepted(cards, today);
        if all.contains(kept) {
            let i = choose|i: int| 0 <= i < all.len() && all[i] == kept;
            if i < before.len() {
                assert(before[i] == kept);
                assert(before.contains(kept));
                let k = choose|k: int| 0 <= k < rest.len() && enrich(#[trigger] rest[k], today) == Some(kept);
                assert(cards[k] == rest[k]);
            } else {
                assert(enrich(cards[cards.len() - 1], today) == Some(kept));
            }
        }
        if exists|i: int| 0 <= i < cards.len() && enrich(#[trigger] cards[i], today) == Some(kept) {
            let i = choose|i: int| 0 <= i < cards.len() && enrich(#[trigger] cards[i], today) == Some(kept);
            if i < rest.len() {
                assert(rest[i] == cards[i]);
                assert(before.contains(kept));
                let k = choose|k: int| 0 <= k < before.len() && before[k] == kept;
                assert(all[k] == kept);
            } else {
                assert(all[all.len() - 1] == kept);
            }
        }
    }
}

/// Validating an outgoing batch again, as of the same month, gives the same
/// batch: every record that was accepted is accepted again, and none is
/// changed.
pub proof fn lemma_validating_again_changes_nothing(cards: Seq<CardView>, today: YearMonth)
    ensures
        accepted(cards_again(accepted(cards, today)), today) == accepted(cards, today),
    decreases cards.len(),
{
    if cards.len() == 0 {
        assert(cards_again(accepted(cards, today)) =~= Seq::<CardView>::empty());
    } else {
        let rest = cards.drop_last();
        let last = cards.last();
        lemma_validating_again_changes_nothing(rest, today);
        assert(rest.push(last) =~= cards);
        lemma_accepted_push(rest, last, today);
        match enrich(last, today) {
            Some(kept) => {
                let before = accepted(rest, today);
                assert(cards_again(before.push(kept)) =~= cards_again(before).push(last));
                lemma_accepted_push(cards_again(before), last, today);
            },
            None => {},
        }
    }
}

/// Validates each record of `cards` as of `today` and keeps those that pass.
///
/// A record that fails is left out without a trace; it never stops the batch.
pub fn validate_batch(cards: &Vec<Card>, today: YearMonth) -> (out: Vec<ValidatedCard>)
    ensures
        validated_views(out@) == accepted(card_views(cards@), today),
        out.len() <= cards.len(),
        forall|i: int| 0 <= i < out.len() ==> (#[trigger] out[i]).valid && out[i].brand != Brand::Unknown,
{
    let ghost views = card_views(cards@);
    let mut out: Vec<ValidatedCard> = Vec::new();
    let mut i: usize = 0;
    while i < cards.len()
        invariant
            i <= cards.len(),
            views == card_views(cards@),
            validated_views(out@) == accepted(views.take(i as int), today),
            out.len() <= i,
            forall|k: int| 0 <= k < out.len() ==> (#[trigger] out[k]).valid && out[k].brand != Brand::Unknown,
        decreases cards.len() - i,
    {
        let card: &Card = &cards[i];
        let verdict: Verdict = validate(card.number.as_str(), card.exp_date.as_str(), card.cvv.as_str(), today);
        proof {
            views.lemma_filter_map_take_succ(enricher(today), i as int);
            assert(views[i as int] == card@);
        }
        if verdict.valid {
            let ghost before = out@;
            let kept = ValidatedCard {
                card_number: card.number.clone(),
                exp_date: card.exp_date.clone(),
                cvv: card.cvv.clone(),
                brand: verdict.brand,
                valid: true,
            };
            out.push(kept);
            proof {
                assert(enrich(card@, today) == Some(kept@));
                assert(validated_views(out@) =~= validated_views(before).push(kept@));
            }
        }
        i = i + 1;
    }
    proof {
        assert(views.take(cards.len() as int) =~= views);
    }
    out
}

/// Validates each record of `cards` as of the current local month and keeps
/// those that pass.
///
/// The batch is the one that [`validate_batch`] gives for some month of a
/// calendar: the one that the machine's clock and time zone gave, read once
/// for the whole batch.
pub fn validate_batch_now(cards: &Vec<Card>) -> (out: Vec<ValidatedCard>)
    ensures
        exists|today: YearMonth|
            1 <= today.month <= 12 && validated_views(out@) == #[trigger] accepted(
                card_views(cards@),
                today,
            ),
        out.len() <= cards.len(),
        forall|i: int| 0 <= i < out.len() ==> (#[trigger] out[i]).valid && out[i].brand != Brand::Unknown,
{
    let today: YearMonth = local_year_month();
    validate_batch(cards, today)
}

} // verus!
