//! Reading a batch of card records out of a JSON document.
//!
//! The document is an object whose member `credit_cards` is an array. Each
//! element is an object with the string members `CreditCardNumber`,
//! `ExpDate` and `CVV`. Anything else is an error of the whole input: no
//! record is guessed at.

use vstd::prelude::*;
use crate::json::{json_in, json_of, jsons_of, member, member_of, read_json, Json};
use crate::records::{card_views, Card, CardView};

verus! {

/// Why a text holds no batch of card records.
#[derive(Clone, Copy, Debug, PartialEq, Eq, Structural)]
pub enum InputError {
    /// The text is not JSON.
    NotJson,
    /// The document is no object with an array under `credit_cards`.
    NoCardList,
    /// The element at `index` of the array is the first that is no object
    /// with the three string members of a card.
    BadRecord { index: usize },
}

/// The text of the string member of `json` under `key`.
pub open spec fn text_member(json: Json, key: Seq<char>) -> Option<Seq<char>> {
    match member_of(json, key) {
        Some(Json::Text(text)) => Some(text),
        _ => None,
    }
}

/// The card record that `json` holds, if it is an object with the three
/// string members of a card.
pub open spec fn card_of(json: Json) -> Option<CardView> {
    match (
        text_member(json, "CreditCardNumber"@),
        text_member(json, "ExpDate"@),
        text_member(json, "CVV"@),
    ) {
        (Some(number), Some(exp_date), Some(cvv)) => Some(CardView { number, exp_date, cvv }),
        _ => None,
    }
}

/// Whether the element at `i` holds no card while all before it do.
pub open spec fn is_first_bad(elements: Seq<Json>, i: int) -> bool {
    &&& 0 <= i < elements.len()
    &&& card_of(elements[i]) is None
    &&& forall|j: int| 0 <= j < i ==> card_of(#[trigger] elements[j]) is Some
}

/// The records of the card list `elements`, or the place of the first
/// element that holds none.
pub open spec fn cards_among(elements: Seq<Json>) -> Result<Seq<CardView>, InputError> {
    if exists|i: int| is_first_bad(elements, i) {
        Err(InputError::BadRecord { index: (choose|i: int| is_first_bad(elements, i)) as usize })
    } else {
        Ok(elements.map_values(|element: Json| card_of(element)->0))
    }
}

/// The batch of card records in `document`, where `None` stands for a text
/// that is not JSON.
pub open spec fn cards_of(document: Option<Json>) -> Result<Seq<CardView>, InputError> {
    match document {
        None => Err(InputError::NotJson),
        Some(root) => match member_of(root, "credit_cards"@) {
            Some(Json::Array(elements)) => cards_among(elements),
            _ => Err(InputError::NoCardList),
        },
    }
}

/// What a result of reading holds.
pub open spec fn outcome(r: Result<Vec<Card>, InputError>) -> Result<Seq<CardView>, InputError> {
    match r {
        Ok(cards) => Ok(card_views(cards@)),
        Err(e) => Err(e),
    }
}

/// With its first bad element at `k`, a list is refused there.
proof fn lemma_refused_at(elements: Seq<Json>, k: int)
    requires
        is_first_bad(elements, k),
        k <= usize::MAX,
    ensures
        cards_among(elements) == Err::<Seq<CardView>, InputError>(
            InputError::BadRecord { index: k as usize },
        ),
{
    let i = choose|i: int| is_first_bad(elements, i);
    assert(card_of(elements[i]) is None);
    assert(card_of(elements[k]) is None);
    assert(i == k);
}

/// Reads the string member of `value` under `key`.
fn read_text(value: &serde_json::Value, key: &str) -> (r: Option<String>)
    ensures
        match r {
            Some(text) => text_member(json_of(*value), key@) == Some(text@),
            None => text_member(json_of(*value), key@) is None,
        },
{
    match member(value, key) {
        None => None,
        Some(found) => match found.as_str() {
            None => None,
            Some(text) => Some(text.to_owned()),
        },
    }
}

/// Reads one card record out of `value`.
fn read_card(value: &serde_json::Value) -> (r: Option<Card>)
    ensures
        match r {
            Some(card) => card_of(json_of(*value)) == Some(card@),
            None => card_of(json_of(*value)) is None,
        },
{
    let number: String = match read_text(value, "CreditCardNumber") {
        Some(text) => text,
        None => {
            return None;
        },
    };
    let exp_date: String = match read_text(value, "ExpDate") {
        Some(text) => text,
        None => {
            return None;
        },
    };
    let cvv: String = match read_text(value, "CVV") {
        Some(text) => text,
        None => {
            return None;
        },
    };
    Some(Card { number, exp_date, cvv })
}

/// Reads the batch of card records out of a parsed document.
///
/// Fails where the document is no object with an array under
/// `credit_cards`, and at the first element of the array that is no card
/// record.
pub fn cards_in(document: &serde_json::Value) -> (r: Result<Vec<Card>, InputError>)
    ensures
        outcome(r) == cards_of(Some(json_of(*document))),
{
    let list: &serde_json::Value = match member(document, "credit_cards") {
        Some(found) => found,
        None => {
            return Err(InputError::NoCardList);
        },
    };
    let values: &Vec<serde_json::Value> = match list.as_array() {
        Some(values) => values,
        None => {
            return Err(InputError::NoCardList);
        },
    };
    let ghost elements = jsons_of(values@);
    let mut cards: Vec<Card> = Vec::new();
    let mut i: usize = 0;
    while i < values.len()
        invariant
            i <= values.len(),
            elements == jsons_of(values@),
            cards_of(Some(json_of(*document))) == cards_among(elements),
            cards.len() == i,
            forall|j: int| 0 <= j < i ==> card_of(#[trigger] elements[j]) == Some(cards[j]@),
        decreases values.len() - i,
    {
        match read_card(&values[i]) {
            Some(card) => {
                cards.push(card);
            },
            None => {
                proof {
                    assert(is_first_bad(elements, i as int));
                    lemma_refused_at(elements, i as int);
                }
                return Err(InputError::BadRecord { index: i });
            },
        }
        i = i + 1;
    }
    proof {
        assert forall|k: int| !is_first_bad(elements, k) by {
            if 0 <= k < elements.len() {
                assert(card_of(elements[k]) is Some);
            }
        }
        assert(card_views(cards@) =~= elements.map_values(|element: Json| card_of(element)->0));
    }
    Ok(cards)
}

/// Reads the batch of card records out of the JSON text `json_str`.
///
/// Fails where the text is not JSON, and where [`cards_in`] fails on the
/// document that it holds.
pub fn parse_json(json_str: &str) -> (r: Result<Vec<Card>, InputError>)
    ensures
        outcome(r) == cards_of(json_in(json_str@)),
{
    match read_json(json_str) {
        Ok(document) => cards_in(&document),
        Err(_) => Err(InputError::NotJson),
    }
}

} // verus!
