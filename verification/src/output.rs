//! Writing a batch of validated records as a JSON document.
//!
//! The document is an object whose member `validated_credit_cards` is an
//! array with one object for each record, in the order of the batch. Each
//! holds the string members `card_number`, `exp_date`, `cvv` and `brand`,
//! and the boolean member `valid`.

use vstd::prelude::*;
use crate::json::{array_value, flag_value, object_value, text_value, write_pretty};
use crate::json::{distinct_keys, json_of, jsons_of, members_from, pretty_text, Json};
use crate::records::{validated_views, ValidatedCard, ValidatedCardView};

verus! {

/// The JSON object that stands for the record `card`.
pub open spec fn record_json(card: ValidatedCardView) -> Json {
    Json::Object(
        map![
            "card_number"@ => Json::Text(card.card_number),
            "exp_date"@ => Json::Text(card.exp_date),
            "cvv"@ => Json::Text(card.cvv),
            "brand"@ => Json::Text(card.brand.label_text()),
            "valid"@ => Json::Bool(card.valid),
        ],
    )
}

/// The JSON document that stands for the batch `cards`.
pub open spec fn report_of(cards: Seq<ValidatedCardView>) -> Json {
    Json::Object(
        map![
            "validated_credit_cards"@ => Json::Array(
                cards.map_values(|card: ValidatedCardView| record_json(card)),
            ),
        ],
    )
}

/// Builds the JSON object that stands for `card`.
fn record_value(card: &ValidatedCard) -> (value: serde_json::Value)
    ensures
        json_of(value) == record_json(card@),
{
    let mut pairs: Vec<(String, serde_json::Value)> = Vec::new();
    pairs.push(("card_number".to_owned(), text_value(card.card_number.as_str())));
    pairs.push(("exp_date".to_owned(), text_value(card.exp_date.as_str())));
    pairs.push(("cvv".to_owned(), text_value(card.cvv.as_str())));
    pairs.push(("brand".to_owned(), text_value(card.brand.label())));
    pairs.push(("valid".to_owned(), flag_value(card.valid)));
    proof {
        reveal_strlit("card_number");
        reveal_strlit("exp_date");
        reveal_strlit("cvv");
        reveal_strlit("brand");
        reveal_strlit("valid");
        assert("card_number"@.len() == 11 && "exp_date"@.len() == 8 && "cvv"@.len() == 3);
        assert("brand"@.len() == 5 && "brand"@[0] == 'b');
        assert("valid"@.len() == 5 && "valid"@[0] == 'v');
        assert(pairs@[0].0@ == "card_number"@);
        assert(pairs@[1].0@ == "exp_date"@);
        assert(pairs@[2].0@ == "cvv"@);
        assert(pairs@[3].0@ == "brand"@);
        assert(pairs@[4].0@ == "valid"@);
        assert(distinct_keys(pairs@));
        reveal_with_fuel(members_from, 6);
        assert(pairs@.drop_last().drop_last().drop_last().drop_last().drop_last().len() == 0);
    }
    object_value(pairs)
}

/// Builds the JSON document that stands for the batch `cards`.
pub fn report_document(cards: &Vec<ValidatedCard>) -> (document: serde_json::Value)
    ensures
        json_of(document) == report_of(validated_views(cards@)),
{
    let ghost views = validated_views(cards@);
    let mut records: Vec<serde_json::Value> = Vec::new();
    let mut i: usize = 0;
    while i < cards.len()
        invariant
            i <= cards.len(),
            views == validated_views(cards@),
            records.len() == i,
            forall|k: int| 0 <= k < i ==> json_of(#[trigger] records[k]) == record_json(views[k]),
        decreases cards.len() - i,
    {
        let record: serde_json::Value = record_value(&cards[i]);
        records.push(record);
        i = i + 1;
    }
    proof {
        assert(jsons_of(records@) =~= views.map_values(
            |card: ValidatedCardView| record_json(card),
        ));
    }
    let list: serde_json::Value = array_value(records);
    let mut pairs: Vec<(String, serde_json::Value)> = Vec::new();
    pairs.push(("validated_credit_cards".to_owned(), list));
    proof {
        reveal_with_fuel(members_from, 2);
        assert(pairs@.drop_last().len() == 0);
    }
    object_value(pairs)
}

/// Writes the batch `cards` as indented JSON text.
///
/// The text is the one that `serde_json` writes for the document of the
/// batch; `None` where it fails to write one.
pub fn render_report(cards: &Vec<ValidatedCard>) -> (r: Option<String>)
    ensures
        match r {
            Some(text) => pretty_text(report_of(validated_views(cards@))) == Some(text@),
            None => pretty_text(report_of(validated_views(cards@))) is None,
        },
{
    let document: serde_json::Value = report_document(cards);
    match write_pretty(&document) {
        Ok(text) => Some(text),
        Err(_) => None,
    }
}

} // verus!
