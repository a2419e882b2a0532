use card_validator::brand::Brand;
use card_validator::expiry::YearMonth;
use card_validator::input::parse_json;
use card_validator::output::{render_report, report_document};
use card_validator::records::{validate_batch, ValidatedCard};

fn kept(card_number: &str, exp_date: &str, cvv: &str, brand: Brand) -> ValidatedCard {
    ValidatedCard {
        card_number: card_number.to_string(),
        exp_date: exp_date.to_string(),
        cvv: cvv.to_string(),
        brand,
        valid: true,
    }
}

#[test]
fn empty_batch_is_an_empty_list() {
    assert_eq!(render_report(&Vec::new()).unwrap(), "{\n  \"validated_credit_cards\": []\n}");
}

#[test]
fn one_record_is_written_with_its_five_members() {
    let text = render_report(&vec![kept("4539578763621486", "12/30", "123", Brand::Visa)]).unwrap();
    let expected = "{\n  \"validated_credit_cards\": [\n    {\n      \"brand\": \"Visa\",\n      \"card_number\": \"4539578763621486\",\n      \"cvv\": \"123\",\n      \"exp_date\": \"12/30\",\n      \"valid\": true\n    }\n  ]\n}";
    assert_eq!(text, expected);
}

#[test]
fn report_document_holds_the_records_in_order() {
    let batch = vec![
        kept("378282246310005", "01/24", "a\"c", Brand::AmericanExpress),
        kept("4539578763621486", "12/30", "123", Brand::Visa),
        kept("6500000000000002", "1/99", "é 1", Brand::Discover),
    ];
    let document = report_document(&batch);
    let root = document.as_object().unwrap();
    assert_eq!(root.len(), 1);
    let list = root["validated_credit_cards"].as_array().unwrap();
    assert_eq!(list.len(), 3);
    for (record, card) in list.iter().zip(batch.iter()) {
        let members = record.as_object().unwrap();
        assert_eq!(members.len(), 5);
        assert_eq!(members["card_number"].as_str(), Some(card.card_number.as_str()));
        assert_eq!(members["exp_date"].as_str(), Some(card.exp_date.as_str()));
        assert_eq!(members["cvv"].as_str(), Some(card.cvv.as_str()));
        assert_eq!(members["brand"].as_str(), Some(card.brand.label()));
        assert_eq!(members["valid"].as_bool(), Some(true));
    }
    assert_eq!(list[0]["brand"].as_str(), Some("American Express"));
    assert_eq!(list[2]["brand"].as_str(), Some("Discover"));
}

#[test]
fn written_text_reads_back_as_the_document() {
    let batch = vec![
        kept("378282246310005", "01/24", "a\"c", Brand::AmericanExpress),
        kept("5500000000000004", "\\\n", "", Brand::Mastercard),
    ];
    let text = render_report(&batch).unwrap();
    let read: serde_json::Value = serde_json::from_str(&text).unwrap();
    assert_eq!(read, report_document(&batch));
}

#[test]
fn valid_member_is_written_as_held() {
    let mut card = kept("1", "2", "3", Brand::Unknown);
    card.valid = false;
    let document = report_document(&vec![card]);
    assert_eq!(document["validated_credit_cards"][0]["valid"].as_bool(), Some(false));
    assert_eq!(document["validated_credit_cards"][0]["brand"].as_str(), Some("Unknown"));
}

#[test]
fn from_text_to_text() {
    let input = r#"{"credit_cards": [
        {"CreditCardNumber": "4539578763621486", "ExpDate": "12/30", "CVV": "123"},
        {"CreditCardNumber": "4111111111111112", "ExpDate": "12/30", "CVV": "123"},
        {"CreditCardNumber": "6700000000000000", "ExpDate": "01/24", "CVV": "000"},
        {"CreditCardNumber": "5500000000000004", "ExpDate": "12/23", "CVV": "123"}
    ]}"#;
    let cards = parse_json(input).unwrap();
    let batch = validate_batch(&cards, YearMonth { year: 2024, month: 1 });
    let text = render_report(&batch).unwrap();
    let expected = "{\n  \"validated_credit_cards\": [\n    {\n      \"brand\": \"Visa\",\n      \"card_number\": \"4539578763621486\",\n      \"cvv\": \"123\",\n      \"exp_date\": \"12/30\",\n      \"valid\": true\n    },\n    {\n      \"brand\": \"Maestro\",\n      \"card_number\": \"6700000000000000\",\n      \"cvv\": \"000\",\n      \"exp_date\": \"01/24\",\n      \"valid\": true\n    }\n  ]\n}";
    assert_eq!(text, expected);
}
