use card_validator::brand::{get_brand, Brand};
use card_validator::digits::extract_digits;
use card_validator::expiry::{parse_expiration, YearMonth};
use card_validator::luhn::check_luhn;
use card_validator::records::{validate_batch, validate_batch_now, Card, ValidatedCard};
use card_validator::validator::validate;

const JAN_2024: YearMonth = YearMonth { year: 2024, month: 1 };

fn card(number: &str, exp_date: &str, cvv: &str) -> Card {
    Card { number: number.to_string(), exp_date: exp_date.to_string(), cvv: cvv.to_string() }
}

fn fields(kept: &ValidatedCard) -> (&str, &str, &str, Brand, bool) {
    (kept.card_number.as_str(), kept.exp_date.as_str(), kept.cvv.as_str(), kept.brand, kept.valid)
}

fn as_card(kept: &ValidatedCard) -> Card {
    card(&kept.card_number, &kept.exp_date, &kept.cvv)
}

fn mixed_batch() -> Vec<Card> {
    vec![
        card("4539578763621486", "12/30", "123"),
        card("4111111111111112", "12/30", "123"),
        card("340000000000009", "01/24", "9999"),
        card("378282246310005", "01/24", "abc"),
        card("6700000000000000", "12/23", "123"),
        card("1200000000000006", "12/30", "123"),
        card("5500000000000004", "13/24", "000"),
        card("4539578763621486", "12/30", "123"),
        card("6500000000000002", "nonsense", "123"),
    ]
}

#[test]
fn empty_batch_gives_empty_batch() {
    assert!(validate_batch(&Vec::new(), JAN_2024).is_empty());
}

#[test]
fn batch_keeps_the_accepted_records_in_order() {
    let out = validate_batch(&mixed_batch(), JAN_2024);
    let got: Vec<_> = out.iter().map(fields).collect();
    assert_eq!(
        got,
        vec![
            ("4539578763621486", "12/30", "123", Brand::Visa, true),
            ("378282246310005", "01/24", "abc", Brand::AmericanExpress, true),
            ("5500000000000004", "13/24", "000", Brand::Mastercard, true),
            ("4539578763621486", "12/30", "123", Brand::Visa, true),
        ]
    );
}

#[test]
fn one_bad_record_does_not_stop_the_batch() {
    let cards = vec![card("", "", ""), card("4539578763621486", "12/30", "123"), card("x", "/", "\u{0}")];
    let out = validate_batch(&cards, JAN_2024);
    assert_eq!(out.len(), 1);
    assert_eq!(fields(&out[0]), ("4539578763621486", "12/30", "123", Brand::Visa, true));
}

#[test]
fn batch_depends_on_the_month() {
    let cards = mixed_batch();
    assert_eq!(validate_batch(&cards, YearMonth { year: 2024, month: 2 }).len(), 3);
    assert_eq!(validate_batch(&cards, YearMonth { year: 2023, month: 12 }).len(), 5);
    assert_eq!(validate_batch(&cards, YearMonth { year: 2031, month: 1 }).len(), 0);
}

#[test]
fn validating_the_outgoing_batch_again_changes_nothing() {
    let first = validate_batch(&mixed_batch(), JAN_2024);
    let again: Vec<Card> = first.iter().map(as_card).collect();
    let second = validate_batch(&again, JAN_2024);
    let a: Vec<_> = first.iter().map(fields).collect();
    let b: Vec<_> = second.iter().map(fields).collect();
    assert_eq!(a, b);
    assert_eq!(a.len(), 4);
}

#[test]
fn every_outgoing_record_is_valid_with_a_known_brand() {
    for month in [1u32, 6, 12] {
        for year in [2000i32, 2023, 2024, 2030, 2099] {
            for kept in validate_batch(&mixed_batch(), YearMonth { year, month }) {
                assert!(kept.valid);
                assert_ne!(kept.brand, Brand::Unknown);
            }
        }
    }
}

#[test]
fn batch_as_of_now_drops_what_is_long_expired() {
    let cards = vec![
        card("4539578763621486", "12/99999999", "123"),
        card("4539578763621486", "12/00", "123"),
        card("4111111111111112", "12/99999999", "123"),
        card("5500000000000004", "1/99999999", "123"),
    ];
    let out = validate_batch_now(&cards);
    let got: Vec<_> = out.iter().map(fields).collect();
    assert_eq!(
        got,
        vec![
            ("4539578763621486", "12/99999999", "123", Brand::Visa, true),
            ("5500000000000004", "1/99999999", "123", Brand::Mastercard, true),
        ]
    );
}

#[test]
fn accepted_records_meet_every_check() {
    for today in [JAN_2024, YearMonth { year: 2023, month: 12 }, YearMonth { year: 2024, month: 2 }] {
        let out = validate_batch(&mixed_batch(), today);
        assert!(!out.is_empty());
        for kept in out {
            let digits = extract_digits(&kept.card_number);
            assert!(digits.len() == 15 || digits.len() == 16);
            assert!(check_luhn(&digits));
            let date = parse_expiration(&kept.exp_date).unwrap();
            assert!(!date.is_before(&today));
            assert_eq!(kept.cvv.chars().count(), 3);
            assert_ne!(kept.brand, Brand::Unknown);
            assert_eq!(kept.brand, get_brand(&kept.card_number));
            assert!(kept.valid);
        }
    }
}

#[test]
fn batch_may_be_validated_in_parts() {
    let cards = mixed_batch();
    let whole: Vec<_> = validate_batch(&cards, JAN_2024);
    for cut in 0..=cards.len() {
        let mut joined = validate_batch(&cards[..cut].to_vec(), JAN_2024);
        joined.extend(validate_batch(&cards[cut..].to_vec(), JAN_2024));
        assert_eq!(joined, whole);
    }
}

#[test]
fn outgoing_records_are_the_accepted_incoming_ones() {
    let cards = mixed_batch();
    let out = validate_batch(&cards, JAN_2024);
    let mut expected: Vec<ValidatedCard> = Vec::new();
    for c in &cards {
        let verdict = validate(&c.number, &c.exp_date, &c.cvv, JAN_2024);
        if verdict.valid {
            expected.push(ValidatedCard {
                card_number: c.number.clone(),
                exp_date: c.exp_date.clone(),
                cvv: c.cvv.clone(),
                brand: verdict.brand,
                valid: true,
            });
        }
    }
    assert_eq!(out, expected);
}
