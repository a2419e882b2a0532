use card_validator::expiry::{parse_expiration, YearMonth};

fn ym(year: i32, month: u32) -> Option<YearMonth> {
    Some(YearMonth { year, month })
}

fn by_the_standard_library(text: &str) -> Option<YearMonth> {
    let parts: Vec<&str> = text.split("/").collect();
    if parts.len() != 2 {
        return None;
    }
    let month = parts[0].parse::<u32>().ok()?;
    let year = format!("20{}", parts[1]).parse::<i32>().ok()?;
    Some(YearMonth { year, month })
}

#[test]
fn two_digit_year_is_in_this_century() {
    assert_eq!(parse_expiration("12/30"), ym(2030, 12));
    assert_eq!(parse_expiration("01/24"), ym(2024, 1));
    assert_eq!(parse_expiration("12/99"), ym(2099, 12));
    assert_eq!(parse_expiration("06/00"), ym(2000, 6));
}

#[test]
fn leading_zeros_in_the_month_do_not_count() {
    assert_eq!(parse_expiration("1/30"), ym(2030, 1));
    assert_eq!(parse_expiration("0000000000000007/30"), ym(2030, 7));
}

#[test]
fn month_is_not_held_to_a_calendar() {
    assert_eq!(parse_expiration("13/30"), ym(2030, 13));
    assert_eq!(parse_expiration("0/30"), ym(2030, 0));
    assert_eq!(parse_expiration("99/30"), ym(2030, 99));
    assert_eq!(parse_expiration("4294967295/30"), ym(2030, 4294967295));
}

#[test]
fn month_too_large_is_refused() {
    assert_eq!(parse_expiration("4294967296/30"), None);
    assert_eq!(parse_expiration("99999999999999999999999/30"), None);
}

#[test]
fn month_may_have_a_plus_sign() {
    assert_eq!(parse_expiration("+7/30"), ym(2030, 7));
    assert_eq!(parse_expiration("+/30"), None);
    assert_eq!(parse_expiration("++7/30"), None);
    assert_eq!(parse_expiration("-7/30"), None);
    assert_eq!(parse_expiration("7+/30"), None);
}

#[test]
fn month_needs_a_digit() {
    assert_eq!(parse_expiration("/30"), None);
    assert_eq!(parse_expiration("ab/30"), None);
    assert_eq!(parse_expiration(" 12/30"), None);
    assert_eq!(parse_expiration("12 /30"), None);
    assert_eq!(parse_expiration("1.2/30"), None);
    assert_eq!(parse_expiration("١٢/30"), None);
}

#[test]
fn year_is_read_after_twenty() {
    assert_eq!(parse_expiration("12/"), ym(20, 12));
    assert_eq!(parse_expiration("12/5"), ym(205, 12));
    assert_eq!(parse_expiration("12/300"), ym(20300, 12));
    assert_eq!(parse_expiration("12/2030"), ym(202030, 12));
    assert_eq!(parse_expiration("12/0000000"), ym(200000000, 12));
    assert_eq!(parse_expiration("12/47483647"), ym(2047483647, 12));
}

#[test]
fn year_too_large_is_refused() {
    assert_eq!(parse_expiration("12/99999999"), ym(2099999999, 12));
    assert_eq!(parse_expiration("12/00000000"), ym(2000000000, 12));
    assert_eq!(parse_expiration("12/000000000"), None);
    assert_eq!(parse_expiration("12/147483647"), None);
    assert_eq!(parse_expiration("12/99999999999999999999"), None);
}

#[test]
fn year_takes_digits_only() {
    assert_eq!(parse_expiration("12/+30"), None);
    assert_eq!(parse_expiration("12/-30"), None);
    assert_eq!(parse_expiration("12/3 0"), None);
    assert_eq!(parse_expiration("12/30 "), None);
    assert_eq!(parse_expiration("12/ab"), None);
    assert_eq!(parse_expiration("12/٣٠"), None);
}

#[test]
fn exactly_one_slash_is_needed() {
    assert_eq!(parse_expiration(""), None);
    assert_eq!(parse_expiration("1230"), None);
    assert_eq!(parse_expiration("12-30"), None);
    assert_eq!(parse_expiration("12/3/0"), None);
    assert_eq!(parse_expiration("12//30"), None);
    assert_eq!(parse_expiration("/12/30"), None);
    assert_eq!(parse_expiration("12/30/"), None);
    assert_eq!(parse_expiration("//"), None);
    assert_eq!(parse_expiration("/"), None);
}

#[test]
fn parse_expiration_agrees_with_the_standard_library() {
    let months = ["", "0", "1", "01", "12", "13", "+3", "-3", "+", "4294967295", "4294967296", "1a", " 1", "1 ", "٣", "00000000000000000000000000001"];
    let years = ["", "0", "5", "24", "30", "99", "100", "+5", "-5", "47483647", "47483648", "147483647", "2a", " 2", "2 ", "٣", "00000000", "000000000"];
    for m in months {
        for y in years {
            let text = format!("{}/{}", m, y);
            assert_eq!(parse_expiration(&text), by_the_standard_library(&text), "{:?}", text);
            let text = format!("{}{}", m, y);
            assert_eq!(parse_expiration(&text), by_the_standard_library(&text), "{:?}", text);
            let text = format!("{}/{}/", m, y);
            assert_eq!(parse_expiration(&text), by_the_standard_library(&text), "{:?}", text);
        }
    }
}

#[test]
fn is_before_compares_year_then_month() {
    let jan_2024 = YearMonth { year: 2024, month: 1 };
    assert!(YearMonth { year: 2023, month: 12 }.is_before(&jan_2024));
    assert!(YearMonth { year: 2023, month: 1 }.is_before(&jan_2024));
    assert!(YearMonth { year: 2024, month: 0 }.is_before(&jan_2024));
    assert!(!YearMonth { year: 2024, month: 1 }.is_before(&jan_2024));
    assert!(!YearMonth { year: 2024, month: 2 }.is_before(&jan_2024));
    assert!(!YearMonth { year: 2025, month: 1 }.is_before(&jan_2024));
    assert!(!YearMonth { year: 2025, month: 0 }.is_before(&jan_2024));
    assert!(YearMonth { year: -1, month: 50 }.is_before(&YearMonth { year: 0, month: 1 }));
}
