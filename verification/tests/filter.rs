use listing_watch::age::{parse_age, parse_quantity, AgeReading};
use listing_watch::eligibility::Rules;
use listing_watch::record::{Record, RecordId};
use listing_watch::text::{chars_of, is_white_space};

const BASE: &str = "https://example.org/details/";

fn record(id: &str, name: &str, category: &str, age: &str) -> Record {
    Record::new(
        RecordId::new(id.to_string()),
        name.to_string(),
        category.to_string(),
        age.to_string(),
        BASE,
    )
}

fn rules(words: &[&str], max_age: u8) -> Rules {
    let exclusions: Vec<String> = words.iter().map(|w| w.to_string()).collect();
    Rules::new(&exclusions, max_age)
}

fn reading(quantity: u64, unit: &str) -> Option<AgeReading> {
    Some(AgeReading { quantity, unit: unit.to_string() })
}

#[test]
fn chars_of_keeps_every_character() {
    assert_eq!(chars_of("a é!"), vec!['a', ' ', 'é', '!']);
    assert_eq!(chars_of(""), Vec::<char>::new());
}

#[test]
fn white_space_is_what_unicode_calls_so() {
    for code in 0..=0x10FFFFu32 {
        if let Some(c) = char::from_u32(code) {
            assert_eq!(is_white_space(c), c.is_whitespace(), "U+{:04X}", code);
        }
    }
}

#[test]
fn white_space_examples() {
    for c in [' ', '\t', '\n', '\r', '\u{0B}', '\u{0C}', '\u{85}', '\u{A0}', '\u{3000}'] {
        assert!(is_white_space(c));
    }
    for c in ['a', '0', '_', '-', '\u{0}', '\u{200B}', '\u{FEFF}'] {
        assert!(!is_white_space(c));
    }
}

#[test]
fn quantity_is_a_decimal_number_of_any_size() {
    assert_eq!(parse_quantity("0"), Some(0));
    assert_eq!(parse_quantity("7"), Some(7));
    assert_eq!(parse_quantity("12"), Some(12));
    assert_eq!(parse_quantity("255"), Some(255));
    assert_eq!(parse_quantity("256"), Some(256));
    assert_eq!(parse_quantity("300"), Some(300));
    assert_eq!(parse_quantity("0007"), Some(7));
    assert_eq!(parse_quantity("00000000000255"), Some(255));
    assert_eq!(parse_quantity("18446744073709551614"), Some(u64::MAX - 1));
    assert_eq!(parse_quantity("18446744073709551615"), Some(u64::MAX));
}

#[test]
fn quantity_beyond_64_bits_is_held_at_the_top() {
    assert_eq!(parse_quantity("18446744073709551616"), Some(u64::MAX));
    assert_eq!(parse_quantity("18446744073709551625"), Some(u64::MAX));
    assert_eq!(parse_quantity("99999999999999999999999"), Some(u64::MAX));
    assert_eq!(parse_quantity("184467440737095516150"), Some(u64::MAX));
    assert_eq!(parse_quantity("99999999999999999999999x"), None);
}

#[test]
fn quantity_takes_one_leading_plus_and_nothing_else() {
    assert_eq!(parse_quantity("+3"), Some(3));
    assert_eq!(parse_quantity("+"), None);
    assert_eq!(parse_quantity("++3"), None);
    assert_eq!(parse_quantity("-3"), None);
    assert_eq!(parse_quantity(""), None);
    assert_eq!(parse_quantity("3a"), None);
    assert_eq!(parse_quantity("a3"), None);
    assert_eq!(parse_quantity("3.5"), None);
    assert_eq!(parse_quantity("3 "), None);
    assert_eq!(parse_quantity("٣"), None);
}

#[test]
fn quantity_agrees_with_the_standard_parser() {
    for text in [
        "0", "4", "+4", "255", "256", "", "+", "-1", "x", "1x", "0004", "1000", "65536",
        "4294967296", "18446744073709551615",
    ] {
        assert_eq!(parse_quantity(text), text.parse::<u64>().ok(), "{}", text);
    }
}

#[test]
fn age_is_a_quantity_and_a_unit() {
    assert_eq!(parse_age("2 years"), reading(2, "years"));
    assert_eq!(parse_age("10 months"), reading(10, "months"));
    assert_eq!(parse_age("3 weeks old"), reading(3, "weeks"));
    assert_eq!(parse_age("+5 years"), reading(5, "years"));
    assert_eq!(parse_age("300 years"), reading(300, "years"));
    assert_eq!(parse_age("99999999999999999999999 years"), reading(u64::MAX, "years"));
}

#[test]
fn age_tokens_are_parted_by_any_white_space() {
    assert_eq!(parse_age("2  years"), reading(2, "years"));
    assert_eq!(parse_age(" 2 years "), reading(2, "years"));
    assert_eq!(parse_age("2\tyears"), reading(2, "years"));
    assert_eq!(parse_age("\n2\u{A0}years\r\n"), reading(2, "years"));
}

#[test]
fn age_without_unit_or_quantity_is_unparseable() {
    assert_eq!(parse_age(""), None);
    assert_eq!(parse_age("   "), None);
    assert_eq!(parse_age("2"), None);
    assert_eq!(parse_age("2 "), None);
    assert_eq!(parse_age("years"), None);
    assert_eq!(parse_age("two years"), None);
    assert_eq!(parse_age("2years"), None);
    assert_eq!(parse_age("2.5 years"), None);
    assert_eq!(parse_age("years 2"), None);
}

#[test]
fn category_is_excluded_by_a_whole_word() {
    let r = rules(&["Pit", "Bull", "Chihuahua", "Terrier"], 4);
    assert!(r.excludes_category("Terrier"));
    assert!(r.excludes_category("Terrier Mix"));
    assert!(r.excludes_category("American Pit Bull"));
    assert!(r.excludes_category("Mix Chihuahua"));
    assert!(!r.excludes_category("Hound"));
    assert!(!r.excludes_category("Pitbull"));
    assert!(!r.excludes_category("Terriers"));
    assert!(!r.excludes_category("Bullmastiff Mix"));
    assert!(!r.excludes_category(""));
}

#[test]
fn category_match_is_case_sensitive() {
    let r = rules(&["Terrier"], 4);
    assert!(!r.excludes_category("terrier"));
    assert!(!r.excludes_category("TERRIER Mix"));
}

#[test]
fn category_is_cut_at_any_white_space() {
    let r = rules(&["Terrier"], 4);
    assert!(r.excludes_category("Terrier\tMix"));
    assert!(r.excludes_category("Mix\nTerrier"));
    assert!(r.excludes_category("Mix\u{A0}Terrier\u{3000}Mix"));
    assert!(r.excludes_category("Mix  Terrier"));
    assert!(r.excludes_category(" Terrier "));
    assert!(r.excludes_category("\t Terrier"));
    assert!(!r.excludes_category("Terrier,Mix"));
    assert!(!r.excludes_category("Terrier-Mix"));
    assert!(!r.excludes_category("Terrier\u{200B}Mix"));
}

#[test]
fn no_token_is_empty() {
    let r = rules(&[""], 4);
    assert!(!r.excludes_category(""));
    assert!(!r.excludes_category("Hound  Mix"));
    assert!(!r.excludes_category("Hound "));
    assert!(!r.excludes_category(" "));
    assert!(!r.excludes_category("Hound Mix"));
}

#[test]
fn exclusion_with_white_space_in_it_matches_nothing() {
    let r = rules(&["Pit Bull", " Terrier"], 4);
    assert!(!r.excludes_category("Pit Bull"));
    assert!(!r.excludes_category("Mix Terrier"));
}

#[test]
fn no_exclusions_exclude_nothing() {
    let r = rules(&[], 4);
    assert!(!r.excludes_category("Terrier Mix"));
    assert!(!r.excludes_category(""));
}

#[test]
fn age_is_excluded_above_the_limit_in_years() {
    let r = rules(&[], 4);
    assert!(!r.excludes_age("3 years"));
    assert!(!r.excludes_age("4 years"));
    assert!(r.excludes_age("5 years"));
    assert!(r.excludes_age("255 years"));
    assert!(r.excludes_age("5 years old"));
    assert!(r.excludes_age("5  years"));
    assert!(r.excludes_age("5\tyears"));
    assert!(r.excludes_age(" 5 years"));
}

#[test]
fn age_is_excluded_however_large_the_number() {
    let r = rules(&[], 4);
    assert!(r.excludes_age("256 years"));
    assert!(r.excludes_age("300 years"));
    assert!(r.excludes_age("18446744073709551615 years"));
    assert!(r.excludes_age("18446744073709551616 years"));
    assert!(r.excludes_age("99999999999999999999999999999 years"));
    let top = rules(&[], 255);
    assert!(!top.excludes_age("255 years"));
    assert!(top.excludes_age("256 years"));
    assert!(!top.excludes_age("0256 months"));
}

#[test]
fn age_in_other_units_or_unreadable_is_not_excluded() {
    let r = rules(&[], 4);
    assert!(!r.excludes_age("11 months"));
    assert!(!r.excludes_age("40 weeks"));
    assert!(!r.excludes_age("5 Years"));
    assert!(!r.excludes_age("5 year"));
    assert!(!r.excludes_age("five years"));
    assert!(!r.excludes_age("300 months"));
    assert!(!r.excludes_age("5years"));
    assert!(!r.excludes_age("5 old years"));
    assert!(!r.excludes_age("years"));
    assert!(!r.excludes_age(""));
}

#[test]
fn max_age_is_kept() {
    assert_eq!(rules(&["Terrier"], 4).max_age(), 4);
    assert_eq!(rules(&[], 0).max_age(), 0);
}

#[test]
fn age_limit_zero_excludes_every_year() {
    let r = rules(&[], 0);
    assert!(!r.excludes_age("0 years"));
    assert!(r.excludes_age("1 years"));
}

#[test]
fn eligible_record_passes_both_filters() {
    let r = rules(&["Terrier"], 4);
    assert!(r.is_eligible(&record("1", "Bo", "Hound", "3 years")));
    assert!(r.is_eligible(&record("1", "Bo", "Hound Mix", "8 months")));
    assert!(r.is_eligible(&record("1", "", "", "")));
}

#[test]
fn record_excluded_by_category() {
    let r = rules(&["Terrier"], 4);
    assert!(!r.is_eligible(&record("1", "Al", "Terrier Mix", "2 years")));
}

#[test]
fn record_excluded_by_age() {
    let r = rules(&["Terrier"], 4);
    assert!(!r.is_eligible(&record("3", "Cy", "Hound", "5 years")));
    assert!(!r.is_eligible(&record("10", "Old", "Hound", "300 years")));
}

#[test]
fn record_without_identifier_is_never_eligible() {
    let r = rules(&["Terrier"], 4);
    assert!(!r.is_eligible(&record("", "Bo", "Hound", "3 years")));
    assert!(!rules(&[], 255).is_eligible(&record("", "", "", "")));
}

#[test]
fn verdict_is_the_same_each_time() {
    let r = rules(&["Terrier"], 4);
    let a = record("1", "Al", "Terrier Mix", "2 years");
    let b = record("2", "Bo", "Hound", "3 years");
    assert_eq!(r.is_eligible(&a), r.is_eligible(&a));
    assert!(r.is_eligible(&b));
    assert!(!r.is_eligible(&a));
    assert!(r.is_eligible(&b));
    assert!(!r.is_eligible(&a));
}

#[test]
fn verdict_goes_by_category_and_age_alone() {
    let r = rules(&["Terrier"], 4);
    let one = record("1", "Al", "Hound", "5 years");
    let other = record("77", "Someone Else", "Hound", "5 years");
    assert_eq!(r.is_eligible(&one), r.is_eligible(&other));
    let one = record("1", "Al", "Hound", "1 years");
    let other = record("77", "Someone Else", "Hound", "1 years");
    assert_eq!(r.is_eligible(&one), r.is_eligible(&other));
}
