use usiem_sigma::field::{field_to_text, SiemField, SiemIp, SiemLog};
use usiem_sigma::rule::SigmaValues;
use usiem_sigma::urule::matches::{
    match_bigger, match_bigger_equals, match_contains, match_contains_all, match_equals,
    match_equals_all, match_field_value, match_lesser, match_lesser_equals, FieldComparision,
};
use usiem_sigma::urule::value_modifiers::{base64_offset_contains, ends_with, to_base64};
use usiem_sigma::urule::value_modifiers::regex as regex_matches;
use usiem_sigma::urule::matches_selection;

fn text(s: &str) -> SigmaValues {
    SigmaValues::Text(Some(s.to_owned()))
}

#[test]
fn contains_in_text_field() {
    let field = SiemField::Text("xabcx".to_owned());
    assert!(match_contains(&text("abc"), &field));
    assert!(!match_contains(&text("abd"), &field));
}

#[test]
fn contains_absent_expected_matches_empty_text() {
    let empty = SiemField::Text("".to_owned());
    let full = SiemField::Text("x".to_owned());
    assert!(match_contains(&SigmaValues::Text(None), &empty));
    assert!(!match_contains(&SigmaValues::Text(None), &full));
}

#[test]
fn equals_int_against_u32() {
    assert!(match_equals(&SigmaValues::Int(4656), &SiemField::U32(4656)));
    assert!(!match_equals(&SigmaValues::Int(4657), &SiemField::U32(4656)));
}

#[test]
fn equals_int_against_other_numeric_kinds() {
    assert!(match_equals(&SigmaValues::Int(-9), &SiemField::I64(-9)));
    assert!(match_equals(&SigmaValues::Int(7), &SiemField::U64(7)));
    assert!(!match_equals(&SigmaValues::Int(7), &SiemField::U64(8)));
}

#[test]
fn bigger_int_against_ipv4() {
    let field = SiemField::IP(SiemIp::V4(5));
    assert!(match_bigger(&SigmaValues::Int(10), &field));
    assert!(!match_bigger(&SigmaValues::Int(3), &field));
}

#[test]
fn ordering_comparators_on_u32() {
    let field = SiemField::U32(10);
    assert!(match_bigger(&SigmaValues::Int(11), &field));
    assert!(match_lesser(&SigmaValues::Int(9), &field));
    assert!(match_bigger_equals(&SigmaValues::Int(10), &field));
    assert!(match_lesser_equals(&SigmaValues::Int(10), &field));
    assert!(!match_lesser(&SigmaValues::Int(10), &field));
}

#[test]
fn list_any_and_all_semantics() {
    let list = SigmaValues::Array(vec![SigmaValues::Int(1), SigmaValues::Int(2)]);
    let field = SiemField::U32(2);
    assert!(match_equals(&list, &field));
    assert!(!match_equals_all(&list, &field));
}

#[test]
fn list_contains_all_over_text() {
    let field = SiemField::Text("alpha beta".to_owned());
    let both = SigmaValues::Array(vec![text("alpha"), text("beta")]);
    let one_off = SigmaValues::Array(vec![text("alpha"), text("gamma")]);
    assert!(match_contains_all(&both, &field));
    assert!(!match_contains_all(&one_off, &field));
    assert!(!match_contains_all(&text("alpha"), &field));
}

#[test]
fn unhandled_combinations_are_false() {
    assert!(!match_contains(&SigmaValues::Int(3), &SiemField::Text("3".to_owned())));
    assert!(!match_equals(&text("3"), &SiemField::U32(3)));
    assert!(!match_bigger(&text("3"), &SiemField::U32(2)));
}

#[test]
fn dispatcher_selects_each_comparator() {
    let field = SiemField::U32(10);
    assert!(match_field_value(&SigmaValues::Int(10), &field, &FieldComparision::Equals));
    assert!(match_field_value(&SigmaValues::Int(11), &field, &FieldComparision::Bigger));
    assert!(match_field_value(&SigmaValues::Int(9), &field, &FieldComparision::Lesser));
    assert!(match_field_value(&SigmaValues::Int(10), &field, &FieldComparision::BoE));
    assert!(match_field_value(&SigmaValues::Int(10), &field, &FieldComparision::LoE));
    assert!(match_field_value(
        &SigmaValues::Array(vec![SigmaValues::Int(10)]),
        &field,
        &FieldComparision::All
    ));
}

#[test]
fn field_text_of_numeric_and_address_kinds() {
    assert_eq!(field_to_text(&SiemField::U32(4656)), "4656");
    assert_eq!(field_to_text(&SiemField::U64(0)), "0");
    assert_eq!(field_to_text(&SiemField::I64(-5)), "-5");
    assert_eq!(field_to_text(&SiemField::IP(SiemIp::V4(0x7F000001))), "127.0.0.1");
    assert_eq!(
        field_to_text(&SiemField::IP(SiemIp::V6(1))),
        "0000:0000:0000:0000:0000:0000:0000:0001"
    );
    assert_eq!(
        field_to_text(&SiemField::IP(SiemIp::V6(0x20010DB8000000000000000000000068))),
        "2001:0db8:0000:0000:0000:0000:0000:0068"
    );
}

#[test]
fn ending_helpers() {
    assert!(ends_with("selection|contains", "|contains"));
    assert!(!ends_with("selection", "|contains"));
    assert!(base64_offset_contains("xYWJjx", "YWJj"));
    assert!(!base64_offset_contains("xYWJjx", "ZZZZ"));
}

#[test]
fn to_base64_encodes_like_the_crate() {
    assert_eq!(to_base64("abc"), base64::encode("abc"));
    assert_eq!(to_base64(""), "");
}

#[test]
fn selection_key_with_base64_modifier_compares_encoded_text() {
    let mut log = SiemLog::new("msg".to_owned());
    log.add_field("Field", SiemField::Text("abc".to_owned()));
    let encoded = base64::encode("abc");
    assert!(matches_selection("Field|base64", &text(&encoded), &log));
    assert!(!matches_selection("Field|base64", &text("abc"), &log));
}

#[test]
fn selection_key_contains_over_numeric_text() {
    let mut log = SiemLog::new("msg".to_owned());
    log.add_field("EventID", SiemField::U32(4656));
    assert!(matches_selection("EventID|contains", &text("65"), &log));
    assert!(!matches_selection("EventID|contains", &text("99"), &log));
}

#[test]
fn selection_key_base64offset_contains() {
    let mut log = SiemLog::new("msg".to_owned());
    log.add_field("Payload", SiemField::Text("abc".to_owned()));
    let encoded = base64::encode("abc");
    assert!(matches_selection("Payload|base64|base64offset|contains", &text(&encoded[0..3]), &log));
}

#[test]
fn selection_absent_field_matches_only_absence_marker() {
    let log = SiemLog::new("msg".to_owned());
    assert!(matches_selection("Missing", &SigmaValues::Text(None), &log));
    assert!(!matches_selection("Missing", &text("x"), &log));
    assert!(!matches_selection("Missing", &SigmaValues::Int(1), &log));
}

#[test]
fn selection_unknown_modifier_never_matches() {
    let mut log = SiemLog::new("msg".to_owned());
    log.add_field("Field", SiemField::Text("abc".to_owned()));
    assert!(!matches_selection("Field|rot13", &text("abc"), &log));
}

#[test]
fn field_text_of_numeric_extremes() {
    assert_eq!(field_to_text(&SiemField::U64(u64::MAX)), "18446744073709551615");
    assert_eq!(field_to_text(&SiemField::I64(i64::MIN)), "-9223372036854775808");
    assert_eq!(field_to_text(&SiemField::IP(SiemIp::V4(u32::MAX))), "255.255.255.255");
}

#[test]
fn negative_expected_wraps_into_unsigned_domains() {
    assert!(match_equals(&SigmaValues::Int(-1), &SiemField::U32(u32::MAX)));
    assert!(match_equals(&SigmaValues::Int(-1), &SiemField::U64(u64::MAX)));
    assert!(!match_equals(&SigmaValues::Int(-1), &SiemField::U32(1)));
}

#[test]
fn regex_helper_matches_and_degrades() {
    assert!(regex_matches("abc123", "[0-9]+"));
    assert!(!regex_matches("abc", "[0-9]+"));
    assert!(!regex_matches("abc", "("));
    assert!(regex_matches("C:\\Windows\\System32\\lsass.exe", "lsass\\.exe$"));
}
