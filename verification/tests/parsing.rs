use billing_extract::amount::{clean_use_kwh, parse_paid};
use billing_extract::date::{
    complete_date_token, date_from_parsed, parse_date, Date, DateDialect,
};
use billing_extract::error::{FieldKind, ParseError};
use billing_extract::payment::parse_payment;
use billing_extract::text::{
    count_char, find_char, has_text, matches_at, parse_i64, remove_chars, remove_text, same_text,
};

fn date(year: i32, month: u32, day: u32) -> Date {
    Date { year, month, day }
}

#[test]
fn parse_i64_reads_plain_and_signed_numbers() {
    assert_eq!(parse_i64("0"), Some(0));
    assert_eq!(parse_i64("007"), Some(7));
    assert_eq!(parse_i64("45000"), Some(45000));
    assert_eq!(parse_i64("+5"), Some(5));
    assert_eq!(parse_i64("-12"), Some(-12));
}

#[test]
fn parse_i64_agrees_with_std_on_the_edges() {
    let cases = [
        "",
        "-",
        "+",
        "--1",
        "+-1",
        "1 ",
        " 1",
        "12a",
        "1.5",
        "9223372036854775807",
        "9223372036854775808",
        "-9223372036854775808",
        "-9223372036854775809",
        "99999999999999999999999999999999999999999",
        "000000000000000000000000000000000000000001",
        "-0",
        "٣",
    ];
    for case in cases {
        assert_eq!(parse_i64(case), case.parse::<i64>().ok(), "{:?}", case);
    }
}

#[test]
fn text_helpers_work_on_characters_not_bytes() {
    assert_eq!(find_char("45,000원", '원'), 6);
    assert_eq!(find_char("원원", '원'), 0);
    assert_eq!(find_char("45000", '원'), 5);
    assert_eq!(find_char("", '원'), 0);
    assert_eq!(count_char("2023.05.17", '.'), 2);
    assert_eq!(count_char("", '.'), 0);
    assert!(same_text("자동이체", "자동이체"));
    assert!(!same_text("자동이체", "자동이"));
    assert!(!same_text("ab", "ac"));
    assert!(same_text("", ""));
}

#[test]
fn remove_chars_deletes_both_characters_everywhere() {
    assert_eq!(remove_chars("1,234.5", ',', '.'), "12345");
    assert_eq!(remove_chars(",,..", ',', '.'), "");
    assert_eq!(remove_chars("", ',', '.'), "");
    assert_eq!(remove_chars("원1,0", ',', '.'), "원10");
}

#[test]
fn remove_text_works_as_replace_with_nothing() {
    for (text, pat) in [
        ("120kWh", "kWh"),
        ("kWhkWh", "kWh"),
        ("kkWhWh", "kWh"),
        ("aaa", "aa"),
        ("abc", ""),
        ("", "kWh"),
        ("kW", "kWh"),
        ("1,2,3", ","),
        ("가나다가나", "가나"),
    ] {
        assert_eq!(remove_text(text, pat), text.replace(pat, ""), "{:?} {:?}", text, pat);
    }
}

#[test]
fn has_text_finds_a_fragment_anywhere() {
    assert!(has_text("opacity: 1; display: none;", "display: none"));
    assert!(has_text("display: none", "display: none"));
    assert!(!has_text("display: block", "display: none"));
    assert!(!has_text("", "display: none"));
    assert!(has_text("", ""));
    assert!(has_text("abc", ""));
    assert!(matches_at("abc", "bc", 1));
    assert!(!matches_at("abc", "bc", 2));
    assert!(!matches_at("abc", "a", 7));
    assert!(matches_at("abc", "", 3));
}

#[test]
fn parse_paid_concatenates_digits_around_separators() {
    assert_eq!(parse_paid("1,234.5원").unwrap(), 12345);
    assert_eq!(parse_paid("45,000원").unwrap(), 45000);
    assert_eq!(parse_paid("38,500원").unwrap(), 38500);
    assert_eq!(parse_paid("0원").unwrap(), 0);
    assert_eq!(parse_paid("-1,000원").unwrap(), -1000);
    assert_eq!(parse_paid("7").unwrap(), 7);
}

#[test]
fn parse_paid_ignores_what_follows_the_glyph() {
    assert_eq!(parse_paid("1,000원 (부가세 포함)").unwrap(), 1000);
    assert_eq!(parse_paid("12원34원").unwrap(), 12);
}

#[test]
fn parse_paid_names_the_offending_text() {
    for raw in ["", "원", "abc원", "1 000원", ",.", "9,223,372,036,854,775,808원"] {
        let e: ParseError = parse_paid(raw).unwrap_err();
        assert_eq!(e.kind, FieldKind::Amount);
        assert_eq!(e.raw, raw);
    }
    assert_eq!(parse_paid("9,223,372,036,854,775,807원").unwrap(), i64::MAX);
}

#[test]
fn parse_error_message_names_kind_and_text() {
    let e = parse_paid("abc원").unwrap_err();
    assert_eq!(e.message(), "cannot parse amount: abc원");
    let e = parse_date("soon", DateDialect::Dotted).unwrap_err();
    assert_eq!(e.message(), "cannot parse date: soon");
    let e = ParseError::new(FieldKind::Usage, "lots");
    assert_eq!(e.message(), "cannot parse usage: lots");
}

#[test]
fn clean_use_kwh_strips_separators_then_unit() {
    assert_eq!(clean_use_kwh("120kWh"), "120");
    assert_eq!(clean_use_kwh("1,204kWh"), "1204");
    assert_eq!(clean_use_kwh("1,204.5kWh"), "1204.5");
    assert_eq!(clean_use_kwh("k,Wh"), "");
    assert_eq!(clean_use_kwh("99"), "99");
    assert_eq!(clean_use_kwh("99kWh").parse::<f64>().unwrap(), 99.0);
}

#[test]
fn truncated_dotted_token_is_first_of_month() {
    assert_eq!(parse_date("2023.05", DateDialect::Dotted).unwrap(), date(2023, 5, 1));
    assert_eq!(parse_date("2023.04", DateDialect::Dotted).unwrap(), date(2023, 4, 1));
    assert_eq!(parse_date("1999.12", DateDialect::Dotted).unwrap(), date(1999, 12, 1));
    assert_eq!(parse_date("2024.2", DateDialect::Dotted).unwrap(), date(2024, 2, 1));
}

#[test]
fn full_dotted_token_keeps_its_day() {
    assert_eq!(parse_date("2023.05.17", DateDialect::Dotted).unwrap(), date(2023, 5, 17));
    assert_eq!(parse_date("2024.02.29", DateDialect::Dotted).unwrap(), date(2024, 2, 29));
}

#[test]
fn hangul_token_is_first_of_month() {
    assert_eq!(parse_date("2023년 05월", DateDialect::Hangul).unwrap(), date(2023, 5, 1));
    assert_eq!(parse_date("2022년 11월", DateDialect::Hangul).unwrap(), date(2022, 11, 1));
}

#[test]
fn unreadable_date_names_the_offending_text() {
    for (raw, dialect) in [
        ("", DateDialect::Dotted),
        ("2023", DateDialect::Dotted),
        ("2023.13", DateDialect::Dotted),
        ("2023.02.30", DateDialect::Dotted),
        ("2023.05.17.01", DateDialect::Dotted),
        ("2023-05", DateDialect::Dotted),
        ("2023.05", DateDialect::Hangul),
        ("2023년 13월", DateDialect::Hangul),
        ("", DateDialect::Hangul),
    ] {
        let e = parse_date(raw, dialect).unwrap_err();
        assert_eq!(e.kind, FieldKind::Date);
        assert_eq!(e.raw, raw);
    }
}

#[test]
fn dates_order_by_year_then_month_then_day() {
    assert!(date(2023, 4, 1).is_before(&date(2023, 5, 1)));
    assert!(date(2022, 12, 31).is_before(&date(2023, 1, 1)));
    assert!(date(2023, 5, 1).is_before(&date(2023, 5, 2)));
    assert!(!date(2023, 5, 1).is_before(&date(2023, 5, 1)));
    assert!(!date(2023, 5, 1).is_before(&date(2023, 4, 30)));
    assert_eq!(Date::epoch(), date(1970, 1, 1));
}

#[test]
fn payment_field_splits_into_method_and_date() {
    let p = parse_payment("자동이체/2023.05.25", DateDialect::Dotted);
    assert_eq!(p.method.as_deref(), Some("자동이체"));
    assert_eq!(p.date, Some(date(2023, 5, 25)));
}

#[test]
fn payment_field_without_separator_has_no_date() {
    let p = parse_payment("자동이체", DateDialect::Dotted);
    assert_eq!(p.method.as_deref(), Some("자동이체"));
    assert_eq!(p.date, None);
}

#[test]
fn payment_field_with_empty_method_has_none() {
    let p = parse_payment("/2023.05.25", DateDialect::Dotted);
    assert_eq!(p.method, None);
    assert_eq!(p.date, Some(date(2023, 5, 25)));
    let p = parse_payment("", DateDialect::Dotted);
    assert_eq!(p.method, None);
    assert_eq!(p.date, None);
    let p = parse_payment("/", DateDialect::Dotted);
    assert_eq!(p.method, None);
    assert_eq!(p.date, None);
}

#[test]
fn payment_field_with_unreadable_date_keeps_the_method() {
    let p = parse_payment("card/soon", DateDialect::Dotted);
    assert_eq!(p.method.as_deref(), Some("card"));
    assert_eq!(p.date, None);
    let p = parse_payment("card/2023.05/25", DateDialect::Dotted);
    assert_eq!(p.method.as_deref(), Some("card"));
    assert_eq!(p.date, None);
    let p = parse_payment("card/2023.05", DateDialect::Dotted);
    assert_eq!(p.date, Some(date(2023, 5, 1)));
}

#[test]
fn every_month_token_is_the_first_of_its_month() {
    for year in 0..=9999i32 {
        for month in 1..=12u32 {
            let dotted = format!("{:04}.{:02}", year, month);
            assert_eq!(
                parse_date(&dotted, DateDialect::Dotted).unwrap(),
                date(year, month, 1),
                "{}",
                dotted
            );
            let hangul = format!("{:04}년 {:02}월", year, month);
            assert_eq!(
                parse_date(&hangul, DateDialect::Hangul).unwrap(),
                date(year, month, 1),
                "{}",
                hangul
            );
        }
    }
}

#[test]
fn month_outside_the_calendar_is_no_month_token() {
    for token in ["2023.00", "2023.13", "2023.99"] {
        assert!(parse_date(token, DateDialect::Dotted).is_err(), "{}", token);
    }
    for token in ["2023년 00월", "2023년 13월"] {
        assert!(parse_date(token, DateDialect::Hangul).is_err(), "{}", token);
    }
}

#[test]
fn date_token_without_day_is_completed() {
    assert_eq!(
        complete_date_token("2023.05", DateDialect::Dotted),
        ("2023.05.01".to_string(), true)
    );
    assert_eq!(
        complete_date_token("2023.05.17", DateDialect::Dotted),
        ("2023.05.17".to_string(), false)
    );
    assert_eq!(complete_date_token("2023", DateDialect::Dotted), ("2023".to_string(), false));
    assert_eq!(complete_date_token("", DateDialect::Dotted), (String::new(), false));
    assert_eq!(complete_date_token(".", DateDialect::Dotted), ("..01".to_string(), true));
    assert_eq!(
        complete_date_token("2023년 05월", DateDialect::Hangul),
        ("2023년 05월 01일".to_string(), true)
    );
    assert_eq!(complete_date_token("", DateDialect::Hangul), (" 01일".to_string(), true));
}

#[test]
fn parsed_date_of_a_token_without_day_lies_on_the_first() {
    assert_eq!(date_from_parsed(Some(date(2023, 5, 17)), true, "x").unwrap(), date(2023, 5, 1));
    assert_eq!(date_from_parsed(Some(date(2023, 5, 17)), false, "x").unwrap(), date(2023, 5, 17));
    assert_eq!(date_from_parsed(Some(date(2023, 5, 1)), true, "x").unwrap(), date(2023, 5, 1));
    for truncated in [true, false] {
        let e = date_from_parsed(None, truncated, "2023.13").unwrap_err();
        assert_eq!(e.kind, FieldKind::Date);
        assert_eq!(e.raw, "2023.13");
    }
}
