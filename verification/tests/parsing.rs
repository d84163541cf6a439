use retention::error::ParseError;
use retention::file_size::search;
use retention::file_size::size_from_groups;
use retention::number::parse_u64;
use retention::parse_days;
use retention::parse_disk_percent;
use retention::parse_max_size;
use retention::DaysSec;
use retention::DiskFreePercent;
use retention::FileSize;

#[test]
fn days_file_size_parse_test() {
    let day_sec = 24 * 60 * 60;
    let k = "3".parse::<DaysSec>().unwrap();
    assert_eq!(
        k,
        DaysSec {
            day_sec: 3 * day_sec
        }
    );
}

#[test]
fn disk_file_size_parse_test() {
    let dfp = "34".parse::<DiskFreePercent>().unwrap();
    assert_eq!(dfp, DiskFreePercent { percent: 34 });

    let dfp = "100".parse::<DiskFreePercent>().unwrap();
    assert_eq!(dfp, DiskFreePercent { percent: 100 });
}

#[test]
fn file_size_file_size_parse_test() {
    let kilo = 1024;
    let k = "0g0m01k".parse::<FileSize>().unwrap();
    assert_eq!(k, FileSize { size: 1 * kilo });

    let m = "0g3m2k".parse::<FileSize>().unwrap();
    assert_eq!(
        m,
        FileSize {
            size: 3 * kilo * kilo + 2 * kilo
        }
    );

    let g = "5g3m2k".parse::<FileSize>().unwrap();
    assert_eq!(
        g,
        FileSize {
            size: 5 * kilo * kilo * kilo + 3 * kilo * kilo + 2 * kilo
        }
    );
}

#[test]
fn number_plain_digits() {
    assert_eq!(parse_u64("0"), Some(0));
    assert_eq!(parse_u64("7"), Some(7));
    assert_eq!(parse_u64("1234567890"), Some(1234567890));
    assert_eq!(parse_u64("007"), Some(7));
}

#[test]
fn number_takes_one_leading_plus() {
    assert_eq!(parse_u64("+5"), Some(5));
    assert_eq!(parse_u64("++5"), None);
    assert_eq!(parse_u64("+"), None);
}

#[test]
fn number_refuses_what_is_no_digit() {
    assert_eq!(parse_u64(""), None);
    assert_eq!(parse_u64("-5"), None);
    assert_eq!(parse_u64(" 5"), None);
    assert_eq!(parse_u64("5 "), None);
    assert_eq!(parse_u64("5a"), None);
    assert_eq!(parse_u64("1_000"), None);
    assert_eq!(parse_u64("\u{0665}"), None);
}

#[test]
fn number_stops_at_the_largest_u64() {
    assert_eq!(parse_u64("18446744073709551615"), Some(u64::MAX));
    assert_eq!(parse_u64("18446744073709551616"), None);
    assert_eq!(parse_u64("99999999999999999999"), None);
    assert_eq!(parse_u64("184467440737095516150"), None);
}

#[test]
fn number_agrees_with_std() {
    for text in ["0", "12", "+12", "-12", "", "+", "a", "18446744073709551615", "18446744073709551616"] {
        assert_eq!(parse_u64(text), text.parse::<u64>().ok());
    }
}

#[test]
fn days_become_seconds() {
    assert_eq!(parse_days("0"), Ok(DaysSec { day_sec: 0 }));
    assert_eq!(parse_days("1"), Ok(DaysSec { day_sec: 86400 }));
    assert_eq!(parse_days("7"), Ok(DaysSec { day_sec: 604800 }));
}

#[test]
fn days_refused() {
    assert_eq!(parse_days("three"), Err(ParseError::Days));
    assert_eq!(parse_days(""), Err(ParseError::Days));
    assert_eq!("x".parse::<DaysSec>(), Err(ParseError::Days));
}

#[test]
fn days_whose_seconds_do_not_fit() {
    assert_eq!(
        parse_days("213503982334601"),
        Ok(DaysSec {
            day_sec: 213503982334601 * 86400
        })
    );
    assert_eq!(parse_days("213503982334602"), Err(ParseError::Days));
    assert_eq!(parse_days("18446744073709551615"), Err(ParseError::Days));
}

#[test]
fn percent_bounds() {
    assert_eq!(parse_disk_percent("0"), Ok(DiskFreePercent { percent: 0 }));
    assert_eq!(parse_disk_percent("100"), Ok(DiskFreePercent { percent: 100 }));
    assert_eq!(parse_disk_percent("101"), Err(ParseError::PercentRange));
    assert_eq!(
        parse_disk_percent("18446744073709551615"),
        Err(ParseError::PercentRange)
    );
}

#[test]
fn percent_refused() {
    assert_eq!(parse_disk_percent("ten"), Err(ParseError::Percent));
    assert_eq!(parse_disk_percent("-1"), Err(ParseError::Percent));
    assert_eq!(parse_disk_percent("10%"), Err(ParseError::Percent));
    assert_eq!(parse_disk_percent("18446744073709551616"), Err(ParseError::Percent));
    assert_eq!("".parse::<DiskFreePercent>(), Err(ParseError::Percent));
}

#[test]
fn size_in_either_case() {
    assert_eq!(parse_max_size("2G3M4K"), Ok(FileSize { size: 2150633472 }));
    assert_eq!(parse_max_size("2g3M4k"), Ok(FileSize { size: 2150633472 }));
    assert_eq!(parse_max_size("0g0m0k"), Ok(FileSize { size: 0 }));
}

#[test]
fn size_is_found_inside_a_text() {
    assert_eq!(parse_max_size("max=1g2m3k!"), Ok(FileSize { size: 1075842048 }));
    assert_eq!(parse_max_size("x1g2m3k 9g9m9k"), Ok(FileSize { size: 1075842048 }));
}

#[test]
fn size_refused() {
    assert_eq!(parse_max_size(""), Err(ParseError::Size));
    assert_eq!(parse_max_size("1g2m"), Err(ParseError::Size));
    assert_eq!(parse_max_size("4k"), Err(ParseError::Size));
    assert_eq!(parse_max_size("1m2g3k"), Err(ParseError::Size));
    assert_eq!(parse_max_size("1g 2m 3k"), Err(ParseError::Size));
    assert_eq!("12".parse::<FileSize>(), Err(ParseError::Size));
}

#[test]
fn size_that_does_not_fit() {
    assert_eq!(
        parse_max_size("17179869183g1023m1023k"),
        Ok(FileSize {
            size: u64::MAX - 1023
        })
    );
    assert_eq!(parse_max_size("17179869184g0m0k"), Err(ParseError::Size));
    assert_eq!(parse_max_size("0g17592186044416m0k"), Err(ParseError::Size));
    assert_eq!(parse_max_size("99999999999999999999g0m0k"), Err(ParseError::Size));
}

#[test]
fn search_gives_every_group() {
    let found = search("([0-9]+)[gG]([0-9]+)[mM]([0-9]+)[kK]", "a 5g03m2k b").unwrap();
    assert_eq!(
        found,
        Some(vec![
            Some("5g03m2k".to_string()),
            Some("5".to_string()),
            Some("03".to_string()),
            Some("2".to_string()),
        ])
    );
    assert_eq!(search("([0-9]+)[gG]", "none").unwrap(), None);
}

#[test]
fn search_marks_a_group_that_took_no_part() {
    let found = search("(a)|(b)", "b").unwrap();
    assert_eq!(
        found,
        Some(vec![Some("b".to_string()), None, Some("b".to_string())])
    );
}

#[test]
fn search_refuses_a_broken_pattern() {
    assert_eq!(search("(", "text"), Err(ParseError::Pattern));
}

#[test]
fn groups_add_up() {
    let groups = vec![
        Some("1g1m1k".to_string()),
        Some("1".to_string()),
        Some("1".to_string()),
        Some("1".to_string()),
    ];
    assert_eq!(
        size_from_groups(&groups),
        Ok(FileSize {
            size: 1073741824 + 1048576 + 1024
        })
    );
}

#[test]
fn a_missing_group_counts_as_zero() {
    let groups = vec![Some("x".to_string()), None, Some("2".to_string())];
    assert_eq!(size_from_groups(&groups), Ok(FileSize { size: 2 * 1048576 }));
    assert_eq!(size_from_groups(&Vec::new()), Ok(FileSize { size: 0 }));
}

#[test]
fn a_group_that_is_no_number_is_refused() {
    let groups = vec![
        Some("x".to_string()),
        Some("1".to_string()),
        Some("two".to_string()),
        Some("3".to_string()),
    ];
    assert_eq!(size_from_groups(&groups), Err(ParseError::Size));
}

#[test]
fn messages_name_the_text() {
    assert_eq!(
        ParseError::Size.message("12"),
        "Failed to parse size from 12"
    );
    assert_eq!(
        ParseError::Days.message("x"),
        "Failed to parse size from x"
    );
    assert_eq!(
        ParseError::Percent.message("ten"),
        "Failed to parse disk free percent from ten. it should be usize"
    );
    assert_eq!(
        ParseError::PercentRange.message("101"),
        "disk free percent should be between 0 and 100"
    );
    assert_eq!(
        ParseError::Pattern.message("1g"),
        "Failed to read sizes while parsing 1g"
    );
}
