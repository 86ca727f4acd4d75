use menu_scraper::date::{dates_from, Date, EPOCH_DAY_NUMBER, LAST_DAY_NUMBER};
use menu_scraper::error::ParseError;

fn date(year: u16, month: u8, day: u8) -> Date {
    Date::new(year, month, day).unwrap()
}

#[test]
fn dates_from_crosses_the_end_of_a_leap_february() {
    let run = dates_from(date(2024, 2, 28), 3);
    assert_eq!(run, vec![date(2024, 2, 28), date(2024, 2, 29), date(2024, 3, 1)]);
}

#[test]
fn dates_from_crosses_the_end_of_a_common_february() {
    let run = dates_from(date(2023, 2, 28), 2);
    assert_eq!(run, vec![date(2023, 2, 28), date(2023, 3, 1)]);
}

#[test]
fn dates_from_knows_the_century_rule() {
    assert_eq!(dates_from(date(1900, 2, 28), 2)[1], date(1900, 3, 1));
    assert_eq!(dates_from(date(2000, 2, 28), 2)[1], date(2000, 2, 29));
}

#[test]
fn dates_from_crosses_the_end_of_a_year() {
    let run = dates_from(date(2023, 12, 30), 4);
    assert_eq!(
        run,
        vec![date(2023, 12, 30), date(2023, 12, 31), date(2024, 1, 1), date(2024, 1, 2)]
    );
}

#[test]
fn dates_from_with_count_zero_is_empty() {
    assert_eq!(dates_from(date(2024, 2, 28), 0), Vec::<Date>::new());
    assert_eq!(dates_from(date(9999, 12, 31), 0), Vec::<Date>::new());
}

#[test]
fn dates_from_may_end_on_the_last_date() {
    let run = dates_from(date(9999, 12, 30), 2);
    assert_eq!(run, vec![date(9999, 12, 30), date(9999, 12, 31)]);
}

#[test]
fn dates_from_is_ascending_by_one_day() {
    let run = dates_from(date(2019, 12, 25), 400);
    assert_eq!(run.len(), 400);
    for i in 0..run.len() {
        assert_eq!(run[i].day_number(), date(2019, 12, 25).day_number() + i as u32);
        if i > 0 {
            assert_eq!(run[i - 1].next_day(), Some(run[i]));
            let a = (run[i - 1].year(), run[i - 1].month(), run[i - 1].day());
            let b = (run[i].year(), run[i].month(), run[i].day());
            assert!(a < b);
        }
    }
    assert_eq!(run[399], date(2021, 1, 27));
}

#[test]
fn new_refuses_what_is_no_date() {
    assert_eq!(Date::new(2023, 2, 29), None);
    assert_eq!(Date::new(2024, 2, 30), None);
    assert_eq!(Date::new(2024, 4, 31), None);
    assert_eq!(Date::new(2024, 0, 1), None);
    assert_eq!(Date::new(2024, 13, 1), None);
    assert_eq!(Date::new(2024, 1, 0), None);
    assert_eq!(Date::new(0, 1, 1), None);
    assert_eq!(Date::new(10000, 1, 1), None);
    assert!(Date::new(2024, 2, 29).is_some());
    assert!(Date::new(1, 1, 1).is_some());
    assert!(Date::new(9999, 12, 31).is_some());
}

#[test]
fn getters_give_the_numbers() {
    let d = date(2024, 2, 28);
    assert_eq!((d.year(), d.month(), d.day()), (2024, 2, 28));
}

#[test]
fn next_day_ends_with_the_calendar() {
    assert_eq!(date(9999, 12, 31).next_day(), None);
    assert_eq!(date(9998, 12, 31).next_day(), Some(date(9999, 1, 1)));
    assert_eq!(date(2024, 1, 31).next_day(), Some(date(2024, 2, 1)));
    assert_eq!(date(2024, 4, 30).next_day(), Some(date(2024, 5, 1)));
}

#[test]
fn day_numbers_count_from_the_first_day() {
    assert_eq!(date(1, 1, 1).day_number(), 1);
    assert_eq!(date(1970, 1, 1).day_number(), 719163);
    assert_eq!(date(2000, 3, 1).day_number(), 730180);
    assert_eq!(date(2024, 2, 29).day_number(), 738945);
    assert_eq!(date(9999, 12, 31).day_number(), 3652059);
    assert_eq!(EPOCH_DAY_NUMBER, 719163);
    assert_eq!(LAST_DAY_NUMBER, 3652059);
}

#[test]
fn from_day_number_is_the_inverse_of_day_number() {
    assert_eq!(Date::from_day_number(0), None);
    assert_eq!(Date::from_day_number(3652060), None);
    assert_eq!(Date::from_day_number(1), Some(date(1, 1, 1)));
    assert_eq!(Date::from_day_number(365), Some(date(1, 12, 31)));
    assert_eq!(Date::from_day_number(366), Some(date(2, 1, 1)));
    assert_eq!(Date::from_day_number(738945), Some(date(2024, 2, 29)));
    assert_eq!(Date::from_day_number(3652059), Some(date(9999, 12, 31)));
    let mut n: u32 = 1;
    while n <= 3652059 {
        let d = Date::from_day_number(n).unwrap();
        assert_eq!(d.day_number(), n);
        n += 997;
    }
}

#[test]
fn from_unix_seconds_gives_the_date_in_universal_time() {
    assert_eq!(Date::from_unix_seconds(0), Some(date(1970, 1, 1)));
    assert_eq!(Date::from_unix_seconds(86399), Some(date(1970, 1, 1)));
    assert_eq!(Date::from_unix_seconds(86400), Some(date(1970, 1, 2)));
    assert_eq!(Date::from_unix_seconds(1709164800), Some(date(2024, 2, 29)));
    assert_eq!(Date::from_unix_seconds(1709251199), Some(date(2024, 2, 29)));
    assert_eq!(Date::from_unix_seconds(253402300799), Some(date(9999, 12, 31)));
    assert_eq!(Date::from_unix_seconds(253402300800), None);
    assert_eq!(Date::from_unix_seconds(u64::MAX), None);
}

#[test]
fn to_text_pads_with_zeros() {
    assert_eq!(date(2024, 2, 28).to_text(), "2024-02-28");
    assert_eq!(date(1, 1, 1).to_text(), "0001-01-01");
    assert_eq!(date(9999, 12, 31).to_text(), "9999-12-31");
    assert_eq!(date(476, 9, 4).to_text(), "0476-09-04");
}

#[test]
fn from_text_reads_a_date() {
    assert_eq!(Date::from_text("2024-02-29"), Some(date(2024, 2, 29)));
    assert_eq!(Date::from_text("0001-01-01"), Some(date(1, 1, 1)));
    assert_eq!(Date::from_text("9999-12-31"), Some(date(9999, 12, 31)));
}

#[test]
fn from_text_refuses_what_names_no_date() {
    for text in [
        "",
        "2024-02-30",
        "2023-02-29",
        "2024-13-01",
        "2024-00-10",
        "2024-01-00",
        "0000-01-01",
        "24-02-01",
        "2024-2-1",
        "2024/02/01",
        "2024-02-01 ",
        " 2024-02-01",
        "2024-02-1a",
        "20a4-02-01",
        "2024-02-011",
        "２０２４-02-01",
        "today",
    ] {
        assert_eq!(Date::from_text(text), None, "{}", text);
    }
}

#[test]
fn text_of_a_date_is_read_back() {
    let mut n: u32 = 1;
    while n <= 3652059 {
        let d = Date::from_day_number(n).unwrap();
        assert_eq!(Date::from_text(&d.to_text()), Some(d));
        n += 1009;
    }
}

#[test]
fn parse_names_the_text_that_it_refuses() {
    assert_eq!(Date::parse("2024-02-29"), Ok(date(2024, 2, 29)));
    assert_eq!(
        Date::parse("2023-02-29"),
        Err(ParseError::Date { text: String::from("2023-02-29") })
    );
    assert_eq!(Date::parse(""), Err(ParseError::Date { text: String::new() }));
    assert_eq!(
        Date::parse("28 Feb 2024"),
        Err(ParseError::Date { text: String::from("28 Feb 2024") })
    );
}
