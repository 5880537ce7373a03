use quote_it::{
    build_filter, calendar_day, listing, local_today, no_match_message, parse_date, render_with_quoted, AddError,
    CalendarDate, DateError, Filter, Quote, QuoteStore, ToChronoDateFormatted, UsageError,
};

fn date(year: i32, month: u32, day: u32) -> CalendarDate {
    CalendarDate { year, month, day }
}

fn jobs_store() -> QuoteStore {
    let mut store = QuoteStore::new();
    Quote::add_quote(
        &mut store,
        "Stay hungry, stay foolish.".to_string(),
        Some("Steve Jobs".to_string()),
        false,
    )
    .unwrap();
    store
}

#[test]
fn parse_date_reads_month_day_year() {
    assert_eq!(parse_date("01-01-2030"), Ok(date(2030, 1, 1)));
    assert_eq!(parse_date("12-31-1999"), Ok(date(1999, 12, 31)));
    assert_eq!(parse_date("02-29-2024"), Ok(date(2024, 2, 29)));
    assert_eq!(parse_date("02-29-2000"), Ok(date(2000, 2, 29)));
}

#[test]
fn parse_date_rejects_other_shapes() {
    assert_eq!(parse_date("1-01-2030"), Err(DateError::Malformed));
    assert_eq!(parse_date("01/01/2030"), Err(DateError::Malformed));
    assert_eq!(parse_date("01-01-20300"), Err(DateError::Malformed));
    assert_eq!(parse_date("2030-01-01"), Err(DateError::Malformed));
    assert_eq!(parse_date(""), Err(DateError::Malformed));
    assert_eq!(parse_date("0a-01-2030"), Err(DateError::Malformed));
}

#[test]
fn parse_date_rejects_missing_days() {
    assert_eq!(parse_date("02-29-2023"), Err(DateError::NoSuchDay));
    assert_eq!(parse_date("02-29-1900"), Err(DateError::NoSuchDay));
    assert_eq!(parse_date("04-31-2024"), Err(DateError::NoSuchDay));
    assert_eq!(parse_date("13-01-2024"), Err(DateError::NoSuchDay));
    assert_eq!(parse_date("00-10-2024"), Err(DateError::NoSuchDay));
    assert_eq!(parse_date("01-00-2024"), Err(DateError::NoSuchDay));
}

#[test]
fn date_formats_with_padding() {
    assert_eq!(date(2030, 1, 1).to_date_formatted(), "01-01-2030");
    assert_eq!(date(999, 3, 7).to_date_formatted(), "03-07-0999");
    assert_eq!(date(2024, 12, 25).to_date_formatted(), "12-25-2024");
}

#[test]
fn formatted_date_reads_back() {
    for d in [date(2030, 1, 1), date(2024, 2, 29), date(5, 11, 30), date(9999, 12, 31)] {
        assert_eq!(parse_date(&d.to_date_formatted()), Ok(d));
    }
}

#[test]
fn today_is_a_valid_day_that_reads_back() {
    let today = local_today().unwrap();
    assert!(today.is_valid());
    assert_eq!(parse_date(&today.to_date_formatted()), Ok(today));
}

#[test]
fn date_order_is_chronological() {
    assert!(date(1999, 12, 31).is_before(&date(2000, 1, 1)));
    assert!(date(2000, 1, 1).is_before(&date(2000, 1, 2)));
    assert!(date(2000, 1, 31).is_before(&date(2000, 2, 1)));
    assert!(!date(2000, 1, 1).is_before(&date(2000, 1, 1)));
    assert!(!date(2030, 1, 1).is_before(&date(2000, 1, 1)));
}

#[test]
fn exact_day_with_a_bound_is_refused() {
    let d = Some(date(2030, 1, 1));
    let e = Some(date(2000, 1, 1));
    assert!(matches!(build_filter(&None, &d, &e, &None), Err(UsageError::ExactDateWithRange)));
    assert!(matches!(build_filter(&None, &d, &None, &e), Err(UsageError::ExactDateWithRange)));
    assert!(matches!(build_filter(&None, &d, &e, &e), Err(UsageError::ExactDateWithRange)));
}

#[test]
fn inverted_range_is_refused_and_others_pass() {
    let early = Some(date(2000, 1, 1));
    let late = Some(date(2030, 1, 1));
    assert!(matches!(build_filter(&None, &None, &early, &late), Err(UsageError::InvertedRange)));
    assert!(matches!(build_filter(&None, &None, &early, &early), Ok(Some(_))));
    assert!(matches!(build_filter(&None, &None, &late, &early), Ok(Some(_))));
}

#[test]
fn no_constraint_gives_no_filter() {
    assert!(matches!(build_filter(&None, &None, &None, &None), Ok(None)));
    let f = build_filter(&Some("Ada".to_string()), &None, &None, &None).unwrap().unwrap();
    assert_eq!(f.author, Some("Ada".to_string()));
    assert_eq!(f.on, None);
    assert_eq!(f.at_most, None);
    assert_eq!(f.at_least, None);
}

#[test]
fn range_filter_keeps_both_bounds() {
    let f = build_filter(&None, &None, &Some(date(2030, 1, 1)), &Some(date(2000, 1, 1)))
        .unwrap()
        .unwrap();
    assert_eq!(f.at_most, Some(date(2030, 1, 1)));
    assert_eq!(f.at_least, Some(date(2000, 1, 1)));
}

#[test]
fn filter_bounds_are_inclusive() {
    let q = Quote { quote: "q".to_string(), author: None, date: Some(date(2020, 5, 5)) };
    let f = Filter { author: None, on: None, at_most: Some(date(2020, 5, 5)), at_least: Some(date(2020, 5, 5)) };
    assert!(f.matches(&q));
    let f = Filter { author: None, on: None, at_most: Some(date(2020, 5, 4)), at_least: None };
    assert!(!f.matches(&q));
    let f = Filter { author: None, on: None, at_most: None, at_least: Some(date(2020, 5, 6)) };
    assert!(!f.matches(&q));
}

#[test]
fn date_filter_skips_undated_records() {
    let q = Quote { quote: "q".to_string(), author: Some("A".to_string()), date: None };
    let f = Filter { author: None, on: None, at_most: None, at_least: Some(date(1, 1, 1)) };
    assert!(!f.matches(&q));
    let f = Filter { author: Some("A".to_string()), on: None, at_most: None, at_least: None };
    assert!(f.matches(&q));
    let f = Filter { author: Some("B".to_string()), on: None, at_most: None, at_least: None };
    assert!(!f.matches(&q));
}

#[test]
fn add_without_date_stores_exact_record() {
    let store = jobs_store();
    assert_eq!(store.len(), 1);
    let found = store.find(&None);
    assert_eq!(found.len(), 1);
    assert_eq!(found[0].quote, "Stay hungry, stay foolish.");
    assert_eq!(found[0].author, Some("Steve Jobs".to_string()));
    assert_eq!(found[0].date, None);
}

#[test]
fn add_with_date_stamps_today() {
    let mut store = QuoteStore::new();
    let first = local_today().unwrap();
    Quote::add_quote(&mut store, "Now.".to_string(), None, true).unwrap();
    let last = local_today().unwrap();
    let found = store.find(&None);
    assert_eq!(found.len(), 1);
    assert_eq!(found[0].author, None);
    let stamped = found[0].date.unwrap();
    assert!(stamped == first || stamped == last);
}

#[test]
fn add_then_unfiltered_list_shows_new_record() {
    let mut store = jobs_store();
    Quote::add_quote_dated(&mut store, "Second".to_string(), None, Some(date(2021, 6, 1))).unwrap();
    let found = store.find(&None);
    assert_eq!(found.len(), 2);
    assert_eq!(found[1].quote, "Second");
    assert_eq!(found[1].author, None);
    assert_eq!(found[1].date, Some(date(2021, 6, 1)));
}

#[test]
fn empty_text_is_refused() {
    let mut store = QuoteStore::new();
    assert_eq!(Quote::add_quote(&mut store, String::new(), None, true), Err(AddError::EmptyText));
    assert_eq!(store.len(), 0);
}

#[test]
fn list_by_author_renders_record() {
    let store = jobs_store();
    let out = Quote::list_quotes(&store, Some("Steve Jobs".to_string()), None, None, None).unwrap();
    assert_eq!(out, "\"Stay hungry, stay foolish.\"\n  - Steve Jobs\n------------\n\n");
}

#[test]
fn list_on_day_without_match_names_day() {
    let store = jobs_store();
    let out = Quote::list_quotes(&store, None, parse_date("01-01-2030").ok(), None, None).unwrap();
    assert_eq!(out, "No quotes found on 01-01-2030\n");
}

#[test]
fn list_with_inverted_range_is_usage_error() {
    let store = jobs_store();
    let r = Quote::list_quotes(
        &store,
        None,
        None,
        parse_date("01-01-2000").ok(),
        parse_date("01-01-2030").ok(),
    );
    assert_eq!(r, Err(UsageError::InvertedRange));
    assert_eq!(UsageError::InvertedRange.message(), "Invalid range provided");
}

#[test]
fn list_with_exact_day_and_bound_is_usage_error() {
    let store = jobs_store();
    let r = Quote::list_quotes(&store, None, Some(date(2030, 1, 1)), None, Some(date(2000, 1, 1)));
    assert_eq!(r, Err(UsageError::ExactDateWithRange));
}

#[test]
fn empty_store_listing_gives_hint() {
    let store = QuoteStore::new();
    let out = Quote::list_quotes(&store, None, None, None, None).unwrap();
    assert_eq!(out, "No quotes found. Try creating a quote with `quote-it <QUOTE>`\n");
}

#[test]
fn no_match_message_names_every_constraint() {
    let msg = no_match_message(
        &Some("Ada".to_string()),
        &None,
        &Some(date(2030, 1, 1)),
        &Some(date(2000, 1, 1)),
    );
    assert_eq!(msg, "No quotes found by Ada after 01-01-2000 and before 01-01-2030");
    let msg = no_match_message(&None, &None, &Some(date(2030, 1, 1)), &None);
    assert_eq!(msg, "No quotes found before 01-01-2030");
}

#[test]
fn unconstrained_listing_shows_every_record_and_no_hint() {
    let mut store = jobs_store();
    Quote::add_quote_dated(&mut store, "Two".to_string(), None, Some(date(2020, 2, 3))).unwrap();
    let out = Quote::list_quotes(&store, None, None, None, None).unwrap();
    assert_eq!(
        out,
        "\"Stay hungry, stay foolish.\"\n  - Steve Jobs\n------------\n\n\"Two\" on 02-03-2020\n------------\n\n"
    );
    assert!(!out.contains("Try creating"));
}

#[test]
fn render_shows_author_and_date_on_one_line() {
    let q = Quote { quote: "Hi".to_string(), author: Some("Me".to_string()), date: Some(date(2024, 7, 4)) };
    assert_eq!(q.render(), "\"Hi\"\n  - Me on 07-04-2024\n------------\n");
}

#[test]
fn render_escapes_quote_text() {
    let q = Quote { quote: "say \"hi\"".to_string(), author: None, date: None };
    assert_eq!(q.render(), "\"say \\\"hi\\\"\"\n------------\n");
    assert_eq!(render_with_quoted("<q>", &None, &None), "<q>\n------------\n");
}

#[test]
fn listing_of_found_records() {
    let found = vec![Quote { quote: "A".to_string(), author: None, date: None }];
    assert_eq!(listing(&found, &None, &None, &None, &None), "\"A\"\n------------\n\n");
    assert_eq!(
        listing(&Vec::new(), &Some("Z".to_string()), &None, &None, &None),
        "No quotes found by Z\n"
    );
}

#[test]
fn well_formedness_check() {
    assert!(Quote { quote: "a".to_string(), author: None, date: Some(date(2024, 2, 29)) }.is_well_formed());
    assert!(!Quote { quote: String::new(), author: None, date: None }.is_well_formed());
    assert!(!Quote { quote: "a".to_string(), author: None, date: Some(date(2023, 2, 29)) }.is_well_formed());
}

#[test]
fn calendar_day_keeps_four_digit_years() {
    assert_eq!(calendar_day(2026, 10, 18), Ok(date(2026, 10, 18)));
    assert_eq!(calendar_day(0, 1, 1), Ok(date(0, 1, 1)));
    assert_eq!(calendar_day(10000, 1, 1), Err(DateError::YearOutOfRange));
    assert_eq!(calendar_day(-1, 12, 31), Err(DateError::YearOutOfRange));
}

#[test]
fn record_for_clock_day() {
    let q = Quote::new_for_day("Q".to_string(), Some("A".to_string()), true, 2024, 2, 29).unwrap();
    assert_eq!(q.quote, "Q");
    assert_eq!(q.author, Some("A".to_string()));
    assert_eq!(q.date, Some(date(2024, 2, 29)));
    let q = Quote::new_for_day("Q".to_string(), None, false, 2024, 2, 29).unwrap();
    assert_eq!(q.date, None);
    assert_eq!(
        Quote::new_for_day("Q".to_string(), None, true, 10000, 1, 1).err(),
        Some(AddError::YearOutOfRange)
    );
    assert_eq!(Quote::new_for_day(String::new(), None, true, 2024, 1, 1).err(), Some(AddError::EmptyText));
}

#[test]
fn same_day_stamps_are_equal() {
    let a = Quote::new_for_day("one".to_string(), None, true, 2030, 1, 1).unwrap();
    let b = Quote::new_for_day("two".to_string(), Some("B".to_string()), true, 2030, 1, 1).unwrap();
    assert_eq!(a.date, b.date);
    assert_eq!(a.date.unwrap().to_date_formatted(), "01-01-2030");
}

#[test]
fn stamped_record_has_todays_date() {
    let first = local_today().unwrap();
    let q = Quote::new_stamped("Now".to_string(), None, true).unwrap();
    let last = local_today().unwrap();
    let stamped = q.date.unwrap();
    assert!(stamped == first || stamped == last);
    assert_eq!(Quote::new_stamped(String::new(), None, true).err(), Some(AddError::EmptyText));
}
