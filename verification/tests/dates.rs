use movie_stats::date::Date;

#[test]
fn parse_reads_year_month_day() {
    assert_eq!(Date::parse("2021-05-10"), Some(Date::new(2021, 5, 10)));
    assert_eq!(Date::parse("2020-02-29"), Some(Date::new(2020, 2, 29)));
    assert_eq!(Date::parse("1987-12-31"), Some(Date { year: 1987, month: 12, day: 31 }));
}

#[test]
fn parse_refuses_what_is_no_date() {
    assert_eq!(Date::parse(""), None);
    assert_eq!(Date::parse("2021-02-30"), None);
    assert_eq!(Date::parse("2021-00-10"), None);
    assert_eq!(Date::parse("2021/05/10"), None);
    assert_eq!(Date::parse("yesterday"), None);
}

#[test]
fn on_or_before_goes_by_year_month_day() {
    let d = Date::new(2021, 1, 1);
    assert!(d.on_or_before(&d));
    assert!(Date::new(2020, 12, 31).on_or_before(&d));
    assert!(!Date::new(2021, 2, 1).on_or_before(&d));
    assert!(!Date::new(2021, 1, 2).on_or_before(&d));
    assert!(Date::new(2020, 12, 31).on_or_before(&Date::new(2021, 1, 1)));
    assert!(Date::new(2021, 3, 31).on_or_before(&Date::new(2021, 4, 1)));
    assert!(!Date::new(2022, 1, 1).on_or_before(&Date::new(2021, 12, 31)));
    assert!(Date::new(-5, 1, 1).on_or_before(&Date::new(0, 1, 1)));
}

#[test]
fn month_index_counts_from_zero() {
    assert_eq!(Date::new(2021, 1, 1).month_index(), 0);
    assert_eq!(Date::new(2021, 5, 1).month_index(), 4);
    assert_eq!(Date::new(2021, 12, 1).month_index(), 11);
    assert_eq!(Date::new(2021, 0, 1).month_index(), 0);
    assert_eq!(Date::new(2021, 13, 1).month_index(), 0);
    assert_eq!(Date::new(2021, u32::MAX, 1).month_index(), 0);
}

#[test]
fn getters_give_the_fields() {
    let d = Date::new(2021, 5, 10);
    assert_eq!((d.year(), d.month(), d.day()), (2021, 5, 10));
}
