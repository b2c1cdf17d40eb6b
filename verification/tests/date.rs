use page_collection::{Date, Member};
use time::Month;

fn calendar(year: i32, month: Month, day: u8) -> time::Date {
    time::Date::from_calendar_date(year, month, day).unwrap()
}

#[test]
fn date_keeps_its_julian_day() {
    assert_eq!(Date::from_julian_day(2_458_859).to_julian_day(), 2_458_859);
    assert_eq!(Date::from_julian_day(0).to_julian_day(), 0);
    assert_eq!(Date::from_julian_day(-1).to_julian_day(), -1);
    assert_eq!(Date::from_julian_day(i32::MAX).to_julian_day(), i32::MAX);
    assert_eq!(Date::from_julian_day(i32::MIN).to_julian_day(), i32::MIN);
}

#[test]
fn earlier_day_is_before_later_day() {
    let fifth = Date::from_julian_day(2_458_854);
    let tenth = Date::from_julian_day(2_458_859);
    assert!(fifth.is_before(&tenth));
    assert!(!tenth.is_before(&fifth));
    assert!(!fifth.is_before(&fifth));
}

#[test]
fn dates_compare_as_their_julian_days() {
    let fifth = Date::from_julian_day(2_458_854);
    let tenth = Date::from_julian_day(2_458_859);
    assert!(fifth < tenth);
    assert!(tenth > fifth);
    assert!(fifth <= fifth);
    assert_eq!(fifth, Date::from_julian_day(2_458_854));
    assert_ne!(fifth, tenth);
    assert_eq!(fifth.max(tenth), tenth);
}

#[test]
fn same_day_is_the_same_member() {
    let fifth = Date::from_julian_day(2_458_854);
    assert!(fifth.same(&Date::from_julian_day(2_458_854)));
    assert!(!fifth.same(&Date::from_julian_day(2_458_855)));
}

#[test]
fn calendar_days_have_their_julian_day() {
    assert_eq!(calendar(2020, Month::January, 10).to_julian_day(), 2_458_859);
    assert_eq!(calendar(2020, Month::January, 5).to_julian_day(), 2_458_854);
    assert_eq!(calendar(2000, Month::January, 1).to_julian_day(), 2_451_545);
}

#[test]
fn julian_days_order_as_calendar_days_do() {
    let days = [
        calendar(-4713, Month::November, 24),
        calendar(-1, Month::December, 31),
        calendar(0, Month::January, 1),
        calendar(1999, Month::December, 31),
        calendar(2000, Month::February, 29),
        calendar(2000, Month::March, 1),
        calendar(2020, Month::January, 5),
        calendar(2020, Month::January, 10),
        calendar(9999, Month::December, 31),
    ];
    for a in days.iter() {
        for b in days.iter() {
            let x = Date::from_julian_day(a.to_julian_day());
            let y = Date::from_julian_day(b.to_julian_day());
            assert_eq!(x.is_before(&y), a < b);
            assert_eq!(x < y, a < b);
            assert_eq!(x == y, a == b);
            assert_eq!(x.same(&y), a == b);
        }
    }
}

#[test]
fn julian_day_gives_the_calendar_day_back() {
    let tenth = calendar(2020, Month::January, 10);
    let date = Date::from_julian_day(tenth.to_julian_day());
    assert_eq!(time::Date::from_julian_day(date.to_julian_day()), Ok(tenth));
}
