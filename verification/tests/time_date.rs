use kernel::time::date::{year_offset_from_days, Date, Time};
use kernel::time::timestamp::Timestamp;

#[test]
fn year_offset() {
    assert_eq!(year_offset_from_days(1), 0);
    assert_eq!(year_offset_from_days(365), 0); // 1980 is a leap year
    assert_eq!(year_offset_from_days(366), 1);
    assert_eq!(year_offset_from_days(366 + 365 + 365 + 365), 4);
    assert_eq!(year_offset_from_days(366 + 365 + 365 + 365 + 365), 4);
    assert_eq!(year_offset_from_days(366 + 365 + 365 + 365 + 366), 5);
}

#[test]
fn extract_time() {
    let mut time = Timestamp(1).to_datetime().time;
    assert_eq!(time, Time { hours: 0, minutes: 0, seconds: 1 });
    time = Timestamp(16332).to_datetime().time;
    assert_eq!(time, Time { hours: 4, minutes: 32, seconds: 12 });
    time = Timestamp(93595).to_datetime().time;
    assert_eq!(time, Time { hours: 1, minutes: 59, seconds: 55 });
}

#[test]
fn extract_date() {
    let mut date = Timestamp(10).to_datetime().date;
    assert_eq!(date, Date { day: 1, month: 1, year: 0 });
    date = Timestamp(2592000).to_datetime().date;
    assert_eq!(date, Date { day: 31, month: 1, year: 0 });
    date = Timestamp(2678400).to_datetime().date;
    assert_eq!(date, Date { day: 1, month: 2, year: 0 });
    date = Timestamp(5097600).to_datetime().date;
    assert_eq!(date, Date { day: 29, month: 2, year: 0 });
    date = Timestamp(5184000).to_datetime().date;
    assert_eq!(date, Date { day: 1, month: 3, year: 0 });
    date = Timestamp(7862400).to_datetime().date;
    assert_eq!(date, Date { day: 1, month: 4, year: 0 });
    date = Timestamp(31622400).to_datetime().date;
    assert_eq!(date, Date { day: 1, month: 1, year: 1 });
    date = Timestamp(126230400).to_datetime().date;
    assert_eq!(date, Date { day: 1, month: 1, year: 4 });
    date = Timestamp(131328000).to_datetime().date;
    assert_eq!(date, Date { day: 29, month: 2, year: 4 });

    date = Timestamp(1278713001).to_datetime().date;
    assert_eq!(date, Date { day: 8, month: 7, year: 40 });
}

#[test]
fn to_timestamp() {
    let dt = Timestamp(1278713001).to_datetime();
    assert_eq!(Timestamp::from_datetime(dt), Timestamp(1278713001));
}
