use chrono::{DateTime, FixedOffset, Local, NaiveDate, NaiveDateTime, SubsecRound, TimeZone, Timelike, Utc};
use qsv_dateparser::{parse, parse_with_preference, parse_with_timezone, DateTimeUtc, Offset};

#[derive(Clone, Copy)]
enum Trunc {
    Seconds,
    Exact,
}

fn naive(y: i32, mo: u32, d: u32, h: u32, mi: u32, s: u32, ns: u32) -> NaiveDateTime {
    NaiveDate::from_ymd_opt(y, mo, d).unwrap().and_hms_nano_opt(h, mi, s, ns).unwrap()
}

fn utc(y: i32, mo: u32, d: u32, h: u32, mi: u32, s: u32, ns: u32) -> DateTime<Utc> {
    naive(y, mo, d, h, mi, s, ns).and_utc()
}

fn local(y: i32, mo: u32, d: u32, h: u32, mi: u32, s: u32, ns: u32) -> DateTime<Utc> {
    Local.from_local_datetime(&naive(y, mo, d, h, mi, s, ns)).unwrap().with_timezone(&Utc)
}

fn local_now_on(y: i32, mo: u32, d: u32) -> DateTime<Utc> {
    let t = Local::now().time();
    Local
        .from_local_datetime(&NaiveDate::from_ymd_opt(y, mo, d).unwrap().and_time(t))
        .unwrap()
        .with_timezone(&Utc)
}

fn utc_now_on(y: i32, mo: u32, d: u32) -> DateTime<Utc> {
    NaiveDate::from_ymd_opt(y, mo, d).unwrap().and_time(Utc::now().time()).and_utc()
}

fn pst_on(y: i32, mo: u32, d: u32, t: chrono::NaiveTime) -> DateTime<Utc> {
    let pst = FixedOffset::west_opt(8 * 3600).unwrap();
    pst.from_local_datetime(&NaiveDate::from_ymd_opt(y, mo, d).unwrap().and_time(t))
        .unwrap()
        .with_timezone(&Utc)
}

fn chrono_of(d: DateTimeUtc) -> DateTime<Utc> {
    DateTime::from_timestamp(d.secs, d.nanos).unwrap()
}

fn to_minute(d: DateTime<Utc>) -> DateTime<Utc> {
    d.trunc_subsecs(0).with_second(0).unwrap()
}

#[test]
fn parse_in_local() {
    let local_now = Local::now().time();
    let test_cases = vec![
        ("rfc3339", "2017-11-25T22:34:50Z", utc(2017, 11, 25, 22, 34, 50, 0), Trunc::Exact),
        ("rfc2822", "Wed, 02 Jun 2021 06:31:39 GMT", utc(2021, 6, 2, 6, 31, 39, 0), Trunc::Exact),
        ("ymd_hms", "2021-04-30 21:14:10", local(2021, 4, 30, 21, 14, 10, 0), Trunc::Exact),
        ("ymd_hms_z", "2017-11-25 13:31:15 PST", utc(2017, 11, 25, 21, 31, 15, 0), Trunc::Exact),
        ("ymd", "2021-02-21", local_now_on(2021, 2, 21), Trunc::Seconds),
        ("ymd_z", "2021-02-21 PST", pst_on(2021, 2, 21, local_now), Trunc::Seconds),
        ("month_ymd", "2021-Feb-21", local_now_on(2021, 2, 21), Trunc::Seconds),
        ("month_mdy_hms", "May 8, 2009 5:57:51 PM", local(2009, 5, 8, 17, 57, 51, 0), Trunc::Exact),
        ("month_mdy_hms_z", "May 02, 2021 15:51 UTC", utc(2021, 5, 2, 15, 51, 0, 0), Trunc::Exact),
        ("month_mdy", "May 25, 2021", local_now_on(2021, 5, 25), Trunc::Seconds),
        (
            "month_dmy_hms",
            "14 May 2019 19:11:40.164",
            local(2019, 5, 14, 19, 11, 40, 164_000_000),
            Trunc::Exact,
        ),
        ("month_dmy", "1 July 2013", local_now_on(2013, 7, 1), Trunc::Seconds),
        ("slash_mdy_hms", "03/19/2012 10:11:59", local(2012, 3, 19, 10, 11, 59, 0), Trunc::Exact),
        ("slash_mdy", "08/21/71", local_now_on(1971, 8, 21), Trunc::Seconds),
        ("slash_ymd_hms", "2012/03/19 10:11:59", local(2012, 3, 19, 10, 11, 59, 0), Trunc::Exact),
        ("slash_ymd", "2014/3/31", local_now_on(2014, 3, 31), Trunc::Seconds),
    ];

    for &(test, input, want, trunc) in test_cases.iter() {
        match trunc {
            Trunc::Exact => {
                assert_eq!(chrono_of(parse(input).unwrap()), want, "parse_in_local/{}/{}", test, input)
            }
            Trunc::Seconds => assert_eq!(
                to_minute(chrono_of(parse(input).unwrap())),
                to_minute(want),
                "parse_in_local/{}/{}",
                test,
                input
            ),
        };
    }
}

#[test]
fn parse_with_timezone_in_utc() {
    let utc_now = Utc::now().time();
    let test_cases = vec![
        ("rfc3339", "2017-11-25T22:34:50Z", utc(2017, 11, 25, 22, 34, 50, 0), Trunc::Exact),
        ("rfc2822", "Wed, 02 Jun 2021 06:31:39 GMT", utc(2021, 6, 2, 6, 31, 39, 0), Trunc::Exact),
        ("ymd_hms", "2021-04-30 21:14:10", utc(2021, 4, 30, 21, 14, 10, 0), Trunc::Exact),
        ("ymd_hms_z", "2017-11-25 13:31:15 PST", utc(2017, 11, 25, 21, 31, 15, 0), Trunc::Exact),
        ("ymd", "2021-02-21", utc_now_on(2021, 2, 21), Trunc::Seconds),
        ("ymd_z", "2021-02-21 PST", pst_on(2021, 2, 21, utc_now), Trunc::Seconds),
        ("month_ymd", "2021-Feb-21", utc_now_on(2021, 2, 21), Trunc::Seconds),
        ("month_mdy_hms", "May 8, 2009 5:57:51 PM", utc(2009, 5, 8, 17, 57, 51, 0), Trunc::Exact),
        ("month_mdy_hms_z", "May 02, 2021 15:51 UTC", utc(2021, 5, 2, 15, 51, 0, 0), Trunc::Exact),
        ("month_mdy", "May 25, 2021", utc_now_on(2021, 5, 25), Trunc::Seconds),
        (
            "month_dmy_hms",
            "14 May 2019 19:11:40.164",
            utc(2019, 5, 14, 19, 11, 40, 164_000_000),
            Trunc::Exact,
        ),
        ("month_dmy", "1 July 2013", utc_now_on(2013, 7, 1), Trunc::Seconds),
        ("slash_mdy_hms", "03/19/2012 10:11:59", utc(2012, 3, 19, 10, 11, 59, 0), Trunc::Exact),
        ("slash_mdy", "08/21/71", utc_now_on(1971, 8, 21), Trunc::Seconds),
        ("slash_ymd_hms", "2012/03/19 10:11:59", utc(2012, 3, 19, 10, 11, 59, 0), Trunc::Exact),
        ("slash_ymd", "2014/3/31", utc_now_on(2014, 3, 31), Trunc::Seconds),
    ];

    for &(test, input, want, trunc) in test_cases.iter() {
        match trunc {
            Trunc::Exact => assert_eq!(
                chrono_of(parse_with_timezone(input, Offset::utc()).unwrap()),
                want,
                "parse_with_timezone_in_utc/{}/{}",
                test,
                input
            ),
            Trunc::Seconds => assert_eq!(
                to_minute(chrono_of(parse_with_timezone(input, Offset::utc()).unwrap())),
                to_minute(want),
                "parse_with_timezone_in_utc/{}/{}",
                test,
                input
            ),
        };
    }
}

#[test]
fn parse_unambiguous_dmy() {
    assert_eq!(
        chrono_of(parse("31/3/22").unwrap()).date_naive(),
        NaiveDate::from_ymd_opt(2022, 3, 31).unwrap()
    );
    assert_eq!(
        chrono_of(parse_with_preference("3/31/22", true).unwrap()).date_naive(),
        NaiveDate::from_ymd_opt(2022, 3, 31).unwrap()
    );
}
