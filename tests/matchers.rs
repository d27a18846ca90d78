use chrono::{DateTime, FixedOffset, NaiveDate, SubsecRound, TimeZone, Timelike, Utc};
use qsv_dateparser::{DateTimeUtc, Offset, Parse, ParseError, TimeOfDay};

fn utc(y: i32, mo: u32, d: u32, h: u32, mi: u32, s: u32, ns: u32) -> DateTime<Utc> {
    NaiveDate::from_ymd_opt(y, mo, d)
        .unwrap()
        .and_hms_nano_opt(h, mi, s, ns)
        .unwrap()
        .and_utc()
}

fn at_time(y: i32, mo: u32, d: u32, t: chrono::NaiveTime) -> DateTime<Utc> {
    NaiveDate::from_ymd_opt(y, mo, d).unwrap().and_time(t).and_utc()
}

fn chrono_of(d: DateTimeUtc) -> DateTime<Utc> {
    DateTime::from_timestamp(d.secs, d.nanos).unwrap()
}

fn got(r: Option<Result<DateTimeUtc, ParseError>>) -> DateTime<Utc> {
    chrono_of(r.unwrap().unwrap())
}

fn to_minute(d: DateTime<Utc>) -> DateTime<Utc> {
    d.trunc_subsecs(0).with_second(0).unwrap()
}

fn now_time() -> TimeOfDay {
    let t = Utc::now().time();
    TimeOfDay {
        hour: t.hour(),
        minute: t.minute(),
        second: t.second(),
        nano: t.nanosecond().min(999_999_999),
    }
}

fn utc_parser() -> Parse {
    Parse::new(Offset::utc(), now_time())
}

#[test]
fn unix_timestamp() {
    let parse = utc_parser();

    let test_cases = vec![
        ("0", utc(1970, 1, 1, 0, 0, 0, 0)),
        ("0000000000", utc(1970, 1, 1, 0, 0, 0, 0)),
        ("0000000000000", utc(1970, 1, 1, 0, 0, 0, 0)),
        ("0000000000000000000", utc(1970, 1, 1, 0, 0, 0, 0)),
        ("-770172300", utc(1945, 8, 5, 23, 15, 0, 0)),
        ("1671673426.123456789", utc(2022, 12, 22, 1, 43, 46, 123456789)),
        ("1511648546", utc(2017, 11, 25, 22, 22, 26, 0)),
        ("1620036248.420", utc(2021, 5, 3, 10, 4, 8, 420_000_000)),
        ("1620036248.717915136", utc(2021, 5, 3, 10, 4, 8, 717915136)),
    ];

    for &(input, want) in test_cases.iter() {
        assert_eq!(got(parse.unix_timestamp(input)), want, "unix_timestamp/{}", input)
    }
    assert!(parse.unix_timestamp("15116").is_some());
    assert!(parse
        .unix_timestamp("16200248727179150001620024872717915000")
        .is_some());
    assert!(parse.unix_timestamp("not-a-ts").is_none());
}

#[test]
fn rfc3339() {
    let parse = utc_parser();

    let test_cases = vec![
        ("2021-05-01T01:17:02.604456Z", utc(2021, 5, 1, 1, 17, 2, 604456000)),
        ("2017-11-25T22:34:50Z", utc(2017, 11, 25, 22, 34, 50, 0)),
    ];

    for &(input, want) in test_cases.iter() {
        assert_eq!(got(parse.rfc3339(input)), want, "rfc3339/{}", input)
    }
    assert!(parse.rfc3339("2017-11-25 22:34:50").is_none());
    assert!(parse.rfc3339("not-date-time").is_none());
}

#[test]
fn rfc2822() {
    let parse = utc_parser();

    let test_cases = vec![
        ("Wed, 02 Jun 2021 06:31:39 GMT", utc(2021, 6, 2, 6, 31, 39, 0)),
        ("Wed, 02 Jun 2021 06:31:39 PDT", utc(2021, 6, 2, 13, 31, 39, 0)),
    ];

    for &(input, want) in test_cases.iter() {
        assert_eq!(got(parse.rfc2822(input)), want, "rfc2822/{}", input)
    }
    assert!(parse.rfc2822("02 Jun 2021 06:31:39").is_none());
    assert!(parse.rfc2822("not-date-time").is_none());
}

#[test]
fn ymd_hms() {
    let parse = utc_parser();

    let test_cases = vec![
        ("2021-04-30 21:14", utc(2021, 4, 30, 21, 14, 0, 0)),
        ("2021-04-30 21:14:10", utc(2021, 4, 30, 21, 14, 10, 0)),
        ("2021-04-30 21:14:10.052282", utc(2021, 4, 30, 21, 14, 10, 52282000)),
        ("2014-04-26 05:24:37 PM", utc(2014, 4, 26, 17, 24, 37, 0)),
        ("2014-04-26 17:24:37.123", utc(2014, 4, 26, 17, 24, 37, 123_000_000)),
        ("2014-04-26 17:24:37.3186369", utc(2014, 4, 26, 17, 24, 37, 318636900)),
        ("2012-08-03 18:31:59.257000000", utc(2012, 8, 3, 18, 31, 59, 257000000)),
    ];

    for &(input, want) in test_cases.iter() {
        assert_eq!(got(parse.ymd_hms(input)), want, "ymd_hms/{}", input)
    }
    assert!(parse.ymd_hms("not-date-time").is_none());
}

#[test]
fn ymd_hms_z() {
    let parse = utc_parser();

    let test_cases = vec![
        ("2017-11-25 13:31:15 PST", utc(2017, 11, 25, 21, 31, 15, 0)),
        ("2017-11-25 13:31 PST", utc(2017, 11, 25, 21, 31, 0, 0)),
        ("2014-12-16 06:20:00 UTC", utc(2014, 12, 16, 6, 20, 0, 0)),
        ("2014-12-16 06:20:00 GMT", utc(2014, 12, 16, 6, 20, 0, 0)),
        ("2014-04-26 13:13:43 +0800", utc(2014, 4, 26, 5, 13, 43, 0)),
        ("2014-04-26 13:13:44 +09:00", utc(2014, 4, 26, 4, 13, 44, 0)),
        ("2012-08-03 18:31:59.257000000 +0000", utc(2012, 8, 3, 18, 31, 59, 257000000)),
        ("2015-09-30 18:48:56.35272715 UTC", utc(2015, 9, 30, 18, 48, 56, 352727150)),
    ];

    for &(input, want) in test_cases.iter() {
        assert_eq!(got(parse.ymd_hms_z(input)), want, "ymd_hms_z/{}", input)
    }
    assert!(parse.ymd_hms_z("not-date-time").is_none());
}

#[test]
fn ymd() {
    let parse = utc_parser();

    let test_cases = vec![("2021-02-21", at_time(2021, 2, 21, Utc::now().time()))];

    for &(input, want) in test_cases.iter() {
        assert_eq!(to_minute(got(parse.ymd(input))), to_minute(want), "ymd/{}", input)
    }
    assert!(parse.ymd("not-date-time").is_none());
}

#[test]
fn ymd_z() {
    let parse = utc_parser();
    let pst = FixedOffset::west_opt(8 * 3600).unwrap();
    let cst = FixedOffset::east_opt(8 * 3600).unwrap();
    let now = Utc::now().time();

    let test_cases = vec![
        (
            "2021-02-21 PST",
            pst.from_local_datetime(&NaiveDate::from_ymd_opt(2021, 2, 21).unwrap().and_time(now))
                .unwrap()
                .with_timezone(&Utc),
        ),
        ("2021-02-21 UTC", at_time(2021, 2, 21, Utc::now().time())),
        (
            "2020-07-20+08:00",
            cst.from_local_datetime(&NaiveDate::from_ymd_opt(2020, 7, 20).unwrap().and_time(now))
                .unwrap()
                .with_timezone(&Utc),
        ),
    ];

    for &(input, want) in test_cases.iter() {
        assert_eq!(to_minute(got(parse.ymd_z(input))), to_minute(want), "ymd_z/{}", input)
    }
    assert!(parse.ymd_z("not-date-time").is_none());
}

#[test]
fn month_ymd() {
    let parse = utc_parser();

    let test_cases = vec![("2021-Feb-21", at_time(2021, 2, 21, Utc::now().time()))];

    for &(input, want) in test_cases.iter() {
        assert_eq!(to_minute(got(parse.month_ymd(input))), to_minute(want), "month_ymd/{}", input)
    }
    assert!(parse.month_ymd("not-date-time").is_none());
}

#[test]
fn month_mdy_hms() {
    let parse = utc_parser();

    let test_cases = vec![
        ("May 8, 2009 5:57:51 PM", utc(2009, 5, 8, 17, 57, 51, 0)),
        ("September 17, 2012 10:09am", utc(2012, 9, 17, 10, 9, 0, 0)),
        ("September 17, 2012, 10:10:09", utc(2012, 9, 17, 10, 10, 9, 0)),
    ];

    for &(input, want) in test_cases.iter() {
        assert_eq!(got(parse.month_mdy_hms(input)), want, "month_mdy_hms/{}", input)
    }
    assert!(parse.month_mdy_hms("not-date-time").is_none());
}

#[test]
fn month_mdy_hms_z() {
    let parse = utc_parser();

    let test_cases = vec![
        ("May 02, 2021 15:51:31 UTC", utc(2021, 5, 2, 15, 51, 31, 0)),
        ("May 02, 2021 15:51 UTC", utc(2021, 5, 2, 15, 51, 0, 0)),
        ("May 26, 2021, 12:49 AM PDT", utc(2021, 5, 26, 7, 49, 0, 0)),
        ("September 17, 2012 at 10:09am PST", utc(2012, 9, 17, 18, 9, 0, 0)),
    ];

    for &(input, want) in test_cases.iter() {
        assert_eq!(got(parse.month_mdy_hms_z(input)), want, "month_mdy_hms_z/{}", input)
    }
    assert!(parse.month_mdy_hms_z("not-date-time").is_none());
}

#[test]
fn month_mdy() {
    let parse = utc_parser();

    let test_cases = vec![
        ("May 25, 2021", at_time(2021, 5, 25, Utc::now().time())),
        ("oct 7, 1970", at_time(1970, 10, 7, Utc::now().time())),
        ("oct 7, 70", at_time(1970, 10, 7, Utc::now().time())),
        ("oct. 7, 1970", at_time(1970, 10, 7, Utc::now().time())),
        ("oct. 7, 70", at_time(1970, 10, 7, Utc::now().time())),
        ("October 7, 1970", at_time(1970, 10, 7, Utc::now().time())),
    ];

    for &(input, want) in test_cases.iter() {
        assert_eq!(to_minute(got(parse.month_mdy(input))), to_minute(want), "month_mdy/{}", input)
    }
    assert!(parse.month_mdy("not-date-time").is_none());
}

#[test]
fn month_dmy_hms() {
    let parse = utc_parser();

    let test_cases = vec![
        ("12 Feb 2006, 19:17", utc(2006, 2, 12, 19, 17, 0, 0)),
        ("12 Feb 2006 19:17", utc(2006, 2, 12, 19, 17, 0, 0)),
        ("14 May 2019 19:11:40.164", utc(2019, 5, 14, 19, 11, 40, 164_000_000)),
    ];

    for &(input, want) in test_cases.iter() {
        assert_eq!(got(parse.month_dmy_hms(input)), want, "month_dmy_hms/{}", input)
    }
    assert!(parse.month_dmy_hms("not-date-time").is_none());
}

#[test]
fn month_dmy() {
    let parse = utc_parser();

    let test_cases = vec![
        ("7 oct 70", at_time(1970, 10, 7, Utc::now().time())),
        ("7 oct 1970", at_time(1970, 10, 7, Utc::now().time())),
        ("03 February 2013", at_time(2013, 2, 3, Utc::now().time())),
        ("1 July 2013", at_time(2013, 7, 1, Utc::now().time())),
    ];

    for &(input, want) in test_cases.iter() {
        assert_eq!(to_minute(got(parse.month_dmy(input))), to_minute(want), "month_dmy/{}", input)
    }
    assert!(parse.month_dmy("not-date-time").is_none());
}

#[test]
fn slash_mdy_hms() {
    let parse = utc_parser();

    let test_cases = vec![
        ("4/8/2014 22:05", utc(2014, 4, 8, 22, 5, 0, 0)),
        ("04/08/2014 22:05", utc(2014, 4, 8, 22, 5, 0, 0)),
        ("4/8/14 22:05", utc(2014, 4, 8, 22, 5, 0, 0)),
        ("04/2/2014 03:00:51", utc(2014, 4, 2, 3, 0, 51, 0)),
        ("8/8/1965 12:00:00 AM", utc(1965, 8, 8, 0, 0, 0, 0)),
        ("8/8/1965 01:00:01 PM", utc(1965, 8, 8, 13, 0, 1, 0)),
        ("8/8/1965 01:00 PM", utc(1965, 8, 8, 13, 0, 0, 0)),
        ("8/8/1965 1:00 PM", utc(1965, 8, 8, 13, 0, 0, 0)),
        ("8/8/1965 12:00 AM", utc(1965, 8, 8, 0, 0, 0, 0)),
        ("4/02/2014 03:00:51", utc(2014, 4, 2, 3, 0, 51, 0)),
        ("03/19/2012 10:11:59", utc(2012, 3, 19, 10, 11, 59, 0)),
        ("03/19/2012 10:11:59.3186369", utc(2012, 3, 19, 10, 11, 59, 318636900)),
    ];

    for &(input, want) in test_cases.iter() {
        assert_eq!(got(parse.slash_mdy_hms(input)), want, "slash_mdy_hms/{}", input)
    }
    assert!(parse.slash_mdy_hms("not-date-time").is_none());
}

#[test]
fn slash_mdy() {
    let parse = utc_parser();

    let test_cases = vec![
        ("3/31/2014", at_time(2014, 3, 31, Utc::now().time())),
        ("03/31/2014", at_time(2014, 3, 31, Utc::now().time())),
        ("08/21/71", at_time(1971, 8, 21, Utc::now().time())),
        ("8/1/71", at_time(1971, 8, 1, Utc::now().time())),
    ];

    for &(input, want) in test_cases.iter() {
        assert_eq!(to_minute(got(parse.slash_mdy(input))), to_minute(want), "slash_mdy/{}", input)
    }
    assert!(parse.slash_mdy("not-date-time").is_none());
}

#[test]
fn slash_dmy() {
    let mut parse = utc_parser();

    let test_cases = vec![
        ("31/3/2014", at_time(2014, 3, 31, Utc::now().time())),
        ("13/11/2014", at_time(2014, 11, 13, Utc::now().time())),
        ("21/08/71", at_time(1971, 8, 21, Utc::now().time())),
        ("1/8/71", at_time(1971, 8, 1, Utc::now().time())),
    ];

    for &(input, want) in test_cases.iter() {
        assert_eq!(
            to_minute(got(parse.prefer_dmy(true).slash_dmy(input))),
            to_minute(want),
            "slash_dmy/{}",
            input
        )
    }
    assert!(parse.slash_dmy("not-date-time").is_none());
}

#[test]
fn slash_ymd_hms() {
    let parse = utc_parser();

    let test_cases = vec![
        ("2014/4/8 22:05", utc(2014, 4, 8, 22, 5, 0, 0)),
        ("2014/04/08 22:05", utc(2014, 4, 8, 22, 5, 0, 0)),
        ("2014/04/2 03:00:51", utc(2014, 4, 2, 3, 0, 51, 0)),
        ("2014/4/02 03:00:51", utc(2014, 4, 2, 3, 0, 51, 0)),
        ("2012/03/19 10:11:59", utc(2012, 3, 19, 10, 11, 59, 0)),
        ("2012/03/19 10:11:59.3186369", utc(2012, 3, 19, 10, 11, 59, 318636900)),
    ];

    for &(input, want) in test_cases.iter() {
        assert_eq!(got(parse.slash_ymd_hms(input)), want, "slash_ymd_hms/{}", input)
    }
    assert!(parse.slash_ymd_hms("not-date-time").is_none());
}

#[test]
fn slash_ymd() {
    let parse = utc_parser();

    let test_cases = vec![
        ("2014/3/31", at_time(2014, 3, 31, Utc::now().time())),
        ("2014/03/31", at_time(2014, 3, 31, Utc::now().time())),
    ];

    for &(input, want) in test_cases.iter() {
        assert_eq!(to_minute(got(parse.slash_ymd(input))), to_minute(want), "slash_ymd/{}", input)
    }
    assert!(parse.slash_ymd("not-date-time").is_none());
}
