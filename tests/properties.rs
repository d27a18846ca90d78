use chrono::{DateTime, NaiveDate, SubsecRound, Timelike, Utc};
use qsv_dateparser::datetime::{classify, family_members, Family, Matcher};
use qsv_dateparser::lexer::tokenize;
use qsv_dateparser::{
    parse_with, parse_with_preference, parse_with_timezone, resolve_timezone, DateTimeUtc, Offset, Parse,
    ParseError, TimeOfDay,
};

fn utc(y: i32, mo: u32, d: u32, h: u32, mi: u32, s: u32, ns: u32) -> DateTime<Utc> {
    NaiveDate::from_ymd_opt(y, mo, d).unwrap().and_hms_nano_opt(h, mi, s, ns).unwrap().and_utc()
}

fn chrono_of(d: DateTimeUtc) -> DateTime<Utc> {
    DateTime::from_timestamp(d.secs, d.nanos).unwrap()
}

fn in_utc(input: &str) -> DateTime<Utc> {
    chrono_of(parse_with_timezone(input, Offset::utc()).unwrap())
}

fn midnight_utc(input: &str) -> DateTime<Utc> {
    chrono_of(parse_with(input, Offset::utc(), TimeOfDay::midnight()).unwrap())
}

fn to_minute(d: DateTime<Utc>) -> DateTime<Utc> {
    d.trunc_subsecs(0).with_second(0).unwrap()
}

#[test]
fn accepted_literals_give_their_instants() {
    let timed = vec![
        ("0", utc(1970, 1, 1, 0, 0, 0, 0)),
        ("-770172300", utc(1945, 8, 5, 23, 15, 0, 0)),
        ("1671673426.123456789", utc(2022, 12, 22, 1, 43, 46, 123456789)),
        ("2021-05-01T01:17:02.604456Z", utc(2021, 5, 1, 1, 17, 2, 604456000)),
        ("Wed, 02 Jun 2021 06:31:39 GMT", utc(2021, 6, 2, 6, 31, 39, 0)),
        ("2021-04-30 21:14", utc(2021, 4, 30, 21, 14, 0, 0)),
        ("2017-11-25 13:31:15 PST", utc(2017, 11, 25, 21, 31, 15, 0)),
        ("May 8, 2009 5:57:51 PM", utc(2009, 5, 8, 17, 57, 51, 0)),
        ("September 17, 2012, 10:10:09", utc(2012, 9, 17, 10, 10, 9, 0)),
        ("May 02, 2021 15:51:31 UTC", utc(2021, 5, 2, 15, 51, 31, 0)),
        ("12 Feb 2006, 19:17", utc(2006, 2, 12, 19, 17, 0, 0)),
        ("4/8/2014 22:05", utc(2014, 4, 8, 22, 5, 0, 0)),
        ("2014/4/8 22:05", utc(2014, 4, 8, 22, 5, 0, 0)),
    ];
    for &(input, want) in timed.iter() {
        assert_eq!(in_utc(input), want, "{}", input);
    }
    let dated = vec![
        ("2021-02-21", utc(2021, 2, 21, 0, 0, 0, 0)),
        ("2021-Feb-21", utc(2021, 2, 21, 0, 0, 0, 0)),
        ("7 oct 70", utc(1970, 10, 7, 0, 0, 0, 0)),
        ("3/31/2014", utc(2014, 3, 31, 0, 0, 0, 0)),
        ("2014/3/31", utc(2014, 3, 31, 0, 0, 0, 0)),
    ];
    for &(input, want) in dated.iter() {
        assert_eq!(midnight_utc(input), want, "{}", input);
        let now = Utc::now().time();
        let day = want.date_naive().and_time(now).and_utc();
        let got = to_minute(in_utc(input));
        let near = [day - chrono::Duration::days(1), day, day + chrono::Duration::days(1)];
        assert!(near.iter().any(|d| to_minute(*d) == got), "{}", input);
    }
    assert_eq!(midnight_utc("2021-02-21 PST"), utc(2021, 2, 21, 8, 0, 0, 0));
    let now = Utc::now().time();
    let pst_day = NaiveDate::from_ymd_opt(2021, 2, 21).unwrap().and_time(now).and_utc() + chrono::Duration::hours(8);
    assert_eq!(to_minute(in_utc("2021-02-21 PST")), to_minute(pst_day));
}

#[test]
fn shapeless_inputs_match_no_format() {
    for input in ["not-a-date", "", "15/15/2020", "2021-13-45", "12:30", "May", "2021-02-29"] {
        for dmy in [false, true] {
            assert_eq!(
                parse_with_preference(input, dmy),
                Err(ParseError::NoFormatMatched(input.to_string())),
                "{}",
                input
            );
        }
    }
}

#[test]
fn day_and_month_order() {
    let mdy = chrono_of(parse_with_preference("4/8/2014", false).unwrap());
    let dmy = chrono_of(parse_with_preference("4/8/2014", true).unwrap());
    assert_eq!(mdy, utc(2014, 4, 8, 0, 0, 0, 0));
    assert_eq!(dmy, utc(2014, 8, 4, 0, 0, 0, 0));
    let late = utc(2014, 3, 31, 0, 0, 0, 0);
    assert_eq!(chrono_of(parse_with_preference("31/3/2014", true).unwrap()), late);
    assert_eq!(chrono_of(parse_with_preference("31/3/2014", false).unwrap()), late);
    assert_eq!(
        chrono_of(parse_with_preference("8/8/1965 01:00 PM", true).unwrap()),
        utc(1965, 8, 8, 13, 0, 0, 0)
    );
    assert_eq!(chrono_of(parse_with_preference("31/12/22 15:00", true).unwrap()), utc(2022, 12, 31, 15, 0, 0, 0));
    assert_eq!(
        chrono_of(parse_with_preference("8/8/1965 01:00 Pm", false).unwrap()),
        utc(1965, 8, 8, 13, 0, 0, 0)
    );
    assert!(parse_with_preference("2021-04-30 21:14 PM", false).is_err());
}

#[test]
fn zone_tokens_resolve() {
    let table = [
        ("PST", -8), ("PDT", -7), ("EST", -5), ("EDT", -4), ("CST", -6), ("CDT", -5), ("MST", -7), ("MDT", -6),
        ("UTC", 0), ("GMT", 0), ("utc", 0), ("gmt", 0),
    ];
    for (name, hours) in table {
        assert_eq!(resolve_timezone(name).unwrap().local_minus_utc(), hours * 3600, "{}", name);
    }
    assert_eq!(resolve_timezone("+0800").unwrap().local_minus_utc(), 8 * 3600);
    assert_eq!(resolve_timezone("-08:00").unwrap().local_minus_utc(), -8 * 3600);
    assert_eq!(resolve_timezone("+10:00").unwrap().local_minus_utc(), 10 * 3600);
    assert_eq!(resolve_timezone("-0530").unwrap().local_minus_utc(), -(5 * 3600 + 30 * 60));
    assert_eq!(resolve_timezone("  PST ").unwrap().local_minus_utc(), -8 * 3600);
    for bad in ["pst", "XYZ", "+2400", "+0860", "+08", ""] {
        assert_eq!(
            resolve_timezone(bad),
            Err(ParseError::UnrecognizedTimezone(bad.to_string())),
            "{}",
            bad
        );
    }
}

#[test]
fn unknown_zone_is_an_error() {
    let input = "2017-11-25 13:31:15 XYZ";
    assert_eq!(
        parse_with_timezone(input, Offset::utc()),
        Err(ParseError::UnrecognizedTimezone(input.to_string()))
    );
    let input = "2021-02-21 QQQ";
    assert_eq!(
        parse_with_preference(input, false),
        Err(ParseError::UnrecognizedTimezone(input.to_string()))
    );
}

#[test]
fn rfc3339_round_trip() {
    let first = parse_with_timezone("2021-05-01T01:17:02.604456Z", Offset::utc()).unwrap();
    let text = chrono_of(first).to_rfc3339();
    let again = parse_with_timezone(&text, Offset::utc()).unwrap();
    assert_eq!(first, again);
    assert_eq!(first, DateTimeUtc { secs: 1619831822, nanos: 604456000 });
}

#[test]
fn fraction_digits_scale() {
    let p = Parse::new(Offset::utc(), TimeOfDay::midnight());
    let cases = [
        ("03/19/2012 10:11:59.3186369", 318_636_900),
        ("03/19/2012 10:11:59.3", 300_000_000),
        ("03/19/2012 10:11:59.318", 318_000_000),
        ("03/19/2012 10:11:59.318636", 318_636_000),
        ("03/19/2012 10:11:59.318636901", 318_636_901),
    ];
    for (input, nanos) in cases {
        let d = p.parse(input).unwrap();
        assert_eq!(d.nanos, nanos, "{}", input);
        assert_eq!(chrono_of(d), utc(2012, 3, 19, 10, 11, 59, nanos), "{}", input);
    }
}

#[test]
fn unix_timestamps_split() {
    let p = Parse::new(Offset::utc(), TimeOfDay::midnight());
    let ts = |s: &str| p.unix_timestamp(s).unwrap().unwrap();
    assert_eq!(ts("0"), DateTimeUtc { secs: 0, nanos: 0 });
    assert_eq!(ts("-1"), DateTimeUtc { secs: -1, nanos: 0 });
    assert_eq!(ts("-1.5"), DateTimeUtc { secs: -2, nanos: 500_000_000 });
    assert_eq!(ts("+12.25"), DateTimeUtc { secs: 12, nanos: 250_000_000 });
    assert_eq!(ts(".5"), DateTimeUtc { secs: 0, nanos: 500_000_000 });
    assert_eq!(ts("7."), DateTimeUtc { secs: 7, nanos: 0 });
    assert_eq!(ts("1.1234567891234"), DateTimeUtc { secs: 1, nanos: 123_456_789 });
    assert_eq!(ts("1620036248.717915136"), DateTimeUtc { secs: 1620036248, nanos: 717_915_136 });
    assert_eq!(ts("99999999999999999999"), DateTimeUtc { secs: 9_223_372_036, nanos: 854_775_807 });
    assert_eq!(ts("-99999999999999999999"), DateTimeUtc { secs: -9_223_372_037, nanos: 145_224_192 });
    for bad in ["", "-", ".", "1e5", "1.2.3", " 5", "5 ", "--5", "inf"] {
        assert!(p.unix_timestamp(bad).is_none(), "{}", bad);
    }
}

#[test]
fn default_time_is_wall_clock_time() {
    let west = Offset::west(8 * 3600).unwrap();
    let east = Offset::east(8 * 3600).unwrap();
    let d = parse_with("2021-02-21", west, TimeOfDay::midnight()).unwrap();
    assert_eq!(chrono_of(d), utc(2021, 2, 21, 8, 0, 0, 0));
    let d = parse_with("2021-02-21", east, TimeOfDay::midnight()).unwrap();
    assert_eq!(chrono_of(d), utc(2021, 2, 20, 16, 0, 0, 0));
    let d = parse_with("2021-02-21", Offset::east(3600).unwrap(), TimeOfDay::from_hms_nano(12, 0, 0, 0).unwrap()).unwrap();
    assert_eq!(chrono_of(d), utc(2021, 2, 21, 11, 0, 0, 0));
    let d = parse_with("2021-02-21 PST", Offset::utc(), TimeOfDay::midnight()).unwrap();
    assert_eq!(chrono_of(d), utc(2021, 2, 21, 8, 0, 0, 0));
    let d = parse_with("2020-07-20+08:00", Offset::west(5 * 3600).unwrap(), TimeOfDay::midnight()).unwrap();
    assert_eq!(chrono_of(d), utc(2020, 7, 19, 16, 0, 0, 0));
    let noon = TimeOfDay::from_hms_nano(12, 30, 0, 0).unwrap();
    let d = parse_with("2021-02-21 +05:30", Offset::utc(), noon).unwrap();
    assert_eq!(chrono_of(d), utc(2021, 2, 21, 7, 0, 0, 0));
    let d = parse_with("2021-04-30 21:14", west, noon).unwrap();
    assert_eq!(chrono_of(d), utc(2021, 5, 1, 5, 14, 0, 0));
}

#[test]
fn calendar_edges() {
    assert_eq!(midnight_utc("2000-02-29"), utc(2000, 2, 29, 0, 0, 0, 0));
    assert!(parse_with("1900-02-29", Offset::utc(), TimeOfDay::midnight()).is_err());
    assert_eq!(midnight_utc("0001-01-01"), utc(1, 1, 1, 0, 0, 0, 0));
    assert_eq!(midnight_utc("9999-12-31"), utc(9999, 12, 31, 0, 0, 0, 0));
    assert_eq!(midnight_utc("1/1/69"), utc(2069, 1, 1, 0, 0, 0, 0));
    assert_eq!(midnight_utc("1/1/70"), utc(1970, 1, 1, 0, 0, 0, 0));
    assert!(parse_with("2021-04-30 24:00", Offset::utc(), TimeOfDay::midnight()).is_err());
    assert!(parse_with("8/8/1965 13:00 PM", Offset::utc(), TimeOfDay::midnight()).is_err());
    assert_eq!(in_utc("2016-12-31T23:59:60Z"), utc(2017, 1, 1, 0, 0, 0, 0));
}

#[test]
fn string_parse_and_messages() {
    let d: DateTimeUtc = "2021-05-14 18:51 PDT".parse().unwrap();
    assert_eq!(chrono_of(d), utc(2021, 5, 15, 1, 51, 0, 0));
    let e = ParseError::NoFormatMatched("zz".to_string());
    assert_eq!(e.message(), "zz did not match any formats.");
    let e = ParseError::UnrecognizedTimezone("2021-02-21 QQQ".to_string());
    assert_eq!(e.message(), "2021-02-21 QQQ holds an unrecognized time zone.");
}

#[test]
fn families_and_their_order() {
    let family = |s: &str| classify(s.as_bytes(), &tokenize(s.as_bytes()));
    assert_eq!(family("4/8/2014 22:05"), Some(Family::SlashMonthDay));
    assert_eq!(family("2014/4/8"), Some(Family::SlashYear));
    assert_eq!(family("2021-02-21 PST"), Some(Family::DashYear));
    assert_eq!(family("2021-Feb-21"), Some(Family::DashYear));
    assert_eq!(family("oct. 7, 70"), Some(Family::MonthFirst));
    assert_eq!(family("7 oct 70"), Some(Family::DayFirst));
    assert_eq!(family("not-a-date"), None);
    assert_eq!(
        family_members(Family::SlashMonthDay, false),
        vec![Matcher::SlashMdyHms, Matcher::SlashMdy, Matcher::SlashDmyHms, Matcher::SlashDmy]
    );
    assert_eq!(
        family_members(Family::SlashMonthDay, true),
        vec![Matcher::SlashDmyHms, Matcher::SlashDmy, Matcher::SlashMdyHms, Matcher::SlashMdy]
    );
    let p = Parse::new(Offset::utc(), TimeOfDay::midnight());
    assert!(p.try_matcher(Matcher::Ymd, "2021-02-21").is_some());
    assert!(p.try_matcher(Matcher::YmdHms, "2021-02-21").is_none());
}
