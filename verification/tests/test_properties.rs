use fastnomicon::DurationValue;
use fastnomicon::ParseError;
use fastnomicon::TimeScale;
use fastnomicon::TimeTuple;

/// Every alias of the lexicon table, with its scale.
fn alias_table() -> Vec<(&'static str, TimeScale)> {
    vec![
        ("y", TimeScale::Years),
        ("year", TimeScale::Years),
        ("years", TimeScale::Years),
        ("t", TimeScale::Years),
        ("thn", TimeScale::Years),
        ("tahun", TimeScale::Years),
        ("M", TimeScale::Months),
        ("mo", TimeScale::Months),
        ("month", TimeScale::Months),
        ("months", TimeScale::Months),
        ("b", TimeScale::Months),
        ("bln", TimeScale::Months),
        ("bulan", TimeScale::Months),
        ("w", TimeScale::Weeks),
        ("wk", TimeScale::Weeks),
        ("week", TimeScale::Weeks),
        ("weeks", TimeScale::Weeks),
        ("mng", TimeScale::Weeks),
        ("minggu", TimeScale::Weeks),
        ("d", TimeScale::Days),
        ("day", TimeScale::Days),
        ("days", TimeScale::Days),
        ("hari", TimeScale::Days),
        ("h", TimeScale::Hours),
        ("hr", TimeScale::Hours),
        ("hrs", TimeScale::Hours),
        ("hour", TimeScale::Hours),
        ("hours", TimeScale::Hours),
        ("j", TimeScale::Hours),
        ("jam", TimeScale::Hours),
        ("m", TimeScale::Minutes),
        ("min", TimeScale::Minutes),
        ("mins", TimeScale::Minutes),
        ("minute", TimeScale::Minutes),
        ("minutes", TimeScale::Minutes),
        ("mnt", TimeScale::Minutes),
        ("menit", TimeScale::Minutes),
        ("s", TimeScale::Seconds),
        ("sec", TimeScale::Seconds),
        ("secs", TimeScale::Seconds),
        ("second", TimeScale::Seconds),
        ("seconds", TimeScale::Seconds),
        ("dtk", TimeScale::Seconds),
        ("detik", TimeScale::Seconds),
        ("ms", TimeScale::Milliseconds),
        ("mil", TimeScale::Milliseconds),
        ("mill", TimeScale::Milliseconds),
        ("milli", TimeScale::Milliseconds),
        ("millis", TimeScale::Milliseconds),
        ("msec", TimeScale::Milliseconds),
        ("msecs", TimeScale::Milliseconds),
        ("milisec", TimeScale::Milliseconds),
        ("milisecond", TimeScale::Milliseconds),
        ("miliseconds", TimeScale::Milliseconds),
    ]
}

#[test]
fn test_every_alias_parses() {
    for (alias, scale) in alias_table() {
        for n in [0u16, 1, 65535] {
            let input = format!("{}{}", n, alias);
            let (rest, time) = fastnomicon::parse_timestring(&input).unwrap();
            assert_eq!(rest, "", "alias {:?}", alias);
            assert_eq!(time, vec![TimeTuple::make(n, scale)], "alias {:?}", alias);
        }
    }
}

#[test]
fn test_arrival_order_kept() {
    let (rest, time) = fastnomicon::parse_timestring("30m 1 hours").unwrap();
    assert_eq!(rest, "");
    assert_eq!(
        time,
        vec![
            TimeTuple::make(30, TimeScale::Minutes),
            TimeTuple::make(1, TimeScale::Hours)
        ]
    );
}

#[test]
fn test_rest_is_returned() {
    let (rest, time) = fastnomicon::parse_timestring("1h30m ...and then").unwrap();
    assert_eq!(rest, "...and then");
    assert_eq!(
        time,
        vec![
            TimeTuple::make(1, TimeScale::Hours),
            TimeTuple::make(30, TimeScale::Minutes)
        ]
    );
}

#[test]
fn test_no_component_is_recoverable() {
    let err = fastnomicon::parse_timestring("").unwrap_err();
    assert!(err.is_recoverable());
    let err = fastnomicon::parse_timestring("abc").unwrap_err();
    assert!(err.is_recoverable());
    match err {
        ParseError::NoComponent { rest } => assert_eq!(rest, "abc"),
        ParseError::UnknownUnit { .. } => panic!("wrong severity"),
    }
}

#[test]
fn test_unknown_unit_is_fatal() {
    let err = fastnomicon::parse_timestring("1h30xxxx").unwrap_err();
    assert!(!err.is_recoverable());
    match err {
        ParseError::UnknownUnit { unit, rest } => {
            assert_eq!(unit, "xxxx");
            assert_eq!(rest, "");
        }
        ParseError::NoComponent { .. } => panic!("wrong severity"),
    }

    let err = fastnomicon::parse_timestring("12 foo bar").unwrap_err();
    match err {
        ParseError::UnknownUnit { unit, rest } => {
            assert_eq!(unit, "foo");
            assert_eq!(rest, " bar");
        }
        ParseError::NoComponent { .. } => panic!("wrong severity"),
    }
}

#[test]
fn test_magnitude_cap() {
    // A first component above the cap fails the whole call, recoverably.
    let err = fastnomicon::parse_timestring("65536s").unwrap_err();
    assert!(err.is_recoverable());
    // A run too long for any machine integer is rejected the same way.
    let err = fastnomicon::parse_timestring("99999999999999999999s").unwrap_err();
    assert!(err.is_recoverable());
    // After a component, an over-large magnitude just ends the sequence.
    let (rest, time) = fastnomicon::parse_timestring("1h 70000m").unwrap();
    assert_eq!(rest, "70000m");
    assert_eq!(time, vec![TimeTuple::make(1, TimeScale::Hours)]);
    // The cap itself is fine.
    let (_, time) = fastnomicon::parse_timestring("65535s").unwrap();
    assert_eq!(time, vec![TimeTuple::make(65535, TimeScale::Seconds)]);
}

#[test]
fn test_format_short_reorders() {
    let a = [
        TimeTuple::make(1, TimeScale::Hours),
        TimeTuple::make(30, TimeScale::Minutes),
    ];
    let b = [
        TimeTuple::make(30, TimeScale::Minutes),
        TimeTuple::make(1, TimeScale::Hours),
    ];
    assert_eq!(fastnomicon::expand_timestring(&a, false), "1h 30m");
    assert_eq!(fastnomicon::expand_timestring(&b, false), "1h 30m");
}

#[test]
fn test_format_long_pluralizes() {
    let one = [TimeTuple::make(1, TimeScale::Hours)];
    assert_eq!(fastnomicon::expand_timestring(&one, true), "1 hour");
    let two = [TimeTuple::make(2, TimeScale::Hours)];
    assert_eq!(fastnomicon::expand_timestring(&two, true), "2 hours");
    // A magnitude of zero renders as singular.
    let zero = [TimeTuple::make(0, TimeScale::Hours)];
    assert_eq!(fastnomicon::expand_timestring(&zero, true), "0 hour");
}

#[test]
fn test_format_ties_and_joining() {
    let mixed = [
        TimeTuple::make(500, TimeScale::Milliseconds),
        TimeTuple::make(2, TimeScale::Minutes),
        TimeTuple::make(7, TimeScale::Minutes),
        TimeTuple::make(3, TimeScale::Weeks),
    ];
    // Coarsest first; equal scales by descending magnitude.
    assert_eq!(fastnomicon::expand_timestring(&mixed, false), "3w 7m 2m 500ms");
    assert_eq!(
        fastnomicon::expand_timestring(&mixed, true),
        "3 weeks 7 minutes 2 minutes 500 milliseconds"
    );
    assert_eq!(fastnomicon::expand_timestring(&[], false), "");
}

#[test]
fn test_scale_forms() {
    assert_eq!(TimeScale::Months.short_form(), "mo");
    assert_eq!(TimeScale::Milliseconds.short_form(), "ms");
    assert_eq!(TimeScale::Days.long_form(0), "day");
    assert_eq!(TimeScale::Days.long_form(1), "day");
    assert_eq!(TimeScale::Days.long_form(2), "days");
    assert_eq!(TimeScale::Seconds.long_form_plural(), "seconds");
}

#[test]
fn test_tuple_accessors() {
    let t = TimeTuple::make(42, TimeScale::Weeks);
    assert_eq!(t.time(), 42);
    assert_eq!(t.scale(), TimeScale::Weeks);
    assert_eq!(t.as_duration(), DurationValue::from_millis(42 * 604_800_000));
}

#[test]
fn test_accumulator_exact_at_full_table() {
    // One component of the largest magnitude at every scale: the exact
    // total, far below saturation.
    let all: Vec<TimeTuple> = vec![
        TimeTuple::make(65535, TimeScale::Milliseconds),
        TimeTuple::make(65535, TimeScale::Seconds),
        TimeTuple::make(65535, TimeScale::Minutes),
        TimeTuple::make(65535, TimeScale::Hours),
        TimeTuple::make(65535, TimeScale::Days),
        TimeTuple::make(65535, TimeScale::Weeks),
        TimeTuple::make(65535, TimeScale::Months),
        TimeTuple::make(65535, TimeScale::Years),
    ];
    let per_unit_ms: u64 =
        1 + 1000 + 60_000 + 3_600_000 + 86_400_000 + 604_800_000 + 2_592_000_000 + 31_536_000_000;
    let got = fastnomicon::accumulate_duration(&all);
    assert_eq!(got, DurationValue::from_millis(65535 * per_unit_ms));
}

#[test]
fn test_accumulator_saturates() {
    // Enough maximal components to pass the largest representable
    // millisecond count: the fold saturates instead of overflowing.
    let many: Vec<TimeTuple> = vec![TimeTuple::make(65535, TimeScale::Years); 10_000];
    let got = fastnomicon::accumulate_duration(&many);
    assert_eq!(got, DurationValue::from_millis(u64::MAX));
}

#[test]
fn test_duration_value_ops() {
    let d = DurationValue::from_secs(2).saturating_add(DurationValue::from_millis(250));
    assert_eq!(d.as_millis(), 2250);
    assert_eq!(DurationValue::zero().as_millis(), 0);
    assert_eq!(
        DurationValue::from_millis(u64::MAX).saturating_add(DurationValue::from_millis(1)),
        DurationValue::from_millis(u64::MAX)
    );
    assert_eq!(DurationValue::from_secs(u64::MAX).as_millis(), u64::MAX);
}

#[test]
fn test_mixed_languages_and_spacing() {
    let (rest, time) = fastnomicon::parse_timestring("1 jam 30 menit 500 millis").unwrap();
    assert_eq!(rest, "");
    assert_eq!(
        time,
        vec![
            TimeTuple::make(1, TimeScale::Hours),
            TimeTuple::make(30, TimeScale::Minutes),
            TimeTuple::make(500, TimeScale::Milliseconds),
        ]
    );
    // Capital M is months, lower-case m is minutes.
    let (_, time) = fastnomicon::parse_timestring("2M3m").unwrap();
    assert_eq!(
        time,
        vec![
            TimeTuple::make(2, TimeScale::Months),
            TimeTuple::make(3, TimeScale::Minutes),
        ]
    );
}
