use tank_core::context::Context;
use tank_core::sql_writer::GenericSqlWriter;
use tank_core::value::Value;
use tank_core::Interval;

fn render(interval: Interval) -> String {
    let writer = GenericSqlWriter::new();
    let mut buff = String::new();
    writer.write_value(&Context::default(), &mut buff, &Value::Interval(Some(interval)));
    buff
}

fn test_interval(interval: Interval, expected: &str) {
    assert_eq!(render(interval), expected);
}

#[test]
fn sql() {
    test_interval(Interval::from_nanos(1), "INTERVAL 1 NANOSECOND");
    test_interval(Interval::from_nanos(27), "INTERVAL 27 NANOSECONDS");
    test_interval(Interval::from_nanos(1_000), "INTERVAL 1 MICROSECOND");
    test_interval(Interval::from_nanos(54_000), "INTERVAL 54 MICROSECONDS");
    test_interval(
        Interval::from_nanos(864_000_000_000_000),
        "INTERVAL 10 DAYS"
    );

    test_interval(Interval::from_micros(1), "INTERVAL 1 MICROSECOND");
    test_interval(
        Interval::from_duration(&std::time::Duration::from_micros(1)),
        "INTERVAL 1 MICROSECOND"
    );
    test_interval(Interval::from_micros(2), "INTERVAL 2 MICROSECONDS");
    test_interval(Interval::from_micros(999), "INTERVAL 999 MICROSECONDS");
    test_interval(Interval::from_micros(1_001), "INTERVAL 1001 MICROSECONDS");
    test_interval(Interval::from_micros(1_000_000), "INTERVAL 1 SECOND");
    test_interval(Interval::from_micros(2_000_000), "INTERVAL 2 SECONDS");
    test_interval(Interval::from_micros(3_000_000), "INTERVAL 3 SECONDS");
    test_interval(
        Interval::from_micros(1_000_999),
        "INTERVAL 1000999 MICROSECONDS"
    );
    test_interval(
        Interval::from_micros(1_001_000_000),
        "INTERVAL 1001 SECONDS"
    );
    test_interval(
        Interval::from_micros(1_012_000_000),
        "INTERVAL 1012 SECONDS"
    );
    test_interval(Interval::from_micros(3_600_000_000), "INTERVAL 1 HOUR");
    test_interval(Interval::from_micros(21_600_000_000), "INTERVAL 6 HOURS");
    test_interval(Interval::from_micros(3_110_400_000_000), "INTERVAL 36 DAYS");

    test_interval(Interval::from_millis(1_000), "INTERVAL 1 SECOND");
    test_interval(Interval::from_millis(2_000), "INTERVAL 2 SECONDS");
    test_interval(Interval::from_millis(60_000), "INTERVAL 1 MINUTE");
    test_interval(Interval::from_millis(3_600_000), "INTERVAL 1 HOUR");
    test_interval(Interval::from_millis(86_400_000), "INTERVAL 1 DAY");
    test_interval(Interval::from_millis(172_800_000), "INTERVAL 2 DAYS");

    test_interval(Interval::from_mins(1), "INTERVAL 1 MINUTE");
    test_interval(Interval::from_mins(2), "INTERVAL 2 MINUTES");
    test_interval(Interval::from_mins(59), "INTERVAL 59 MINUTES");
    test_interval(Interval::from_mins(60), "INTERVAL 1 HOUR");
    test_interval(Interval::from_mins(61), "INTERVAL 61 MINUTES");
    test_interval(Interval::from_mins(90), "INTERVAL 90 MINUTES");
    test_interval(Interval::from_mins(120), "INTERVAL 2 HOURS");
    test_interval(Interval::from_mins(1_440), "INTERVAL 1 DAY");
    test_interval(Interval::from_mins(1_500), "INTERVAL 25 HOURS");
    test_interval(Interval::from_mins(2_880), "INTERVAL 2 DAYS");
    test_interval(Interval::from_mins(4_320), "INTERVAL 3 DAYS");
    test_interval(Interval::from_mins(10_080), "INTERVAL 7 DAYS");
    test_interval(Interval::from_mins(43_200), "INTERVAL 30 DAYS");
    test_interval(Interval::from_mins(525_600), "INTERVAL 365 DAYS");
    test_interval(Interval::from_mins(12_016_800), "INTERVAL 8345 DAYS");

    test_interval(Interval::from_days(1), "INTERVAL 1 DAY");
    test_interval(Interval::from_days(6_000_000), "INTERVAL 6000000 DAYS");

    test_interval(Interval::from_weeks(1), "INTERVAL 7 DAYS");
    test_interval(Interval::from_weeks(2), "INTERVAL 14 DAYS");
    test_interval(Interval::from_weeks(3), "INTERVAL 21 DAYS");
    test_interval(Interval::from_weeks(4), "INTERVAL 28 DAYS");
    test_interval(Interval::from_weeks(10), "INTERVAL 70 DAYS");
    test_interval(Interval::from_weeks(52), "INTERVAL 364 DAYS");
    test_interval(Interval::from_weeks(104), "INTERVAL 728 DAYS");
    test_interval(Interval::from_weeks(260), "INTERVAL 1820 DAYS");
    test_interval(Interval::from_weeks(1_000), "INTERVAL 7000 DAYS");
    test_interval(Interval::from_months(1), "INTERVAL 1 MONTH");
    test_interval(Interval::from_months(5), "INTERVAL 5 MONTHS");

    test_interval(
        Interval {
            months: 12,
            days: 15,
            nanos: Interval::NANOS_IN_DAY * 2
        },
        "INTERVAL '1 YEAR 17 DAYS'"
    );
    test_interval(
        Interval {
            months: 48,
            days: 15,
            nanos: Interval::NANOS_IN_DAY * 2 + 1_000_000_000
        },
        "INTERVAL '4 YEARS 1468801 SECONDS'"
    );
}

#[test]
fn operations() {
    let days_11 = Interval::from_days(10) + Interval::from_secs(86400);
    assert_ne!(
        days_11 + Interval::from_millis(1),
        Interval::from_millis(950_400_000)
    );
    assert_eq!(
        days_11 + Interval::from_millis(1),
        Interval::from_millis(950_400_001)
    );

    let almost_max_days = Interval::from_days(i64::MAX - 1);
    assert_eq!(
        almost_max_days + Interval::from_nanos(Interval::NANOS_IN_DAY),
        Interval {
            months: 0,
            days: i64::MAX,
            nanos: 0,
        }
    );
    assert_eq!(
        almost_max_days + Interval::from_nanos(Interval::NANOS_IN_DAY) + Interval::from_days(1),
        Interval {
            months: 0,
            days: i64::MAX,
            nanos: Interval::NANOS_IN_DAY,
        }
    );

    assert_eq!(
        Interval {
            months: 12,
            days: 45,
            nanos: Interval::NANOS_IN_DAY * 10 + 15,
        } + Interval::from_micros(1)
            - Interval {
                months: 9,
                days: 1,
                nanos: Interval::NANOS_IN_DAY,
            },
        Interval {
            months: 3,
            days: 53,
            nanos: 1015,
        }
    );
}

#[test]
fn interval_duration_parts() {
    let i = Interval::from_duration_parts(90_061, 5);
    assert_eq!((i.months, i.days, i.nanos), (0, 1, 3_661_000_000_005));
    let i = Interval::from_signed_duration_parts(-90_061, -5);
    assert_eq!((i.months, i.days, i.nanos), (0, -1, -3_661_000_000_005));
    let parts = Interval::new(1, 2, 3_500_000_000).signed_duration_parts();
    assert_eq!(parts, (2_764_803, 500_000_000));
    let parts = Interval::new(0, 0, -1_500_000_000).signed_duration_parts();
    assert_eq!(parts, (-1, -500_000_000));
}

#[test]
fn interval_assign_ops() {
    let mut x = Interval::from_days(2);
    x += Interval::from_hours(5);
    assert_eq!(x, Interval::from_days(2) + Interval::from_hours(5));
    x -= Interval::from_days(1);
    assert_eq!(x, Interval::from_days(1) + Interval::from_hours(5));
    let mut y = Interval::from_months(3);
    y -= Interval::from_months(5);
    assert_eq!(y, Interval::from_months(-2));
}

#[test]
fn interval_default_is_empty() {
    let d: Interval = Default::default();
    assert_eq!(d, Interval::from_days(0));
    assert_eq!((d.months, d.days, d.nanos), (0, 0, 0));
}

#[test]
fn interval_add_within_bounds() {
    let a = Interval { months: 3, days: i64::MAX, nanos: 5 };
    let b = Interval { months: -1, days: 2, nanos: Interval::NANOS_IN_DAY + 7 };
    let r = a + b;
    let tot = |x: &Interval| x.days as i128 * Interval::NANOS_IN_DAY + x.nanos;
    assert_eq!(r.months, 2);
    assert_eq!(tot(&r), tot(&a) + tot(&b));
    assert_eq!(r, b + a);
    let mut c = a;
    c += b;
    assert_eq!(c, r);
}

#[test]
fn interval_text_edges() {
    test_interval(Interval::from_days(0), "INTERVAL 0 SECONDS");
    test_interval(Interval::from_days(-2), "INTERVAL -2 DAYS");
    test_interval(Interval::from_days(-1), "INTERVAL -1 DAYS");
    test_interval(Interval::from_months(50), "INTERVAL '4 YEARS 2 MONTHS'");
    test_interval(Interval::from_months(60), "INTERVAL 5 YEARS");
    test_interval(Interval::from_months(-13), "INTERVAL -13 MONTHS");
    test_interval(
        Interval::from_days(1) + Interval::from_nanos(1),
        "INTERVAL '1 DAY 1 NANOSECOND'",
    );
    test_interval(
        Interval::from_secs(3_600) + Interval::from_nanos(5),
        "INTERVAL '1 HOUR 5 NANOSECONDS'",
    );
}
