//! SQL `INTERVAL` values: a month count, a day count and a nanosecond count.
use vstd::prelude::*;

verus! {

/// Number of nanoseconds in a day, as a mathematical integer.
pub open spec fn nanos_per_day() -> int {
    86_400_000_000_000
}

/// Division rounding toward zero, as Rust's `/` on signed integers (for `b > 0`).
pub open spec fn tdiv(a: int, b: int) -> int {
    if a >= 0 {
        a / b
    } else {
        -((-a) / b)
    }
}

/// Remainder matching [`tdiv`], as Rust's `%` on signed integers (for `b > 0`).
pub open spec fn trem(a: int, b: int) -> int {
    a - b * tdiv(a, b)
}

/// Clamps a mathematical integer into the range of `i64`.
pub open spec fn clamp_i64(x: int) -> int {
    if x < i64::MIN {
        i64::MIN as int
    } else if x > i64::MAX {
        i64::MAX as int
    } else {
        x
    }
}

pub proof fn lemma_tdiv_trem(a: int, b: int)
    requires
        b > 0,
    ensures
        a == b * tdiv(a, b) + trem(a, b),
        a >= 0 ==> 0 <= trem(a, b) < b,
        a < 0 ==> -b < trem(a, b) <= 0,
        a >= 0 ==> 0 <= tdiv(a, b) <= a,
        a < 0 ==> a <= tdiv(a, b) <= 0,
{
    if a >= 0 {
        assert(0 <= a % b < b) by (nonlinear_arith)
            requires
                b > 0,
        ;
        assert(a == b * (a / b) + a % b) by (nonlinear_arith)
            requires
                b > 0,
        ;
        assert(0 <= a / b <= a) by (nonlinear_arith)
            requires
                b > 0,
                a >= 0,
        ;
    } else {
        let na = -a;
        assert(0 <= na % b < b) by (nonlinear_arith)
            requires
                b > 0,
        ;
        assert(na == b * (na / b) + na % b) by (nonlinear_arith)
            requires
                b > 0,
        ;
        assert(0 <= na / b <= na) by (nonlinear_arith)
            requires
                b > 0,
                na > 0,
        ;
        let q = na / b;
        assert(b * (-q) == -(b * q)) by (nonlinear_arith);
        assert(tdiv(a, b) == -q);
    }
}

/// A calendar or clock unit in which an interval can be expressed.
#[derive(PartialEq, Eq, Structural, Clone, Copy, Debug)]
pub enum IntervalUnit {
    Year,
    Month,
    Day,
    Hour,
    Minute,
    Second,
    Microsecond,
    Nanosecond,
}

/// Errors raised by interval helpers.
#[derive(PartialEq, Eq, Structural, Clone, Copy, Debug)]
pub enum IntervalError {
    /// The mask given to [`IntervalUnit::from_bitmask`] does not have exactly one bit on.
    InvalidMask(u8),
}

/// The single bit that stands for each unit in a units mask.
pub open spec fn unit_bit(unit: IntervalUnit) -> u8 {
    match unit {
        IntervalUnit::Nanosecond => 1,
        IntervalUnit::Microsecond => 2,
        IntervalUnit::Second => 4,
        IntervalUnit::Minute => 8,
        IntervalUnit::Hour => 16,
        IntervalUnit::Day => 32,
        IntervalUnit::Month => 64,
        IntervalUnit::Year => 128,
    }
}

/// Whether `mask` is the bit of some unit, i.e. has exactly one bit on.
pub open spec fn is_unit_bit(mask: u8) -> bool {
    mask == 1 || mask == 2 || mask == 4 || mask == 8 || mask == 16 || mask == 32 || mask == 64
        || mask == 128
}

impl IntervalUnit {
    /// Decodes a unit from a mask with exactly one bit on.
    pub fn from_bitmask(mask: u8) -> (r: Result<IntervalUnit, IntervalError>)
        ensures
            r is Ok <==> is_unit_bit(mask),
            r matches Ok(unit) ==> unit_bit(unit) == mask,
            r matches Err(e) ==> e == IntervalError::InvalidMask(mask),
    {
        match mask {
            1 => Ok(IntervalUnit::Nanosecond),
            2 => Ok(IntervalUnit::Microsecond),
            4 => Ok(IntervalUnit::Second),
            8 => Ok(IntervalUnit::Minute),
            16 => Ok(IntervalUnit::Hour),
            32 => Ok(IntervalUnit::Day),
            64 => Ok(IntervalUnit::Month),
            128 => Ok(IntervalUnit::Year),
            _ => Err(IntervalError::InvalidMask(mask)),
        }
    }
}

/// Decoding the bit of a unit gives the unit back.
pub proof fn law_unit_bitmask_roundtrip(unit: IntervalUnit)
    ensures
        is_unit_bit(unit_bit(unit)),
        forall|u: IntervalUnit| unit_bit(u) == unit_bit(unit) ==> u == unit,
{
}

/// A span of time made of months, days and nanoseconds, kept apart because
/// months and days have no fixed length in nanoseconds.
#[derive(Clone, Copy, Debug)]
pub struct Interval {
    pub months: i64,
    pub days: i64,
    pub nanos: i128,
}

/// What an interval's hash is made of: its months, and its day-and-clock
/// length as whole days (rounded down) and the nanoseconds left over, so
/// that equal intervals give the same key.
pub open spec fn interval_key(i: Interval) -> (int, int, int) {
    (i.months as int, i.total_nanos() / nanos_per_day(), i.total_nanos() % nanos_per_day())
}

impl Interval {
    /// The key the hash of the interval is made of (see [`interval_key`]).
    pub fn hash_key(&self) -> (r: (i64, i128, i128))
        ensures
            (r.0 as int, r.1 as int, r.2 as int) == interval_key(*self),
    {
        let n = Self::NANOS_IN_DAY;
        proof {
            lemma_tdiv_trem(self.nanos as int, nanos_per_day());
        }
        let q = self.nanos / n;
        let rem = self.nanos % n;
        assert(q == tdiv(self.nanos as int, nanos_per_day()));
        assert(rem == trem(self.nanos as int, nanos_per_day()));
        let (days, left) = if rem < 0 {
            (self.days as i128 + q - 1, rem + n)
        } else {
            (self.days as i128 + q, rem)
        };
        proof {
            assert(self.total_nanos() == days as int * nanos_per_day() + left as int) by (nonlinear_arith)
                requires
                    self.total_nanos() == self.days as int * nanos_per_day() + self.nanos as int,
                    self.nanos as int == nanos_per_day() * q + rem,
                    rem < 0 ==> days == self.days + q - 1 && left == rem + nanos_per_day(),
                    rem >= 0 ==> days == self.days + q && left == rem,
            ;
            vstd::arithmetic::div_mod::lemma_fundamental_div_mod_converse(
                self.total_nanos(),
                nanos_per_day(),
                days as int,
                left as int,
            );
        }
        (self.months, days, left)
    }
}

/// Intervals that are equal give the same hash key.
pub proof fn law_equal_intervals_hash_alike(a: Interval, b: Interval)
    requires
        a.equivalent(b),
    ensures
        interval_key(a) == interval_key(b),
{
}

impl core::hash::Hash for Interval {
    /// Hashes the interval's key, so that equal intervals hash alike.
    fn hash<H: core::hash::Hasher>(&self, state: &mut H) {
        let k = self.hash_key();
        let key: Vec<u128> = vec![k.0 as u128, k.1 as u128, k.2 as u128];
        crate::value_hash::write_key(&key, state);
    }
}

impl Default for Interval {
    /// The empty interval.
    fn default() -> (r: Self)
        ensures
            r.months == 0,
            r.days == 0,
            r.nanos == 0,
    {
        Interval { months: 0, days: 0, nanos: 0 }
    }
}

impl Interval {
    pub const SECS_IN_DAY: i64 = 86_400;
    pub const NANOS_IN_SEC: i128 = 1_000_000_000;
    pub const NANOS_IN_DAY: i128 = 86_400_000_000_000;
    pub const MICROS_IN_DAY: i128 = 86_400_000_000;

    /// The day-and-clock part of the interval in nanoseconds (months excluded).
    pub open spec fn total_nanos(self) -> int {
        self.days as int * nanos_per_day() + self.nanos as int
    }

    /// What `==` means on intervals: same months and same day-and-clock length.
    pub open spec fn equivalent(self, other: Interval) -> bool {
        self.months == other.months && self.total_nanos() == other.total_nanos()
    }

    /// Builds an interval from its three parts.
    pub fn new(months: i64, days: i64, nanos: i128) -> (r: Self)
        ensures
            r.months == months,
            r.days == days,
            r.nanos == nanos,
    {
        Self { months, days, nanos }
    }

    /// The interval of zero length.
    pub fn zero() -> (r: Self)
        ensures
            r.months == 0,
            r.days == 0,
            r.nanos == 0,
    {
        Self { months: 0, days: 0, nanos: 0 }
    }

    /// An interval of the given number of nanoseconds, split into whole days
    /// (rounded toward zero) and the remaining nanoseconds. The day count is
    /// cast to `i64`, so it wraps when it does not fit.
    pub fn from_nanos(value: i128) -> (r: Self)
        ensures
            r.months == 0,
            r.days == tdiv(value as int, nanos_per_day()) as i64,
            r.nanos == trem(value as int, nanos_per_day()),
            i64::MIN <= tdiv(value as int, nanos_per_day()) <= i64::MAX ==> r.total_nanos()
                == value,
    {
        let q = value / Self::NANOS_IN_DAY;
        let rem = value % Self::NANOS_IN_DAY;
        proof {
            lemma_tdiv_trem(value as int, nanos_per_day());
        }
        Self { months: 0, days: q as i64, nanos: rem }
    }

    /// An interval of the given number of microseconds, split into whole days
    /// and the remaining nanoseconds. The day count wraps when it does not fit in `i64`.
    pub fn from_micros(value: i128) -> (r: Self)
        ensures
            r.months == 0,
            r.days == tdiv(value as int, 86_400_000_000) as i64,
            r.nanos == trem(value as int, 86_400_000_000) * 1000,
            i64::MIN <= tdiv(value as int, 86_400_000_000) <= i64::MAX ==> r.total_nanos()
                == value * 1000,
    {
        let q = value / Self::MICROS_IN_DAY;
        let rem = value % Self::MICROS_IN_DAY;
        proof {
            lemma_tdiv_trem(value as int, 86_400_000_000);
        }
        Self { months: 0, days: q as i64, nanos: rem * 1_000 }
    }

    /// An interval of the given number of milliseconds, split into whole days
    /// and the remaining nanoseconds. The day count wraps when it does not fit in `i64`.
    pub fn from_millis(value: i128) -> (r: Self)
        ensures
            r.months == 0,
            r.days == tdiv(value as int, 86_400_000) as i64,
            r.nanos == trem(value as int, 86_400_000) * 1_000_000,
            i64::MIN <= tdiv(value as int, 86_400_000) <= i64::MAX ==> r.total_nanos() == value
                * 1_000_000,
    {
        let q = value / 86_400_000;
        let rem = value % 86_400_000;
        proof {
            lemma_tdiv_trem(value as int, 86_400_000);
        }
        Self { months: 0, days: q as i64, nanos: rem * 1_000_000 }
    }

    /// An interval of the given number of seconds.
    pub fn from_secs(value: i64) -> (r: Self)
        ensures
            r.months == 0,
            r.days == tdiv(value as int, 86_400),
            r.nanos == trem(value as int, 86_400) * 1_000_000_000,
            r.total_nanos() == value * 1_000_000_000,
    {
        let q = value / Self::SECS_IN_DAY;
        let rem = value % Self::SECS_IN_DAY;
        proof {
            lemma_tdiv_trem(value as int, 86_400);
        }
        Self { months: 0, days: q, nanos: (rem * 1_000_000_000) as i128 }
    }

    /// An interval of the given number of minutes.
    pub fn from_mins(value: i64) -> (r: Self)
        ensures
            r.months == 0,
            r.days == tdiv(value as int, 1440),
            r.nanos == trem(value as int, 1440) * 60_000_000_000,
            r.total_nanos() == value * 60_000_000_000,
    {
        let q = value / 1440;
        let rem = value % 1440;
        proof {
            lemma_tdiv_trem(value as int, 1440);
        }
        Self { months: 0, days: q, nanos: (rem * 60 * 1_000_000_000) as i128 }
    }

    /// An interval of the given number of hours.
    pub fn from_hours(value: i64) -> (r: Self)
        ensures
            r.months == 0,
            r.days == tdiv(value as int, 24),
            r.nanos == trem(value as int, 24) * 3_600_000_000_000,
            r.total_nanos() == value * 3_600_000_000_000,
    {
        let q = value / 24;
        let rem = value % 24;
        proof {
            lemma_tdiv_trem(value as int, 24);
        }
        Self { months: 0, days: q, nanos: (rem * 3_600 * 1_000_000_000) as i128 }
    }

    /// An interval of the given number of days.
    pub fn from_days(value: i64) -> (r: Self)
        ensures
            r.months == 0,
            r.days == value,
            r.nanos == 0,
    {
        Self { months: 0, days: value, nanos: 0 }
    }

    /// An interval of the given number of weeks (seven days each).
    pub fn from_weeks(value: i64) -> (r: Self)
        requires
            i64::MIN <= value * 7 <= i64::MAX,
        ensures
            r.months == 0,
            r.days == value * 7,
            r.nanos == 0,
    {
        Self { months: 0, days: value * 7, nanos: 0 }
    }

    /// An interval of the given number of months.
    pub fn from_months(value: i64) -> (r: Self)
        ensures
            r.months == value,
            r.days == 0,
            r.nanos == 0,
    {
        Self { months: value, days: 0, nanos: 0 }
    }

    /// An interval of the given number of years (twelve months each).
    pub fn from_years(value: i64) -> (r: Self)
        requires
            i64::MIN <= value * 12 <= i64::MAX,
        ensures
            r.months == value * 12,
            r.days == 0,
            r.nanos == 0,
    {
        Self { months: value * 12, days: 0, nanos: 0 }
    }

    /// Whether all three parts are zero.
    pub fn is_zero(&self) -> (r: bool)
        ensures
            r == (self.months == 0 && self.days == 0 && self.nanos == 0),
    {
        self.months == 0 && self.days == 0 && self.nanos == 0
    }
}


/// Splitting an integer into a multiple of `n` and a remainder in `[0, n)` is unique.
pub proof fn lemma_unique_split(sa: int, ra: int, sb: int, rb: int, n: int)
    requires
        n > 0,
        0 <= ra < n,
        0 <= rb < n,
        sa * n + ra == sb * n + rb,
    ensures
        sa == sb,
        ra == rb,
{
    if sa > sb {
        assert(sa * n >= sb * n + n) by (nonlinear_arith)
            requires
                sa > sb,
                n > 0,
        ;
    } else if sa < sb {
        assert(sb * n >= sa * n + n) by (nonlinear_arith)
            requires
                sa < sb,
                n > 0,
        ;
    }
}

impl Interval {
    /// Splits the interval's nanoseconds into whole days (Euclidean) and the rest,
    /// returning `(days + whole days, rest)`; computed without overflow.
    fn normalized(&self) -> (r: (i128, i128))
        ensures
            0 <= r.1 < nanos_per_day(),
            r.0 * nanos_per_day() + r.1 == self.total_nanos(),
    {
        let q = self.nanos.checked_div_euclid(Self::NANOS_IN_DAY).unwrap();
        let rem = self.nanos.checked_rem_euclid(Self::NANOS_IN_DAY).unwrap();
        proof {
            let n = self.nanos as int;
            let d = nanos_per_day();
            assert(n == d * (n / d) + n % d) by (nonlinear_arith)
                requires
                    d > 0,
            ;
            assert(0 <= n % d < d) by (nonlinear_arith)
                requires
                    d > 0,
            ;
            assert(-170141183460469231731687303715884105728int / d <= n / d <= 170141183460469231731687303715884105727int / d) by (nonlinear_arith)
                requires
                    d > 0,
                    -170141183460469231731687303715884105728int <= n <= 170141183460469231731687303715884105727int,
            ;
        }
        (self.days as i128 + q, rem)
    }
}

/// Two intervals are equal when they have the same months and the same
/// day-and-clock length in nanoseconds (`1 day` equals `86400` seconds).
impl PartialEq for Interval {
    fn eq(&self, other: &Self) -> (r: bool) {
        let (sa, ra) = self.normalized();
        let (sb, rb) = other.normalized();
        proof {
            if self.total_nanos() == other.total_nanos() {
                lemma_unique_split(sa as int, ra as int, sb as int, rb as int, nanos_per_day());
            }
        }
        self.months == other.months && sa == sb && ra == rb
    }
}

impl vstd::std_specs::cmp::PartialEqSpecImpl for Interval {
    open spec fn obeys_eq_spec() -> bool {
        true
    }

    open spec fn eq_spec(&self, other: &Self) -> bool {
        self.equivalent(*other)
    }
}

impl Eq for Interval {
}

/// Equality of intervals is reflexive, symmetric and transitive.
pub proof fn law_interval_eq_equivalence(a: Interval, b: Interval, c: Interval)
    ensures
        a.equivalent(a),
        a.equivalent(b) == b.equivalent(a),
        a.equivalent(b) && b.equivalent(c) ==> a.equivalent(c),
{
}


/// Day count before clamping when adding (`negate == false`) or subtracting
/// (`negate == true`) two intervals: both day counts plus the whole days
/// (toward zero) held in both nanosecond counts.
pub open spec fn combined_days_total(lhs: Interval, rhs: Interval, negate: bool) -> int {
    if negate {
        lhs.days - rhs.days + tdiv(lhs.nanos as int, nanos_per_day()) - tdiv(
            rhs.nanos as int,
            nanos_per_day(),
        )
    } else {
        lhs.days + rhs.days + tdiv(lhs.nanos as int, nanos_per_day()) + tdiv(
            rhs.nanos as int,
            nanos_per_day(),
        )
    }
}

/// The nanoseconds of a sum or difference: the two sub-day remainders (both
/// added, also when subtracting) plus the days that did not fit in `i64`.
pub open spec fn combined_nanos(lhs: Interval, rhs: Interval, negate: bool) -> int {
    let total = combined_days_total(lhs, rhs, negate);
    trem(lhs.nanos as int, nanos_per_day()) + trem(rhs.nanos as int, nanos_per_day()) + (total
        - clamp_i64(total)) * nanos_per_day()
}

/// The month count of a sum or difference.
pub open spec fn combined_months(lhs: Interval, rhs: Interval, negate: bool) -> int {
    if negate {
        lhs.months - rhs.months
    } else {
        lhs.months + rhs.months
    }
}

/// No step of the sum or difference overflows its machine integer.
pub open spec fn combine_fits(lhs: Interval, rhs: Interval, negate: bool) -> bool {
    let total = combined_days_total(lhs, rhs, negate);
    let spill = (total - clamp_i64(total)) * nanos_per_day();
    &&& i64::MIN <= combined_months(lhs, rhs, negate) <= i64::MAX
    &&& i128::MIN <= spill <= i128::MAX
    &&& i128::MIN <= combined_nanos(lhs, rhs, negate) <= i128::MAX
}

/// The interval that `lhs + rhs` (or `lhs - rhs` when `negate`) yields.
pub open spec fn spec_combine(lhs: Interval, rhs: Interval, negate: bool) -> Interval {
    Interval {
        months: combined_months(lhs, rhs, negate) as i64,
        days: clamp_i64(combined_days_total(lhs, rhs, negate)) as i64,
        nanos: combined_nanos(lhs, rhs, negate) as i128,
    }
}

impl Interval {
    /// Adds or subtracts `rhs`: months and days are combined separately, the
    /// whole days held in the nanosecond counts move to the days, days beyond
    /// the range of `i64` stay in the nanoseconds.
    pub(crate) fn combine(self, rhs: Self, negate: bool) -> (r: Self)
        requires
            combine_fits(self, rhs, negate),
        ensures
            r == spec_combine(self, rhs, negate),
    {
        proof {
            lemma_tdiv_trem(self.nanos as int, nanos_per_day());
            lemma_tdiv_trem(rhs.nanos as int, nanos_per_day());
        }
        let lq = self.nanos / Self::NANOS_IN_DAY;
        let rq = rhs.nanos / Self::NANOS_IN_DAY;
        let days_total: i128 = if negate {
            self.days as i128 - rhs.days as i128 + lq - rq
        } else {
            self.days as i128 + rhs.days as i128 + lq + rq
        };
        let days: i128 = if days_total < i64::MIN as i128 {
            i64::MIN as i128
        } else if days_total > i64::MAX as i128 {
            i64::MAX as i128
        } else {
            days_total
        };
        let mut nanos = self.nanos % Self::NANOS_IN_DAY + rhs.nanos % Self::NANOS_IN_DAY;
        if days != days_total {
            nanos = nanos + (days_total - days) * Self::NANOS_IN_DAY;
        }
        let months = if negate {
            self.months - rhs.months
        } else {
            self.months + rhs.months
        };
        Interval { months, days: days as i64, nanos }
    }
}

impl core::ops::Add for Interval {
    type Output = Interval;

    fn add(self, rhs: Self) -> (r: Self::Output) {
        self.combine(rhs, false)
    }
}

impl vstd::std_specs::ops::AddSpecImpl for Interval {
    open spec fn obeys_add_spec() -> bool {
        true
    }

    open spec fn add_req(self, rhs: Self) -> bool {
        combine_fits(self, rhs, false)
    }

    open spec fn add_spec(self, rhs: Self) -> Self::Output {
        spec_combine(self, rhs, false)
    }
}

impl core::ops::Sub for Interval {
    type Output = Interval;

    fn sub(self, rhs: Self) -> (r: Self::Output) {
        self.combine(rhs, true)
    }
}

impl core::ops::AddAssign for Interval {
    fn add_assign(&mut self, rhs: Self)
        requires
            combine_fits(*old(self), rhs, false),
        ensures
            *final(self) == spec_combine(*old(self), rhs, false),
    {
        *self = self.combine(rhs, false);
    }
}

impl core::ops::SubAssign for Interval {
    fn sub_assign(&mut self, rhs: Self)
        requires
            combine_fits(*old(self), rhs, true),
        ensures
            *final(self) == spec_combine(*old(self), rhs, true),
    {
        *self = self.combine(rhs, true);
    }
}

impl vstd::std_specs::ops::SubSpecImpl for Interval {
    open spec fn obeys_sub_spec() -> bool {
        true
    }

    open spec fn sub_req(self, rhs: Self) -> bool {
        combine_fits(self, rhs, true)
    }

    open spec fn sub_spec(self, rhs: Self) -> Self::Output {
        spec_combine(self, rhs, true)
    }
}


proof fn lemma_combine_total(lhs: Interval, rhs: Interval, negate: bool)
    requires
        combine_fits(lhs, rhs, negate),
    ensures
        spec_combine(lhs, rhs, negate).months == combined_months(lhs, rhs, negate),
        spec_combine(lhs, rhs, negate).total_nanos() == combined_days_total(lhs, rhs, negate)
            * nanos_per_day() + trem(lhs.nanos as int, nanos_per_day()) + trem(
            rhs.nanos as int,
            nanos_per_day(),
        ),
{
    let t = combined_days_total(lhs, rhs, negate);
    let c = clamp_i64(t);
    let n = nanos_per_day();
    let r = spec_combine(lhs, rhs, negate);
    assert(r.days == c);
    assert(r.nanos == combined_nanos(lhs, rhs, negate));
    assert(c * n + (t - c) * n == t * n) by (nonlinear_arith);
}

/// Adding intervals adds their months and their day-and-clock lengths.
pub proof fn law_add_is_additive(lhs: Interval, rhs: Interval)
    requires
        combine_fits(lhs, rhs, false),
    ensures
        spec_combine(lhs, rhs, false).months == lhs.months + rhs.months,
        spec_combine(lhs, rhs, false).total_nanos() == lhs.total_nanos() + rhs.total_nanos(),
{
    lemma_combine_total(lhs, rhs, false);
    lemma_tdiv_trem(lhs.nanos as int, nanos_per_day());
    lemma_tdiv_trem(rhs.nanos as int, nanos_per_day());
    let n = nanos_per_day();
    let ql = tdiv(lhs.nanos as int, n);
    let qr = tdiv(rhs.nanos as int, n);
    assert((lhs.days + rhs.days + ql + qr) * n == lhs.days * n + rhs.days * n + n * ql + n * qr)
        by (nonlinear_arith);
}

/// Adding fits in the machine integers whenever the sum of the months fits
/// in `i64` and the sum of the day-and-clock lengths fits in `i128`.
proof fn lemma_add_fits(a: Interval, b: Interval)
    requires
        i64::MIN <= a.months + b.months <= i64::MAX,
        i128::MIN <= a.total_nanos() + b.total_nanos() <= i128::MAX,
    ensures
        combine_fits(a, b, false),
{
    let n = nanos_per_day();
    lemma_tdiv_trem(a.nanos as int, n);
    lemma_tdiv_trem(b.nanos as int, n);
    let qa = tdiv(a.nanos as int, n);
    let qb = tdiv(b.nanos as int, n);
    let ra = trem(a.nanos as int, n);
    let rb = trem(b.nanos as int, n);
    let t = combined_days_total(a, b, false);
    let c = clamp_i64(t);
    let sum = a.total_nanos() + b.total_nanos();
    assert(sum == t * n + ra + rb) by (nonlinear_arith)
        requires
            sum == a.days * n + a.nanos + b.days * n + b.nanos,
            a.nanos == n * qa + ra,
            b.nanos == n * qb + rb,
            t == a.days + b.days + qa + qb,
    ;
    assert((t - c) * n == t * n - c * n) by (nonlinear_arith);
    if t > i64::MAX {
        assert(c == i64::MAX);
        assert((t - c) * n >= n) by (nonlinear_arith)
            requires
                t - c >= 1,
                n > 0,
        ;
        assert(c * n == 9223372036854775807 * 86_400_000_000_000);
    } else if t < i64::MIN {
        assert(c == i64::MIN);
        assert((t - c) * n <= -n) by (nonlinear_arith)
            requires
                t - c <= -1,
                n > 0,
        ;
        assert(c * n == -9223372036854775808 * 86_400_000_000_000);
    } else {
        assert(c == t);
    }
}

/// Adding intervals adds their months and their day-and-clock lengths, in
/// either order, whenever both sums fit: the months in `i64`, the lengths
/// in `i128`.
pub proof fn law_add_within_bounds(a: Interval, b: Interval)
    requires
        i64::MIN <= a.months + b.months <= i64::MAX,
        i128::MIN <= a.total_nanos() + b.total_nanos() <= i128::MAX,
    ensures
        combine_fits(a, b, false),
        spec_combine(a, b, false).months == a.months + b.months,
        spec_combine(a, b, false).total_nanos() == a.total_nanos() + b.total_nanos(),
        spec_combine(a, b, false) == spec_combine(b, a, false),
{
    lemma_add_fits(a, b);
    law_add_is_additive(a, b);
    law_add_commutative(a, b);
}

/// Subtracting intervals subtracts their months; the day-and-clock length of
/// the result is the difference of the lengths plus twice the sub-day
/// remainder of the right operand's nanoseconds (that remainder is added, not
/// subtracted).
pub proof fn law_sub_length(lhs: Interval, rhs: Interval)
    requires
        combine_fits(lhs, rhs, true),
    ensures
        spec_combine(lhs, rhs, true).months == lhs.months - rhs.months,
        spec_combine(lhs, rhs, true).total_nanos() == lhs.total_nanos() - rhs.total_nanos() + 2
            * trem(rhs.nanos as int, nanos_per_day()),
{
    lemma_combine_total(lhs, rhs, true);
    lemma_tdiv_trem(lhs.nanos as int, nanos_per_day());
    lemma_tdiv_trem(rhs.nanos as int, nanos_per_day());
    let n = nanos_per_day();
    let ql = tdiv(lhs.nanos as int, n);
    let qr = tdiv(rhs.nanos as int, n);
    assert((lhs.days - rhs.days + ql - qr) * n == lhs.days * n - rhs.days * n + n * ql - n * qr)
        by (nonlinear_arith);
}

/// When the right operand holds whole days in its nanoseconds, subtracting
/// it subtracts the months and the day-and-clock length.
pub proof fn law_sub_is_subtractive(lhs: Interval, rhs: Interval)
    requires
        combine_fits(lhs, rhs, true),
        trem(rhs.nanos as int, nanos_per_day()) == 0,
    ensures
        spec_combine(lhs, rhs, true).months == lhs.months - rhs.months,
        spec_combine(lhs, rhs, true).total_nanos() == lhs.total_nanos() - rhs.total_nanos(),
{
    law_sub_length(lhs, rhs);
}

/// Addition is commutative.
pub proof fn law_add_commutative(lhs: Interval, rhs: Interval)
    ensures
        combine_fits(lhs, rhs, false) == combine_fits(rhs, lhs, false),
        spec_combine(lhs, rhs, false) == spec_combine(rhs, lhs, false),
{
}

/// Subtracting what was just added gives back an interval equal to the
/// starting one, when the added interval holds whole days in its nanoseconds.
pub proof fn law_sub_undoes_add(a: Interval, b: Interval)
    requires
        combine_fits(a, b, false),
        combine_fits(spec_combine(a, b, false), b, true),
        trem(b.nanos as int, nanos_per_day()) == 0,
    ensures
        spec_combine(spec_combine(a, b, false), b, true).equivalent(a),
{
    law_add_is_additive(a, b);
    law_sub_is_subtractive(spec_combine(a, b, false), b);
}

/// The day count of a sum or difference always lies in the range of `i64`,
/// and the day-and-clock length is kept even when the days are clamped.
pub proof fn law_combine_keeps_length_when_clamped(lhs: Interval, rhs: Interval)
    requires
        combine_fits(lhs, rhs, false),
        combined_days_total(lhs, rhs, false) > i64::MAX,
    ensures
        spec_combine(lhs, rhs, false).days == i64::MAX,
        spec_combine(lhs, rhs, false).total_nanos() == lhs.total_nanos() + rhs.total_nanos(),
{
    law_add_is_additive(lhs, rhs);
}


/// How many nanoseconds one of each unit stands for (a month counts 30 days,
/// a year 12 such months).
pub open spec fn unit_factor(unit: IntervalUnit) -> int {
    match unit {
        IntervalUnit::Year => 31_104_000_000_000_000,
        IntervalUnit::Month => 2_592_000_000_000_000,
        IntervalUnit::Day => 86_400_000_000_000,
        IntervalUnit::Hour => 3_600_000_000_000,
        IntervalUnit::Minute => 60_000_000_000,
        IntervalUnit::Second => 1_000_000_000,
        IntervalUnit::Microsecond => 1_000,
        IntervalUnit::Nanosecond => 1,
    }
}

/// The units from the largest to the smallest, each with its factor.
pub open spec fn units_table() -> Seq<(IntervalUnit, i128)> {
    seq![
        (IntervalUnit::Year, 31_104_000_000_000_000i128),
        (IntervalUnit::Month, 2_592_000_000_000_000i128),
        (IntervalUnit::Day, 86_400_000_000_000i128),
        (IntervalUnit::Hour, 3_600_000_000_000i128),
        (IntervalUnit::Minute, 60_000_000_000i128),
        (IntervalUnit::Second, 1_000_000_000i128),
        (IntervalUnit::Microsecond, 1_000i128),
        (IntervalUnit::Nanosecond, 1i128),
    ]
}

/// The units mask of an interval without a day-and-clock part: the year bit
/// when the months make whole years, the month bit for other nonzero months.
pub open spec fn months_mask(months: int) -> u8 {
    if months != 0 {
        if trem(months, 12) == 0 {
            128
        } else {
            64
        }
    } else {
        0
    }
}

impl Interval {
    /// The units from the largest to the smallest, each with its length in nanoseconds.
    pub fn units_and_factors(&self) -> (r: [(IntervalUnit, i128); 8])
        ensures
            r@ == units_table(),
            forall|i: int| 0 <= i < 8 ==> #[trigger] r@[i].1 == unit_factor(r@[i].0),
    {
        let r = [
            (IntervalUnit::Year, Self::NANOS_IN_DAY * 30 * 12),
            (IntervalUnit::Month, Self::NANOS_IN_DAY * 30),
            (IntervalUnit::Day, Self::NANOS_IN_DAY),
            (IntervalUnit::Hour, Self::NANOS_IN_SEC * 3600),
            (IntervalUnit::Minute, Self::NANOS_IN_SEC * 60),
            (IntervalUnit::Second, Self::NANOS_IN_SEC),
            (IntervalUnit::Microsecond, 1_000),
            (IntervalUnit::Nanosecond, 1),
        ];
        assert(r@ =~= units_table());
        r
    }

    /// The units mask of the interval. The day-and-clock part must be zero:
    /// for a nonzero day-and-clock part the bit offset computation underflows.
    pub fn units_mask(&self) -> (r: u8)
        requires
            self.total_nanos() == 0,
        ensures
            r == months_mask(self.months as int),
    {
        let mut mask = 0_u8;
        if self.months != 0 {
            if self.months % 12 == 0 {
                mask = mask | 128;
            } else if self.months != 0 {
                mask = mask | 64;
            }
        }
        proof {
            lemma_tdiv_trem(self.months as int, 12);
            assert(0u8 | 128u8 == 128u8) by (bit_vector);
            assert(0u8 | 64u8 == 64u8) by (bit_vector);
        }
        mask
    }

    /// The interval measured in the given unit, rounded toward zero: whole
    /// years of the months, the months, or the day-and-clock length divided by
    /// the unit's length.
    pub fn unit_value(&self, unit: IntervalUnit) -> (r: i128)
        requires
            unit != IntervalUnit::Year && unit != IntervalUnit::Month ==> i128::MIN
                <= self.total_nanos() <= i128::MAX,
        ensures
            unit == IntervalUnit::Year ==> r == tdiv(self.months as int, 12),
            unit == IntervalUnit::Month ==> r == self.months,
            unit != IntervalUnit::Year && unit != IntervalUnit::Month ==> r == tdiv(
                self.total_nanos(),
                unit_factor(unit),
            ),
    {
        if unit == IntervalUnit::Year {
            self.months as i128 / 12
        } else if unit == IntervalUnit::Month {
            self.months as i128
        } else {
            let units = self.units_and_factors();
            let mut i: usize = 0;
            let mut factor: i128 = 0;
            while i < 8
                invariant
                    0 <= i <= 8,
                    units@ == units_table(),
                    forall|j: int| 0 <= j < i ==> units@[j].0 != unit,
                ensures
                    0 <= i <= 8,
                    forall|j: int| 0 <= j < i ==> units@[j].0 != unit,
                    i < 8 ==> units@[i as int].0 == unit && factor == units@[i as int].1,
                decreases 8 - i,
            {
                if units[i].0 == unit {
                    factor = units[i].1;
                    break;
                }
                i = i + 1;
            }
            assert(i < 8) by {
                if i >= 8 {
                    assert(units@[7].0 == IntervalUnit::Nanosecond);
                    assert(units@[2].0 == IntervalUnit::Day);
                    assert(units@[3].0 == IntervalUnit::Hour);
                    assert(units@[4].0 == IntervalUnit::Minute);
                    assert(units@[5].0 == IntervalUnit::Second);
                    assert(units@[6].0 == IntervalUnit::Microsecond);
                }
            }
            assert(factor == unit_factor(unit));
            (self.days as i128 * Self::NANOS_IN_DAY + self.nanos) / factor
        }
    }
}


/// The whole length of a `std::time::Duration` in nanoseconds, as
/// `Duration::as_nanos` gives it.
pub uninterp spec fn duration_nanos(duration: std::time::Duration) -> u128;

/// `std::time::Duration::as_nanos`: the whole length of the duration in
/// nanoseconds, named `duration_nanos`. Claimed besides: it is below
/// `2^64 * 10^9`, since a duration holds a `u64` count of seconds and fewer
/// than `10^9` extra nanoseconds.
#[verifier::external_body]
fn duration_as_nanos(duration: &std::time::Duration) -> (r: u128)
    ensures
        r == duration_nanos(*duration),
        r < 18_446_744_073_709_551_616_000_000_000u128,
{
    duration.as_nanos()
}

impl Interval {
    /// An interval of the length of a `std::time::Duration`, all of it in the
    /// nanosecond count.
    pub fn from_duration(duration: &std::time::Duration) -> (r: Self)
        ensures
            r.months == 0,
            r.days == 0,
            r.nanos == duration_nanos(*duration),
            0 <= r.nanos < 18_446_744_073_709_551_616_000_000_000i128,
    {
        let nanos = duration_as_nanos(duration);
        Self { months: 0, days: 0, nanos: nanos as i128 }
    }
}

impl Interval {
    /// The interval of a `std::time::Duration` given as its whole seconds and
    /// its nanoseconds below a second: the seconds, cast to `i64`, split into
    /// whole days and the remaining seconds, which go with the nanoseconds
    /// into the nanosecond count.
    pub fn from_duration_parts(secs: u64, subsec_nanos: u32) -> (r: Self)
        ensures
            r.months == 0,
            r.days == tdiv((secs as i64) as int, 86_400),
            r.nanos == trem((secs as i64) as int, 86_400) * 1_000_000_000 + subsec_nanos,
    {
        let s = secs as i64;
        proof {
            lemma_tdiv_trem(s as int, 86_400);
        }
        let days = s / Self::SECS_IN_DAY;
        let rem = s % Self::SECS_IN_DAY;
        Self { months: 0, days, nanos: (rem as i128) * Self::NANOS_IN_SEC + subsec_nanos as i128 }
    }

    /// The interval of a `time::Duration` given as its whole seconds and its
    /// nanoseconds below a second: whole days of the seconds, the remaining
    /// seconds with the nanoseconds in the nanosecond count.
    pub fn from_signed_duration_parts(seconds: i64, subsec_nanos: i32) -> (r: Self)
        ensures
            r.months == 0,
            r.days == tdiv(seconds as int, 86_400),
            r.nanos == trem(seconds as int, 86_400) * 1_000_000_000 + subsec_nanos,
    {
        proof {
            lemma_tdiv_trem(seconds as int, 86_400);
        }
        let days = seconds / Self::SECS_IN_DAY;
        let rem = seconds % Self::SECS_IN_DAY;
        Self { months: 0, days, nanos: (rem * 1_000_000_000 + subsec_nanos as i64) as i128 }
    }

    /// The whole seconds and the nanoseconds below a second of the
    /// `time::Duration` of this interval, a month counted as 30 days: the
    /// seconds are cast to `i64` (wrapping), the nanoseconds keep the sign of
    /// the nanosecond count.
    pub fn signed_duration_parts(&self) -> (r: (i64, i32))
        requires
            i64::MIN <= self.months * 30 <= i64::MAX,
            i64::MIN <= self.days + self.months * 30 <= i64::MAX,
            i64::MIN <= (self.days + self.months * 30) * 86_400 <= i64::MAX,
        ensures
            r.0 == (((self.days + self.months * 30) * 86_400) + tdiv(self.nanos as int, 1_000_000_000)) as i64,
            r.1 == trem(self.nanos as int, 1_000_000_000),
    {
        proof {
            lemma_tdiv_trem(self.nanos as int, 1_000_000_000);
        }
        let days = self.days + self.months * 30;
        let seconds = (days * Self::SECS_IN_DAY) as i128 + self.nanos / Self::NANOS_IN_SEC;
        let nanos = (self.nanos % Self::NANOS_IN_SEC) as i32;
        (#[verifier::truncate] (seconds as i64), nanos)
    }
}

} // verus!
