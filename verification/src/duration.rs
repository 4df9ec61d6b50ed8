//! Signed spans of time with nanosecond resolution.

use vstd::prelude::*;
use crate::util::{spec_div_trunc, spec_rem_trunc};

verus! {

/// Nanoseconds in a second.
pub const NANOS_PER_SECOND: i64 = 1_000_000_000;

/// Seconds in a minute.
pub const SECONDS_PER_MINUTE: i64 = 60;

/// Seconds in an hour.
pub const SECONDS_PER_HOUR: i64 = 3_600;

/// Seconds in a day.
pub const SECONDS_PER_DAY: i64 = 86_400;

/// Seconds in a week.
pub const SECONDS_PER_WEEK: i64 = 604_800;

/// A signed span of time: a count of whole seconds and a count of
/// nanoseconds below one second. The two counts never differ in sign.
#[derive(Debug, Clone, Copy, PartialEq, Eq, Hash, PartialOrd, Ord)]
pub struct Duration {
    seconds: i64,
    nanoseconds: i32,
}

/// The shortest span that can be held, in nanoseconds.
pub open spec fn spec_min_nanoseconds() -> int {
    i64::MIN * 1_000_000_000 - 999_999_999
}

/// The longest span that can be held, in nanoseconds.
pub open spec fn spec_max_nanoseconds() -> int {
    i64::MAX * 1_000_000_000 + 999_999_999
}

/// Whether a span of `nanoseconds` can be held.
pub open spec fn spec_representable(nanoseconds: int) -> bool {
    spec_min_nanoseconds() <= nanoseconds <= spec_max_nanoseconds()
}

/// The duration that a checked operation yields for an exact result of
/// `nanoseconds`: the duration of that length where it can be held.
pub open spec fn spec_checked_duration(nanoseconds: int) -> Option<Duration> {
    if spec_representable(nanoseconds) {
        Some(Duration::spec_from_nanoseconds(nanoseconds))
    } else {
        None
    }
}

/// The duration that a saturating operation yields for an exact result of
/// `nanoseconds`: the nearest duration that can be held.
pub open spec fn spec_saturating_duration(nanoseconds: int) -> Duration {
    if nanoseconds < spec_min_nanoseconds() {
        Duration::spec_from_nanoseconds(spec_min_nanoseconds())
    } else if nanoseconds > spec_max_nanoseconds() {
        Duration::spec_from_nanoseconds(spec_max_nanoseconds())
    } else {
        Duration::spec_from_nanoseconds(nanoseconds)
    }
}

impl Duration {
    /// The length of the span in nanoseconds.
    pub closed spec fn view(&self) -> int {
        self.seconds * 1_000_000_000 + self.nanoseconds
    }

    /// The canonical form: less than a second of nanoseconds, of the same
    /// sign as the whole seconds.
    pub closed spec fn wf(&self) -> bool {
        &&& -1_000_000_000 < self.nanoseconds < 1_000_000_000
        &&& self.seconds > 0 ==> self.nanoseconds >= 0
        &&& self.seconds < 0 ==> self.nanoseconds <= 0
    }

    /// The canonical duration of the given length.
    pub closed spec fn spec_from_nanoseconds(nanoseconds: int) -> Duration {
        Duration {
            seconds: spec_div_trunc(nanoseconds, 1_000_000_000) as i64,
            nanoseconds: spec_rem_trunc(nanoseconds, 1_000_000_000) as i32,
        }
    }

    /// Whole seconds of the span, rounded towards zero.
    pub open spec fn spec_whole_seconds(&self) -> int {
        spec_div_trunc(self@, 1_000_000_000)
    }

    /// What is left of the span below its whole seconds, in nanoseconds.
    pub open spec fn spec_subsec_nanoseconds(&self) -> int {
        spec_rem_trunc(self@, 1_000_000_000)
    }

    /// A canonical duration lies within the representable lengths, and it is
    /// the canonical duration of its own length.
    pub proof fn lemma_canonical(self)
        requires
            self.wf(),
        ensures
            spec_representable(self@),
            Duration::spec_from_nanoseconds(self@) == self,
            -1_000_000_000 < self.spec_subsec_nanoseconds() < 1_000_000_000,
            i64::MIN <= self.spec_whole_seconds() <= i64::MAX,
            self@ == self.spec_whole_seconds() * 1_000_000_000 + self.spec_subsec_nanoseconds(),
            self@ > 0 ==> self.spec_whole_seconds() >= 0 && self.spec_subsec_nanoseconds() >= 0,
            self@ < 0 ==> self.spec_whole_seconds() <= 0 && self.spec_subsec_nanoseconds() <= 0,
    {
    }

    /// The canonical duration of a representable length is canonical and has
    /// that length.
    pub proof fn lemma_from_nanoseconds(nanoseconds: int)
        requires
            spec_representable(nanoseconds),
        ensures
            Duration::spec_from_nanoseconds(nanoseconds).wf(),
            Duration::spec_from_nanoseconds(nanoseconds)@ == nanoseconds,
    {
    }

    /// Two canonical durations of the same length are the same duration.
    pub proof fn lemma_equal_by_length(self, other: Duration)
        requires
            self.wf(),
            other.wf(),
            self@ == other@,
        ensures
            self == other,
    {
    }

    /// The duration of a length given in nanoseconds, where it can be held.
    fn from_total(total: i128) -> (d: Option<Duration>)
        ensures
            d == spec_checked_duration(total as int),
            d is Some ==> d->0.wf() && d->0@ == total,
    {
        let seconds: i128 = total / 1_000_000_000;
        let nanoseconds: i128 = total % 1_000_000_000;
        if seconds < -9_223_372_036_854_775_808 || seconds > 9_223_372_036_854_775_807 {
            None
        } else {
            Some(Duration { seconds: seconds as i64, nanoseconds: nanoseconds as i32 })
        }
    }

    /// The duration of a length given in nanoseconds, or the nearest one
    /// that can be held.
    fn from_total_saturating(total: i128) -> (d: Duration)
        ensures
            d == spec_saturating_duration(total as int),
            d.wf(),
            spec_representable(total as int) ==> d@ == total,
    {
        match Duration::from_total(total) {
            Some(d) => d,
            None => {
                if total < 0 {
                    Duration::min_value()
                } else {
                    Duration::max_value()
                }
            },
        }
    }

    /// The empty span.
    pub fn zero() -> (d: Duration)
        ensures
            d.wf(),
            d@ == 0,
    {
        Duration { seconds: 0, nanoseconds: 0 }
    }

    /// The shortest span that can be held: the most negative one.
    pub fn min_value() -> (d: Duration)
        ensures
            d.wf(),
            d@ == spec_min_nanoseconds(),
            d == Duration::spec_from_nanoseconds(spec_min_nanoseconds()),
    {
        Duration { seconds: i64::MIN, nanoseconds: -999_999_999 }
    }

    /// The longest span that can be held.
    pub fn max_value() -> (d: Duration)
        ensures
            d.wf(),
            d@ == spec_max_nanoseconds(),
            d == Duration::spec_from_nanoseconds(spec_max_nanoseconds()),
    {
        Duration { seconds: i64::MAX, nanoseconds: 999_999_999 }
    }

    /// The span of `seconds` whole seconds and `nanoseconds` nanoseconds,
    /// brought to canonical form. The two counts may differ in sign and the
    /// nanoseconds may exceed a second.
    pub fn new(seconds: i64, nanoseconds: i32) -> (d: Duration)
        requires
            spec_representable(seconds * 1_000_000_000 + nanoseconds),
        ensures
            d.wf(),
            d@ == seconds * 1_000_000_000 + nanoseconds,
    {
        let total: i128 = seconds as i128 * 1_000_000_000 + nanoseconds as i128;
        let whole: i128 = total / 1_000_000_000;
        let rest: i128 = total % 1_000_000_000;
        Duration { seconds: whole as i64, nanoseconds: rest as i32 }
    }

    /// As [`Duration::new`], for any pair of counts: `None` where the span
    /// cannot be held.
    pub fn checked_new(seconds: i64, nanoseconds: i32) -> (d: Option<Duration>)
        ensures
            d == spec_checked_duration(seconds * 1_000_000_000 + nanoseconds),
            d is Some ==> d->0.wf() && d->0@ == seconds * 1_000_000_000 + nanoseconds,
    {
        Duration::from_total(seconds as i128 * 1_000_000_000 + nanoseconds as i128)
    }

    /// A span of whole weeks.
    pub fn weeks(weeks: i64) -> (d: Duration)
        requires
            i64::MIN <= weeks * 604_800 <= i64::MAX,
        ensures
            d.wf(),
            d@ == weeks * 604_800 * 1_000_000_000,
    {
        Duration { seconds: weeks * SECONDS_PER_WEEK, nanoseconds: 0 }
    }

    /// A span of whole days.
    pub fn days(days: i64) -> (d: Duration)
        requires
            i64::MIN <= days * 86_400 <= i64::MAX,
        ensures
            d.wf(),
            d@ == days * 86_400 * 1_000_000_000,
    {
        Duration { seconds: days * SECONDS_PER_DAY, nanoseconds: 0 }
    }

    /// A span of whole hours.
    pub fn hours(hours: i64) -> (d: Duration)
        requires
            i64::MIN <= hours * 3_600 <= i64::MAX,
        ensures
            d.wf(),
            d@ == hours * 3_600 * 1_000_000_000,
    {
        Duration { seconds: hours * SECONDS_PER_HOUR, nanoseconds: 0 }
    }

    /// A span of whole minutes.
    pub fn minutes(minutes: i64) -> (d: Duration)
        requires
            i64::MIN <= minutes * 60 <= i64::MAX,
        ensures
            d.wf(),
            d@ == minutes * 60 * 1_000_000_000,
    {
        Duration { seconds: minutes * SECONDS_PER_MINUTE, nanoseconds: 0 }
    }

    /// A span of whole seconds.
    pub fn seconds(seconds: i64) -> (d: Duration)
        ensures
            d.wf(),
            d@ == seconds * 1_000_000_000,
    {
        Duration { seconds, nanoseconds: 0 }
    }

    /// A span of whole milliseconds.
    pub fn milliseconds(milliseconds: i64) -> (d: Duration)
        ensures
            d.wf(),
            d@ == milliseconds * 1_000_000,
    {
        let rest: i64 = milliseconds % 1_000;
        Duration { seconds: milliseconds / 1_000, nanoseconds: (rest * 1_000_000) as i32 }
    }

    /// A span of whole microseconds.
    pub fn microseconds(microseconds: i64) -> (d: Duration)
        ensures
            d.wf(),
            d@ == microseconds * 1_000,
    {
        let rest: i64 = microseconds % 1_000_000;
        Duration { seconds: microseconds / 1_000_000, nanoseconds: (rest * 1_000) as i32 }
    }

    /// A span of whole nanoseconds.
    pub fn nanoseconds(nanoseconds: i64) -> (d: Duration)
        ensures
            d.wf(),
            d@ == nanoseconds,
    {
        let rest: i64 = nanoseconds % 1_000_000_000;
        Duration { seconds: nanoseconds / 1_000_000_000, nanoseconds: rest as i32 }
    }

    /// Whether the span is empty.
    pub fn is_zero(self) -> (zero: bool)
        requires
            self.wf(),
        ensures
            zero == (self@ == 0),
    {
        self.seconds == 0 && self.nanoseconds == 0
    }

    /// Whether the span runs backwards.
    pub fn is_negative(self) -> (negative: bool)
        requires
            self.wf(),
        ensures
            negative == (self@ < 0),
    {
        self.seconds < 0 || self.nanoseconds < 0
    }

    /// Whether the span runs forwards.
    pub fn is_positive(self) -> (positive: bool)
        requires
            self.wf(),
        ensures
            positive == (self@ > 0),
    {
        self.seconds > 0 || self.nanoseconds > 0
    }

    /// Whether this span is shorter than the other, or runs further back.
    pub fn is_less_than(self, other: Duration) -> (less: bool)
        requires
            self.wf(),
            other.wf(),
        ensures
            less == (self@ < other@),
    {
        self.seconds < other.seconds || (self.seconds == other.seconds && self.nanoseconds
            < other.nanoseconds)
    }

    /// The span without its sign. The most negative span has no positive
    /// counterpart and gives the longest span.
    pub fn abs(self) -> (d: Duration)
        requires
            self.wf(),
        ensures
            d == spec_saturating_duration(if self@ < 0 { -self@ } else { self@ }),
            d.wf(),
            d@ >= 0,
            -self@ <= spec_max_nanoseconds() ==> d@ == (if self@ < 0 { -self@ } else { self@ }),
    {
        let total: i128 = self.whole_nanoseconds();
        if total < 0 {
            Duration::from_total_saturating(-total)
        } else {
            Duration::from_total_saturating(total)
        }
    }

    /// Whole weeks of the span, rounded towards zero.
    pub fn whole_weeks(self) -> (n: i64)
        requires
            self.wf(),
        ensures
            n == spec_div_trunc(self@, 604_800_000_000_000),
    {
        self.seconds / SECONDS_PER_WEEK
    }

    /// Whole days of the span, rounded towards zero.
    pub fn whole_days(self) -> (n: i64)
        requires
            self.wf(),
        ensures
            n == spec_div_trunc(self@, 86_400_000_000_000),
    {
        self.seconds / SECONDS_PER_DAY
    }

    /// Whole hours of the span, rounded towards zero.
    pub fn whole_hours(self) -> (n: i64)
        requires
            self.wf(),
        ensures
            n == spec_div_trunc(self@, 3_600_000_000_000),
    {
        self.seconds / SECONDS_PER_HOUR
    }

    /// Whole minutes of the span, rounded towards zero.
    pub fn whole_minutes(self) -> (n: i64)
        requires
            self.wf(),
        ensures
            n == spec_div_trunc(self@, 60_000_000_000),
    {
        self.seconds / SECONDS_PER_MINUTE
    }

    /// Whole seconds of the span, rounded towards zero.
    pub fn whole_seconds(self) -> (n: i64)
        requires
            self.wf(),
        ensures
            n == self.spec_whole_seconds(),
    {
        self.seconds
    }

    /// Whole milliseconds of the span, rounded towards zero.
    pub fn whole_milliseconds(self) -> (n: i128)
        requires
            self.wf(),
        ensures
            n == spec_div_trunc(self@, 1_000_000),
    {
        self.whole_nanoseconds() / 1_000_000
    }

    /// Whole microseconds of the span, rounded towards zero.
    pub fn whole_microseconds(self) -> (n: i128)
        requires
            self.wf(),
        ensures
            n == spec_div_trunc(self@, 1_000),
    {
        self.whole_nanoseconds() / 1_000
    }

    /// The length of the span in nanoseconds.
    pub fn whole_nanoseconds(self) -> (n: i128)
        requires
            self.wf(),
        ensures
            n == self@,
    {
        self.seconds as i128 * 1_000_000_000 + self.nanoseconds as i128
    }

    /// Milliseconds of the span below its whole seconds, rounded towards
    /// zero.
    pub fn subsec_milliseconds(self) -> (n: i16)
        requires
            self.wf(),
        ensures
            n == spec_div_trunc(self.spec_subsec_nanoseconds(), 1_000_000),
    {
        (self.nanoseconds / 1_000_000) as i16
    }

    /// Microseconds of the span below its whole seconds, rounded towards
    /// zero.
    pub fn subsec_microseconds(self) -> (n: i32)
        requires
            self.wf(),
        ensures
            n == spec_div_trunc(self.spec_subsec_nanoseconds(), 1_000),
    {
        self.nanoseconds / 1_000
    }

    /// Nanoseconds of the span below its whole seconds.
    pub fn subsec_nanoseconds(self) -> (n: i32)
        requires
            self.wf(),
        ensures
            n == self.spec_subsec_nanoseconds(),
    {
        self.nanoseconds
    }

    /// The sum of two spans, or `None` where it cannot be held.
    pub fn checked_add(self, rhs: Duration) -> (sum: Option<Duration>)
        requires
            self.wf(),
            rhs.wf(),
        ensures
            sum == spec_checked_duration(self@ + rhs@),
            sum is Some ==> sum->0.wf() && sum->0@ == self@ + rhs@,
    {
        Duration::from_total(self.whole_nanoseconds() + rhs.whole_nanoseconds())
    }

    /// The difference of two spans, or `None` where it cannot be held.
    pub fn checked_sub(self, rhs: Duration) -> (difference: Option<Duration>)
        requires
            self.wf(),
            rhs.wf(),
        ensures
            difference == spec_checked_duration(self@ - rhs@),
            difference is Some ==> difference->0.wf() && difference->0@ == self@ - rhs@,
    {
        Duration::from_total(self.whole_nanoseconds() - rhs.whole_nanoseconds())
    }

    /// The span with its sign reversed, or `None` for the most negative
    /// span.
    pub fn checked_neg(self) -> (negated: Option<Duration>)
        requires
            self.wf(),
        ensures
            negated == spec_checked_duration(-self@),
            negated is Some ==> negated->0.wf() && negated->0@ == -self@,
    {
        Duration::from_total(-self.whole_nanoseconds())
    }

    /// The span taken `rhs` times, or `None` where it cannot be held.
    pub fn checked_mul(self, rhs: i32) -> (product: Option<Duration>)
        requires
            self.wf(),
        ensures
            product == spec_checked_duration(self@ * rhs),
            product is Some ==> product->0.wf() && product->0@ == self@ * rhs,
    {
        let total: i128 = self.whole_nanoseconds();
        let factor: i128 = rhs as i128;
        proof {
            lemma_product_bounds(total as int, factor as int);
        }
        Duration::from_total(total * factor)
    }

    /// The span divided by `rhs`, rounded towards zero to a nanosecond.
    /// `None` for a divisor of zero, and where the quotient cannot be held:
    /// the most negative spans divided by -1.
    pub fn checked_div(self, rhs: i32) -> (quotient: Option<Duration>)
        requires
            self.wf(),
        ensures
            rhs == 0 ==> quotient is None,
            rhs > 0 ==> quotient == spec_checked_duration(spec_div_trunc(self@, rhs as int)),
            rhs < 0 ==> quotient == spec_checked_duration(-spec_div_trunc(self@, -rhs)),
            rhs > 0 ==> quotient is Some,
            quotient is Some ==> quotient->0.wf(),
    {
        let total: i128 = self.whole_nanoseconds();
        let divisor: i128 = rhs as i128;
        proof {
            lemma_quotient_bounds(total as int, divisor as int);
        }
        if rhs == 0 {
            None
        } else if rhs > 0 {
            Duration::from_total(total / divisor)
        } else {
            Duration::from_total(-(total / (-divisor)))
        }
    }

    /// The sum of two spans, or the nearest span that can be held.
    pub fn saturating_add(self, rhs: Duration) -> (sum: Duration)
        requires
            self.wf(),
            rhs.wf(),
        ensures
            sum == spec_saturating_duration(self@ + rhs@),
            sum.wf(),
            spec_representable(self@ + rhs@) ==> sum@ == self@ + rhs@,
    {
        Duration::from_total_saturating(self.whole_nanoseconds() + rhs.whole_nanoseconds())
    }

    /// The difference of two spans, or the nearest span that can be held.
    pub fn saturating_sub(self, rhs: Duration) -> (difference: Duration)
        requires
            self.wf(),
            rhs.wf(),
        ensures
            difference == spec_saturating_duration(self@ - rhs@),
            difference.wf(),
            spec_representable(self@ - rhs@) ==> difference@ == self@ - rhs@,
    {
        Duration::from_total_saturating(self.whole_nanoseconds() - rhs.whole_nanoseconds())
    }

    /// The span taken `rhs` times, or the nearest span that can be held.
    pub fn saturating_mul(self, rhs: i32) -> (product: Duration)
        requires
            self.wf(),
        ensures
            product == spec_saturating_duration(self@ * rhs),
            product.wf(),
            spec_representable(self@ * rhs) ==> product@ == self@ * rhs,
    {
        let total: i128 = self.whole_nanoseconds();
        let factor: i128 = rhs as i128;
        proof {
            lemma_product_bounds(total as int, factor as int);
        }
        Duration::from_total_saturating(total * factor)
    }
}

/// The product of a representable length and a 32-bit factor fits in 128
/// bits.
proof fn lemma_product_bounds(total: int, factor: int)
    requires
        spec_representable(total),
        i32::MIN <= factor <= i32::MAX,
    ensures
        i128::MIN <= total * factor <= i128::MAX,
{
    let bound: int = 9_223_372_036_854_775_809_000_000_000;
    assert(-bound <= total <= bound);
    assert(-bound * 2_147_483_648 <= total * factor <= bound * 2_147_483_648)
        by (nonlinear_arith)
        requires
            -bound <= total <= bound,
            -2_147_483_648 <= factor <= 2_147_483_648,
            bound >= 0,
    ;
}

/// Dividing a length by a non-zero divisor brings it no further from zero.
proof fn lemma_quotient_bounds(total: int, divisor: int)
    requires
        spec_representable(total),
    ensures
        divisor > 0 ==> spec_representable(spec_div_trunc(total, divisor)),
        divisor < 0 ==> spec_min_nanoseconds() <= spec_div_trunc(total, -divisor)
            <= spec_max_nanoseconds() + 1,
{
    if divisor != 0 {
        let d: int = if divisor > 0 { divisor } else { -divisor };
        let a: int = if total >= 0 { total } else { -total };
        assert(0 <= a / d <= a) by (nonlinear_arith)
            requires
                a >= 0,
                d >= 1,
        ;
    }
}

/// Adding a span and taking it away again gives back what was there: where
/// the sum of two spans can be held, it is canonical, and subtracting the
/// second span from it yields the first.
pub proof fn lemma_add_then_sub(a: Duration, b: Duration)
    requires
        a.wf(),
        b.wf(),
        spec_representable(a@ + b@),
    ensures
        spec_checked_duration(a@ + b@) is Some,
        spec_checked_duration(a@ + b@)->0.wf(),
        spec_checked_duration(spec_checked_duration(a@ + b@)->0@ - b@) == Some(a),
{
    a.lemma_canonical();
    Duration::lemma_from_nanoseconds(a@ + b@);
}

} // verus!
