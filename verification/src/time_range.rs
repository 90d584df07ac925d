use vstd::prelude::*;
use vstd::string::*;

use crate::text::{chars_equal, chars_of, has_prefix_at, owned};

verus! {

// ---------------------------------------------------------------------------
// Instants
// ---------------------------------------------------------------------------

/// An instant in UTC: whole seconds since the Unix epoch, and nanoseconds past them
/// (at least 10^9 only during a leap second, as `chrono` represents it).
#[derive(Clone, Copy, Debug, PartialEq, Eq, Structural)]
pub struct Timestamp {
    pub secs: i64,
    pub nanos: u32,
}

/// The Unix timestamp that `chrono` gives its earliest instant, January 1 of the
/// year -262143 at 00:00:00 UTC.
pub const MIN_UTC_SECS: i64 = -8334601228800;

/// The Unix timestamp of the last second that `chrono` represents, December 31 of
/// the year 262142 at 23:59:59 UTC.
pub const MAX_UTC_SECS: i64 = 8210266876799;

/// Nanoseconds per second.
pub const NANOS_PER_SEC: u32 = 1_000_000_000;

impl Timestamp {
    /// The timestamp denotes an instant that `chrono` can represent.
    pub open spec fn is_instant(self) -> bool {
        &&& MIN_UTC_SECS <= self.secs <= MAX_UTC_SECS
        &&& self.nanos < 2 * NANOS_PER_SEC
        &&& self.nanos >= NANOS_PER_SEC ==> self.secs % 60 == 59
    }

    /// `self` is strictly later than `other`.
    pub open spec fn later_than(self, other: Timestamp) -> bool {
        self.secs > other.secs || (self.secs == other.secs && self.nanos > other.nanos)
    }

    /// Whether `self` is strictly later than `other`.
    pub fn is_later_than(&self, other: &Timestamp) -> (r: bool)
        ensures
            r == self.later_than(*other),
    {
        self.secs > other.secs || (self.secs == other.secs && self.nanos > other.nanos)
    }
}

/// What `chrono` parses from a string as a `DateTime<Utc>` (a relaxed RFC 3339), as
/// seconds and nanoseconds since the epoch.
pub uninterp spec fn chrono_parse_utc(s: Seq<char>) -> Option<(i64, u32)>;

/// What `DateTime::<Utc>::checked_add_signed` gives for the instant `(secs, nanos)`
/// and a whole number of seconds.
pub uninterp spec fn chrono_add_seconds(secs: i64, nanos: u32, delta: i64) -> Option<(i64, u32)>;

/// The largest number of seconds that a `chrono::TimeDelta` holds: `i64::MAX`
/// milliseconds, in whole seconds.
pub const MAX_DELTA_SECS: i64 = 9223372036854775;

pub open spec fn timestamp_of(p: Option<(i64, u32)>) -> Option<Timestamp> {
    match p {
        Some((secs, nanos)) => Some(Timestamp { secs, nanos }),
        None => None,
    }
}

/// `str::parse::<DateTime<Utc>>`. Claimed: the result is the named parse of the
/// string, and any parsed value is an instant `chrono` represents.
#[verifier::external_body]
fn parse_utc(s: &str) -> (r: Option<Timestamp>)
    ensures
        r == timestamp_of(chrono_parse_utc(s@)),
        r matches Some(t) ==> t.is_instant(),
{
    match s.parse::<chrono::DateTime<chrono::Utc>>() {
        Ok(t) => Some(Timestamp { secs: t.timestamp(), nanos: t.timestamp_subsec_nanos() }),
        Err(_) => None,
    }
}

/// `chrono::TimeDelta::try_seconds`, read back as whole seconds. Claimed, as its
/// source shows: it succeeds exactly for magnitudes up to `MAX_DELTA_SECS`.
#[verifier::external_body]
fn try_delta_seconds(seconds: i64) -> (r: Option<i64>)
    ensures
        r == (if -MAX_DELTA_SECS <= seconds <= MAX_DELTA_SECS { Some(seconds) } else { None::<i64> }),
{
    chrono::TimeDelta::try_seconds(seconds).map(|d| d.num_seconds())
}

/// `DateTime::<Utc>::checked_add_signed` with a whole number of seconds. Claimed: the
/// result is the named sum, an instant `chrono` represents; outside a leap second it
/// is the plain sum, defined exactly when it stays in `chrono`'s range.
#[verifier::external_body]
pub(crate) fn checked_add_seconds(t: Timestamp, delta: i64) -> (r: Option<Timestamp>)
    requires
        t.is_instant(),
        -MAX_DELTA_SECS <= delta <= MAX_DELTA_SECS,
    ensures
        r == timestamp_of(chrono_add_seconds(t.secs, t.nanos, delta)),
        r matches Some(u) ==> u.is_instant(),
        t.nanos < NANOS_PER_SEC ==> r == (if MIN_UTC_SECS <= t.secs + delta <= MAX_UTC_SECS {
            Some(Timestamp { secs: (t.secs + delta) as i64, nanos: t.nanos })
        } else {
            None::<Timestamp>
        }),
{
    let start = chrono::DateTime::from_timestamp(t.secs, t.nanos).unwrap();
    start.checked_add_signed(chrono::TimeDelta::seconds(delta)).map(
        |u| Timestamp { secs: u.timestamp(), nanos: u.timestamp_subsec_nanos() },
    )
}

/// What `DateTime::<Utc>::to_rfc3339_opts(SecondsFormat::Secs, true)` writes for an
/// instant, such as `2026-08-18T12:00:00Z`.
pub uninterp spec fn chrono_rfc3339_secs(secs: i64, nanos: u32) -> Seq<char>;

/// `DateTime::<Utc>::to_rfc3339_opts(SecondsFormat::Secs, true)`. Claimed: the result
/// is the named rendering of the instant.
#[verifier::external_body]
pub(crate) fn format_rfc3339_secs(t: Timestamp) -> (r: String)
    requires
        t.is_instant(),
    ensures
        r@ == chrono_rfc3339_secs(t.secs, t.nanos),
{
    chrono::DateTime::from_timestamp(t.secs, t.nanos)
        .unwrap()
        .to_rfc3339_opts(chrono::SecondsFormat::Secs, true)
}

// ---------------------------------------------------------------------------
// Whole numbers, as `str::parse::<i64>` reads them
// ---------------------------------------------------------------------------

pub open spec fn is_digit(c: char) -> bool {
    '0' <= c <= '9'
}

pub open spec fn all_digits(s: Seq<char>) -> bool {
    forall|i: int| 0 <= i < s.len() ==> is_digit(#[trigger] s[i])
}

/// The number that the decimal digits `s` spell.
pub open spec fn digits_value(s: Seq<char>) -> int
    decreases s.len(),
{
    if s.len() == 0 {
        0
    } else {
        digits_value(s.drop_last()) * 10 + (s.last() as int - '0' as int)
    }
}

/// What `str::parse::<i64>` accepts: an optional `+` or `-`, then one or more decimal
/// digits, for a value that fits in an `i64`.
pub open spec fn parse_i64(s: Seq<char>) -> Option<i64> {
    let negative = s.len() > 0 && s[0] == '-';
    let digits = if s.len() > 0 && (s[0] == '-' || s[0] == '+') {
        s.drop_first()
    } else {
        s
    };
    let value = if negative {
        -digits_value(digits)
    } else {
        digits_value(digits)
    };
    if digits.len() == 0 || !all_digits(digits) || value < i64::MIN || value > i64::MAX {
        None
    } else {
        Some(value as i64)
    }
}

proof fn lemma_digits_value_nonneg(s: Seq<char>)
    requires
        all_digits(s),
    ensures
        digits_value(s) >= 0,
    decreases s.len(),
{
    if s.len() > 0 {
        assert(all_digits(s.drop_last())) by {
            assert forall|i: int| 0 <= i < s.drop_last().len() implies is_digit(#[trigger] s.drop_last()[i]) by {
                assert(s.drop_last()[i] == s[i]);
            }
        }
        lemma_digits_value_nonneg(s.drop_last());
        assert(is_digit(s[s.len() - 1]));
    }
}

proof fn lemma_digits_value_grows(s: Seq<char>, k: int)
    requires
        all_digits(s),
        0 <= k <= s.len(),
    ensures
        digits_value(s.take(k)) <= digits_value(s),
    decreases s.len() - k,
{
    if k < s.len() {
        let t = s.take(k + 1);
        assert(t.drop_last() =~= s.take(k));
        assert(all_digits(s.take(k))) by {
            assert forall|i: int| 0 <= i < s.take(k).len() implies is_digit(#[trigger] s.take(k)[i]) by {
                assert(s.take(k)[i] == s[i]);
            }
        }
        lemma_digits_value_nonneg(s.take(k));
        assert(is_digit(s[k]));
        assert(t.last() == s[k]);
        lemma_digits_value_grows(s, k + 1);
    } else {
        assert(s.take(k) =~= s);
    }
}

/// The decimal value of the digits `cs[from..]`, if they are all digits and the
/// value is at most `2^63`.
fn digits_magnitude(cs: &Vec<char>, from: usize) -> (r: Option<u64>)
    requires
        from <= cs@.len(),
    ensures
        match r {
            Some(m) => all_digits(cs@.skip(from as int)) && m == digits_value(cs@.skip(from as int))
                && m <= 0x8000_0000_0000_0000,
            None => !all_digits(cs@.skip(from as int)) || digits_value(cs@.skip(from as int))
                > 0x8000_0000_0000_0000,
        },
{
    let ghost ds = cs@.skip(from as int);
    let mut m: u64 = 0;
    let mut i: usize = from;
    while i < cs.len()
        invariant
            from <= i <= cs@.len(),
            cs@.len() == cs.len(),
            ds == cs@.skip(from as int),
            all_digits(ds.take(i - from)),
            m == digits_value(ds.take(i - from)),
            m <= 0x8000_0000_0000_0000,
        decreases cs@.len() - i,
    {
        let c = cs[i];
        assert(ds[i - from] == c);
        if c < '0' || c > '9' {
            assert(!is_digit(ds[i - from]));
            return None;
        }
        let d = (c as u32 - '0' as u32) as u64;
        let ghost t = ds.take(i - from + 1);
        assert(t.drop_last() =~= ds.take(i - from));
        assert(t.last() == c);
        assert(all_digits(t)) by {
            assert forall|j: int| 0 <= j < t.len() implies is_digit(#[trigger] t[j]) by {
                if j < t.len() - 1 {
                    assert(t[j] == ds.take(i - from)[j]);
                }
            }
        }
        if m > (0x8000_0000_0000_0000u64 - d) / 10 {
            // The value already exceeds 2^63, and more digits only make it larger.
            assert(digits_value(t) > 0x8000_0000_0000_0000) by (nonlinear_arith)
                requires
                    digits_value(t) == m * 10 + d,
                    m > (0x8000_0000_0000_0000 - d) / 10,
                    d <= 9,
            ;
            proof {
                let k = i - from + 1;
                if all_digits(ds) {
                    assert(ds.take(k) == t);
                    lemma_digits_value_grows(ds, k);
                }
            }
            return None;
        }
        m = m * 10 + d;
        i = i + 1;
    }
    assert(ds.take(i - from) =~= ds);
    Some(m)
}

/// `str::parse::<i64>` on the characters `cs[from..to]`.
fn parse_i64_chars(cs: &Vec<char>, from: usize, to: usize) -> (r: Option<i64>)
    requires
        from <= to <= cs@.len(),
    ensures
        r == parse_i64(cs@.subrange(from as int, to as int)),
{
    let ghost s = cs@.subrange(from as int, to as int);
    let sub: Vec<char> = slice_chars(cs, from, to);
    let mut start: usize = 0;
    let mut negative = false;
    if sub.len() > 0 && (sub[0] == '-' || sub[0] == '+') {
        negative = sub[0] == '-';
        start = 1;
    }
    assert(sub@.skip(start as int) =~= (if s.len() > 0 && (s[0] == '-' || s[0] == '+') {
        s.drop_first()
    } else {
        s
    }));
    if start == sub.len() {
        return None;
    }
    match digits_magnitude(&sub, start) {
        None => None,
        Some(m) => {
            if negative {
                if m == 0x8000_0000_0000_0000u64 {
                    Some(i64::MIN)
                } else {
                    Some(-(m as i64))
                }
            } else if m > i64::MAX as u64 {
                None
            } else {
                Some(m as i64)
            }
        },
    }
}

/// A copy of `cs[from..to]`.
fn slice_chars(cs: &Vec<char>, from: usize, to: usize) -> (r: Vec<char>)
    requires
        from <= to <= cs@.len(),
    ensures
        r@ == cs@.subrange(from as int, to as int),
{
    let mut r: Vec<char> = Vec::new();
    let mut i = from;
    while i < to
        invariant
            from <= i <= to <= cs@.len(),
            r@ == cs@.subrange(from as int, i as int),
        decreases to - i,
    {
        r.push(cs[i]);
        assert(r@ =~= cs@.subrange(from as int, i + 1));
        i = i + 1;
    }
    r
}

} // verus!

verus! {

// ---------------------------------------------------------------------------
// Times relative to now
// ---------------------------------------------------------------------------

/// Why a time could not be read.
#[derive(Clone, Copy, Debug, PartialEq, Eq, Structural)]
pub enum TimeError {
    NotPositiveWholeNumber,
    UnknownUnit,
    TooLarge,
    OutOfRange,
    InvalidFormat,
}

pub open spec fn time_error_message(e: TimeError) -> Seq<char> {
    match e {
        TimeError::NotPositiveWholeNumber => "relative time must contain a positive whole number"@,
        TimeError::UnknownUnit => "relative time unit must be one of s, m, h, d, or w"@,
        TimeError::TooLarge => "relative time is too large"@,
        TimeError::OutOfRange => "relative time is out of range"@,
        TimeError::InvalidFormat => "expected now, now-<duration>, now+<duration>, or an RFC 3339 timestamp"@,
    }
}

impl TimeError {
    /// The text of the error.
    pub fn message(&self) -> (r: String)
        ensures
            r@ == time_error_message(*self),
    {
        match self {
            TimeError::NotPositiveWholeNumber => owned("relative time must contain a positive whole number"),
            TimeError::UnknownUnit => owned("relative time unit must be one of s, m, h, d, or w"),
            TimeError::TooLarge => owned("relative time is too large"),
            TimeError::OutOfRange => owned("relative time is out of range"),
            TimeError::InvalidFormat => owned(
                "expected now, now-<duration>, now+<duration>, or an RFC 3339 timestamp",
            ),
        }
    }
}

/// `-1` for `now-...`, `1` for `now+...`.
pub open spec fn relative_sign(value: Seq<char>) -> Option<int> {
    if value.len() >= 4 && value.take(4) == "now-"@ {
        Some(-1)
    } else if value.len() >= 4 && value.take(4) == "now+"@ {
        Some(1)
    } else {
        None
    }
}

/// Seconds in one of the units `s`, `m`, `h`, `d` and `w`.
pub open spec fn unit_seconds(unit: Seq<char>) -> Option<int> {
    if unit.len() != 1 {
        None
    } else if unit[0] == 's' {
        Some(1)
    } else if unit[0] == 'm' {
        Some(60)
    } else if unit[0] == 'h' {
        Some(3600)
    } else if unit[0] == 'd' {
        Some(86400)
    } else if unit[0] == 'w' {
        Some(604800)
    } else {
        None
    }
}

/// The length, in seconds, of a duration such as `15m`: a positive whole number
/// followed by a one-letter unit.
pub open spec fn duration_seconds(offset: Seq<char>) -> Result<int, TimeError> {
    let amount = if offset.len() == 0 { offset } else { offset.drop_last() };
    let unit = if offset.len() == 0 { offset } else { offset.subrange(offset.len() - 1, offset.len() as int) };
    match parse_i64(amount) {
        None => Err(TimeError::NotPositiveWholeNumber),
        Some(a) => if a <= 0 {
            Err(TimeError::NotPositiveWholeNumber)
        } else {
            match unit_seconds(unit) {
                None => Err(TimeError::UnknownUnit),
                Some(u) => if a * u > MAX_DELTA_SECS {
                    Err(TimeError::TooLarge)
                } else {
                    Ok(a * u)
                },
            }
        },
    }
}

/// The instant `delta` seconds after `now`, if `chrono` represents it: the plain sum
/// outside a leap second; `chrono`'s own sum during one.
pub open spec fn shifted(now: Timestamp, delta: i64) -> Option<Timestamp> {
    if now.nanos < NANOS_PER_SEC {
        if MIN_UTC_SECS <= now.secs + delta <= MAX_UTC_SECS {
            Some(Timestamp { secs: (now.secs + delta) as i64, nanos: now.nanos })
        } else {
            None
        }
    } else {
        timestamp_of(chrono_add_seconds(now.secs, now.nanos, delta))
    }
}

/// The instant that `value` names at the instant `now`: `now`, `now-<duration>`,
/// `now+<duration>`, or a timestamp that `chrono` parses.
pub open spec fn time_at(value: Seq<char>, now: Timestamp) -> Result<Timestamp, TimeError> {
    if value == "now"@ {
        Ok(now)
    } else {
        match relative_sign(value) {
            Some(sign) => match duration_seconds(value.skip(4)) {
                Err(e) => Err(e),
                Ok(d) => match shifted(now, (sign * d) as i64) {
                    Some(t) => Ok(t),
                    None => Err(TimeError::OutOfRange),
                },
            },
            None => match timestamp_of(chrono_parse_utc(value)) {
                Some(t) => Ok(t),
                None => Err(TimeError::InvalidFormat),
            },
        }
    }
}

/// Seconds per unit letter.
fn unit_length(c: char) -> (r: Option<i64>)
    ensures
        r == (match unit_seconds(seq![c]) {
            Some(u) => Some(u as i64),
            None => None::<i64>,
        }),
{
    match c {
        's' => Some(1),
        'm' => Some(60),
        'h' => Some(3600),
        'd' => Some(86400),
        'w' => Some(604800),
        _ => None,
    }
}

/// Reads a time given on the command line at the instant `now`.
pub fn parse_time(value: &str, now: Timestamp) -> (r: Result<Timestamp, TimeError>)
    requires
        now.is_instant(),
    ensures
        r == time_at(value@, now),
        r matches Ok(t) ==> t.is_instant(),
        now.nanos < NANOS_PER_SEC && relative_sign(value@) == Some(-1int) ==> (r matches Ok(t) ==> now.later_than(t)),
        now.nanos < NANOS_PER_SEC && relative_sign(value@) == Some(1int) ==> (r matches Ok(t) ==> t.later_than(now)),
{
    let cs = chars_of(value);
    if chars_equal(&cs, "now") {
        proof {
            reveal_strlit("now");
            reveal_strlit("now-");
            reveal_strlit("now+");
            assert(value@.len() == 3);
        }
        return Ok(now);
    }
    let minus = has_prefix_at(&cs, 0, "now-");
    let plus = has_prefix_at(&cs, 0, "now+");
    proof {
        reveal_strlit("now-");
        reveal_strlit("now+");
    }
    if !minus && !plus {
        return match parse_utc(value) {
            Some(t) => Ok(t),
            None => Err(TimeError::InvalidFormat),
        };
    }
    let ghost sign: int = if minus { -1 } else { 1 };
    assert(relative_sign(value@) == Some(sign)) by {
        if !minus {
            assert(value@.take(4) == "now+"@);
            assert(value@.take(4)[3] == '+');
            assert("now-"@[3] == '-');
        }
    }
    let n = cs.len();
    let ghost offset = value@.skip(4);
    let (amount, unit): (Option<i64>, Option<char>) = if n == 4 {
        assert(offset.len() == 0);
        assert(cs@.subrange(4, 4) =~= offset);
        (parse_i64_chars(&cs, 4, 4), None)
    } else {
        assert(cs@.subrange(4, n - 1) =~= offset.drop_last());
        assert(offset.subrange(offset.len() - 1, offset.len() as int) =~= seq![cs@[n - 1]]);
        (parse_i64_chars(&cs, 4, n - 1), Some(cs[n - 1]))
    };
    let a = match amount {
        None => return Err(TimeError::NotPositiveWholeNumber),
        Some(a) => a,
    };
    if a <= 0 {
        return Err(TimeError::NotPositiveWholeNumber);
    }
    let u = match unit {
        None => {
            assert(false);
            return Err(TimeError::UnknownUnit);
        },
        Some(c) => match unit_length(c) {
            None => return Err(TimeError::UnknownUnit),
            Some(u) => u,
        },
    };
    let seconds = match a.checked_mul(u) {
        None => return Err(TimeError::TooLarge),
        Some(s) => s,
    };
    let delta = match try_delta_seconds(seconds) {
        None => return Err(TimeError::TooLarge),
        Some(d) => d,
    };
    let signed = if minus { -delta } else { delta };
    assert(n > 4);
    assert(parse_i64(offset.drop_last()) == Some(a));
    assert(unit_seconds(offset.subrange(offset.len() - 1, offset.len() as int)) == Some(u as int));
    assert(seconds == a * u);
    assert(duration_seconds(offset) == Ok::<int, TimeError>(a * u));
    assert(signed == sign * (a * u));
    assert(a * u > 0) by (nonlinear_arith)
        requires
            a > 0,
            u > 0,
    ;
    assert(minus ==> signed < 0);
    assert(!minus ==> signed > 0);
    assert(minus <==> relative_sign(value@) == Some(-1int));
    match checked_add_seconds(now, signed) {
        Some(t) => Ok(t),
        None => Err(TimeError::OutOfRange),
    }
}

} // verus!

verus! {

// ---------------------------------------------------------------------------
// Time ranges
// ---------------------------------------------------------------------------

/// The window of a query, as given on the command line.
#[derive(Clone, Debug, PartialEq, Eq)]
pub struct TimeRange {
    from: String,
    to: String,
}

/// Why a time range could not be resolved.
#[derive(Debug, PartialEq, Eq)]
pub enum RangeError {
    InvalidFrom { value: String, error: TimeError },
    InvalidTo { value: String, error: TimeError },
    FromAfterTo,
}

/// `RangeError` with its value as a character sequence.
pub enum RangeErrorView {
    InvalidFrom { value: Seq<char>, error: TimeError },
    InvalidTo { value: Seq<char>, error: TimeError },
    FromAfterTo,
}

impl View for RangeError {
    type V = RangeErrorView;

    open spec fn view(&self) -> RangeErrorView {
        match self {
            RangeError::InvalidFrom { value, error } => RangeErrorView::InvalidFrom { value: value@, error: *error },
            RangeError::InvalidTo { value, error } => RangeErrorView::InvalidTo { value: value@, error: *error },
            RangeError::FromAfterTo => RangeErrorView::FromAfterTo,
        }
    }
}

pub open spec fn range_result_view(r: Result<(Timestamp, Timestamp), RangeError>) -> Result<
    (Timestamp, Timestamp),
    RangeErrorView,
> {
    match r {
        Ok(p) => Ok(p),
        Err(e) => Err(e@),
    }
}

/// The two instants of a window at the instant `now`: the start is read first, and
/// may not be later than the end.
pub open spec fn range_at(range: TimeRange, now: Timestamp) -> Result<(Timestamp, Timestamp), RangeErrorView> {
    match time_at(range.spec_from(), now) {
        Err(e) => Err(RangeErrorView::InvalidFrom { value: range.spec_from(), error: e }),
        Ok(f) => match time_at(range.spec_to(), now) {
            Err(e) => Err(RangeErrorView::InvalidTo { value: range.spec_to(), error: e }),
            Ok(t) => if f.later_than(t) {
                Err(RangeErrorView::FromAfterTo)
            } else {
                Ok((f, t))
            },
        },
    }
}

/// The text of a range error, without the underlying time error.
pub open spec fn range_error_message(e: RangeErrorView) -> Seq<char> {
    match e {
        RangeErrorView::InvalidFrom { value, .. } => "invalid --from value "@ + crate::text::debug_quoted(value),
        RangeErrorView::InvalidTo { value, .. } => "invalid --to value "@ + crate::text::debug_quoted(value),
        RangeErrorView::FromAfterTo => "--from must not be later than --to"@,
    }
}

impl TimeRange {
    pub closed spec fn spec_from(&self) -> Seq<char> {
        self.from@
    }

    pub closed spec fn spec_to(&self) -> Seq<char> {
        self.to@
    }

    pub fn new(from: &str, to: &str) -> (r: Self)
        ensures
            r.spec_from() == from@,
            r.spec_to() == to@,
    {
        TimeRange { from: owned(from), to: owned(to) }
    }

    /// The start of the window, as given.
    pub fn from(&self) -> (r: &str)
        ensures
            r@ == self.spec_from(),
    {
        self.from.as_str()
    }

    /// The end of the window, as given.
    pub fn to(&self) -> (r: &str)
        ensures
            r@ == self.spec_to(),
    {
        self.to.as_str()
    }

    /// The window's two instants at the instant `now`; the start may not be later
    /// than the end.
    pub fn resolve(&self, now: Timestamp) -> (r: Result<(Timestamp, Timestamp), RangeError>)
        requires
            now.is_instant(),
        ensures
            range_result_view(r) == range_at(*self, now),
            r matches Ok((f, t)) ==> !f.later_than(t) && f.is_instant() && t.is_instant(),
    {
        let from = match parse_time(self.from.as_str(), now) {
            Ok(t) => t,
            Err(e) => return Err(RangeError::InvalidFrom { value: self.from.clone(), error: e }),
        };
        let to = match parse_time(self.to.as_str(), now) {
            Ok(t) => t,
            Err(e) => return Err(RangeError::InvalidTo { value: self.to.clone(), error: e }),
        };
        if from.is_later_than(&to) {
            return Err(RangeError::FromAfterTo);
        }
        Ok((from, to))
    }
}

impl Default for TimeRange {
    /// The last hour.
    fn default() -> (r: Self)
        ensures
            r.spec_from() == "now-1h"@,
            r.spec_to() == "now"@,
    {
        TimeRange::new("now-1h", "now")
    }
}

impl RangeError {
    /// The text of the error, without the underlying time error.
    pub fn message(&self) -> (r: String)
        ensures
            r@ == range_error_message(self@),
    {
        match self {
            RangeError::InvalidFrom { value, .. } => {
                let mut r = owned("invalid --from value ");
                let q = crate::text::debug_quote(value.as_str());
                r.append(q.as_str());
                r
            },
            RangeError::InvalidTo { value, .. } => {
                let mut r = owned("invalid --to value ");
                let q = crate::text::debug_quote(value.as_str());
                r.append(q.as_str());
                r
            },
            RangeError::FromAfterTo => owned("--from must not be later than --to"),
        }
    }
}

} // verus!
