//! When an upload expires.

use chrono::{DateTime, Duration, OutOfRangeError, ParseError};
use salvo_core::http::HeaderMap;
use vstd::prelude::*;
use vstd::utf8::*;

use crate::headers;
use crate::headers::H_UPLOAD_EXPIRES;

verus! {

#[verifier::external_type_specification]
#[verifier::external_body]
pub struct ExParseError(ParseError);

#[verifier::external_type_specification]
#[verifier::external_body]
pub struct ExOutOfRangeError(OutOfRangeError);

/// The first second that can be told.
pub const MIN_TIMESTAMP: i64 = -8_334_601_228_800;

/// The last second that can be told.
pub const MAX_TIMESTAMP: i64 = 8_210_266_876_799;

/// The longest period that can be told, in whole seconds; another
/// [`MAX_PERIOD_NANOS`] nanoseconds belong to it.
pub const MAX_PERIOD_SECS: u64 = 9_223_372_036_854_775;

pub const MAX_PERIOD_NANOS: u32 = 807_000_000;

pub const NANOS_PER_SEC: u32 = 1_000_000_000;

/// How the expiration of an upload is written in a header field.
pub const EXPIRES_FORMAT: &'static str = "%a, %d %b %Y %H:%M:%S GMT";

/// A moment: seconds since 1970 in UTC, and nanoseconds since the last of them.
/// In a leap second the nanoseconds go on to count beyond a billion.
#[derive(Clone, Copy, Debug, PartialEq, Eq, Structural)]
pub struct Timestamp {
    pub secs: i64,
    pub nanos: u32,
}

impl Timestamp {
    /// Whether this is a moment that can be told.
    pub open spec fn wf(self) -> bool {
        &&& MIN_TIMESTAMP <= self.secs <= MAX_TIMESTAMP
        &&& self.nanos < 2 * NANOS_PER_SEC
        &&& self.nanos >= NANOS_PER_SEC ==> self.secs % 60 == 59
    }

    pub open spec fn spec_after(self, other: Timestamp) -> bool {
        self.secs > other.secs || (self.secs == other.secs && self.nanos > other.nanos)
    }

    /// Whether this moment comes after another.
    pub fn after(self, other: Timestamp) -> (later: bool)
        ensures
            later == self.spec_after(other),
    {
        self.secs > other.secs || (self.secs == other.secs && self.nanos > other.nanos)
    }
}

/// A length of time.
#[derive(Clone, Copy, Debug, PartialEq, Eq, Structural)]
pub struct Period {
    pub secs: u64,
    pub nanos: u32,
}

impl Period {
    pub open spec fn wf(self) -> bool {
        self.nanos < NANOS_PER_SEC
    }

    pub open spec fn spec_is_zero(self) -> bool {
        self.secs == 0 && self.nanos == 0
    }

    /// Whether a moment can be moved by this length of time.
    pub open spec fn is_delta(self) -> bool {
        self.secs < MAX_PERIOD_SECS || (self.secs == MAX_PERIOD_SECS && self.nanos
            <= MAX_PERIOD_NANOS)
    }
}

/// What a store says of the expiration of its uploads.
#[derive(Clone, Copy, Debug, PartialEq, Eq, Structural)]
pub struct ExpirationPolicy {
    /// Whether the store has the expiration extension.
    pub supported: bool,
    /// How long an upload lives.
    pub period: Option<Period>,
}

impl ExpirationPolicy {
    pub open spec fn wf(self) -> bool {
        self.period matches Some(period) ==> period.wf()
    }
}

/// The moment that a text in the format of RFC 3339 stands for, as seconds and
/// nanoseconds.
pub uninterp spec fn rfc3339_timestamp(text: Seq<char>) -> Option<(i64, u32)>;

/// A moment in UTC written after a pattern.
pub uninterp spec fn formatted(secs: i64, nanos: u32, pattern: Seq<char>) -> Seq<char>;

/// `DateTime::parse_from_rfc3339`: a function of the text; the moment can be
/// told, because the year has four digits.
#[verifier::external_body]
fn parse_from_rfc3339(text: &str) -> (at: Result<Timestamp, ParseError>)
    ensures
        at is Ok <==> rfc3339_timestamp(text@) is Some,
        at matches Ok(t) ==> t.wf() && rfc3339_timestamp(text@) == Some((t.secs, t.nanos)),
{
    match DateTime::parse_from_rfc3339(text) {
        Ok(at) => Ok(Timestamp { secs: at.timestamp(), nanos: at.timestamp_subsec_nanos() }),
        Err(e) => Err(e),
    }
}

/// `chrono::Duration::from_std`: the same length of time, where it is at most
/// the largest number of milliseconds in 63 bits.
#[verifier::external_body]
fn delta_from_std(period: Period) -> (delta: Result<Period, OutOfRangeError>)
    requires
        period.wf(),
    ensures
        delta is Ok <==> period.is_delta(),
        delta matches Ok(d) ==> d == period,
{
    match Duration::from_std(std::time::Duration::new(period.secs, period.nanos)) {
        Ok(delta) => Ok(
            Period { secs: delta.num_seconds() as u64, nanos: delta.subsec_nanos() as u32 },
        ),
        Err(e) => Err(e),
    }
}

/// The moment some time after another one, as seconds and nanoseconds. Within a
/// leap second time goes on counting; who leaves it leaves from the second
/// before it.
pub open spec fn advanced(at: Timestamp, period: Period) -> (int, int) {
    let billion = NANOS_PER_SEC as int;
    let leap = at.nanos >= billion;
    if leap && period.secs == 0 && at.nanos + period.nanos < 2 * billion {
        (at.secs as int, at.nanos + period.nanos)
    } else {
        let nanos = if leap {
            at.nanos - billion + period.nanos
        } else {
            at.nanos + period.nanos
        };
        if nanos >= billion {
            (at.secs + period.secs + 1, nanos - billion)
        } else {
            (at.secs + period.secs, nanos)
        }
    }
}

/// `DateTime + TimeDelta`: the moment some time after another one, which must
/// be one that can be told.
#[verifier::external_body]
fn add_delta(at: Timestamp, period: Period) -> (sum: Timestamp)
    requires
        at.wf(),
        period.wf(),
        period.is_delta(),
        advanced(at, period).0 <= MAX_TIMESTAMP,
    ensures
        sum.wf(),
        (sum.secs as int, sum.nanos as int) == advanced(at, period),
{
    let at = DateTime::from_timestamp(at.secs, at.nanos).unwrap();
    let sum = at + Duration::new(period.secs as i64, period.nanos).unwrap();
    Timestamp { secs: sum.timestamp(), nanos: sum.timestamp_subsec_nanos() }
}

/// `DateTime::format`: a function of the moment and the pattern, here for the
/// pattern of the expiration field, which makes it visible ASCII.
#[verifier::external_body]
fn format_utc(at: Timestamp, pattern: &str) -> (text: String)
    requires
        at.wf(),
        pattern@ == EXPIRES_FORMAT@,
    ensures
        text@ == formatted(at.secs, at.nanos, pattern@),
        headers::is_visible_text(text@),
{
    DateTime::from_timestamp(at.secs, at.nanos).unwrap().format(pattern).to_string()
}

/// The moment some time after another one lies beyond what can be told.
#[derive(Clone, Copy, Debug, PartialEq, Eq, Structural)]
pub struct TimestampOverflow;

/// When an upload was created and how long it lives, where it expires at all.
pub open spec fn lifetime(policy: ExpirationPolicy, creation_date: Seq<char>) -> Option<
    (Timestamp, Period),
> {
    match (policy.period, rfc3339_timestamp(creation_date)) {
        (Some(period), Some((secs, nanos))) => if policy.supported && !period.spec_is_zero()
            && creation_date.len() > 0 && period.is_delta() {
            Some((Timestamp { secs, nanos }, period))
        } else {
            None
        },
        _ => None,
    }
}

/// Whether the moment some time after another one can be told.
pub open spec fn in_range(created: Timestamp, period: Period) -> bool {
    advanced(created, period).0 <= MAX_TIMESTAMP
}

/// When an upload that was created at this moment and lives that long expires.
pub open spec fn end_of_life(created: Timestamp, period: Period) -> Timestamp {
    let (secs, nanos) = advanced(created, period);
    Timestamp { secs: secs as i64, nanos: nanos as u32 }
}

/// When an upload expires, where it does.
pub open spec fn expiration(policy: ExpirationPolicy, creation_date: Seq<char>) -> Result<
    Option<Timestamp>,
    TimestampOverflow,
> {
    match lifetime(policy, creation_date) {
        Some((created, period)) => if in_range(created, period) {
            Ok(Some(end_of_life(created, period)))
        } else {
            Err(TimestampOverflow)
        },
        None => Ok(None),
    }
}

/// Whether it can be told when an upload that was created at this moment and
/// lives that long expires.
pub fn can_be_told(created: Timestamp, period: Period) -> (fits: bool)
    requires
        created.wf(),
        period.wf(),
        period.is_delta(),
    ensures
        fits == in_range(created, period),
{
    let billion: u64 = NANOS_PER_SEC as u64;
    let leap = created.nanos >= NANOS_PER_SEC;
    let nanos: u64 = created.nanos as u64 + period.nanos as u64;
    let carry: i64 = if (leap && nanos >= 2 * billion) || (!leap && nanos >= billion) {
        1
    } else {
        0
    };
    let stays = leap && period.secs == 0 && nanos < 2 * billion;
    stays || created.secs + period.secs as i64 + carry <= MAX_TIMESTAMP
}

/// Tells when an upload that was created at this moment and lives that long
/// expires.
pub fn expires_after(created: Timestamp, period: Period) -> (at: Timestamp)
    requires
        created.wf(),
        period.wf(),
        period.is_delta(),
        in_range(created, period),
    ensures
        at == end_of_life(created, period),
        at.wf(),
{
    add_delta(created, period)
}

/// Reads when an upload was created and how long it lives, where it expires.
fn read_lifetime(policy: ExpirationPolicy, creation_date: &str) -> (life: Option<
    (Timestamp, Period),
>)
    requires
        policy.wf(),
    ensures
        life == lifetime(policy, creation_date@),
        life matches Some((created, period)) ==> created.wf() && period.wf() && period.is_delta(),
{
    if !policy.supported {
        return None;
    }
    let period = match policy.period {
        Some(period) => period,
        None => {
            return None;
        },
    };
    if (period.secs == 0 && period.nanos == 0) || creation_date.is_empty() {
        return None;
    }
    let created = match parse_from_rfc3339(creation_date) {
        Ok(created) => created,
        Err(_) => {
            return None;
        },
    };
    match delta_from_std(period) {
        Ok(delta) => Some((created, delta)),
        Err(_) => None,
    }
}

/// Calculates when an upload expires, where it does.
pub fn calculate_expiration(policy: ExpirationPolicy, creation_date: &str) -> (at: Option<
    Timestamp,
>)
    requires
        policy.wf(),
        expiration(policy, creation_date@) is Ok,
    ensures
        expiration(policy, creation_date@) == Ok::<_, TimestampOverflow>(at),
        at matches Some(t) ==> t.wf(),
{
    match read_lifetime(policy, creation_date) {
        Some((created, period)) => Some(expires_after(created, period)),
        None => None,
    }
}

/// Calculates when an upload expires, where it does and where that can be told.
pub fn checked_expiration(policy: ExpirationPolicy, creation_date: &str) -> (at: Result<
    Option<Timestamp>,
    TimestampOverflow,
>)
    requires
        policy.wf(),
    ensures
        at == expiration(policy, creation_date@),
        at matches Ok(Some(t)) ==> t.wf(),
{
    if let Some((created, period)) = read_lifetime(policy, creation_date) {
        if !can_be_told(created, period) {
            return Err(TimestampOverflow);
        }
    }
    Ok(calculate_expiration(policy, creation_date))
}

/// An upload that expires does so after it was created.
pub proof fn lemma_expires_after_creation(created: Timestamp, period: Period)
    requires
        created.wf(),
        period.wf(),
        !period.spec_is_zero(),
        period.is_delta(),
        in_range(created, period),
    ensures
        end_of_life(created, period).spec_after(created),
{
}

/// Of two uploads of a store, the one that was created later expires later,
/// unless it was created in the leap second that follows the second in which the
/// other one was.
pub proof fn lemma_expiration_keeps_order(first: Timestamp, second: Timestamp, period: Period)
    requires
        first.wf(),
        second.wf(),
        period.wf(),
        period.is_delta(),
        in_range(first, period),
        in_range(second, period),
        second.spec_after(first),
        !(second.secs == first.secs && first.nanos < NANOS_PER_SEC && NANOS_PER_SEC
            <= second.nanos),
    ensures
        end_of_life(second, period).spec_after(end_of_life(first, period)),
{
}

/// Whether all of an upload is there.
pub open spec fn is_finished(offset: Option<u64>, size: Option<u64>) -> bool {
    offset is Some && size is Some && offset == size
}

/// The header fields of a reply about an upload that expires at this moment.
pub open spec fn with_expiration(
    f: headers::Fields,
    at: Timestamp,
    offset: Option<u64>,
    size: Option<u64>,
) -> headers::Fields {
    if is_finished(offset, size) {
        f
    } else {
        headers::put(f, H_UPLOAD_EXPIRES@, formatted(at.secs, at.nanos, EXPIRES_FORMAT@))
    }
}

/// Whether header fields tell that an upload expires at this moment.
pub open spec fn tells_expiration(f: headers::Fields, at: Timestamp) -> bool {
    &&& f.contains_key(H_UPLOAD_EXPIRES@)
    &&& f[H_UPLOAD_EXPIRES@] == seq![encode_utf8(formatted(at.secs, at.nanos, EXPIRES_FORMAT@))]
}

/// Tells in a reply when the upload expires, unless all of it is there.
pub fn set_expiration_header(
    map: &mut HeaderMap,
    expires_at: Timestamp,
    offset: Option<u64>,
    size: Option<u64>,
)
    requires
        expires_at.wf(),
        headers::has_room(headers::fields(*old(map)), 1),
    ensures
        headers::fields(*final(map)) == with_expiration(
            headers::fields(*old(map)),
            expires_at,
            offset,
            size,
        ),
        !is_finished(offset, size) ==> headers::readable_text(
            headers::fields(*final(map)),
            H_UPLOAD_EXPIRES@,
        ) == Some(formatted(expires_at.secs, expires_at.nanos, EXPIRES_FORMAT@)),
        forall|n: nat|
            headers::has_room(headers::fields(*old(map)), n + 1) ==> #[trigger] headers::has_room(
                headers::fields(*final(map)),
                n,
            ),
{
    let finished = match (offset, size) {
        (Some(offset), Some(size)) => offset == size,
        _ => false,
    };
    if !finished {
        let text = format_utc(expires_at, EXPIRES_FORMAT);
        proof {
            headers::lemma_field_names();
            headers::lemma_visible_is_value_text(text@);
            headers::lemma_put_read_back(headers::fields(*map), H_UPLOAD_EXPIRES@, text@);
        }
        headers::write_text(map, H_UPLOAD_EXPIRES, text.as_str());
    }
}

/// The nanoseconds between the first of 1970 and a moment.
pub open spec fn total_nanos(at: Timestamp) -> int {
    at.secs * 1_000_000_000 + at.nanos
}

/// Which uploads expire: those of a store that has the expiration extension and
/// gives them a lifetime, if the lifetime is not zero and no longer than can be
/// told in milliseconds of 63 bits, and if it is known when they were created.
pub proof fn lemma_which_uploads_expire(policy: ExpirationPolicy, creation_date: Seq<char>)
    requires
        policy.wf(),
    ensures
        ({
            let created = rfc3339_timestamp(creation_date);
            let dated = creation_date.len() > 0 && created is Some;
            let nanos = match policy.period {
                Some(period) => period.secs * 1_000_000_000 + period.nanos,
                None => 0,
            };
            let mortal = 0 < nanos <= 9_223_372_036_854_775_807 * 1_000_000;
            &&& lifetime(policy, creation_date) is Some <==> policy.supported && dated && mortal
            &&& expiration(policy, creation_date) == Ok::<Option<Timestamp>, TimestampOverflow>(
                None,
            ) <==> !(policy.supported && dated && mortal)
            &&& lifetime(policy, creation_date) matches Some((at, period)) ==> {
                &&& created == Some((at.secs, at.nanos))
                &&& policy.period == Some(period)
            }
        }),
{
}

/// When an upload expires: as long after its creation as it lives, to the
/// nanosecond. An upload that was created in a leap second and outlives it counts
/// from the second before. The moment is unknown if and only if it lies beyond
/// what can be told.
pub proof fn lemma_moment_of_expiration(policy: ExpirationPolicy, creation_date: Seq<char>)
    requires
        policy.wf(),
        lifetime(policy, creation_date) is Some,
        (lifetime(policy, creation_date)->0).0.wf(),
    ensures
        ({
            let (created, period) = lifetime(policy, creation_date)->0;
            let lived = period.secs * 1_000_000_000 + period.nanos;
            let leap = created.nanos >= 1_000_000_000;
            let stays = leap && created.nanos + lived < 2_000_000_000;
            let end = if leap && !stays {
                total_nanos(created) - 1_000_000_000 + lived
            } else {
                total_nanos(created) + lived
            };
            let last = 8_210_266_876_799 * 1_000_000_000 + 999_999_999;
            &&& expiration(policy, creation_date) is Err <==> !stays && end > last
            &&& expiration(policy, creation_date) matches Ok(at) ==> {
                &&& at is Some
                &&& total_nanos(at->0) == end
                &&& (at->0).nanos >= 1_000_000_000 <==> stays
                &&& stays ==> (at->0).secs == created.secs
            }
        }),
{
}

/// Which of two moments comes first is decided by the seconds, and within a
/// second by the nanoseconds.
pub proof fn lemma_order_of_moments(a: Timestamp, b: Timestamp)
    ensures
        a.secs > b.secs ==> a.spec_after(b),
        a.secs < b.secs ==> !a.spec_after(b),
        a.secs == b.secs ==> (a.spec_after(b) <==> a.nanos > b.nanos),
{
}

/// A reply tells when an upload expires unless the upload ends where it is to
/// end; then, and of any other field, it says what it said before.
pub proof fn lemma_expiration_told(
    f: headers::Fields,
    at: Timestamp,
    offset: Option<u64>,
    size: Option<u64>,
    name: Seq<char>,
)
    ensures
        ({
            let told = with_expiration(f, at, offset, size);
            let complete = match (offset, size) {
                (Some(offset), Some(size)) => offset == size,
                _ => false,
            };
            &&& is_finished(offset, size) == complete
            &&& complete ==> told == f
            &&& !complete ==> tells_expiration(told, at)
            &&& name != H_UPLOAD_EXPIRES@ ==> told.contains_key(name) == f.contains_key(name)
            &&& name != H_UPLOAD_EXPIRES@ && f.contains_key(name) ==> told[name] == f[name]
        }),
{
}

/// Any lifetime is accepted whose nanoseconds are less than a second, and any
/// moment from the first to the last second that can be told.
pub proof fn lemma_accepted_times(policy: ExpirationPolicy, at: Timestamp)
    ensures
        policy.period is None ==> policy.wf(),
        policy.period matches Some(period) ==> (policy.wf() <==> period.nanos < 1_000_000_000),
        -8_334_601_228_800 <= at.secs <= 8_210_266_876_799 && at.nanos < 1_000_000_000 ==> at.wf(),
{
}

} // verus!
