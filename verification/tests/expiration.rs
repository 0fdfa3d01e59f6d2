use salvo_core::http::HeaderMap;
use tus_handlers::expiration::{
    calculate_expiration, can_be_told, checked_expiration, expires_after, set_expiration_header,
    ExpirationPolicy, Period, Timestamp, TimestampOverflow, MAX_PERIOD_NANOS, MAX_PERIOD_SECS,
    MAX_TIMESTAMP, MIN_TIMESTAMP,
};

fn policy(secs: u64, nanos: u32) -> ExpirationPolicy {
    ExpirationPolicy { supported: true, period: Some(Period { secs, nanos }) }
}

fn at(secs: i64, nanos: u32) -> Timestamp {
    Timestamp { secs, nanos }
}

const DATE: &str = "2024-01-15T12:30:00.5+02:00";
const DATE_SECS: i64 = 1_705_314_600;

#[test]
fn uploads_expire() {
    assert_eq!(
        calculate_expiration(policy(3600, 0), DATE),
        Some(at(DATE_SECS + 3600, 500_000_000))
    );
    assert_eq!(
        calculate_expiration(policy(0, 600_000_000), DATE),
        Some(at(DATE_SECS + 1, 100_000_000))
    );
}

#[test]
fn uploads_without_lifetime_do_not_expire() {
    assert_eq!(
        calculate_expiration(ExpirationPolicy { supported: false, ..policy(3600, 0) }, DATE),
        None
    );
    assert_eq!(
        calculate_expiration(ExpirationPolicy { supported: true, period: None }, DATE),
        None
    );
    assert_eq!(calculate_expiration(policy(0, 0), DATE), None);
    assert_eq!(calculate_expiration(policy(3600, 0), ""), None);
    assert_eq!(calculate_expiration(policy(3600, 0), "yesterday"), None);
    assert_eq!(calculate_expiration(policy(3600, 0), "2024-01-15 12:30"), None);
    assert_eq!(calculate_expiration(policy(MAX_PERIOD_SECS + 1, 0), DATE), None);
    assert_eq!(calculate_expiration(policy(MAX_PERIOD_SECS, MAX_PERIOD_NANOS + 1), DATE), None);
}

#[test]
fn lifetimes_beyond_the_calendar() {
    assert_eq!(
        checked_expiration(policy(MAX_PERIOD_SECS, MAX_PERIOD_NANOS), DATE),
        Err(TimestampOverflow)
    );
    let last = (MAX_TIMESTAMP - DATE_SECS) as u64;
    assert_eq!(
        checked_expiration(policy(last, 0), DATE),
        Ok(Some(at(MAX_TIMESTAMP, 500_000_000)))
    );
    assert_eq!(checked_expiration(policy(last, 500_000_000), DATE), Err(TimestampOverflow));
    assert_eq!(checked_expiration(policy(last + 1, 0), DATE), Err(TimestampOverflow));
    assert_eq!(checked_expiration(policy(5, 0), "never"), Ok(None));
}

#[test]
fn calendar_bounds() {
    assert!(can_be_told(at(MAX_TIMESTAMP, 0), Period { secs: 0, nanos: 999_999_999 }));
    assert!(!can_be_told(at(MAX_TIMESTAMP, 1), Period { secs: 0, nanos: 999_999_999 }));
    assert_eq!(
        expires_after(at(MIN_TIMESTAMP, 0), Period { secs: 1, nanos: 1 }),
        at(MIN_TIMESTAMP + 1, 1)
    );
    assert_eq!(
        expires_after(
            at(MIN_TIMESTAMP, 0),
            Period { secs: (MAX_TIMESTAMP - MIN_TIMESTAMP) as u64, nanos: 0 }
        ),
        at(MAX_TIMESTAMP, 0)
    );
}

#[test]
fn leap_seconds() {
    let leap = "2016-12-31T23:59:60.5Z";
    let secs: i64 = 1_483_228_799;
    assert_eq!(
        calculate_expiration(policy(0, 400_000_000), leap),
        Some(at(secs, 1_900_000_000))
    );
    assert_eq!(
        calculate_expiration(policy(0, 500_000_000), leap),
        Some(at(secs + 1, 0))
    );
    assert_eq!(calculate_expiration(policy(1, 0), leap), Some(at(secs + 1, 500_000_000)));
}

#[test]
fn moments_are_ordered() {
    assert!(at(2, 0).after(at(1, 9)));
    assert!(at(1, 2).after(at(1, 1)));
    assert!(!at(1, 1).after(at(1, 1)));
    assert!(!at(1, 9).after(at(2, 0)));
}

#[test]
fn uploads_expire_after_creation_and_in_order() {
    let period = Period { secs: 0, nanos: 1 };
    for created in [at(0, 0), at(-1, 999_999_999), at(59, 1_999_999_999)] {
        assert!(expires_after(created, period).after(created));
    }
    assert!(expires_after(at(6, 0), period).after(expires_after(at(5, 999_999_999), period)));
}

#[test]
fn expiration_is_told() {
    let mut map = HeaderMap::new();
    set_expiration_header(&mut map, at(1_705_314_600, 5), Some(3), Some(5));
    assert_eq!(map["upload-expires"], "Mon, 15 Jan 2024 10:30:00 GMT");
    let mut unknown = HeaderMap::new();
    set_expiration_header(&mut unknown, at(0, 0), None, None);
    assert_eq!(unknown["upload-expires"], "Thu, 01 Jan 1970 00:00:00 GMT");
}

#[test]
fn expiration_of_finished_uploads_is_not_told() {
    let mut map = HeaderMap::new();
    set_expiration_header(&mut map, at(1_705_314_600, 0), Some(5), Some(5));
    assert!(map.is_empty());
}
