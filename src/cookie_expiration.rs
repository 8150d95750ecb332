//! When a cookie stops being valid.
use vstd::prelude::*;

verus! {

/// The earliest time a cookie can be set to expire at: -9999-01-01T00:00:00Z.
pub const MIN_UTC_SECONDS: i64 = -377705116800;

/// The latest time a cookie can be set to expire at: 9999-12-31T23:59:59Z.
pub const MAX_UTC_SECONDS: i64 = 253402300799;

/// A point in time in UTC, in whole seconds since the Unix epoch.
#[derive(PartialEq, Eq, Structural, Clone, Copy, Debug)]
pub struct SerializableTm {
    pub unix_seconds: i64,
}

impl SerializableTm {
    /// The time lies in the representable range, as every clock reading does.
    pub open spec fn in_range(self) -> bool {
        MIN_UTC_SECONDS <= self.unix_seconds <= MAX_UTC_SECONDS
    }
}

/// `t` clamped into the representable range.
pub open spec fn clamp_utc(t: int) -> int {
    if t < MIN_UTC_SECONDS {
        MIN_UTC_SECONDS as int
    } else if t > MAX_UTC_SECONDS {
        MAX_UTC_SECONDS as int
    } else {
        t
    }
}

/// The time `t` (in range) as a value.
pub open spec fn tm_at(t: int) -> SerializableTm {
    SerializableTm { unix_seconds: t as i64 }
}

/// When a cookie expires.
#[derive(PartialEq, Eq, Structural, Clone, Copy, Debug)]
pub enum CookieExpiration {
    /// At the given UTC time, as set by a Max-Age or Expires attribute.
    AtUtc(SerializableTm),
    /// At the end of the session: the cookie is not persistent.
    SessionEnd,
}

/// The expiration that a Max-Age of `max_age` seconds received at `now` gives: at once
/// for a delta of zero or less, else `now + max_age`, clamped into range.
pub open spec fn max_age_expiration(max_age: int, now: int) -> CookieExpiration {
    if max_age <= 0 {
        CookieExpiration::AtUtc(tm_at(MIN_UTC_SECONDS as int))
    } else {
        CookieExpiration::AtUtc(tm_at(clamp_utc(now + max_age)))
    }
}

/// An unsigned delta in seconds, capped at `i64::MAX`.
pub open spec fn capped_delta(max_age: u64) -> int {
    if max_age > i64::MAX as u64 {
        i64::MAX as int
    } else {
        max_age as int
    }
}

/// Relies on `time::OffsetDateTime::now_utc` and `unix_timestamp`: the current time, in
/// seconds since the Unix epoch; an `OffsetDateTime` lies between the years -9999 and 9999.
#[verifier::external_body]
pub(crate) fn utc_now() -> (r: SerializableTm)
    ensures
        r.in_range(),
{
    SerializableTm { unix_seconds: time::OffsetDateTime::now_utc().unix_timestamp() }
}

impl CookieExpiration {
    /// Expired as of time `t`.
    pub open spec fn expires_by_spec(self, t: int) -> bool {
        match self {
            CookieExpiration::AtUtc(e) => e.unix_seconds <= t,
            CookieExpiration::SessionEnd => false,
        }
    }

    /// The expiration is an absolute time, so the cookie outlives the session.
    pub open spec fn is_persistent_spec(self) -> bool {
        self is AtUtc
    }

    /// Indicates if the cookie expires as of `utc_tm`.
    pub fn expires_by(&self, utc_tm: &SerializableTm) -> (r: bool)
        ensures
            r == self.expires_by_spec(utc_tm.unix_seconds as int),
    {
        match self {
            CookieExpiration::AtUtc(e) => e.unix_seconds <= utc_tm.unix_seconds,
            CookieExpiration::SessionEnd => false,
        }
    }

    /// Indicates if the cookie is expired as of now.
    pub fn is_expired(&self) -> (r: bool)
        ensures
            exists|t: SerializableTm| t.in_range() && r == #[trigger] self.expires_by_spec(t.unix_seconds as int),
            self is SessionEnd ==> !r,
    {
        let now = utc_now();
        self.expires_by(&now)
    }

    /// Indicates if the expiration is an absolute time rather than the end of the session.
    pub fn is_persistent(&self) -> (r: bool)
        ensures
            r == self.is_persistent_spec(),
    {
        match self {
            CookieExpiration::AtUtc(_) => true,
            CookieExpiration::SessionEnd => false,
        }
    }

    /// The expiration that is already past: the earliest representable time.
    pub fn expired() -> (r: CookieExpiration)
        ensures
            r == CookieExpiration::AtUtc(tm_at(MIN_UTC_SECONDS as int)),
    {
        CookieExpiration::AtUtc(SerializableTm { unix_seconds: MIN_UTC_SECONDS })
    }

    /// Expiration at the absolute time `utc_tm`, clamped into range.
    pub fn from_utc(utc_tm: SerializableTm) -> (r: CookieExpiration)
        ensures
            r == CookieExpiration::AtUtc(tm_at(clamp_utc(utc_tm.unix_seconds as int))),
    {
        let t = if utc_tm.unix_seconds < MIN_UTC_SECONDS {
            MIN_UTC_SECONDS
        } else if utc_tm.unix_seconds > MAX_UTC_SECONDS {
            MAX_UTC_SECONDS
        } else {
            utc_tm.unix_seconds
        };
        CookieExpiration::AtUtc(SerializableTm { unix_seconds: t })
    }

    /// Expiration from a Max-Age (or any duration) of `max_age` seconds received at `now`.
    pub fn from_max_age_at(max_age: i64, now: SerializableTm) -> (r: CookieExpiration)
        ensures
            r == max_age_expiration(max_age as int, now.unix_seconds as int),
    {
        if max_age <= 0 {
            return CookieExpiration::expired();
        }
        let t = if now.unix_seconds > MAX_UTC_SECONDS - max_age {
            MAX_UTC_SECONDS
        } else {
            now.unix_seconds + max_age
        };
        CookieExpiration::from_utc(SerializableTm { unix_seconds: t })
    }

    /// Expiration from an unsigned Max-Age of `max_age` seconds received at `now`; a delta
    /// beyond `i64::MAX` seconds counts as `i64::MAX`.
    pub fn from_unsigned_max_age_at(max_age: u64, now: SerializableTm) -> (r: CookieExpiration)
        ensures
            r == max_age_expiration(capped_delta(max_age), now.unix_seconds as int),
    {
        let m: i64 = if max_age > i64::MAX as u64 { i64::MAX } else { max_age as i64 };
        CookieExpiration::from_max_age_at(m, now)
    }

    /// Expiration from an unsigned Max-Age of `max_age` seconds received now.
    pub fn from_unsigned_max_age(max_age: u64) -> (r: CookieExpiration)
        ensures
            exists|t: SerializableTm|
                t.in_range() && r == #[trigger] max_age_expiration(capped_delta(max_age), t.unix_seconds as int),
    {
        let now = utc_now();
        CookieExpiration::from_unsigned_max_age_at(max_age, now)
    }

    /// Expiration from a Max-Age (or any duration) of `max_age` seconds received now.
    pub fn from_max_age(max_age: i64) -> (r: CookieExpiration)
        ensures
            exists|t: SerializableTm|
                t.in_range() && r == #[trigger] max_age_expiration(max_age as int, t.unix_seconds as int),
    {
        let now = utc_now();
        CookieExpiration::from_max_age_at(max_age, now)
    }
}

/// A Max-Age of zero or less gives a cookie that is expired at once, whenever it is
/// received and at whatever later time it is looked at; a positive Max-Age gives a cookie
/// that is not expired at the moment it is received, provided that moment lies before the
/// latest representable time.
pub proof fn max_age_expiry_law(max_age: int, now: int, later: int)
    requires
        MIN_UTC_SECONDS <= now < MAX_UTC_SECONDS,
        max_age <= i64::MAX,
        now <= later,
    ensures
        max_age <= 0 ==> max_age_expiration(max_age, now).expires_by_spec(later),
        max_age > 0 ==> !max_age_expiration(max_age, now).expires_by_spec(now),
        max_age > 0 && now + max_age <= MAX_UTC_SECONDS ==> max_age_expiration(max_age, now)
            == CookieExpiration::AtUtc(tm_at(now + max_age)),
{
}

/// A session cookie never expires by the clock, whatever time it is compared with.
pub proof fn session_end_never_expires(t: int)
    ensures
        !CookieExpiration::SessionEnd.expires_by_spec(t),
{
}

} // verus!
