//! Points in time, as the daemon reads them from tmux and the clock and writes them out.
use vstd::prelude::*;

verus! {

/// Name for whether `chrono::DateTime::<Utc>::from_timestamp(secs, nanos)` (equivalently
/// `Utc.timestamp_opt(secs, nanos).single()`) gives a date-time: the day must fall in
/// chrono's date range, and the nanoseconds below one second, or below two when the second
/// is the last of its minute (a leap second).
pub uninterp spec fn chrono_utc_accepts(secs: int, nanos: int) -> bool;

/// Name for `DateTime::<Utc>::to_rfc3339_opts(SecondsFormat::Secs, true)` of the date-time
/// `secs` seconds and `nanos` nanoseconds after the Unix epoch.
pub uninterp spec fn rfc3339_secs_text(secs: int, nanos: int) -> Seq<char>;

/// A UTC point in time: whole seconds since the Unix epoch and the nanoseconds beyond them,
/// always one that chrono represents.
#[derive(Debug, Clone, Copy)]
pub struct UtcTimestamp {
    secs: i64,
    nanos: u32,
}

/// Order of points in time: by seconds, then by nanoseconds.
pub open spec fn time_lt(a: (int, int), b: (int, int)) -> bool {
    a.0 < b.0 || (a.0 == b.0 && a.1 < b.1)
}

impl View for UtcTimestamp {
    type V = (int, int);

    closed spec fn view(&self) -> (int, int) {
        (self.secs as int, self.nanos as int)
    }
}

impl UtcTimestamp {
    #[verifier::type_invariant]
    spec fn inv(self) -> bool {
        chrono_utc_accepts(self.secs as int, self.nanos as int)
    }

    /// Seconds since the Unix epoch.
    pub fn secs(&self) -> (r: i64)
        ensures
            r as int == self@.0,
    {
        self.secs
    }

    /// Nanoseconds beyond the whole seconds.
    pub fn nanos(&self) -> (r: u32)
        ensures
            r as int == self@.1,
    {
        self.nanos
    }

    /// Every timestamp is one that chrono represents.
    pub fn is_representable(&self) -> (r: bool)
        ensures
            r,
            chrono_utc_accepts(self@.0, self@.1),
    {
        proof {
            use_type_invariant(self);
        }
        true
    }

    /// Whether `self` is a later point in time than `other`.
    pub fn is_later_than(&self, other: &UtcTimestamp) -> (r: bool)
        ensures
            r == time_lt(other@, self@),
    {
        self.secs > other.secs || (self.secs == other.secs && self.nanos > other.nanos)
    }
}

/// `DateTime::<Utc>::from_timestamp(secs, nanos)`: the point in time, if chrono represents it.
/// (`Utc.timestamp_opt(secs, nanos).single()` is this same call in chrono.)
#[verifier::external_body]
fn utc_from_parts(secs: i64, nanos: u32) -> (r: Option<UtcTimestamp>)
    ensures
        r is Some <==> chrono_utc_accepts(secs as int, nanos as int),
        r matches Some(t) ==> t@ == (secs as int, nanos as int),
{
    chrono::DateTime::from_timestamp(secs, nanos).map(|_| UtcTimestamp { secs, nanos })
}

/// `Utc::now()`: the current time, which depends on the clock. Nothing is stated of which
/// time comes back; that chrono represents it (the type's invariant) holds because the
/// clock gives no leap-second nanoseconds.
#[verifier::external_body]
fn utc_now() -> (r: UtcTimestamp) {
    let now = chrono::Utc::now();
    UtcTimestamp { secs: now.timestamp(), nanos: now.timestamp_subsec_nanos() }
}

impl UtcTimestamp {
    /// The point in time `secs` seconds and `nanos` nanoseconds after the Unix epoch, if
    /// chrono represents it.
    pub fn from_parts(secs: i64, nanos: u32) -> (r: Option<UtcTimestamp>)
        ensures
            r is Some <==> chrono_utc_accepts(secs as int, nanos as int),
            r matches Some(t) ==> t@ == (secs as int, nanos as int),
    {
        utc_from_parts(secs, nanos)
    }

    /// The current time.
    pub fn now() -> (r: UtcTimestamp)
        ensures
            chrono_utc_accepts(r@.0, r@.1),
    {
        let t = utc_now();
        proof {
            use_type_invariant(&t);
        }
        t
    }
}

/// `DateTime::to_rfc3339_opts(SecondsFormat::Secs, true)` of a point in time.
#[verifier::external_body]
fn rfc3339_secs(secs: i64, nanos: u32) -> (r: String)
    requires
        chrono_utc_accepts(secs as int, nanos as int),
    ensures
        r@ == rfc3339_secs_text(secs as int, nanos as int),
{
    chrono::DateTime::from_timestamp(secs, nanos).unwrap().to_rfc3339_opts(
        chrono::SecondsFormat::Secs,
        true,
    )
}

/// A point in time in RFC 3339 form, whole seconds, `Z` for UTC.
pub fn to_rfc3339_utc(time: UtcTimestamp) -> (r: String)
    ensures
        r@ == rfc3339_secs_text(time@.0, time@.1),
{
    proof {
        use_type_invariant(&time);
    }
    rfc3339_secs(time.secs, time.nanos)
}

/// The current time in RFC 3339 form.
pub fn now_rfc3339() -> (r: String)
    ensures
        exists|t: (int, int)| chrono_utc_accepts(t.0, t.1) && r@ == rfc3339_secs_text(t.0, t.1),
{
    let now = utc_now();
    proof {
        use_type_invariant(&now);
    }
    let r = to_rfc3339_utc(now);
    assert(chrono_utc_accepts(now@.0, now@.1));
    r
}

} // verus!
