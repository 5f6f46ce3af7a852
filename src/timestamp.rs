use vstd::prelude::*;
use std::cmp::Ordering;

verus! {

/// The second since the Unix epoch that an RFC 3339 text denotes, if it is one.
pub uninterp spec fn epoch_of_iso(s: Seq<char>) -> Option<int>;

/// The ISO 8601 text (`YYYY-MM-DDTHH:MM:SSZ`, UTC) of an epoch second, if it is
/// within the representable range of dates.
pub uninterp spec fn iso_of_epoch(t: int) -> Option<Seq<char>>;

/// Relies on chrono's `DateTime::parse_from_rfc3339` and `DateTime::timestamp`:
/// the instant an RFC 3339 text denotes, as seconds since the epoch.
#[verifier::external_body]
fn parse_iso(s: &str) -> (r: Option<i64>)
    ensures
        match r {
            Some(t) => epoch_of_iso(s@) == Some(t as int),
            None => epoch_of_iso(s@) is None,
        },
{
    match chrono::DateTime::parse_from_rfc3339(s) {
        Ok(d) => Some(d.timestamp()),
        Err(_) => None,
    }
}

/// Relies on chrono's `DateTime::from_timestamp` and `format`: the UTC text of
/// an epoch second, `None` where chrono cannot represent the date.
#[verifier::external_body]
fn format_epoch(t: i64) -> (r: Option<String>)
    ensures
        match r {
            Some(s) => iso_of_epoch(t as int) == Some(s@),
            None => iso_of_epoch(t as int) is None,
        },
{
    match chrono::DateTime::from_timestamp(t, 0) {
        Some(d) => Some(d.format("%Y-%m-%dT%H:%M:%SZ").to_string()),
        None => None,
    }
}

/// A timestamp, held either as ISO 8601 text or as seconds since the epoch.
#[derive(Debug, Clone)]
pub enum TimestampFormat {
    ISOString(String),
    EpochNunber(i64),
}

/// The ISO text of a timestamp, where there is one.
pub open spec fn iso_view(ts: TimestampFormat) -> Option<Seq<char>> {
    match ts {
        TimestampFormat::ISOString(s) => Some(s@),
        TimestampFormat::EpochNunber(t) => iso_of_epoch(t as int),
    }
}

/// The epoch second of a timestamp, where there is one.
pub open spec fn epoch_view(ts: TimestampFormat) -> Option<int> {
    match ts {
        TimestampFormat::ISOString(s) => epoch_of_iso(s@),
        TimestampFormat::EpochNunber(t) => Some(t as int),
    }
}

/// Two timestamps are the same instant: compared by epoch second; texts that
/// denote no instant are equal only to the same text.
pub open spec fn same_instant(a: TimestampFormat, b: TimestampFormat) -> bool {
    match (epoch_view(a), epoch_view(b)) {
        (Some(x), Some(y)) => x == y,
        (None, None) => iso_view(a) == iso_view(b),
        _ => false,
    }
}

/// How two timestamps are ordered: by epoch second.
pub open spec fn instant_cmp(a: TimestampFormat, b: TimestampFormat) -> Option<Ordering> {
    match (epoch_view(a), epoch_view(b)) {
        (Some(x), Some(y)) => Some(
            if x < y {
                Ordering::Less
            } else if x == y {
                Ordering::Equal
            } else {
                Ordering::Greater
            },
        ),
        (None, None) => if iso_view(a) == iso_view(b) {
            Some(Ordering::Equal)
        } else {
            None
        },
        _ => None,
    }
}

impl TimestampFormat {
    /// The ISO text of this timestamp.
    pub fn to_iso_string(&self) -> (r: String)
        requires
            iso_view(*self) is Some,
        ensures
            Some(r@) == iso_view(*self),
    {
        match self {
            TimestampFormat::ISOString(s) => s.clone(),
            TimestampFormat::EpochNunber(t) => {
                let f = format_epoch(*t);
                match f {
                    Some(s) => s,
                    None => String::new(),
                }
            },
        }
    }

    /// The ISO text of this timestamp, or `None` where its date cannot be written.
    pub fn try_iso_string(&self) -> (r: Option<String>)
        ensures
            match r {
                Some(s) => iso_view(*self) == Some(s@),
                None => iso_view(*self) is None,
            },
    {
        match self {
            TimestampFormat::ISOString(s) => Some(self.to_iso_string()),
            TimestampFormat::EpochNunber(t) => format_epoch(*t),
        }
    }

    /// The seconds since the epoch of this timestamp.
    pub fn to_epoch_number(&self) -> (r: i64)
        requires
            epoch_view(*self) is Some,
        ensures
            Some(r as int) == epoch_view(*self),
    {
        match self {
            TimestampFormat::ISOString(s) => {
                let p = parse_iso(s.as_str());
                match p {
                    Some(t) => t,
                    None => 0,
                }
            },
            TimestampFormat::EpochNunber(t) => *t,
        }
    }

    /// The seconds since the epoch, or `None` where the text denotes no instant.
    pub fn try_epoch_number(&self) -> (r: Option<i64>)
        ensures
            match r {
                Some(t) => epoch_view(*self) == Some(t as int),
                None => epoch_view(*self) is None,
            },
    {
        match self {
            TimestampFormat::ISOString(s) => parse_iso(s.as_str()),
            TimestampFormat::EpochNunber(t) => Some(self.to_epoch_number()),
        }
    }

    /// A copy of this timestamp.
    pub fn duplicate(&self) -> (r: TimestampFormat)
        ensures
            r == *self,
    {
        match self {
            TimestampFormat::ISOString(s) => TimestampFormat::ISOString(s.clone()),
            TimestampFormat::EpochNunber(t) => TimestampFormat::EpochNunber(*t),
        }
    }

    /// A timestamp of the given epoch second.
    pub fn from(v: i64) -> (r: TimestampFormat)
        ensures
            r == TimestampFormat::EpochNunber(v),
    {
        TimestampFormat::EpochNunber(v)
    }

    /// Reads an RFC 3339 text into its epoch second.
    pub fn from_str(s: &str) -> (r: Result<TimestampFormat, String>)
        ensures
            match r {
                Ok(ts) => epoch_of_iso(s@) is Some && ts == TimestampFormat::EpochNunber(
                    ts->EpochNunber_0,
                ) && epoch_of_iso(s@) == Some(ts->EpochNunber_0 as int),
                Err(e) => epoch_of_iso(s@) is None && e@ == "invalid date"@,
            },
    {
        match parse_iso(s) {
            Some(t) => Ok(TimestampFormat::EpochNunber(t)),
            None => Err("invalid date".to_owned()),
        }
    }
}

impl PartialEq for TimestampFormat {
    fn eq(&self, other: &TimestampFormat) -> (r: bool) {
        let ea = self.try_epoch_number();
        let eb = other.try_epoch_number();
        match (ea, eb) {
            (Some(x), Some(y)) => x == y,
            (None, None) => {
                match self {
                    TimestampFormat::ISOString(a) => match other {
                        TimestampFormat::ISOString(b) => {
                            let same = (*a) == (*b);
                            proof {
                                assert(same == (iso_view(*self) == iso_view(*other)));
                            }
                            same
                        },
                        _ => false,
                    },
                    _ => false,
                }
            },
            _ => false,
        }
    }
}

impl vstd::std_specs::cmp::PartialEqSpecImpl for TimestampFormat {
    open spec fn obeys_eq_spec() -> bool {
        true
    }

    open spec fn eq_spec(&self, other: &TimestampFormat) -> bool {
        same_instant(*self, *other)
    }
}

impl PartialOrd for TimestampFormat {
    fn partial_cmp(&self, other: &TimestampFormat) -> (r: Option<Ordering>) {
        match (self.try_epoch_number(), other.try_epoch_number()) {
            (Some(x), Some(y)) => if x < y {
                Some(Ordering::Less)
            } else if x == y {
                Some(Ordering::Equal)
            } else {
                Some(Ordering::Greater)
            },
            (None, None) => if self.eq(other) {
                Some(Ordering::Equal)
            } else {
                None
            },
            _ => None,
        }
    }
}

impl vstd::std_specs::cmp::PartialOrdSpecImpl for TimestampFormat {
    open spec fn obeys_partial_cmp_spec() -> bool {
        true
    }

    open spec fn partial_cmp_spec(&self, other: &TimestampFormat) -> Option<Ordering> {
        instant_cmp(*self, *other)
    }
}

} // verus!
