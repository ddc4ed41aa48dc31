use vstd::prelude::*;

verus! {

/// A point in time as the clock gave it: whole seconds since the Unix epoch
/// (UTC) and the nanoseconds into that second.
#[derive(Clone, Copy, Debug, PartialEq, Eq, Structural)]
pub struct Timestamp {
    pub secs: i64,
    pub nanos: u32,
}

impl Timestamp {
    /// The Unix epoch.
    pub open spec fn epoch() -> Timestamp {
        Timestamp { secs: 0, nanos: 0 }
    }

    /// The current wall-clock time in UTC. The system clock's distance from
    /// the Unix epoch goes through `chrono::TimeDelta::from_std` and
    /// `chrono::DateTime::checked_add_signed` on `chrono::DateTime::UNIX_EPOCH`,
    /// and the time is read back with `timestamp` and
    /// `timestamp_subsec_nanos`. Nothing is claimed of the value: it is
    /// whatever the system clock says. There is none where the clock stands
    /// before the epoch or beyond the times that chrono can hold; each of
    /// the calls reports that as an error and none of them panics.
    #[verifier::external_body]
    pub(crate) fn now() -> Option<Timestamp> {
        let since = std::time::SystemTime::now().duration_since(std::time::UNIX_EPOCH).ok()?;
        let delta = chrono::TimeDelta::from_std(since).ok()?;
        let now = chrono::DateTime::UNIX_EPOCH.checked_add_signed(delta)?;
        Some(Timestamp { secs: now.timestamp(), nanos: now.timestamp_subsec_nanos() })
    }

    /// The stamp for a reading of the clock: the reading itself, or the
    /// epoch where the clock gave no time.
    pub fn from_clock(reading: Option<Timestamp>) -> (stamp: Timestamp)
        ensures
            stamp == match reading {
                Some(time) => time,
                None => Timestamp::epoch(),
            },
    {
        match reading {
            Some(time) => time,
            None => Timestamp { secs: 0, nanos: 0 },
        }
    }
}

} // verus!
