//! Contest clock: the three-state lifecycle of a contest, derived from its
//! start and end instants and the current instant. Nothing is stored: the
//! status is computed afresh whenever it is asked for.

use vstd::prelude::*;

verus! {

/// An instant on the UTC time line: whole seconds since the Unix epoch and
/// nanoseconds into that second. During a leap second `nanos` runs from
/// 1_000_000_000 to 1_999_999_999, so instants are ordered by `seconds`
/// first and `nanos` second.
#[derive(Clone, Copy, Debug, PartialEq, Eq, Structural)]
pub struct Timestamp {
    pub seconds: i64,
    pub nanos: u32,
}

impl Timestamp {
    /// Whether this instant comes strictly before `other`.
    pub open spec fn spec_is_before(self, other: Timestamp) -> bool {
        self.seconds < other.seconds || (self.seconds == other.seconds && self.nanos < other.nanos)
    }

    /// The instant one second before this one.
    pub open spec fn one_second_earlier(self) -> Timestamp
        recommends
            self.seconds > i64::MIN,
    {
        Timestamp { seconds: (self.seconds - 1) as i64, nanos: self.nanos }
    }

    /// The instant `hours` hours after this one, if its seconds can be
    /// counted.
    pub open spec fn spec_hours_later(self, hours: u16) -> Option<Timestamp> {
        if self.seconds + hours * 3600 <= i64::MAX {
            Some(Timestamp { seconds: (self.seconds + hours * 3600) as i64, nanos: self.nanos })
        } else {
            None
        }
    }

    /// Computes the instant `hours` hours after this one, or `None` when
    /// its seconds are more than can be counted.
    #[verifier::when_used_as_spec(spec_hours_later)]
    pub fn hours_later(self, hours: u16) -> (later: Option<Timestamp>)
        ensures
            later == self.spec_hours_later(hours),
    {
        let span: i64 = (hours as i64) * 3600;
        match self.seconds.checked_add(span) {
            Some(seconds) => Some(Timestamp { seconds, nanos: self.nanos }),
            None => None,
        }
    }

    /// Tells whether this instant comes strictly before `other`.
    #[verifier::when_used_as_spec(spec_is_before)]
    pub fn is_before(self, other: Timestamp) -> (before: bool)
        ensures
            before == self.spec_is_before(other),
    {
        self.seconds < other.seconds || (self.seconds == other.seconds && self.nanos < other.nanos)
    }
}

/// Where a contest stands in its lifecycle.
#[derive(Clone, Copy, Debug, PartialEq, Eq, Structural)]
pub enum ContestStatus {
    /// The start has not been reached.
    NotStarted,
    /// The start has been reached and the end has not.
    Running,
    /// The end has been reached.
    Ended,
}

/// The status at `now` of a contest that runs from `start` to `end`: the
/// start belongs to the running time, the end does not.
pub open spec fn status_between(now: Timestamp, start: Timestamp, end: Timestamp) -> ContestStatus {
    if now.spec_is_before(start) {
        ContestStatus::NotStarted
    } else if now.spec_is_before(end) {
        ContestStatus::Running
    } else {
        ContestStatus::Ended
    }
}

impl ContestStatus {
    /// Whether the problem set and the views for tackling it are shown in
    /// this status. Before the start they are withheld altogether.
    pub open spec fn spec_exposes_problems(self) -> bool {
        self != ContestStatus::NotStarted
    }

    /// The status at `now` of a contest that runs from `start` to `end`.
    pub fn at(now: Timestamp, start: Timestamp, end: Timestamp) -> (status: ContestStatus)
        ensures
            status == status_between(now, start, end),
    {
        if now.is_before(start) {
            ContestStatus::NotStarted
        } else if now.is_before(end) {
            ContestStatus::Running
        } else {
            ContestStatus::Ended
        }
    }

    /// Tells whether the problem set and the views for tackling it are shown
    /// in this status.
    #[verifier::when_used_as_spec(spec_exposes_problems)]
    pub fn exposes_problems(self) -> (exposed: bool)
        ensures
            exposed == self.spec_exposes_problems(),
    {
        match self {
            ContestStatus::NotStarted => false,
            ContestStatus::Running => true,
            ContestStatus::Ended => true,
        }
    }
}

/// What an RFC 3339 date and time reads as: the seconds and nanoseconds of
/// its instant and its text written out again in full, or `None` for a text
/// that is no RFC 3339 date and time.
pub uninterp spec fn rfc3339_reading(text: Seq<char>) -> Option<(i64, u32, Seq<char>)>;

/// A date and time as read from text: its instant, and its text in the form
/// in which such times are kept.
pub struct Rfc3339Time {
    pub instant: Timestamp,
    pub text: String,
}

/// The instant of a reading.
pub open spec fn instant_of(reading: (i64, u32, Seq<char>)) -> Timestamp {
    Timestamp { seconds: reading.0, nanos: reading.1 }
}

impl Rfc3339Time {
    /// Whether this is what `reading` holds.
    pub open spec fn matches_reading(self, reading: (i64, u32, Seq<char>)) -> bool {
        self.instant.seconds == reading.0 && self.instant.nanos == reading.1 && self.text@ == reading.2
    }
}

/// Reads `text` with `chrono::DateTime::parse_from_rfc3339`. Trusted: the
/// outcome depends on `text` alone and is what `rfc3339_reading` names; on
/// success the instant is the parsed time's `timestamp` and
/// `timestamp_subsec_nanos`, the two numbers by which chrono orders times,
/// and the text is its `to_rfc3339`.
#[verifier::external_body]
pub(crate) fn read_rfc3339(text: &str) -> (read: Option<Rfc3339Time>)
    ensures
        read is Some <==> rfc3339_reading(text@) is Some,
        read is Some ==> read->Some_0.matches_reading(rfc3339_reading(text@)->Some_0),
{
    match chrono::DateTime::parse_from_rfc3339(text) {
        Ok(time) => Some(
            Rfc3339Time {
                instant: Timestamp { seconds: time.timestamp(), nanos: time.timestamp_subsec_nanos() },
                text: time.to_rfc3339(),
            },
        ),
        Err(_) => None,
    }
}

/// Asks `chrono::Local::now` for the present time, once, and returns it
/// together with the time `hours` hours later, which chrono adds. Trusted,
/// and nothing is claimed of the answer: two calls need not agree, and the
/// texts are whatever `to_rfc3339` writes. On a machine whose clock stands
/// before 1970, or within `hours` hours of the last year that chrono
/// holds, chrono panics, and so does this.
#[verifier::external_body]
pub(crate) fn server_window(hours: u16) -> (window: (Rfc3339Time, Rfc3339Time)) {
    let from = chrono::Local::now();
    let until = from + chrono::Duration::hours(hours.into());
    (
        Rfc3339Time {
            instant: Timestamp { seconds: from.timestamp(), nanos: from.timestamp_subsec_nanos() },
            text: from.to_rfc3339(),
        },
        Rfc3339Time {
            instant: Timestamp { seconds: until.timestamp(), nanos: until.timestamp_subsec_nanos() },
            text: until.to_rfc3339(),
        },
    )
}

/// A contest that starts before it ends is not started one second before
/// its start, running at its start, and ended at its end; and if it lasts a
/// second or more it is still running one second before its end.
pub proof fn lemma_status_at_the_boundaries(start: Timestamp, end: Timestamp)
    requires
        start.spec_is_before(end),
        start.seconds > i64::MIN,
    ensures
        status_between(start.one_second_earlier(), start, end) == ContestStatus::NotStarted,
        status_between(start, start, end) == ContestStatus::Running,
        !end.one_second_earlier().spec_is_before(start) ==> status_between(
            end.one_second_earlier(),
            start,
            end,
        ) == ContestStatus::Running,
        status_between(end, start, end) == ContestStatus::Ended,
{
}

} // verus!
