//! Timestamps of tasks: an instant with the UTC offset it was taken in, and
//! their text form, which chrono writes and reads.
use vstd::prelude::*;

verus! {

/// The largest distance from the epoch, in seconds, that a timestamp may lie at
/// (some 250,000 years, inside the range that chrono represents).
pub const MAX_STAMP_SECS: i64 = 8_000_000_000_000;

/// An instant (seconds and nanoseconds since the Unix epoch, UTC) together
/// with the offset from UTC, in seconds, that it is shown in.
#[derive(Clone, Copy, Debug, PartialEq, Eq, Structural)]
pub struct Stamp {
    pub secs: i64,
    pub nanos: u32,
    pub offset: i32,
}

/// The text that chrono writes for a timestamp (`2024-05-01 09:30:00.250 +02:00`).
pub uninterp spec fn stamp_text(s: Stamp) -> Seq<char>;

/// What chrono reads from a text as a timestamp with a fixed offset, if anything.
pub uninterp spec fn stamp_read(t: Seq<char>) -> Option<Stamp>;

impl Stamp {
    /// A timestamp that chrono can represent and write: within range, with an
    /// offset of less than a day, and less than a second past the whole second,
    /// or less than two in the last second of a minute (a leap second).
    pub open spec fn wf(&self) -> bool {
        &&& -MAX_STAMP_SECS <= self.secs <= MAX_STAMP_SECS
        &&& (self.nanos < 1_000_000_000 || (self.nanos < 2_000_000_000 && self.secs % 60 == 59))
        &&& -86_400 < self.offset < 86_400
    }

    /// The timestamp reads back as itself from the text that is written for it.
    pub open spec fn reads_back(&self) -> bool {
        stamp_read(stamp_text(*self)) == Some(*self)
    }

    pub fn is_valid(&self) -> (r: bool)
        ensures
            r == self.wf(),
    {
        if !(-MAX_STAMP_SECS <= self.secs && self.secs <= MAX_STAMP_SECS) {
            return false;
        }
        let leap_second = self.secs % 60 == 59 || self.secs % 60 == -1;
        (self.nanos < 1_000_000_000 || (self.nanos < 2_000_000_000 && leap_second))
            && -86_400 < self.offset && self.offset < 86_400
    }

    /// The text form of the timestamp.
    pub fn to_text(&self) -> (r: String)
        requires
            self.wf(),
        ensures
            r@ == stamp_text(*self),
    {
        render_stamp(self)
    }

    /// Reads a timestamp; `None` where chrono reads none, or one outside
    /// what `wf` allows.
    pub fn from_text(t: &str) -> (r: Option<Stamp>)
        ensures
            r == valid_stamp_read(t@),
    {
        match read_stamp(t) {
            Some(s) => {
                if s.is_valid() {
                    Some(s)
                } else {
                    None
                }
            },
            None => None,
        }
    }
}

/// The timestamp read from a text, where it is one that `wf` allows.
pub open spec fn valid_stamp_read(t: Seq<char>) -> Option<Stamp> {
    match stamp_read(t) {
        Some(s) => if s.wf() { Some(s) } else { None },
        None => None,
    }
}

/// Relies on chrono's `Display` for `DateTime<FixedOffset>`: the text depends on
/// the instant and the offset alone. `wf` keeps both constructors from failing.
#[verifier::external_body]
fn render_stamp(s: &Stamp) -> (r: String)
    requires
        s.wf(),
    ensures
        r@ == stamp_text(*s),
{
    let offset = chrono::FixedOffset::east_opt(s.offset).unwrap();
    let utc = chrono::DateTime::from_timestamp(s.secs, s.nanos).unwrap();
    utc.with_timezone(&offset).to_string()
}

/// Relies on chrono's `FromStr` for `DateTime<FixedOffset>` (a relaxed RFC 3339
/// reader): the result depends on the text alone.
#[verifier::external_body]
fn read_stamp(t: &str) -> (r: Option<Stamp>)
    ensures
        r == stamp_read(t@),
{
    match t.parse::<chrono::DateTime<chrono::FixedOffset>>() {
        Ok(d) => Some(
            Stamp {
                secs: d.timestamp(),
                nanos: d.timestamp_subsec_nanos(),
                offset: d.offset().local_minus_utc(),
            },
        ),
        Err(_) => None,
    }
}

} // verus!
