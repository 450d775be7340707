//! Moments of local time and how they are written.
use vstd::prelude::*;

verus! {

/// The layout of times in reports.
pub open spec fn listing_layout() -> Seq<char> {
    "%Y-%m-%d %H:%M:%S %:z"@
}

/// The layout of times in file names.
pub open spec fn file_layout() -> Seq<char> {
    "%Y%m%d_%H%M%S"@
}

/// The calendar reaches this moment: from the year -262143 to the year 262142, at an
/// offset of less than a day.
pub open spec fn is_representable(seconds: i64, offset: i32) -> bool {
    &&& -8_334_601_228_800 <= seconds <= 8_210_266_876_799
    &&& -86_400 < offset < 86_400
}

/// The moment `seconds` after the Unix epoch, at `offset` seconds east of UTC,
/// written in the layout `layout`.
pub uninterp spec fn formatted_time(seconds: i64, offset: i32, layout: Seq<char>) -> Seq<char>;

/// `chrono::DateTime::from_timestamp`, moved to `chrono::FixedOffset::east_opt` and
/// printed by `format`: there is a text exactly for the moments that the calendar
/// reaches, and it is a function of the moment, the offset and the layout.
#[verifier::external_body]
fn format_timestamp(seconds: i64, offset: i32, layout: &str) -> (r: Option<String>)
    requires
        layout@ == listing_layout() || layout@ == file_layout(),
    ensures
        match r {
            Some(t) => is_representable(seconds, offset) && t@ == formatted_time(
                seconds,
                offset,
                layout@,
            ),
            None => !is_representable(seconds, offset),
        },
{
    let zone = chrono::FixedOffset::east_opt(offset)?;
    let moment = chrono::DateTime::from_timestamp(seconds, 0)?;
    Some(moment.with_timezone(&zone).format(layout).to_string())
}

/// A moment, with the offset of the clock that showed it.
#[derive(Debug, Clone, Copy)]
pub struct LocalTime {
    seconds: i64,
    offset: i32,
}

impl LocalTime {
    #[verifier::type_invariant]
    spec fn inv(self) -> bool {
        is_representable(self.seconds, self.offset)
    }

    /// The seconds since the Unix epoch.
    pub closed spec fn seconds(self) -> i64 {
        self.seconds
    }

    /// The seconds that the clock is ahead of UTC.
    pub closed spec fn offset(self) -> i32 {
        self.offset
    }

    /// The moment as reports write it.
    pub open spec fn listing_text(self) -> Seq<char> {
        formatted_time(self.seconds(), self.offset(), listing_layout())
    }

    /// The moment as file names write it.
    pub open spec fn file_text(self) -> Seq<char> {
        formatted_time(self.seconds(), self.offset(), file_layout())
    }

    /// The moment `seconds` after the Unix epoch on a clock that is `offset` seconds
    /// ahead of UTC, if the calendar reaches it.
    pub fn new(seconds: i64, offset: i32) -> (r: Option<LocalTime>)
        ensures
            r is Some <==> is_representable(seconds, offset),
            r matches Some(t) ==> t.seconds() == seconds && t.offset() == offset,
    {
        if -8_334_601_228_800 <= seconds && seconds <= 8_210_266_876_799 && -86_400 < offset
            && offset < 86_400 {
            Some(LocalTime { seconds, offset })
        } else {
            None
        }
    }

    /// The moment as reports write it.
    pub fn listing(&self) -> (r: String)
        ensures
            r@ == self.listing_text(),
    {
        proof {
            use_type_invariant(self);
        }
        match format_timestamp(self.seconds, self.offset, "%Y-%m-%d %H:%M:%S %:z") {
            Some(t) => t,
            None => String::new(),
        }
    }

    /// The moment as file names write it.
    pub fn for_file_name(&self) -> (r: String)
        ensures
            r@ == self.file_text(),
    {
        proof {
            use_type_invariant(self);
        }
        match format_timestamp(self.seconds, self.offset, "%Y%m%d_%H%M%S") {
            Some(t) => t,
            None => String::new(),
        }
    }
}

/// The moment as reports write it, if there is one.
pub open spec fn optional_listing(time: Option<LocalTime>) -> Option<Seq<char>> {
    match time {
        Some(t) => Some(t.listing_text()),
        None => None,
    }
}

/// The moment as reports write it, if there is one.
pub fn format_time(time: Option<LocalTime>) -> (r: Option<String>)
    ensures
        crate::digest::optional_text(r) == optional_listing(time),
{
    match time {
        Some(t) => Some(t.listing()),
        None => None,
    }
}

// ---------------------------------------------------------------------------
// Laws
// ---------------------------------------------------------------------------
/// A moment is written by its own seconds and offset: in reports as date, time and
/// offset, in file names as date and time.
pub proof fn law_moments_are_written(time: LocalTime)
    ensures
        time.listing_text() == formatted_time(
            time.seconds(),
            time.offset(),
            "%Y-%m-%d %H:%M:%S %:z"@,
        ),
        time.file_text() == formatted_time(time.seconds(), time.offset(), "%Y%m%d_%H%M%S"@),
        optional_listing(Some(time)) == Some(
            formatted_time(time.seconds(), time.offset(), "%Y-%m-%d %H:%M:%S %:z"@),
        ),
        optional_listing(None) is None,
{
}

/// Every second from the year -262143 to the year 262142 can be written, at every offset
/// of less than a day.
pub proof fn law_calendar(seconds: i64, offset: i32)
    requires
        -8_334_601_228_800 <= seconds <= 8_210_266_876_799,
        -86_400 < offset < 86_400,
    ensures
        is_representable(seconds, offset),
{
}

} // verus!
