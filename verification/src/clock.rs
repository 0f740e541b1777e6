use vstd::prelude::*;
use crate::utils::chrono_accepts;

verus! {

/// The machine's offset from UTC at one moment, as chrono's `Local` gives it.
/// Only `local_offset_seconds` makes one, so an offset of this type always
/// comes from the machine's time zone, for the moment it carries.
pub struct LocalOffset {
    secs: i64,
    nanos: u32,
    east: i32,
}

impl LocalOffset {
    /// The moment the offset was taken for.
    pub closed spec fn moment(self) -> (i64, u32) {
        (self.secs, self.nanos)
    }

    /// The offset, in seconds east of UTC.
    pub closed spec fn seconds(self) -> i32 {
        self.east
    }

    /// The offset, in seconds east of UTC.
    pub fn seconds_east(&self) -> (r: i32)
        ensures
            r == self.seconds(),
    {
        self.east
    }
}

/// Calls chrono: `Local`'s `offset_from_utc_datetime` on the moment from
/// `DateTime::from_timestamp`, then `local_minus_utc`, and keeps the result
/// with the moment. The offset depends on the machine's time zone, so the
/// contract claims only that it belongs to this moment and the bound that
/// every `FixedOffset` keeps.
#[verifier::external_body]
pub fn local_offset_seconds(secs: i64, nanos: u32) -> (offset: LocalOffset)
    requires
        chrono_accepts(secs, nanos),
    ensures
        offset.moment() == (secs, nanos),
        -86_400 < offset.seconds() < 86_400,
{
    let moment = chrono::DateTime::from_timestamp(secs, nanos).unwrap();
    let east = chrono::TimeZone::offset_from_utc_datetime(&chrono::Local, &moment.naive_utc()).local_minus_utc();
    LocalOffset { secs, nanos, east }
}

} // verus!
