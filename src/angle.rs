use vstd::prelude::*;
use crate::spherical::FULL_TURN;

verus! {

/// Hours, minutes and seconds of time, the seconds truncated.
#[derive(Clone, Copy, Debug, PartialEq, Eq, Structural)]
pub struct SexagesimalAngle {
    pub hours: i64,
    pub minutes: i64,
    pub seconds: i64,
}

/// Whole seconds of time in an angle of `angle` units (10^-9 degree): a
/// degree is 240 seconds of time, so this is `floor(angle * 24 / 10^8)`.
pub open spec fn time_seconds(angle: int) -> int {
    (angle * 24) / 100_000_000
}

/// Hours, minutes and seconds of `angle / 360 * 24` hours, each part rounded
/// down: so just under a full turn gives 23h 59m 59s, never 24h.
pub open spec fn sexagesimal_spec(angle: int) -> SexagesimalAngle {
    SexagesimalAngle {
        hours: (time_seconds(angle) / 3600) as i64,
        minutes: ((time_seconds(angle) % 3600) / 60) as i64,
        seconds: (time_seconds(angle) % 60) as i64,
    }
}

/// Converts a non-negative angle in units of 10^-9 degree to hours, minutes
/// and seconds of time. Angles of a full turn or more are not reduced.
pub fn deg_to_hms(angle: i64) -> (r: SexagesimalAngle)
    requires
        angle >= 0,
    ensures
        r == sexagesimal_spec(angle as int),
        r.hours as int == time_seconds(angle as int) / 3600,
        0 <= r.minutes <= 59,
        0 <= r.seconds <= 59,
        angle < FULL_TURN ==> 0 <= r.hours <= 23,
{
    let total = (angle as i128 * 24) / 100_000_000;
    let hours = total / 3600;
    let minutes = (total % 3600) / 60;
    let seconds = total % 60;
    SexagesimalAngle { hours: hours as i64, minutes: minutes as i64, seconds: seconds as i64 }
}

} // verus!
