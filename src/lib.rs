// Apparent geocentric equatorial position of a planet, in fixed point:
// calendar date to Julian Day, heliocentric to geocentric, ecliptic to
// equatorial, rectangular to spherical, and degrees to hours of time.
use vstd::prelude::*;

mod arith;
pub mod calendar;
pub mod frame;
pub mod spherical;
pub mod angle;
pub mod position;

verus! {

} // verus!
