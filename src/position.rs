use vstd::prelude::*;
use crate::angle::deg_to_hms;
use crate::angle::sexagesimal_spec;
use crate::angle::SexagesimalAngle;
use crate::frame::ecliptic_to_equatorial;
use crate::frame::rotate_spec;
use crate::frame::to_geocentric;
use crate::frame::HeliocentricEcliptic;
use crate::frame::Rotation;
use crate::frame::COORD_LIMIT;
use crate::spherical::declination_spec;
use crate::spherical::right_ascension_spec;
use crate::spherical::to_spherical;
use crate::spherical::FULL_TURN;
use crate::spherical::QUARTER_TURN;

verus! {

/// The bodies whose positions the ephemeris gives.
#[derive(Clone, Copy, Debug, PartialEq, Eq, Structural)]
pub enum Planet {
    Mercury,
    Venus,
    Earth,
    Mars,
    Jupiter,
    Saturn,
    Uranus,
    Neptune,
}

/// Apparent geocentric position of a body: right ascension in angle units
/// and as hours, minutes and seconds, declination in angle units.
#[derive(Clone, Copy, Debug, PartialEq, Eq, Structural)]
pub struct Position {
    pub right_ascension: i64,
    pub right_ascension_hms: SexagesimalAngle,
    pub declination: i64,
}

/// Geocentric equatorial coordinates of `body` seen from `earth`, both
/// heliocentric ecliptic: their difference turned by `obliquity`.
pub open spec fn equatorial_of(
    body: HeliocentricEcliptic,
    earth: HeliocentricEcliptic,
    obliquity: Rotation,
) -> (int, int, int) {
    rotate_spec(
        (
            body.pos.x - earth.pos.x,
            body.pos.y - earth.pos.y,
            body.pos.z - earth.pos.z,
        ),
        obliquity,
    )
}

/// The whole transform: heliocentric ecliptic positions of a body and of the
/// Earth, taken at the same instant from the same series, to the body's right
/// ascension and declination in the frame that `obliquity` leads to.
pub fn position_from_heliocentric(
    body: HeliocentricEcliptic,
    earth: HeliocentricEcliptic,
    obliquity: Rotation,
) -> (r: Position)
    requires
        obliquity.wf(),
        body.pos.bounded_by(COORD_LIMIT / 2),
        earth.pos.bounded_by(COORD_LIMIT / 2),
    ensures
        r.right_ascension == right_ascension_spec(
            equatorial_of(body, earth, obliquity).0,
            equatorial_of(body, earth, obliquity).1,
        ),
        r.declination == declination_spec(
            equatorial_of(body, earth, obliquity).0,
            equatorial_of(body, earth, obliquity).1,
            equatorial_of(body, earth, obliquity).2,
        ),
        r.right_ascension_hms == sexagesimal_spec(r.right_ascension as int),
        0 <= r.right_ascension < FULL_TURN,
        -QUARTER_TURN <= r.declination <= QUARTER_TURN,
        0 <= r.right_ascension_hms.hours <= 23,
{
    let geo = to_geocentric(body, earth);
    let equatorial = ecliptic_to_equatorial(geo, obliquity);
    let sky = to_spherical(equatorial);
    let hms = deg_to_hms(sky.right_ascension);
    Position {
        right_ascension: sky.right_ascension,
        right_ascension_hms: hms,
        declination: sky.declination,
    }
}

} // verus!
