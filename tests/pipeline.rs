use planet_position::angle::deg_to_hms;
use planet_position::angle::SexagesimalAngle;
use planet_position::calendar::julian_day;
use planet_position::calendar::CalType;
use planet_position::calendar::DAY_UNITS;
use planet_position::frame::ecliptic_to_equatorial;
use planet_position::frame::rotate_about_x;
use planet_position::frame::to_geocentric;
use planet_position::frame::GeocentricEcliptic;
use planet_position::frame::HeliocentricEcliptic;
use planet_position::frame::RectangularCoordinates;
use planet_position::frame::Rotation;
use planet_position::frame::COORD_UNITS_PER_AU;
use planet_position::frame::ROT_SCALE;
use planet_position::position::position_from_heliocentric;
use planet_position::spherical::atan2;
use planet_position::spherical::to_spherical;
use planet_position::spherical::ANGLE_UNITS_PER_DEGREE;
use planet_position::spherical::FULL_TURN;
use planet_position::spherical::QUARTER_TURN;
use planet_position::frame::GeocentricEquatorial;

fn au(v: f64) -> i64 {
    (v * COORD_UNITS_PER_AU as f64).round() as i64
}

fn helio(x: f64, y: f64, z: f64) -> HeliocentricEcliptic {
    HeliocentricEcliptic { pos: RectangularCoordinates { x: au(x), y: au(y), z: au(z) } }
}

fn equatorial(x: i64, y: i64, z: i64) -> GeocentricEquatorial {
    GeocentricEquatorial { pos: RectangularCoordinates { x, y, z } }
}

fn degrees(units: i64) -> f64 {
    units as f64 / ANGLE_UNITS_PER_DEGREE as f64
}

// Angles whose cosine and sine are exact: 3-4-5 and 7-24-25 triangles.
fn rotation_of(cos_25ths: i64, sin_25ths: i64) -> Rotation {
    Rotation::from_cos_sin(cos_25ths * (ROT_SCALE / 25), sin_25ths * (ROT_SCALE / 25)).unwrap()
}

#[test]
fn j2000_epoch_day() {
    assert_eq!(julian_day(2000, 1, 3 * DAY_UNITS / 2, CalType::Gregorian), 2_451_545 * DAY_UNITS);
}

#[test]
fn day_of_the_original_program() {
    // 2021 June 28.96 UTC
    assert_eq!(julian_day(2021, 6, 28_960_000, CalType::Gregorian), 2_459_394_460_000);
}

#[test]
fn meeus_gregorian_and_julian_examples() {
    // 1957 October 4.81 (Gregorian) and 333 January 27.5 (Julian)
    assert_eq!(julian_day(1957, 10, 4_810_000, CalType::Gregorian), 2_436_116_310_000);
    assert_eq!(julian_day(333, 1, 27_500_000, CalType::Julian), 1_842_713 * DAY_UNITS);
}

#[test]
fn gregorian_reform_days_are_consecutive() {
    // 1582 October 4 (Julian) is followed by October 15 (Gregorian)
    let before = julian_day(1582, 10, 4 * DAY_UNITS, CalType::Julian);
    let after = julian_day(1582, 10, 15 * DAY_UNITS, CalType::Gregorian);
    assert_eq!(after - before, DAY_UNITS);
}

#[test]
fn negative_years_use_floor() {
    // -4712 January 1.5 (Julian) is the origin of the count
    assert_eq!(julian_day(-4712, 1, 3 * DAY_UNITS / 2, CalType::Julian), 0);
    assert_eq!(julian_day(-4712, 1, DAY_UNITS / 2, CalType::Julian), -DAY_UNITS);
}

#[test]
fn julian_day_increases_with_the_date() {
    let dates: [(i16, u8, i64); 8] = [
        (1899, 12, 31_999_999),
        (1900, 1, 1_000_000),
        (1900, 2, 28_500_000),
        (1900, 3, 1_000_000),
        (2000, 2, 29_000_000),
        (2000, 3, 1_000_000),
        (2000, 3, 1_000_001),
        (2001, 1, 1_000_000),
    ];
    for cal in [CalType::Gregorian, CalType::Julian] {
        for w in dates.windows(2) {
            let a = julian_day(w[0].0, w[0].1, w[0].2, cal);
            let b = julian_day(w[1].0, w[1].1, w[1].2, cal);
            assert!(a <= b);
        }
    }
    // 1900 is no leap year in the Gregorian calendar: February 28 is followed by March 1
    let feb = julian_day(1900, 2, 28 * DAY_UNITS, CalType::Gregorian);
    let mar = julian_day(1900, 3, DAY_UNITS, CalType::Gregorian);
    assert_eq!(mar - feb, DAY_UNITS);
    let feb = julian_day(1900, 2, 28 * DAY_UNITS, CalType::Julian);
    assert_eq!(julian_day(1900, 3, DAY_UNITS, CalType::Julian) - feb, 2 * DAY_UNITS);
}

#[test]
fn geocentric_is_the_difference() {
    let body = HeliocentricEcliptic { pos: RectangularCoordinates { x: 10, y: -20, z: 30 } };
    let earth = HeliocentricEcliptic { pos: RectangularCoordinates { x: 1, y: 2, z: -3 } };
    let g = to_geocentric(body, earth);
    assert_eq!(g.pos, RectangularCoordinates { x: 9, y: -22, z: 33 });
}

#[test]
fn obliquity_rotation_of_the_y_axis() {
    let v = GeocentricEcliptic { pos: RectangularCoordinates { x: 5, y: COORD_UNITS_PER_AU, z: 0 } };
    let r = ecliptic_to_equatorial(v, Rotation::j2000_obliquity());
    assert_eq!(r.pos.x, 5);
    assert_eq!(r.pos.y, 917_482_492_512);
    assert_eq!(r.pos.z, 397_776_163_102);
}

#[test]
fn rotation_then_inverse_gives_the_vector_back() {
    let cases: [(i64, i64, i64, i64, i64); 5] = [
        (15, 20, 123_456_789_012, -987_654_321_098, 55_555_555_555),
        (7, -24, -3, 7, 11),
        (-25, 0, 1 << 59, -(1 << 59), 1 << 58),
        (-20, -15, -(1 << 60), 1 << 60, -(1 << 60)),
        (25, 0, 0, 0, 0),
    ];
    for (c, s, x, y, z) in cases {
        let r = rotation_of(c, s);
        let v = RectangularCoordinates { x, y, z };
        let back = rotate_about_x(rotate_about_x(v, r), r.inverse());
        assert_eq!(back.x, x);
        // within 1e-9 AU
        assert!((back.y - y).abs() <= 1000);
        assert!((back.z - z).abs() <= 1000);
    }
    let r = Rotation::j2000_obliquity();
    let v = RectangularCoordinates { x: 1, y: 2 * COORD_UNITS_PER_AU, z: -COORD_UNITS_PER_AU };
    let back = rotate_about_x(rotate_about_x(v, r), r.inverse());
    assert!((back.y - v.y).abs() <= 3 && (back.z - v.z).abs() <= 3);
}

#[test]
fn rotation_rejects_non_unit_pairs() {
    assert!(Rotation::from_cos_sin(ROT_SCALE, 0).is_some());
    assert!(Rotation::from_cos_sin(ROT_SCALE / 2, ROT_SCALE / 2).is_none());
    assert!(Rotation::from_cos_sin(ROT_SCALE, 1_000_000_000_000_000).is_none());
    assert!(Rotation::from_cos_sin(-ROT_SCALE - 1, 0).is_none());
}

#[test]
fn atan2_quadrants() {
    let tol = 1000;
    assert!((atan2(1, 1) - 45 * ANGLE_UNITS_PER_DEGREE).abs() <= tol);
    assert!((atan2(1, -1) - 135 * ANGLE_UNITS_PER_DEGREE).abs() <= tol);
    assert!((atan2(-1_000_000, -1_000_000) + 135 * ANGLE_UNITS_PER_DEGREE).abs() <= tol);
    assert!((atan2(-7, 7) + 45 * ANGLE_UNITS_PER_DEGREE).abs() <= tol);
    assert!((atan2(0, -5) - 180 * ANGLE_UNITS_PER_DEGREE).abs() <= tol);
    assert!((atan2(5, 0) - QUARTER_TURN).abs() <= tol);
    assert_eq!(atan2(0, 0), 0);
}

#[test]
fn spherical_axes_and_poles() {
    let tol = 1000;
    let one = COORD_UNITS_PER_AU;
    let p = to_spherical(equatorial(one, 0, 0));
    assert!(p.right_ascension <= tol || p.right_ascension >= FULL_TURN - tol);
    assert!(p.declination.abs() <= tol);
    let p = to_spherical(equatorial(0, one, 0));
    assert!((p.right_ascension - QUARTER_TURN).abs() <= tol);
    let p = to_spherical(equatorial(0, -one, 0));
    assert!((p.right_ascension - 3 * QUARTER_TURN).abs() <= tol);
    let p = to_spherical(equatorial(0, 0, one));
    assert_eq!(p.right_ascension, 0);
    assert!((p.declination - QUARTER_TURN).abs() <= tol);
    assert!(p.declination <= QUARTER_TURN);
    let p = to_spherical(equatorial(0, 0, -one));
    assert_eq!(p.right_ascension, 0);
    assert!((p.declination + QUARTER_TURN).abs() <= tol);
    let p = to_spherical(equatorial(0, 0, 0));
    assert_eq!((p.right_ascension, p.declination), (0, 0));
}

#[test]
fn spherical_ranges_hold_off_the_poles() {
    let big = 1i64 << 62;
    let vals = [-big, -123_456_789, -1, 0, 1, 987_654_321_000, big];
    for &x in &vals {
        for &y in &vals {
            for &z in &vals {
                let p = to_spherical(equatorial(x, y, z));
                assert!(0 <= p.right_ascension && p.right_ascension < FULL_TURN);
                assert!(-QUARTER_TURN <= p.declination && p.declination <= QUARTER_TURN);
            }
        }
    }
}

#[test]
fn sexagesimal_edges() {
    assert_eq!(deg_to_hms(0), SexagesimalAngle { hours: 0, minutes: 0, seconds: 0 });
    assert_eq!(deg_to_hms(359_999_999_000), SexagesimalAngle { hours: 23, minutes: 59, seconds: 59 });
    assert_eq!(deg_to_hms(15 * ANGLE_UNITS_PER_DEGREE), SexagesimalAngle { hours: 1, minutes: 0, seconds: 0 });
    // 97.5 degrees: 6h 30m
    assert_eq!(deg_to_hms(97_500_000_000), SexagesimalAngle { hours: 6, minutes: 30, seconds: 0 });
    // 1 second of time is 1/240 degree; just under it truncates to 0
    assert_eq!(deg_to_hms(4_166_666), SexagesimalAngle { hours: 0, minutes: 0, seconds: 0 });
    assert_eq!(deg_to_hms(4_166_667), SexagesimalAngle { hours: 0, minutes: 0, seconds: 1 });
    // not reduced past a full turn
    assert_eq!(deg_to_hms(FULL_TURN), SexagesimalAngle { hours: 24, minutes: 0, seconds: 0 });
}

#[test]
fn end_to_end_with_fixed_vectors() {
    let tol = 1000; // 1e-6 degree
    let r = Rotation::j2000_obliquity();
    let p = position_from_heliocentric(helio(1.2, 0.9, 0.03), helio(0.5, -0.85, 0.00001), r);
    assert!((degrees(p.right_ascension) - 66.28704098076877).abs() * 1e9 <= tol as f64);
    assert!((degrees(p.declination) - 22.5739644433635).abs() * 1e9 <= tol as f64);
    assert_eq!(p.right_ascension_hms, SexagesimalAngle { hours: 4, minutes: 25, seconds: 8 });

    let p = position_from_heliocentric(helio(-3.0, -1.0, -0.2), helio(0.9, 0.4, 0.0), r);
    assert!((degrees(p.right_ascension) - 197.1687384942694).abs() * 1e9 <= tol as f64);
    assert!((degrees(p.declination) + 10.280674738207498).abs() * 1e9 <= tol as f64);
    assert_eq!(p.right_ascension_hms, SexagesimalAngle { hours: 13, minutes: 8, seconds: 40 });
}
