use vstd::prelude::*;
use vstd::arithmetic::div_mod::lemma_fundamental_div_mod;
use crate::arith::floor_div_wide;

verus! {

/// Fixed-point resolution of positions: one unit is 10^-12 astronomical unit.
pub const COORD_UNITS_PER_AU: i64 = 1_000_000_000_000;

/// Largest coordinate magnitude, in units, that the transforms accept.
pub const COORD_LIMIT: i64 = 0x2000_0000_0000_0000;

/// Fixed-point scale of the cosine and sine held by a `Rotation`.
pub const ROT_SCALE: i64 = 1_000_000_000_000_000_000;

/// A rectangular vector in fixed point. The frame it belongs to is carried by
/// the labelled types below, not by the value.
#[derive(Clone, Copy, Debug, PartialEq, Eq, Structural)]
pub struct RectangularCoordinates {
    pub x: i64,
    pub y: i64,
    pub z: i64,
}

/// Heliocentric position in the ecliptic frame.
#[derive(Clone, Copy, Debug, PartialEq, Eq, Structural)]
pub struct HeliocentricEcliptic {
    pub pos: RectangularCoordinates,
}

/// Geocentric position in the ecliptic frame.
#[derive(Clone, Copy, Debug, PartialEq, Eq, Structural)]
pub struct GeocentricEcliptic {
    pub pos: RectangularCoordinates,
}

/// Geocentric position in the equatorial frame.
#[derive(Clone, Copy, Debug, PartialEq, Eq, Structural)]
pub struct GeocentricEquatorial {
    pub pos: RectangularCoordinates,
}

pub open spec fn abs(a: int) -> int {
    if a < 0 { -a } else { a }
}

impl RectangularCoordinates {
    /// Every component has magnitude at most `limit`.
    pub open spec fn bounded_by(self, limit: int) -> bool {
        abs(self.x as int) <= limit && abs(self.y as int) <= limit && abs(self.z as int) <= limit
    }
}

/// A rotation about the x axis, given by the cosine and sine of its angle
/// scaled by `ROT_SCALE`.
#[derive(Clone, Copy, Debug, PartialEq, Eq, Structural)]
pub struct Rotation {
    pub cos: i64,
    pub sin: i64,
}

/// Cosine and sine of the J2000 obliquity of the ecliptic, 23.43922911 degrees,
/// scaled by `ROT_SCALE`.
pub const J2000_OBLIQUITY_COS: i64 = 917_482_492_512_664_290;

pub const J2000_OBLIQUITY_SIN: i64 = 397_776_163_102_754_203;

impl Rotation {
    /// The pair is a unit vector up to rounding: each part within the scale,
    /// and `cos^2 + sin^2` within `2 ROT_SCALE` of `ROT_SCALE^2`.
    pub open spec fn wf(self) -> bool {
        abs(self.cos as int) <= ROT_SCALE && abs(self.sin as int) <= ROT_SCALE && abs(
            self.cos * self.cos + self.sin * self.sin - ROT_SCALE * ROT_SCALE,
        ) <= 2 * ROT_SCALE
    }

    /// The rotation by the J2000 obliquity, taking ecliptic axes to equatorial ones.
    pub fn j2000_obliquity() -> (r: Rotation)
        ensures
            r.wf(),
            r.cos == J2000_OBLIQUITY_COS,
            r.sin == J2000_OBLIQUITY_SIN,
    {
        let r = Rotation { cos: J2000_OBLIQUITY_COS, sin: J2000_OBLIQUITY_SIN };
        assert(r.cos * r.cos + r.sin * r.sin - ROT_SCALE * ROT_SCALE == -826_469_361_524_630_691)
            by (nonlinear_arith)
            requires
                r.cos == J2000_OBLIQUITY_COS,
                r.sin == J2000_OBLIQUITY_SIN,
        ;
        r
    }

    /// A rotation from a scaled cosine and sine, when they form a unit vector
    /// up to rounding.
    pub fn from_cos_sin(cos: i64, sin: i64) -> (r: Option<Rotation>)
        ensures
            r is Some <==> (Rotation { cos, sin }).wf(),
            r is Some ==> r->Some_0 == (Rotation { cos, sin }),
    {
        if cos < -ROT_SCALE || cos > ROT_SCALE || sin < -ROT_SCALE || sin > ROT_SCALE {
            return None;
        }
        let c = cos as i128;
        let s = sin as i128;
        let s2 = ROT_SCALE as i128;
        assert(0 <= c * c <= s2 * s2 && 0 <= s * s <= s2 * s2) by (nonlinear_arith)
            requires
                -s2 <= c <= s2,
                -s2 <= s <= s2,
                s2 == ROT_SCALE,
        ;
        let d = c * c + s * s - s2 * s2;
        if d < -2 * s2 || d > 2 * s2 {
            None
        } else {
            Some(Rotation { cos, sin })
        }
    }

    /// The rotation by the opposite angle.
    pub fn inverse(&self) -> (r: Rotation)
        requires
            self.wf(),
        ensures
            r.wf(),
            r.cos == self.cos,
            r.sin == -self.sin,
    {
        let r = Rotation { cos: self.cos, sin: -self.sin };
        assert(r.sin * r.sin == self.sin * self.sin) by (nonlinear_arith)
            requires
                r.sin == -self.sin,
        ;
        r
    }
}

/// Rotation of `v` about the x axis, each new component rounded down:
/// `y' = y cos - z sin`, `z' = y sin + z cos`.
pub open spec fn rotate_spec(v: (int, int, int), r: Rotation) -> (int, int, int) {
    (v.0, (r.cos * v.1 - r.sin * v.2) / (ROT_SCALE as int), (r.sin * v.1 + r.cos * v.2) / (
    ROT_SCALE as int))
}

/// The components of `v` as integers.
pub open spec fn coords_of(v: RectangularCoordinates) -> (int, int, int) {
    (v.x as int, v.y as int, v.z as int)
}

proof fn lemma_rotated_component_bound(c: int, s: int, a: int, b: int, limit: int)
    requires
        abs(c) <= ROT_SCALE,
        abs(s) <= ROT_SCALE,
        abs(a) <= limit,
        abs(b) <= limit,
    ensures
        abs(c * a) <= ROT_SCALE * limit,
        abs(s * b) <= ROT_SCALE * limit,
{
    assert(abs(c * a) <= ROT_SCALE * limit) by (nonlinear_arith)
        requires
            abs(c) <= ROT_SCALE,
            abs(a) <= limit,
    ;
    assert(abs(s * b) <= ROT_SCALE * limit) by (nonlinear_arith)
        requires
            abs(s) <= ROT_SCALE,
            abs(b) <= limit,
    ;
}

proof fn lemma_floor_div_range(a: int, d: int)
    requires
        d > 0,
    ensures
        d * (a / d) <= a < d * (a / d) + d,
{
    lemma_fundamental_div_mod(a, d);
}

/// Rotates `v` about the x axis by `r`, in whichever frame `v` is.
pub fn rotate_about_x(v: RectangularCoordinates, r: Rotation) -> (res: RectangularCoordinates)
    requires
        r.wf(),
        v.bounded_by(COORD_LIMIT as int),
    ensures
        coords_of(res) == rotate_spec(coords_of(v), r),
        res.bounded_by(2 * COORD_LIMIT),
{
    let c = r.cos as i128;
    let s = r.sin as i128;
    let y = v.y as i128;
    let z = v.z as i128;
    proof {
        lemma_rotated_component_bound(c as int, s as int, y as int, z as int, COORD_LIMIT as int);
        lemma_rotated_component_bound(s as int, c as int, y as int, z as int, COORD_LIMIT as int);
    }
    let scale = ROT_SCALE as i128;
    let ny = floor_div_wide(c * y - s * z, scale);
    let nz = floor_div_wide(s * y + c * z, scale);
    proof {
        lemma_floor_div_range(c * y - s * z, scale as int);
        lemma_floor_div_range(s * y + c * z, scale as int);
    }
    RectangularCoordinates { x: v.x, y: ny as i64, z: nz as i64 }
}

/// Moves a heliocentric position to the geocentric origin: `body - earth`,
/// component by component, both in the same ecliptic frame.
pub fn to_geocentric(body: HeliocentricEcliptic, earth: HeliocentricEcliptic) -> (r: GeocentricEcliptic)
    requires
        body.pos.bounded_by(COORD_LIMIT as int),
        earth.pos.bounded_by(COORD_LIMIT as int),
    ensures
        r.pos.x == body.pos.x - earth.pos.x,
        r.pos.y == body.pos.y - earth.pos.y,
        r.pos.z == body.pos.z - earth.pos.z,
{
    GeocentricEcliptic {
        pos: RectangularCoordinates {
            x: body.pos.x - earth.pos.x,
            y: body.pos.y - earth.pos.y,
            z: body.pos.z - earth.pos.z,
        },
    }
}

/// Turns a geocentric ecliptic position into the equatorial frame by rotating
/// it about the x axis by the obliquity that `obliquity` holds.
pub fn ecliptic_to_equatorial(v: GeocentricEcliptic, obliquity: Rotation) -> (r: GeocentricEquatorial)
    requires
        obliquity.wf(),
        v.pos.bounded_by(COORD_LIMIT as int),
    ensures
        coords_of(r.pos) == rotate_spec(coords_of(v.pos), obliquity),
        r.pos.bounded_by(2 * COORD_LIMIT),
{
    GeocentricEquatorial { pos: rotate_about_x(v.pos, obliquity) }
}

/// The rotation by the opposite angle, as `Rotation::inverse` builds it.
pub open spec fn inverse_spec(r: Rotation) -> Rotation {
    Rotation { cos: r.cos, sin: (-r.sin) as i64 }
}

proof fn lemma_scaled_product_bound(c: int, r: int)
    requires
        abs(c) <= ROT_SCALE,
        0 <= r < ROT_SCALE,
    ensures
        abs(c * r) <= ROT_SCALE * ROT_SCALE,
{
    let s = ROT_SCALE as int;
    assert(abs(c * r) <= s * s) by (nonlinear_arith)
        requires
            abs(c) <= s,
            0 <= r < s,
            s > 0,
    ;
}

proof fn lemma_round_trip_component(
    c: int,
    s: int,
    a: int,
    b: int,
    q: int,
    ra: int,
    rb: int,
    n: int,
    u: int,
)
    requires
        (Rotation { cos: c as i64, sin: s as i64 }).wf(),
        c == c as i64,
        s == s as i64,
        ROT_SCALE * n == (c * c + s * s) * a + q * ra - c * rb,
        abs(q) <= ROT_SCALE,
        0 <= ra < ROT_SCALE,
        0 <= rb < ROT_SCALE,
        ROT_SCALE * u <= n < ROT_SCALE * u + ROT_SCALE,
    ensures
        ROT_SCALE * abs(u - a) <= 2 * abs(a) + 3 * ROT_SCALE,
{
    let sc = ROT_SCALE as int;
    let d = c * c + s * s - sc * sc;
    assert(abs(d) <= 2 * sc);
    assert(abs(d * a) <= sc * (2 * abs(a))) by (nonlinear_arith)
        requires
            abs(d) <= 2 * sc,
            sc > 0,
    ;
    lemma_scaled_product_bound(q, ra);
    lemma_scaled_product_bound(c, rb);
    let e = d * a + q * ra - c * rb;
    assert(abs(e) <= sc * (2 * abs(a) + 2 * sc)) by (nonlinear_arith)
        requires
            abs(d * a) <= sc * (2 * abs(a)),
            abs(q * ra) <= sc * sc,
            abs(c * rb) <= sc * sc,
            e == d * a + q * ra - c * rb,
    ;
    assert(sc * n == sc * (sc * a) + e) by (nonlinear_arith)
        requires
            sc * n == (c * c + s * s) * a + q * ra - c * rb,
            d == c * c + s * s - sc * sc,
            e == d * a + q * ra - c * rb,
    ;
    assert(sc * (sc * u) <= sc * n && sc * n < sc * (sc * u + sc)) by (nonlinear_arith)
        requires
            sc * u <= n < sc * u + sc,
            sc > 0,
    ;
    assert(sc * (sc * (u - a)) <= sc * (2 * abs(a) + 2 * sc)) by (nonlinear_arith)
        requires
            sc * (sc * u) <= sc * n,
            sc * n == sc * (sc * a) + e,
            e <= sc * (2 * abs(a) + 2 * sc),
    ;
    assert(sc * (sc * (a - u)) < sc * (2 * abs(a) + 3 * sc)) by (nonlinear_arith)
        requires
            sc * n < sc * (sc * u + sc),
            sc * n == sc * (sc * a) + e,
            -e <= sc * (2 * abs(a) + 2 * sc),
    ;
    assert(sc * (u - a) <= 2 * abs(a) + 2 * sc && sc * (a - u) < 2 * abs(a) + 3 * sc) by (nonlinear_arith)
        requires
            sc * (sc * (u - a)) <= sc * (2 * abs(a) + 2 * sc),
            sc * (sc * (a - u)) < sc * (2 * abs(a) + 3 * sc),
            sc > 0,
    ;
    assert(sc * abs(u - a) <= 2 * abs(a) + 3 * sc) by (nonlinear_arith)
        requires
            sc * (u - a) <= 2 * abs(a) + 2 * sc,
            sc * (a - u) < 2 * abs(a) + 3 * sc,
    ;
}

/// Rotating by an angle and then by its opposite gives the vector back: x
/// exactly, y and z within `2 |v| / ROT_SCALE + 3` units, whatever the vector.
pub proof fn lemma_rotation_round_trip(v: (int, int, int), r: Rotation)
    requires
        r.wf(),
    ensures
        rotate_spec(rotate_spec(v, r), inverse_spec(r)).0 == v.0,
        ROT_SCALE * abs(rotate_spec(rotate_spec(v, r), inverse_spec(r)).1 - v.1) <= 2 * abs(v.1) + 3
            * ROT_SCALE,
        ROT_SCALE * abs(rotate_spec(rotate_spec(v, r), inverse_spec(r)).2 - v.2) <= 2 * abs(v.2) + 3
            * ROT_SCALE,
{
    let sc = ROT_SCALE as int;
    let c = r.cos as int;
    let s = r.sin as int;
    let (x, y, z) = v;
    let w = rotate_spec(v, r);
    let y1 = w.1;
    let z1 = w.2;
    lemma_floor_div_range(c * y - s * z, sc);
    lemma_floor_div_range(s * y + c * z, sc);
    let r1 = c * y - s * z - sc * y1;
    let r2 = s * y + c * z - sc * z1;
    let u = rotate_spec(w, inverse_spec(r));
    let ny = c * y1 - (-s) * z1;
    let nz = (-s) * y1 + c * z1;
    assert(u.1 == ny / sc && u.2 == nz / sc);
    lemma_floor_div_range(ny, sc);
    lemma_floor_div_range(nz, sc);
    assert(sc * ny == c * (sc * y1) + s * (sc * z1)) by (nonlinear_arith)
        requires
            ny == c * y1 - (-s) * z1,
    ;
    assert(sc * nz == c * (sc * z1) - s * (sc * y1)) by (nonlinear_arith)
        requires
            nz == (-s) * y1 + c * z1,
    ;
    assert(c * (c * y - s * z - r1) + s * (s * y + c * z - r2) == (c * c + s * s) * y - c * r1 - s
        * r2) by (nonlinear_arith);
    assert(c * (s * y + c * z - r2) - s * (c * y - s * z - r1) == (c * c + s * s) * z + s * r1 - c
        * r2) by (nonlinear_arith);
    assert(sc * ny == (c * c + s * s) * y + (-s) * r2 - c * r1) by (nonlinear_arith)
        requires
            sc * ny == c * (sc * y1) + s * (sc * z1),
            sc * y1 == c * y - s * z - r1,
            sc * z1 == s * y + c * z - r2,
            c * (c * y - s * z - r1) + s * (s * y + c * z - r2) == (c * c + s * s) * y - c * r1 - s
                * r2,
    ;
    lemma_round_trip_component(c, s, y, z, -s, r2, r1, ny, u.1);
    lemma_round_trip_component(c, s, z, y, s, r1, r2, nz, u.2);
}

} // verus!
