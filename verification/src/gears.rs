//! Involute gear geometry.
//!
//! All lengths are fixed-point units (see [`crate::fxp::SCALE`]) and all
//! angles fixed-point degrees, except where a field says radians.  The
//! geometry follows the classical involute construction: a tooth face is
//! traced by unrolling a taut line from the root circle, and the offset
//! correction rotates the trace so that it crosses the pitch circle at
//! the intended tooth angle.

use vstd::prelude::*;
use crate::fxp::SCALE;
use crate::fxp::isqrt;
use crate::fxp::lemma_sdiv_bound;
use crate::fxp::muldiv;
use crate::fxp::sdiv;
use crate::fxp::sqrt_floor;
use crate::trig::TURN_FX;
use crate::trig::atan2;
use crate::trig::atan2_of;
use crate::trig::cossin;
use crate::trig::cossin_of;
use crate::trig::deg_to_phase;
use crate::trig::deg_of_rad;
use crate::trig::deg_to_rad;
use crate::trig::rad_of_deg;
use crate::trig::phase_of_deg;
use crate::trig::phase_to_rad;
use crate::trig::rad_of_phase;
use crate::trig::rad_to_deg;

verus! {

/// Largest radius the geometry accepts: 2^14 length units in fixed point.
pub const MAX_RADIUS_FX: i64 = 0x4000_0000;

/// Magnitude bound on the derived `involute_offset` field (degrees).
pub const OFFSET_LIMIT_FX: i64 = 0x40_0000_0000_0000;

/// Magnitude bound on the derived `root_angle` field (radians).
pub const RAD_LIMIT_FX: i64 = 0x1_0000_0000_0000;

/// A point of the render plane, in fixed-point units.
#[derive(Clone, Copy, Debug, PartialEq, Eq, Structural)]
pub struct Point {
    pub x: i64,
    pub y: i64,
}

impl View for Point {
    type V = (int, int);

    open spec fn view(&self) -> (int, int) {
        (self.x as int, self.y as int)
    }
}

/// Which half of a tooth profile a sampled curve belongs to; determines
/// the sampling direction and the side the tangent leaves the circle on.
#[derive(Clone, Copy, Debug, PartialEq, Eq, Structural)]
pub enum ToothFace {
    Front,
    Back,
}

/// Configuration errors reported by the offset calculator.
#[derive(Clone, Copy, Debug, PartialEq, Eq, Structural)]
pub enum GearError {
    /// A radius is not positive, or the root circle is wider than the
    /// pitch circle, which leaves the tangent construction undefined.
    InvalidConfig,
}

/// Gear parameters.  Radii and offsets are fixed-point length units;
/// `step_angle`, `pressure_angle` and `involute_offset` are fixed-point
/// degrees; `root_angle` is fixed-point radians.
#[derive(Clone, Copy, Debug, PartialEq, Eq, Structural)]
pub struct GearConfig {
    pub step_angle: i64,
    pub outside_circle_radius: i64,
    pub pitch_circle_radius: i64,
    pub base_circle_radius: i64,
    pub root_circle_radius: i64,
    pub involute_offset: i64,
    pub pressure_angle: i64,
    pub pitch: i64,
    pub x_offset: i64,
    pub y_offset: i64,
    pub root_angle: i64,
}

impl GearConfig {
    /// Machine bounds under which all geometry arithmetic stays in range.
    pub open spec fn wf(self) -> bool {
        &&& 0 <= self.outside_circle_radius <= MAX_RADIUS_FX
        &&& 0 <= self.pitch_circle_radius <= MAX_RADIUS_FX
        &&& -MAX_RADIUS_FX <= self.base_circle_radius <= MAX_RADIUS_FX
        &&& 0 <= self.root_circle_radius <= MAX_RADIUS_FX
        &&& 0 <= self.step_angle <= TURN_FX
        &&& 0 <= self.pressure_angle <= TURN_FX
        &&& -MAX_RADIUS_FX <= self.pitch <= MAX_RADIUS_FX
        &&& -MAX_RADIUS_FX <= self.x_offset <= MAX_RADIUS_FX
        &&& -MAX_RADIUS_FX <= self.y_offset <= MAX_RADIUS_FX
        &&& -OFFSET_LIMIT_FX <= self.involute_offset <= OFFSET_LIMIT_FX
        &&& -RAD_LIMIT_FX <= self.root_angle <= RAD_LIMIT_FX
    }
}

/// The stock 15-tooth demonstration gear: radii 300/350/390 units,
/// 24-degree tooth step, 20-degree pressure angle.
pub open spec fn default_config() -> GearConfig {
    GearConfig {
        step_angle: 1572864,  // 24 degrees
        outside_circle_radius: 25559040,  // 390 units
        pitch_circle_radius: 22937600,  // 350 units
        base_circle_radius: 0,
        root_circle_radius: 19660800,  // 300 units
        involute_offset: 0,
        pressure_angle: 1310720,  // 20 degrees
        pitch: 1966080,  // 30 units
        x_offset: 3276800,  // 50 units
        y_offset: 3276800,  // 50 units
        root_angle: 0,
    }
}

impl Default for GearConfig {
    fn default() -> (r: Self)
        ensures
            r == default_config(),
            r.wf(),
    {
        GearConfig {
            step_angle: 1572864,
            outside_circle_radius: 25559040,
            pitch_circle_radius: 22937600,
            base_circle_radius: 0,
            root_circle_radius: 19660800,
            involute_offset: 0,
            pressure_angle: 1310720,
            pitch: 1966080,
            x_offset: 3276800,
            y_offset: 3276800,
            root_angle: 0,
        }
    }
}

/// The inputs on which the offset calculator is defined: positive radii,
/// and a root circle no wider than the pitch circle.
pub open spec fn valid_radii(c: GearConfig) -> bool {
    &&& 0 < c.root_circle_radius
    &&& 0 < c.pitch_circle_radius
    &&& 0 < c.outside_circle_radius
    &&& c.root_circle_radius <= c.pitch_circle_radius
}

/// Tangent length from the root circle to the pitch circle: the
/// remaining side of the right triangle whose adjacent side is the root
/// radius and whose hypotenuse is the pitch radius.
pub open spec fn tangent_length(c: GearConfig) -> int {
    sqrt_floor((c.pitch_circle_radius * c.pitch_circle_radius
        - c.root_circle_radius * c.root_circle_radius) as nat) as int
}

/// The corrected configuration produced by the offset calculator: the
/// base circle follows from the pressure angle, the root angle converts
/// the tangent length to an arc angle on the root circle, and the
/// involute offset is their difference expressed in degrees.
pub open spec fn corrected(c: GearConfig) -> GearConfig {
    let base = sdiv(
        c.pitch_circle_radius * cossin_of(phase_of_deg(c.pressure_angle as int)).0,
        0x8000_0000,
    );
    let t_len = tangent_length(c);
    let tia_rad = rad_of_phase(atan2_of(t_len, c.root_circle_radius as int));
    let root_angle = sdiv(t_len * 65536, c.root_circle_radius as int);
    let offset = deg_of_rad(root_angle - tia_rad);
    GearConfig {
        base_circle_radius: base as i64,
        root_angle: root_angle as i64,
        involute_offset: offset as i64,
        ..c
    }
}

/// Derives `base_circle_radius`, `root_angle` and `involute_offset` from
/// the pitch circle, root circle and pressure angle, in place.  Rejects
/// configurations whose radii are not positive or whose root circle is
/// wider than the pitch circle, leaving the configuration unchanged.
pub fn set_involute_offset(config: &mut GearConfig) -> (r: Result<(), GearError>)
    requires
        old(config).wf(),
    ensures
        r is Ok <==> valid_radii(*old(config)),
        r is Ok ==> *final(config) == corrected(*old(config)),
        r is Err ==> *final(config) == *old(config),
        r is Err ==> r == Err::<(), GearError>(GearError::InvalidConfig),
        final(config).wf(),
{
    if !(config.root_circle_radius > 0 && config.pitch_circle_radius > 0
        && config.outside_circle_radius > 0
        && config.root_circle_radius <= config.pitch_circle_radius) {
        return Err(GearError::InvalidConfig);
    }

    // Base circle from the pitch circle and the pressure angle.
    let pa_phase: i32 = deg_to_phase(config.pressure_angle);
    let cs: (i32, i32) = cossin(pa_phase);
    proof {
        assert(-0x2000_0000_0000_0000 <= config.pitch_circle_radius as int * (cs.0 as int)
            <= 0x2000_0000_0000_0000) by (nonlinear_arith)
            requires
                0 <= config.pitch_circle_radius as int <= 0x4000_0000,
                -0x8000_0000 <= cs.0 as int <= 0x8000_0000,
        ;
    }
    let base: i64 = muldiv(config.pitch_circle_radius, cs.0 as i64, 0x8000_0000);
    proof {
        lemma_sdiv_bound(
            config.pitch_circle_radius as int * (cs.0 as int),
            0x8000_0000,
            0x4000_0000,
        );
    }

    // Tangent length from the root circle to the pitch circle, by the
    // right-triangle identity: sin(acos(root / pitch)) * pitch is the
    // square root of pitch^2 - root^2.
    proof {
        assert(config.root_circle_radius as int * config.root_circle_radius as int
            <= config.pitch_circle_radius as int * config.pitch_circle_radius as int
            <= 0x1000_0000_0000_0000) by (nonlinear_arith)
            requires
                0 <= config.root_circle_radius as int <= config.pitch_circle_radius as int
                    <= 0x4000_0000,
        ;
    }
    let p2: u64 = (config.pitch_circle_radius as u64) * (config.pitch_circle_radius as u64);
    let r2: u64 = (config.root_circle_radius as u64) * (config.root_circle_radius as u64);
    let t_len_u: u64 = isqrt(p2 - r2);
    proof {
        assert(t_len_u <= 0x4000_0000) by (nonlinear_arith)
            requires
                t_len_u as int * t_len_u as int <= 0x1000_0000_0000_0000,
                0 <= t_len_u,
        ;
    }
    let t_len: i64 = t_len_u as i64;

    // Arc angle on the root circle subtending the tangent length, and
    // the angle at which the tangent meets the pitch circle.
    let tia_phase: i32 = atan2(t_len as i32, config.root_circle_radius as i32);
    let tia_rad: i64 = phase_to_rad(tia_phase);
    let root_angle: i64 = muldiv(t_len, SCALE, config.root_circle_radius);
    proof {
        assert(t_len as int * 65536 <= 0x4000_0000_0000 * config.root_circle_radius as int);
        assert(-(0x4000_0000_0000 * config.root_circle_radius as int) <= t_len as int * 65536);
        lemma_sdiv_bound(
            t_len as int * 65536,
            config.root_circle_radius as int,
            0x4000_0000_0000,
        );
    }

    // The offset is the difference between the arc angle and the meeting
    // angle, converted to degrees.
    let offset: i64 = rad_to_deg(root_angle - tia_rad);

    config.base_circle_radius = base;
    config.root_angle = root_angle;
    config.involute_offset = offset;
    Ok(())
}

/// Sampling step of the involute tracer: five degrees per sample.
pub const INC_FX: i64 = 327680;

/// A right angle in fixed-point degrees.
pub const RIGHT_FX: i64 = 5898240;

/// Hard cap on the samples taken for one tooth face.
pub const MAX_STEPS: i64 = 65536;

/// Traversal direction of a face: the front face sweeps forward, the
/// back face backward.
pub open spec fn face_dir(face: ToothFace) -> int {
    match face {
        ToothFace::Front => 1,
        ToothFace::Back => -1,
    }
}

/// Which side of the radius the tangent leaves the circle on.
pub open spec fn face_right(face: ToothFace) -> int {
    match face {
        ToothFace::Front => -5898240,
        ToothFace::Back => 5898240,
    }
}

/// Starting angle of a face trace: the back face starts a third of a
/// tooth step past the given angle.
pub open spec fn inv_start(c: GearConfig, angle: int, face: ToothFace) -> int {
    match face {
        ToothFace::Front => angle,
        ToothFace::Back => angle + sdiv(c.step_angle as int, 3),
    }
}

/// Tangent segment length at sample `j`: the arc length swept so far on
/// the root circle, which the involute construction unrolls straight.
pub open spec fn inv_tangent_len(c: GearConfig, j: int) -> int {
    sdiv(rad_of_deg(j * 327680) * c.root_circle_radius, 65536)
}

/// The point of the involute at sample `j`: the point on the base circle
/// at the swept angle, displaced along the tangent by the unrolled arc.
pub open spec fn inv_point(
    c: GearConfig,
    start: int,
    base_radius: int,
    j: int,
    face: ToothFace,
) -> (int, int) {
    let current = start + face_dir(face) * (j * 327680);
    let cs = cossin_of(phase_of_deg(current));
    let bx = sdiv(base_radius * cs.0, 0x8000_0000);
    let by = sdiv(base_radius * cs.1, 0x8000_0000);
    let ts = cossin_of(phase_of_deg(current + face_right(face)));
    let t_len = inv_tangent_len(c, j);
    let tx = sdiv(t_len * ts.0, 0x8000_0000);
    let ty = sdiv(t_len * ts.1, 0x8000_0000);
    (bx + tx, by + ty)
}

/// Whether the tracer stops at sample `j`: the sampled point has reached
/// or left the outside circle (a boundary hit counts as leaving), or the
/// tangent has outgrown the longest span that can still fall inside it.
pub open spec fn inv_stop(
    c: GearConfig,
    start: int,
    base_radius: int,
    j: int,
    face: ToothFace,
) -> bool {
    let t_len = inv_tangent_len(c, j);
    let p = inv_point(c, start, base_radius, j, face);
    ||| t_len > c.outside_circle_radius + base_radius
    ||| p.0 * p.0 + p.1 * p.1
        >= c.outside_circle_radius * c.outside_circle_radius
}

/// First stopping sample at or after `j`, capped at `MAX_STEPS`.
pub open spec fn inv_len_from(
    c: GearConfig,
    start: int,
    base_radius: int,
    face: ToothFace,
    j: nat,
) -> nat
    decreases 65536 - j,
{
    if j >= 65536 {
        65536
    } else if inv_stop(c, start, base_radius, j as int, face) {
        j
    } else {
        inv_len_from(c, start, base_radius, face, (j + 1) as nat)
    }
}

/// Number of samples a face trace keeps: everything before the first
/// stopping sample.
pub open spec fn inv_len(c: GearConfig, start: int, base_radius: int, face: ToothFace) -> nat {
    inv_len_from(c, start, base_radius, face, 0)
}

/// The sampled polyline of one tooth face.  The back face is reversed so
/// that the two faces of a tooth connect head to tail.
pub open spec fn inv_seq(
    c: GearConfig,
    angle: int,
    base_radius: int,
    face: ToothFace,
) -> Seq<(int, int)> {
    let start = inv_start(c, angle, face);
    let n = inv_len(c, start, base_radius, face);
    match face {
        ToothFace::Front => Seq::new(n, |j: int| inv_point(c, start, base_radius, j, face)),
        ToothFace::Back => Seq::new(
            n,
            (|j: int| inv_point(c, start, base_radius, n - 1 - j, face)),
        ),
    }
}

/// The integer sequence a vector of points stands for.
pub open spec fn points_view(v: Seq<Point>) -> Seq<(int, int)> {
    v.map_values(|p: Point| p@)
}

/// Whether a point lies strictly inside the outside circle.
pub open spec fn in_outside(p: (int, int), c: GearConfig) -> bool {
    p.0 * p.0 + p.1 * p.1 < c.outside_circle_radius * c.outside_circle_radius
}

/// `inv_len_from` is pinned down by its characteristic facts: no sample
/// before it stops, and the sample at it (if below the cap) stops.
proof fn lemma_inv_len_from_char(
    c: GearConfig,
    start: int,
    base_radius: int,
    face: ToothFace,
    j: nat,
    n: nat,
)
    requires
        j <= n <= 65536,
        forall|k: int| j <= k < n ==> !#[trigger] inv_stop(c, start, base_radius, k, face),
        n < 65536 ==> inv_stop(c, start, base_radius, n as int, face),
    ensures
        inv_len_from(c, start, base_radius, face, j) == n,
    decreases n - j,
{
    if j < n {
        lemma_inv_len_from_char(c, start, base_radius, face, (j + 1) as nat, n);
    }
}

/// Samples one face of a tooth: points of the involute of `base_radius`,
/// traced from the face's starting angle in five-degree steps, kept
/// while they stay strictly inside the outside circle.
pub fn involute(config: &GearConfig, angle: i64, base_radius: i64, tooth_face: ToothFace) -> (r:
    Vec<Point>)
    requires
        config.wf(),
        0 <= base_radius <= MAX_RADIUS_FX,
        -0x80_0000_0000_0000 <= angle <= 0x80_0000_0000_0000,
    ensures
        points_view(r@) == inv_seq(*config, angle as int, base_radius as int, tooth_face),
        forall|k: int| 0 <= k < r@.len() ==> in_outside(#[trigger] r@[k]@, *config),
{
    let ghost c = *config;
    let start: i64 = match tooth_face {
        ToothFace::Front => angle,
        ToothFace::Back => {
            let third: i64 = muldiv(config.step_angle, 1, 3);
            proof {
                lemma_sdiv_bound(config.step_angle as int * 1, 3, 23592960);
            }
            angle + third
        },
    };
    proof {
        assert(start as int == inv_start(c, angle as int, tooth_face));
    }

    let mut fwd: Vec<Point> = Vec::new();
    let mut j: i64 = 0;
    loop
        invariant
            config.wf(),
            c == *config,
            0 <= base_radius <= MAX_RADIUS_FX,
            -0x80_0000_0000_0000 <= angle <= 0x80_0000_0000_0000,
            -0x80_0000_0180_0000 <= start <= 0x80_0000_0180_0000,
            0 <= j <= 65536,
            fwd@.len() == j,
            forall|k: int|
                0 <= k < j ==> !#[trigger] inv_stop(
                    c,
                    start as int,
                    base_radius as int,
                    k,
                    tooth_face,
                ),
            forall|k: int|
                0 <= k < j ==> fwd@[k]@ == #[trigger] inv_point(
                    c,
                    start as int,
                    base_radius as int,
                    k,
                    tooth_face,
                ),
        ensures
            0 <= j <= 65536,
            fwd@.len() == j,
            forall|k: int|
                0 <= k < j ==> !#[trigger] inv_stop(
                    c,
                    start as int,
                    base_radius as int,
                    k,
                    tooth_face,
                ),
            forall|k: int|
                0 <= k < j ==> fwd@[k]@ == #[trigger] inv_point(
                    c,
                    start as int,
                    base_radius as int,
                    k,
                    tooth_face,
                ),
            j < 65536 ==> inv_stop(c, start as int, base_radius as int, j as int, tooth_face),
        decreases 65536 - j,
    {
        if j == MAX_STEPS {
            break;
        }
        let dd: i64 = j * INC_FX;
        let current: i64 = match tooth_face {
            ToothFace::Front => start + dd,
            ToothFace::Back => start - dd,
        };
        proof {
            assert(current as int == start as int + face_dir(tooth_face) * (j as int * 327680));
        }

        // Point on the base circle at the current angle.
        let cs: (i32, i32) = cossin(deg_to_phase(current));
        proof {
            assert(-0x2000_0000_0000_0000 <= base_radius as int * (cs.0 as int)
                <= 0x2000_0000_0000_0000 && -0x2000_0000_0000_0000 <= base_radius as int
                * (cs.1 as int) <= 0x2000_0000_0000_0000) by (nonlinear_arith)
                requires
                    0 <= base_radius as int <= 0x4000_0000,
                    -0x8000_0000 <= cs.0 as int <= 0x8000_0000,
                    -0x8000_0000 <= cs.1 as int <= 0x8000_0000,
            ;
        }
        let bx: i64 = muldiv(base_radius, cs.0 as i64, 0x8000_0000);
        let by: i64 = muldiv(base_radius, cs.1 as i64, 0x8000_0000);
        proof {
            lemma_sdiv_bound(base_radius as int * (cs.0 as int), 0x8000_0000, 0x4000_0000);
            lemma_sdiv_bound(base_radius as int * (cs.1 as int), 0x8000_0000, 0x4000_0000);
        }

        // Arc length swept so far, unrolled straight along the tangent.
        let dr: i64 = deg_to_rad(dd);
        proof {
            crate::fxp::lemma_sdiv_nonneg(dd as int * 205887, 11796480);
            assert(0 <= dr as int * config.root_circle_radius as int
                <= 0x4000_0000_0000_0000_0000) by (nonlinear_arith)
                requires
                    0 <= dr as int <= 0x1_0000_0000_0000,
                    0 <= config.root_circle_radius as int <= 0x4000_0000,
            ;
            assert(0x4000_0000_0000_0000_0000 <= 0x7fff_ffff_ffff_ffff * 65536int);
        }
        let t_len: i64 = muldiv(dr, config.root_circle_radius, SCALE);
        proof {
            crate::fxp::lemma_sdiv_nonneg(dr as int * config.root_circle_radius as int, 65536);
            assert(t_len as int == inv_tangent_len(c, j as int));
        }
        if t_len > config.outside_circle_radius + base_radius {
            proof {
                assert(inv_stop(c, start as int, base_radius as int, j as int, tooth_face));
            }
            break;
        }

        // The tangent points a right angle away from the current radius.
        let tangent_angle: i64 = match tooth_face {
            ToothFace::Front => current - RIGHT_FX,
            ToothFace::Back => current + RIGHT_FX,
        };
        proof {
            assert(tangent_angle as int == current as int + face_right(tooth_face));
        }
        let ts: (i32, i32) = cossin(deg_to_phase(tangent_angle));
        proof {
            assert(-0x4000_0000_8000_0000 <= t_len as int * (ts.0 as int) <= 0x4000_0000_8000_0000
                && -0x4000_0000_8000_0000 <= t_len as int * (ts.1 as int)
                <= 0x4000_0000_8000_0000) by (nonlinear_arith)
                requires
                    0 <= t_len as int <= 0x8000_0000,
                    -0x8000_0000 <= ts.0 as int <= 0x8000_0000,
                    -0x8000_0000 <= ts.1 as int <= 0x8000_0000,
            ;
        }
        let tx: i64 = muldiv(t_len, ts.0 as i64, 0x8000_0000);
        let ty: i64 = muldiv(t_len, ts.1 as i64, 0x8000_0000);
        proof {
            lemma_sdiv_bound(t_len as int * (ts.0 as int), 0x8000_0000, 0x8000_0001);
            lemma_sdiv_bound(t_len as int * (ts.1 as int), 0x8000_0000, 0x8000_0001);
        }

        let x: i64 = bx + tx;
        let y: i64 = by + ty;
        proof {
            assert(x as int * x as int <= 0x1_0000_0000_0000_0000
                && 0 <= x as int * x as int && y as int * y as int <= 0x1_0000_0000_0000_0000
                && 0 <= y as int * y as int) by (nonlinear_arith)
                requires
                    -0x1_0000_0000 <= x as int <= 0x1_0000_0000,
                    -0x1_0000_0000 <= y as int <= 0x1_0000_0000,
            ;
            assert(0 <= config.outside_circle_radius as int * config.outside_circle_radius as int
                <= 0x1000_0000_0000_0000) by (nonlinear_arith)
                requires
                    0 <= config.outside_circle_radius as int <= 0x4000_0000,
            ;
        }
        let rr: i128 = (x as i128) * (x as i128) + (y as i128) * (y as i128);
        let oo: i128 = (config.outside_circle_radius as i128)
            * (config.outside_circle_radius as i128);
        proof {
            assert((x as int, y as int) == inv_point(
                c,
                start as int,
                base_radius as int,
                j as int,
                tooth_face,
            ));
        }
        if rr >= oo {
            proof {
                assert(inv_stop(c, start as int, base_radius as int, j as int, tooth_face));
            }
            break;
        }
        proof {
            assert(!inv_stop(c, start as int, base_radius as int, j as int, tooth_face));
        }
        fwd.push(Point { x, y });
        j = j + 1;
    }

    proof {
        lemma_inv_len_from_char(
            c,
            start as int,
            base_radius as int,
            tooth_face,
            0,
            j as nat,
        );
        assert(inv_len(c, start as int, base_radius as int, tooth_face) == j);
    }

    match tooth_face {
        ToothFace::Front => {
            proof {
                assert(points_view(fwd@) =~= inv_seq(
                    c,
                    angle as int,
                    base_radius as int,
                    tooth_face,
                ));
                assert forall|i: int| 0 <= i < fwd@.len() implies in_outside(fwd@[i]@, c) by {
                    assert(!inv_stop(c, start as int, base_radius as int, i, tooth_face));
                    assert(fwd@[i]@ == inv_point(c, start as int, base_radius as int, i,
                        tooth_face));
                }
            }
            fwd
        },
        ToothFace::Back => {
            let mut rev: Vec<Point> = Vec::new();
            let mut k: usize = fwd.len();
            while k > 0
                invariant
                    k <= fwd@.len(),
                    rev@.len() == fwd@.len() - k,
                    forall|i: int|
                        0 <= i < rev@.len() ==> rev@[i] == fwd@[fwd@.len() - 1 - i],
                decreases k,
            {
                k = k - 1;
                let p: Point = fwd[k];
                rev.push(p);
            }
            proof {
                assert(points_view(rev@) =~= inv_seq(
                    c,
                    angle as int,
                    base_radius as int,
                    tooth_face,
                ));
                assert forall|i: int| 0 <= i < rev@.len() implies in_outside(rev@[i]@, c) by {
                    assert(!inv_stop(
                        c,
                        start as int,
                        base_radius as int,
                        fwd@.len() - 1 - i,
                        tooth_face,
                    ));
                }
            }
            rev
        },
    }
}

/// Whether the radii stand in the physically meaningful order
/// `root <= base <= pitch <= outside`.  Geometry generation proceeds
/// without it, but produces empty or truncated tooth curves; callers may
/// surface a warning.
pub fn radii_ordered(config: &GearConfig) -> (r: bool)
    ensures
        r == (config.root_circle_radius <= config.base_circle_radius
            && config.base_circle_radius <= config.pitch_circle_radius
            && config.pitch_circle_radius <= config.outside_circle_radius),
{
    config.root_circle_radius <= config.base_circle_radius
        && config.base_circle_radius <= config.pitch_circle_radius
        && config.pitch_circle_radius <= config.outside_circle_radius
}

/// The polyline of one whole tooth: the front face, then the back face
/// traced from half a tooth step further on, corrected by the involute
/// offset.
pub open spec fn tooth_seq(c: GearConfig, angle: int, radius: int) -> Seq<(int, int)> {
    inv_seq(c, angle, radius, ToothFace::Front) + inv_seq(
        c,
        angle + sdiv(c.step_angle as int, 2) - c.involute_offset,
        radius,
        ToothFace::Back,
    )
}

/// Appends one tooth's polyline (front face, then back face) to
/// `line_path`, leaving what was already there untouched.
pub fn add_tooth(config: &GearConfig, line_path: &mut Vec<Point>, angle: i64, radius: i64)
    requires
        config.wf(),
        0 <= radius <= MAX_RADIUS_FX,
        -0x3f_ff00_0000_0000 <= angle <= 0x3f_ff00_0000_0000,
    ensures
        points_view(final(line_path)@) == points_view(old(line_path)@) + tooth_seq(
            *config,
            angle as int,
            radius as int,
        ),
        forall|k: int|
            0 <= k < old(line_path)@.len() ==> final(line_path)@[k] == old(line_path)@[k],
        forall|k: int|
            old(line_path)@.len() <= k < final(line_path)@.len() ==> in_outside(
                #[trigger] final(line_path)@[k]@,
                *config,
            ),
{
    let mut front: Vec<Point> = involute(config, angle, radius, ToothFace::Front);
    let half: i64 = muldiv(config.step_angle, 1, 2);
    proof {
        lemma_sdiv_bound(config.step_angle as int * 1, 2, 23592960);
    }
    let back_angle: i64 = angle + half - config.involute_offset;
    let mut back: Vec<Point> = involute(config, back_angle, radius, ToothFace::Back);
    let ghost f0 = front@;
    let ghost b0 = back@;
    line_path.append(&mut front);
    line_path.append(&mut back);
    proof {
        let of = old(line_path)@;
        assert(line_path@ == of + f0 + b0);
        assert(points_view(line_path@) =~= points_view(of) + tooth_seq(
            *config,
            angle as int,
            radius as int,
        ));
        assert forall|k: int|
            of.len() <= k < line_path@.len() implies in_outside(line_path@[k]@, *config) by {
            if k < of.len() + f0.len() {
                assert(line_path@[k] == f0[k - of.len()]);
                assert(in_outside(f0[k - of.len()]@, *config));
            } else {
                assert(line_path@[k] == b0[k - of.len() - f0.len()]);
                assert(in_outside(b0[k - of.len() - f0.len()]@, *config));
            }
        }
    }
}

/// The closed polyline of the whole gear: fifteen teeth, in ascending
/// tooth order, one tooth step apart.
pub open spec fn gear_seq(c: GearConfig, n: nat) -> Seq<(int, int)>
    decreases n,
{
    if n == 0 {
        Seq::empty()
    } else {
        gear_seq(c, (n - 1) as nat) + tooth_seq(
            c,
            (n - 1) * c.step_angle,
            c.root_circle_radius as int,
        )
    }
}

/// Builds the gear outline: the concatenated tooth polylines of all
/// fifteen teeth, every point strictly inside the outside circle.
pub fn gear_path(config: &GearConfig) -> (r: Vec<Point>)
    requires
        config.wf(),
    ensures
        points_view(r@) == gear_seq(*config, 15),
        forall|k: int| 0 <= k < r@.len() ==> in_outside(#[trigger] r@[k]@, *config),
{
    let mut line_path: Vec<Point> = Vec::new();
    let mut i: i64 = 0;
    proof {
        assert(points_view(line_path@) =~= gear_seq(*config, 0));
    }
    while i < 15
        invariant
            config.wf(),
            0 <= i <= 15,
            points_view(line_path@) == gear_seq(*config, i as nat),
            forall|k: int|
                0 <= k < line_path@.len() ==> in_outside(#[trigger] line_path@[k]@, *config),
        decreases 15 - i,
    {
        proof {
            assert(0 <= i as int * config.step_angle as int <= 353894400) by (nonlinear_arith)
                requires
                    0 <= i as int <= 14,
                    0 <= config.step_angle as int <= 23592960,
            ;
        }
        let angle: i64 = i * config.step_angle;
        add_tooth(config, &mut line_path, angle, config.root_circle_radius);
        i = i + 1;
    }
    line_path
}

/// Where the spoke of tooth `i` ends: the point of the outside circle at
/// the tooth's angle, shifted by the gear's offset.
pub open spec fn spoke_tip(c: GearConfig, i: int) -> (int, int) {
    let cs = cossin_of(phase_of_deg(i * c.step_angle));
    (
        sdiv(c.outside_circle_radius * cs.0, 0x8000_0000) + c.x_offset,
        sdiv(c.outside_circle_radius * cs.1, 0x8000_0000) + c.y_offset,
    )
}

/// One spoke per tooth: a segment from the gear's center, as placed by
/// the offsets, to the outside circle at the tooth's angle.
pub fn gear_spokes(config: &GearConfig) -> (r: Vec<(Point, Point)>)
    requires
        config.wf(),
    ensures
        r@.len() == 15,
        forall|i: int|
            0 <= i < 15 ==> (#[trigger] r@[i]).0@ == (config.x_offset as int,
            config.y_offset as int),
        forall|i: int| 0 <= i < 15 ==> (#[trigger] r@[i]).1@ == spoke_tip(*config, i),
{
    let mut spokes: Vec<(Point, Point)> = Vec::new();
    let mut i: i64 = 0;
    while i < 15
        invariant
            config.wf(),
            0 <= i <= 15,
            spokes@.len() == i,
            forall|k: int|
                0 <= k < i ==> (#[trigger] spokes@[k]).0@ == (config.x_offset as int,
                config.y_offset as int),
            forall|k: int| 0 <= k < i ==> (#[trigger] spokes@[k]).1@ == spoke_tip(*config, k),
        decreases 15 - i,
    {
        proof {
            assert(0 <= i as int * config.step_angle as int <= 353894400) by (nonlinear_arith)
                requires
                    0 <= i as int <= 14,
                    0 <= config.step_angle as int <= 23592960,
            ;
        }
        let angle: i64 = i * config.step_angle;
        let cs: (i32, i32) = cossin(deg_to_phase(angle));
        proof {
            assert(-0x2000_0000_0000_0000 <= config.outside_circle_radius as int * (cs.0 as int)
                <= 0x2000_0000_0000_0000 && -0x2000_0000_0000_0000
                <= config.outside_circle_radius as int * (cs.1 as int)
                <= 0x2000_0000_0000_0000) by (nonlinear_arith)
                requires
                    0 <= config.outside_circle_radius as int <= 0x4000_0000,
                    -0x8000_0000 <= cs.0 as int <= 0x8000_0000,
                    -0x8000_0000 <= cs.1 as int <= 0x8000_0000,
            ;
        }
        let sx: i64 = muldiv(config.outside_circle_radius, cs.0 as i64, 0x8000_0000);
        let sy: i64 = muldiv(config.outside_circle_radius, cs.1 as i64, 0x8000_0000);
        proof {
            lemma_sdiv_bound(
                config.outside_circle_radius as int * (cs.0 as int),
                0x8000_0000,
                0x4000_0000,
            );
            lemma_sdiv_bound(
                config.outside_circle_radius as int * (cs.1 as int),
                0x8000_0000,
                0x4000_0000,
            );
        }
        let v1 = Point { x: config.x_offset, y: config.y_offset };
        let v2 = Point { x: sx + config.x_offset, y: sy + config.y_offset };
        spokes.push((v1, v2));
        i = i + 1;
    }
    spokes
}

/// Running the offset calculator on an already corrected configuration
/// is a fixed point: the correction reads only the pitch circle, root
/// circle and pressure angle, which it does not change.
pub proof fn lemma_corrected_idempotent(c: GearConfig)
    ensures
        corrected(corrected(c)) == corrected(c),
{
}

} // verus!
