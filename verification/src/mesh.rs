//! Triangle-fan mesh for the gear outline.
//!
//! The mesh anchors one vertex at the gear center and fans out to every
//! point of the gear polyline, closing with a final triangle back to the
//! first rim vertex.  Texture coordinates alternate between two corners
//! per rim vertex, striping the texture around the gear.  The gear lies
//! in the x/z plane, as the render harness expects for its floor grid.

use vstd::prelude::*;
use vstd::arithmetic::div_mod::lemma_fundamental_div_mod_converse_div;
use vstd::arithmetic::div_mod::lemma_fundamental_div_mod_converse_mod;
use crate::gears::GearConfig;
use crate::gears::MAX_RADIUS_FX;
use crate::gears::Point;
use crate::gears::gear_path;
use crate::gears::gear_seq;
use crate::gears::in_outside;
use crate::gears::points_view;

verus! {

/// A mesh vertex: a position in 3-space and texture coordinates, all in
/// fixed point.
#[derive(Clone, Copy, Debug, PartialEq, Eq, Structural)]
pub struct MeshVertex {
    pub x: i64,
    pub y: i64,
    pub z: i64,
    pub u: i64,
    pub v: i64,
}

/// A triangle mesh: vertices, and triples of indices into them.
#[derive(Debug)]
pub struct GearMesh {
    pub vertices: Vec<MeshVertex>,
    pub indices: Vec<u16>,
}

/// The fan's anchor: the gear center, placed by the offsets, with the
/// texture's origin corner.
pub open spec fn center_vertex(c: GearConfig) -> MeshVertex {
    MeshVertex { x: c.x_offset, y: 0, z: c.y_offset, u: 0, v: 0 }
}

/// Rim vertex `i`: polyline point `p` placed by the offsets, with the
/// texture corner alternating by index.
pub open spec fn rim_vertex(c: GearConfig, p: (int, int), i: int) -> MeshVertex {
    MeshVertex {
        x: (c.x_offset + p.0) as i64,
        y: 0,
        z: (c.y_offset + p.1) as i64,
        u: 65536,
        v: if i % 2 == 0 { 0 } else { 65536 },
    }
}

/// Entry `k` of the fan's index list over `n` rim vertices: triangle
/// `k / 3` is `(0, t + 1, t + 2)` for `t` up to `n - 2`, and the last
/// triangle closes the fan with `(0, 1, n)`.
pub open spec fn fan_entry(n: int, k: int) -> int {
    let t = k / 3;
    let r = k % 3;
    if t < n - 1 {
        if r == 0 {
            0
        } else if r == 1 {
            t + 1
        } else {
            t + 2
        }
    } else {
        if r == 0 {
            0
        } else if r == 1 {
            1
        } else {
            n
        }
    }
}

/// The whole fan index list over `n` rim vertices: `n - 1` wedge
/// triangles and one closing triangle.
pub open spec fn fan_indices(n: int) -> Seq<int> {
    Seq::new((3 * n) as nat, |k: int| fan_entry(n, k))
}

/// A point strictly inside the outside circle has both coordinates
/// within the radius bound.
proof fn lemma_in_outside_bounds(p: (int, int), c: GearConfig)
    requires
        in_outside(p, c),
        c.wf(),
    ensures
        -MAX_RADIUS_FX <= p.0 <= MAX_RADIUS_FX,
        -MAX_RADIUS_FX <= p.1 <= MAX_RADIUS_FX,
{
    assert(-0x4000_0000 <= p.0 <= 0x4000_0000 && -0x4000_0000 <= p.1 <= 0x4000_0000)
        by (nonlinear_arith)
        requires
            p.0 * p.0 + p.1 * p.1 < c.outside_circle_radius * c.outside_circle_radius,
            0 <= c.outside_circle_radius <= 0x4000_0000,
    ;
}

/// Position `3 * t + r` of the index list belongs to triangle `t`.
proof fn lemma_triple_position(t: int, r: int)
    requires
        0 <= t,
        0 <= r < 3,
    ensures
        (3 * t + r) / 3 == t,
        (3 * t + r) % 3 == r,
{
    assert(3 * t + r == t * 3 + r);
    lemma_fundamental_div_mod_converse_div(3 * t + r, 3, t, r);
    lemma_fundamental_div_mod_converse_mod(3 * t + r, 3, t, r);
}

/// Builds the triangle-fan mesh of the gear outline: the center vertex,
/// one rim vertex per polyline point, and the fan's index list.  A
/// degenerate polyline (fewer than two points), or one too long for
/// 16-bit indices, yields an empty index list.
pub fn gear_mesh(config: &GearConfig) -> (m: GearMesh)
    requires
        config.wf(),
    ensures
        m.vertices@.len() == gear_seq(*config, 15).len() + 1,
        m.vertices@[0] == center_vertex(*config),
        forall|i: int|
            0 <= i < gear_seq(*config, 15).len() ==> m.vertices@[i + 1] == rim_vertex(
                *config,
                #[trigger] gear_seq(*config, 15)[i],
                i,
            ),
        2 <= gear_seq(*config, 15).len() <= 65535 ==> m.indices@.map_values(|x: u16| x as int)
            == fan_indices(gear_seq(*config, 15).len() as int),
        !(2 <= gear_seq(*config, 15).len() <= 65535) ==> m.indices@.len() == 0,
        forall|k: int|
            0 <= k < m.indices@.len() ==> (#[trigger] m.indices@[k]) < m.vertices@.len(),
{
    let ghost c = *config;
    let path: Vec<Point> = gear_path(config);
    let ghost gs = gear_seq(c, 15);

    let mut vertices: Vec<MeshVertex> = Vec::new();
    vertices.push(MeshVertex { x: config.x_offset, y: 0, z: config.y_offset, u: 0, v: 0 });
    let mut i: usize = 0;
    while i < path.len()
        invariant
            config.wf(),
            c == *config,
            points_view(path@) == gs,
            gs == gear_seq(c, 15),
            forall|k: int| 0 <= k < path@.len() ==> in_outside(#[trigger] path@[k]@, c),
            i <= path@.len(),
            vertices@.len() == i + 1,
            vertices@[0] == center_vertex(c),
            forall|k: int|
                0 <= k < i ==> vertices@[k + 1] == rim_vertex(c, #[trigger] gs[k], k),
        decreases path@.len() - i,
    {
        let p: Point = path[i];
        proof {
            lemma_in_outside_bounds(p@, c);
            assert(gs[i as int] == p@);
        }
        let vv: i64 = if i % 2 == 0 {
            0
        } else {
            65536
        };
        vertices.push(
            MeshVertex {
                x: config.x_offset + p.x,
                y: 0,
                z: config.y_offset + p.y,
                u: 65536,
                v: vv,
            },
        );
        i = i + 1;
    }

    let n: usize = path.len();
    let mut indices: Vec<u16> = Vec::new();
    if 2 <= n && n <= 65535 {
        let mut t: usize = 1;
        while t < n
            invariant
                2 <= n <= 65535,
                1 <= t <= n,
                indices@.len() == 3 * (t - 1),
                forall|k: int|
                    0 <= k < indices@.len() ==> (#[trigger] indices@[k]) as int == fan_entry(
                        n as int,
                        k,
                    ),
                forall|k: int| 0 <= k < indices@.len() ==> (#[trigger] indices@[k]) <= n,
            decreases n - t,
        {
            indices.push(0);
            indices.push(t as u16);
            indices.push((t + 1) as u16);
            proof {
                assert forall|k: int|
                    3 * (t - 1) <= k < 3 * t implies (#[trigger] indices@[k]) as int == fan_entry(
                        n as int,
                        k,
                    ) by {
                    lemma_triple_position(t - 1, k - 3 * (t - 1));
                }
            }
            t = t + 1;
        }
        indices.push(0);
        indices.push(1);
        indices.push(n as u16);
        proof {
            assert forall|k: int|
                3 * (n - 1) <= k < 3 * n implies (#[trigger] indices@[k]) as int == fan_entry(
                    n as int,
                    k,
                ) by {
                lemma_triple_position(n as int - 1, k - 3 * (n as int - 1));
            }
            assert(indices@.map_values(|x: u16| x as int) =~= fan_indices(n as int));
        }
    }

    proof {
        assert(gs.len() == path@.len());
    }
    GearMesh { vertices, indices }
}

} // verus!
