use gears::fxp::SCALE;
use gears::gears::set_involute_offset;
use gears::gears::gear_path;
use gears::gears::gear_spokes;
use gears::gears::involute;
use gears::gears::GearConfig;
use gears::gears::GearError;
use gears::gears::Point;
use gears::gears::ToothFace;
use gears::mesh::gear_mesh;

fn fx(v: f64) -> i64 {
    (v * SCALE as f64).round() as i64
}

fn from_fx(v: i64) -> f64 {
    v as f64 / SCALE as f64
}

fn radius_sq(p: &Point) -> i128 {
    (p.x as i128) * (p.x as i128) + (p.y as i128) * (p.y as i128)
}

/// The stock configuration, corrected.
fn corrected_default() -> GearConfig {
    let mut config = GearConfig::default();
    set_involute_offset(&mut config).unwrap();
    config
}

#[test]
fn offset_correctness() {
    let mut config = GearConfig::default();
    assert_eq!(config.pitch_circle_radius, fx(350.0));
    assert_eq!(config.root_circle_radius, fx(300.0));
    assert_eq!(config.pressure_angle, fx(20.0));

    let r = set_involute_offset(&mut config);
    assert_eq!(r, Ok(()));

    // base circle = 350 * cos 20 degrees = 328.89 units
    let base = from_fx(config.base_circle_radius);
    assert!(base > 328.7 && base < 329.1, "base circle {base}");

    // root angle = sqrt(350^2 - 300^2) / 300 = 0.6009 radians
    let root_angle = from_fx(config.root_angle);
    assert!(root_angle > 0.597 && root_angle < 0.605, "root angle {root_angle}");

    // offset = (0.6009 - acos(300/350)) in degrees = 3.43 degrees
    let offset = from_fx(config.involute_offset);
    assert!(offset > 3.35 && offset < 3.51, "involute offset {offset}");

    // Re-running the calculator on the corrected configuration is a
    // fixed point.
    let again = {
        let mut c = config;
        set_involute_offset(&mut c).unwrap();
        c
    };
    assert_eq!(again, config);
}

#[test]
fn domain_guard_root_exceeds_pitch() {
    let mut config = GearConfig {
        root_circle_radius: fx(350.0),
        pitch_circle_radius: fx(300.0),
        ..GearConfig::default()
    };
    let before = config;
    let r = set_involute_offset(&mut config);
    assert_eq!(r, Err(GearError::InvalidConfig));
    assert_eq!(config, before);
}

#[test]
fn domain_guard_nonpositive_radius() {
    let mut config = GearConfig { root_circle_radius: 0, ..GearConfig::default() };
    let before = config;
    assert_eq!(set_involute_offset(&mut config), Err(GearError::InvalidConfig));
    assert_eq!(config, before);

    let mut config = GearConfig { pitch_circle_radius: 0, ..GearConfig::default() };
    assert_eq!(set_involute_offset(&mut config), Err(GearError::InvalidConfig));

    let mut config = GearConfig { outside_circle_radius: 0, ..GearConfig::default() };
    assert_eq!(set_involute_offset(&mut config), Err(GearError::InvalidConfig));
}

#[test]
fn monotonic_radius_front_face() {
    let config = corrected_default();
    let face = involute(&config, 0, config.root_circle_radius, ToothFace::Front);
    assert!(face.len() > 1, "expected several samples, got {}", face.len());
    for w in face.windows(2) {
        assert!(radius_sq(&w[0]) <= radius_sq(&w[1]));
    }
}

#[test]
fn monotonic_radius_back_face() {
    // The back face is traced the same way and then reversed, so its
    // stored order runs tip to root: radii are non-increasing.
    let config = corrected_default();
    let face = involute(&config, 0, config.root_circle_radius, ToothFace::Back);
    assert!(face.len() > 1, "expected several samples, got {}", face.len());
    for w in face.windows(2) {
        assert!(radius_sq(&w[0]) >= radius_sq(&w[1]));
    }
}

#[test]
fn boundary_exclusion() {
    let config = corrected_default();
    let path = gear_path(&config);
    let oo = (config.outside_circle_radius as i128) * (config.outside_circle_radius as i128);
    for p in &path {
        assert!(radius_sq(p) < oo);
    }
}

fn orient(a: (i128, i128), b: (i128, i128), c: (i128, i128)) -> i128 {
    let v = (b.0 - a.0) * (c.1 - a.1) - (b.1 - a.1) * (c.0 - a.0);
    v.signum()
}

fn segments_cross(a: (i128, i128), b: (i128, i128), c: (i128, i128), d: (i128, i128)) -> bool {
    // Proper crossing only: each segment separates the other's ends.
    orient(a, b, c) * orient(a, b, d) < 0 && orient(c, d, a) * orient(c, d, b) < 0
}

#[test]
fn closed_path_simple_polygon() {
    let config = corrected_default();
    let path = gear_path(&config);
    assert!(!path.is_empty());

    let pts: Vec<(i128, i128)> = path.iter().map(|p| (p.x as i128, p.y as i128)).collect();
    let n = pts.len();
    // Every edge of the closed polygon, the implicit closing edge
    // included; no two non-adjacent edges may properly cross.
    for i in 0..n {
        for j in (i + 1)..n {
            if j == i + 1 || (i == 0 && j == n - 1) {
                continue;
            }
            let (a, b) = (pts[i], pts[(i + 1) % n]);
            let (c, d) = (pts[j], pts[(j + 1) % n]);
            assert!(
                !segments_cross(a, b, c, d),
                "edges {i} and {j} cross in the gear outline"
            );
        }
    }
}

#[test]
fn mesh_index_validity() {
    let config = corrected_default();
    let path = gear_path(&config);
    let n = path.len();
    assert!(n >= 2);

    let mesh = gear_mesh(&config);
    assert_eq!(mesh.vertices.len(), n + 1);
    // n - 1 wedge triangles plus one closing triangle.
    assert_eq!(mesh.indices.len(), 3 * n);
    for &ix in &mesh.indices {
        assert!((ix as usize) < n + 1);
    }
    // Wedge triangles fan out from the center vertex.
    for t in 0..n - 1 {
        assert_eq!(mesh.indices[3 * t], 0);
        assert_eq!(mesh.indices[3 * t + 1], (t + 1) as u16);
        assert_eq!(mesh.indices[3 * t + 2], (t + 2) as u16);
    }
    // The closing triangle returns to the first rim vertex.
    assert_eq!(mesh.indices[3 * n - 3], 0);
    assert_eq!(mesh.indices[3 * n - 2], 1);
    assert_eq!(mesh.indices[3 * n - 1], n as u16);
}

#[test]
fn mesh_vertices_follow_path() {
    let config = corrected_default();
    let path = gear_path(&config);
    let mesh = gear_mesh(&config);

    let center = &mesh.vertices[0];
    assert_eq!((center.x, center.y, center.z), (config.x_offset, 0, config.y_offset));
    assert_eq!((center.u, center.v), (0, 0));

    for (i, p) in path.iter().enumerate() {
        let v = &mesh.vertices[i + 1];
        assert_eq!(v.x, config.x_offset + p.x);
        assert_eq!(v.y, 0);
        assert_eq!(v.z, config.y_offset + p.y);
        assert_eq!(v.u, SCALE);
        assert_eq!(v.v, if i % 2 == 0 { 0 } else { SCALE });
    }
}

#[test]
fn mesh_degenerate_path_guard() {
    // An outside circle smaller than the root circle truncates every
    // tooth to nothing: the path is empty and the mesh must cope.
    let mut config = GearConfig::default();
    set_involute_offset(&mut config).unwrap();
    config.outside_circle_radius = 0;

    let path = gear_path(&config);
    assert!(path.is_empty());

    let mesh = gear_mesh(&config);
    assert_eq!(mesh.vertices.len(), 1);
    assert!(mesh.indices.is_empty());
}

#[test]
fn spoke_count() {
    let config = corrected_default();
    let spokes = gear_spokes(&config);
    assert_eq!(spokes.len(), 15);
    for (start, _tip) in &spokes {
        assert_eq!(start.x, config.x_offset);
        assert_eq!(start.y, config.y_offset);
    }
    // The first spoke points along the positive x axis: its tip sits one
    // outside-radius to the right of the center.
    let (_, tip) = &spokes[0];
    let tip_x = from_fx(tip.x - config.x_offset);
    let tip_y = from_fx(tip.y - config.y_offset);
    assert!((tip_x - 390.0).abs() < 0.1, "tip x {tip_x}");
    assert!(tip_y.abs() < 0.1, "tip y {tip_y}");
    // Every spoke tip lies on the outside circle.
    for (_, tip) in &spokes {
        let dx = from_fx(tip.x - config.x_offset);
        let dy = from_fx(tip.y - config.y_offset);
        let len = (dx * dx + dy * dy).sqrt();
        assert!((len - 390.0).abs() < 0.1, "spoke length {len}");
    }
}

#[test]
fn involute_empty_when_outside_too_small() {
    let mut config = GearConfig::default();
    set_involute_offset(&mut config).unwrap();
    config.outside_circle_radius = fx(10.0);
    let face = involute(&config, 0, config.root_circle_radius, ToothFace::Front);
    assert!(face.is_empty());
}

#[test]
fn radii_ordering_warning_flag() {
    // Before correction the base circle is still zero, so the physical
    // ordering does not hold; the derived base circle restores it.
    let config = GearConfig::default();
    assert!(!gears::gears::radii_ordered(&config));
    let config = corrected_default();
    assert!(gears::gears::radii_ordered(&config));
}

#[test]
fn default_config_values() {
    let config = GearConfig::default();
    assert_eq!(config.step_angle, fx(24.0));
    assert_eq!(config.outside_circle_radius, fx(390.0));
    assert_eq!(config.pitch_circle_radius, fx(350.0));
    assert_eq!(config.base_circle_radius, 0);
    assert_eq!(config.root_circle_radius, fx(300.0));
    assert_eq!(config.involute_offset, 0);
    assert_eq!(config.pressure_angle, fx(20.0));
    assert_eq!(config.pitch, fx(30.0));
    assert_eq!(config.x_offset, fx(50.0));
    assert_eq!(config.y_offset, fx(50.0));
    assert_eq!(config.root_angle, 0);
}
