use warbler_grass::error::GrassError;
use warbler_grass::grass_spawner::{
    GrassBlade, GrassSpawner, HeightMap, HeightRepresentation,
};
use warbler_grass::types::{Vec2Fixed, Vec3Fixed, FIXED_ONE};

fn xz(values: &[(i32, i32)]) -> Vec<Vec2Fixed> {
    values.iter().map(|&(x, y)| Vec2Fixed { x, y }).collect()
}

#[test]
fn new_descriptor_is_empty() {
    let s = GrassSpawner::new();
    assert!(s.positions_xz.is_empty());
    assert!(s.positions_y.is_empty());
    assert!(s.height_map.is_none());
    assert!(!s.flags.xz_defined);
    assert!(!s.flags.y_defined);
    assert!(!s.flags.height_defined);
    assert!(!s.flags.height_map);
    match s.heights {
        HeightRepresentation::Uniform(h) => assert_eq!(h, FIXED_ONE),
        HeightRepresentation::PerBlade(_) => panic!("fresh descriptor must be uniform"),
    }
}

#[test]
fn with_positions_xz_sets_positions() {
    let s = GrassSpawner::new()
        .with_positions_xz(xz(&[(0, 0), (FIXED_ONE, 0)]))
        .unwrap();
    assert_eq!(s.positions_xz.len(), 2);
    assert!(s.flags.xz_defined);
    assert!(!s.flags.y_defined);
}

#[test]
fn with_positions_xz_rejects_empty() {
    assert_eq!(
        GrassSpawner::new().with_positions_xz(Vec::new()),
        Err(GrassError::EmptyPositions)
    );
}

#[test]
fn with_positions_xz_rejects_redefinition() {
    let s = GrassSpawner::new().with_positions_xz(xz(&[(0, 0)])).unwrap();
    assert_eq!(
        s.with_positions_xz(xz(&[(1, 1)])),
        Err(GrassError::XzAlreadyDefined)
    );
}

#[test]
fn with_positions_y_rejects_redefinition() {
    let s = GrassSpawner::new().with_positions_y(vec![0, 0]).unwrap();
    assert_eq!(
        s.with_positions_y(vec![0, 0]),
        Err(GrassError::YAlreadyDefined)
    );
}

#[test]
fn with_positions_y_rejects_heightmap_conflict() {
    let s = GrassSpawner::new()
        .with_height_map(HeightMap { height_map: 7, height: FIXED_ONE })
        .unwrap();
    assert_eq!(
        s.with_positions_y(vec![0]),
        Err(GrassError::YAlreadyDefined)
    );
}

#[test]
fn with_height_map_rejects_explicit_y_conflict() {
    let s = GrassSpawner::new().with_positions_y(vec![0]).unwrap();
    assert_eq!(
        s.with_height_map(HeightMap { height_map: 7, height: FIXED_ONE }),
        Err(GrassError::YAlreadyDefined)
    );
}

#[test]
fn with_heights_rejects_empty() {
    assert_eq!(
        GrassSpawner::new().with_heights(Vec::new()),
        Err(GrassError::EmptyHeights)
    );
}

#[test]
fn with_heights_rejects_non_positive() {
    assert_eq!(
        GrassSpawner::new().with_heights(vec![FIXED_ONE, 0]),
        Err(GrassError::NonPositiveHeight)
    );
    assert_eq!(
        GrassSpawner::new().with_height_uniform(-FIXED_ONE),
        Err(GrassError::NonPositiveHeight)
    );
}

#[test]
fn validate_accepts_agreeing_lengths() {
    let s = GrassSpawner::new()
        .with_positions_xz(xz(&[(0, 0), (FIXED_ONE, 0)]))
        .unwrap()
        .with_positions_y(vec![0, FIXED_ONE])
        .unwrap()
        .with_heights(vec![FIXED_ONE, 2 * FIXED_ONE])
        .unwrap();
    assert_eq!(s.validate(), Ok(()));
}

#[test]
fn validate_fails_exactly_on_length_disagreement() {
    // Disagreement between xz and y is caught at definition time.
    let s = GrassSpawner::new()
        .with_positions_xz(xz(&[(0, 0), (FIXED_ONE, 0)]))
        .unwrap();
    assert_eq!(
        s.with_positions_y(vec![0, 0, 0]),
        Err(GrassError::LengthMismatch)
    );
    // Disagreement between per-blade heights and the position arrays.
    let s = GrassSpawner::new()
        .with_positions_xz(xz(&[(0, 0), (FIXED_ONE, 0)]))
        .unwrap();
    assert_eq!(
        s.with_heights(vec![FIXED_ONE]),
        Err(GrassError::LengthMismatch)
    );
    // A uniform height never disagrees.
    let s = GrassSpawner::new()
        .with_positions_xz(xz(&[(0, 0), (FIXED_ONE, 0)]))
        .unwrap()
        .with_height_uniform(5 * FIXED_ONE)
        .unwrap();
    assert_eq!(s.validate(), Ok(()));
}

#[test]
fn with_positions_splits_into_xz_and_y() {
    let s = GrassSpawner::new()
        .with_positions(vec![
            Vec3Fixed { x: 1, y: 2, z: 3 },
            Vec3Fixed { x: 4, y: 5, z: 6 },
        ])
        .unwrap();
    assert_eq!(s.positions_xz, vec![Vec2Fixed { x: 1, y: 3 }, Vec2Fixed { x: 4, y: 6 }]);
    assert_eq!(s.positions_y, vec![2, 5]);
    assert!(s.flags.xz_defined && s.flags.y_defined);
}

#[test]
fn from_grass_blades_splits_all_fields() {
    let s = GrassSpawner::new()
        .from_grass_blades(vec![
            GrassBlade { position: Vec3Fixed { x: 1, y: 2, z: 3 }, height: FIXED_ONE },
            GrassBlade { position: Vec3Fixed { x: 4, y: 5, z: 6 }, height: 2 * FIXED_ONE },
        ])
        .unwrap();
    assert_eq!(s.positions_xz, vec![Vec2Fixed { x: 1, y: 3 }, Vec2Fixed { x: 4, y: 6 }]);
    assert_eq!(s.positions_y, vec![2, 5]);
    match &s.heights {
        HeightRepresentation::PerBlade(h) => assert_eq!(h, &vec![FIXED_ONE, 2 * FIXED_ONE]),
        HeightRepresentation::Uniform(_) => panic!("blade heights must be per blade"),
    }
    assert!(s.flags.xz_defined && s.flags.y_defined && s.flags.height_defined);
}

#[test]
fn bounds_use_nominal_unit_height() {
    // A single blade at (1, 0, 1) with uniform height 2.0: the box ignores
    // the configured height and spans one nominal unit vertically.
    let s = GrassSpawner::new()
        .with_positions(vec![Vec3Fixed { x: FIXED_ONE, y: 0, z: FIXED_ONE }])
        .unwrap()
        .with_height_uniform(2 * FIXED_ONE)
        .unwrap();
    let aabb = s.calculate_aabb();
    assert_eq!(
        (aabb.min.x, aabb.min.y, aabb.min.z),
        (FIXED_ONE as i64, 0, FIXED_ONE as i64)
    );
    assert_eq!(
        (aabb.max.x, aabb.max.y, aabb.max.z),
        (FIXED_ONE as i64, FIXED_ONE as i64, FIXED_ONE as i64)
    );
}

#[test]
fn bounds_with_heightmap_span_its_height() {
    let s = GrassSpawner::new()
        .with_positions_xz(xz(&[(-FIXED_ONE, 0), (FIXED_ONE, 3 * FIXED_ONE)]))
        .unwrap()
        .with_height_map(HeightMap { height_map: 9, height: 4 * FIXED_ONE })
        .unwrap();
    let aabb = s.calculate_aabb();
    assert_eq!(aabb.min.x, -(FIXED_ONE as i64));
    assert_eq!(aabb.min.y, 0);
    assert_eq!(aabb.min.z, 0);
    assert_eq!(aabb.max.x, FIXED_ONE as i64);
    assert_eq!(aabb.max.y, 4 * FIXED_ONE as i64);
    assert_eq!(aabb.max.z, 3 * FIXED_ONE as i64);
}
