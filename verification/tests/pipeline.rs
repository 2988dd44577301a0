use warbler_grass::cache::GrassCache;
use warbler_grass::error::GrassError;
use warbler_grass::grass_spawner::{GrassSpawner, HeightMap};
use warbler_grass::prepare::{
    add_aabb_box_to_grass, prepare_explicit_xz_buffer, prepare_explicit_y_buffer,
    prepare_height_buffer, prepare_height_map_buffer, prepare_uniform_buffers, ChunkInput,
    GrassConfiguration, ImageAssets, PendingHeightmaps, RegionUniformState,
};
use warbler_grass::texture::TextureFormat;
use warbler_grass::types::{ColorFixed, Vec2Fixed, Vec3Fixed, FIXED_ONE};

const FALLBACK_TEXTURE: u64 = 999;

fn line_descriptor(n: i32) -> GrassSpawner {
    let positions = (0..n)
        .map(|i| Vec3Fixed { x: i * FIXED_ONE, y: 0, z: 0 })
        .collect();
    GrassSpawner::new()
        .with_positions(positions)
        .unwrap()
        .with_height_uniform(FIXED_ONE)
        .unwrap()
}

fn region_config(wind_x: i32) -> GrassConfiguration {
    GrassConfiguration {
        main_color: ColorFixed { r: 0, g: FIXED_ONE, b: 0, a: FIXED_ONE },
        bottom_color: ColorFixed { r: 0, g: FIXED_ONE / 2, b: 0, a: FIXED_ONE },
        wind: Vec2Fixed { x: wind_x, y: 0 },
        wind_noise_texture: 55,
    }
}

#[test]
fn cache_registers_and_keeps_entries() {
    let mut cache = GrassCache::new();
    assert!(cache.get(1).is_none());
    cache.get_or_create(1);
    cache.get_or_create(2);
    cache.get_or_create(1);
    assert_eq!(cache.len(), 2);
    let entry = cache.get(1).unwrap();
    assert_eq!(entry.instance_count, 0);
    assert!(entry.explicit_xz_buffer.is_none());
}

#[test]
fn xz_stage_fails_fatally_without_xz_positions() {
    let mut cache = GrassCache::new();
    cache.get_or_create(1);
    let chunks = vec![ChunkInput { id: 1, spawner: GrassSpawner::new() }];
    assert_eq!(
        prepare_explicit_xz_buffer(&mut cache, &chunks),
        Err(GrassError::MissingXzPositions)
    );
    // Nothing was prepared.
    assert!(cache.get(1).unwrap().explicit_xz_buffer.is_none());
}

#[test]
fn y_stage_fails_fatally_without_y_positions() {
    let mut cache = GrassCache::new();
    cache.get_or_create(1);
    let spawner = GrassSpawner::new()
        .with_positions_xz(vec![Vec2Fixed { x: 0, y: 0 }])
        .unwrap();
    let chunks = vec![ChunkInput { id: 1, spawner }];
    assert_eq!(
        prepare_explicit_y_buffer(&mut cache, &chunks),
        Err(GrassError::MissingYPositions)
    );
}

#[test]
fn y_stage_skips_heightmap_chunks() {
    let mut cache = GrassCache::new();
    cache.get_or_create(1);
    let spawner = GrassSpawner::new()
        .with_positions_xz(vec![Vec2Fixed { x: 0, y: 0 }])
        .unwrap()
        .with_height_map(HeightMap { height_map: 5, height: FIXED_ONE })
        .unwrap();
    let chunks = vec![ChunkInput { id: 1, spawner }];
    assert_eq!(prepare_explicit_y_buffer(&mut cache, &chunks), Ok(()));
    assert!(cache.get(1).unwrap().explicit_y_buffer.is_none());
}

#[test]
fn unregistered_chunks_are_skipped_not_fatal() {
    let mut cache = GrassCache::new();
    let chunks = vec![ChunkInput { id: 42, spawner: line_descriptor(3) }];
    assert_eq!(prepare_explicit_xz_buffer(&mut cache, &chunks), Ok(()));
    assert!(cache.get(42).is_none());
}

#[test]
fn end_to_end_five_blades_pack_into_side_three() {
    // xz = [(0,0),(1,0),(2,0),(3,0),(4,0)], uniform height 1.0: instance
    // count 5 and a packed height texture of side 3, the first five entries
    // 1.0 and the remaining four the default 0.
    let mut cache = GrassCache::new();
    cache.get_or_create(7);
    let chunks = vec![ChunkInput { id: 7, spawner: line_descriptor(5) }];
    assert_eq!(prepare_explicit_xz_buffer(&mut cache, &chunks), Ok(()));
    prepare_height_buffer(&mut cache, &chunks);
    assert_eq!(prepare_explicit_y_buffer(&mut cache, &chunks), Ok(()));

    let entry = cache.get(7).unwrap();
    assert_eq!(entry.instance_count, 5);
    assert!(entry.flags.xz_defined && entry.flags.y_defined && entry.flags.height_defined);

    let xz_tex = entry.explicit_xz_buffer.as_ref().unwrap();
    assert_eq!(xz_tex.side, 3);
    assert_eq!(xz_tex.format, TextureFormat::Rg32);
    assert_eq!(xz_tex.texels[4], Vec2Fixed { x: 4 * FIXED_ONE, y: 0 });

    let height_tex = entry.height_buffer.as_ref().unwrap();
    assert_eq!(height_tex.side, 3);
    assert_eq!(height_tex.format, TextureFormat::R32);
    assert_eq!(&height_tex.texels[..5], &[FIXED_ONE; 5]);
    assert_eq!(&height_tex.texels[5..], &[0, 0, 0, 0]);

    let y_tex = entry.explicit_y_buffer.as_ref().unwrap();
    assert_eq!(y_tex.side, 3);
    assert_eq!(&y_tex.texels[..5], &[0; 5]);
}

#[test]
fn uniform_stage_uploads_once_per_change() {
    let mut cache = GrassCache::new();
    cache.get_or_create(1);
    cache.get_or_create(2);
    let images = ImageAssets::new();
    let mut state = RegionUniformState::new();
    let config = region_config(FIXED_ONE);

    // First pass uploads and binds every chunk.
    assert!(prepare_uniform_buffers(&mut cache, &config, &images, FALLBACK_TEXTURE, &mut state));
    let first = *cache.get(1).unwrap().uniform_bindgroup.as_ref().unwrap();
    assert_eq!(first.texture, FALLBACK_TEXTURE);
    assert_eq!(first.config.wind, Vec2Fixed { x: FIXED_ONE, y: 0 });

    // Unchanged configuration and texture identity: zero re-uploads.
    assert!(!prepare_uniform_buffers(&mut cache, &config, &images, FALLBACK_TEXTURE, &mut state));

    // A changed wind vector triggers exactly one re-upload and updates every
    // registered chunk's shared binding.
    let changed = region_config(2 * FIXED_ONE);
    assert!(prepare_uniform_buffers(&mut cache, &changed, &images, FALLBACK_TEXTURE, &mut state));
    for id in [1u64, 2u64] {
        let binding = cache.get(id).unwrap().uniform_bindgroup.as_ref().unwrap().clone();
        assert_eq!(binding.config.wind, Vec2Fixed { x: 2 * FIXED_ONE, y: 0 });
    }
    assert!(!prepare_uniform_buffers(&mut cache, &changed, &images, FALLBACK_TEXTURE, &mut state));
}

#[test]
fn uniform_stage_rebinds_when_texture_resolves() {
    let mut cache = GrassCache::new();
    cache.get_or_create(1);
    let mut images = ImageAssets::new();
    let mut state = RegionUniformState::new();
    let config = region_config(FIXED_ONE);

    assert!(prepare_uniform_buffers(&mut cache, &config, &images, FALLBACK_TEXTURE, &mut state));
    // The wind-noise image finishes loading: its identity changes, so the
    // next pass re-uploads.
    images.insert(55, 1234);
    assert!(prepare_uniform_buffers(&mut cache, &config, &images, FALLBACK_TEXTURE, &mut state));
    assert_eq!(cache.get(1).unwrap().uniform_bindgroup.as_ref().unwrap().texture, 1234);
    assert!(!prepare_uniform_buffers(&mut cache, &config, &images, FALLBACK_TEXTURE, &mut state));
}

#[test]
fn heightmap_pending_resolution() {
    let mut cache = GrassCache::new();
    cache.get_or_create(3);
    let spawner = GrassSpawner::new()
        .with_positions_xz(vec![Vec2Fixed { x: 0, y: 0 }, Vec2Fixed { x: FIXED_ONE, y: 0 }])
        .unwrap()
        .with_height_map(HeightMap { height_map: 11, height: 2 * FIXED_ONE })
        .unwrap();
    let chunks = add_aabb_box_to_grass(vec![ChunkInput { id: 3, spawner }]);
    let mut images = ImageAssets::new();
    let mut pending = PendingHeightmaps::new();

    // The texture is not loaded: the chunk stays out of bound-heightmap
    // state across several frames, waiting in the pending set.
    for _frame in 0..3 {
        prepare_height_map_buffer(&mut cache, &chunks, &images, FALLBACK_TEXTURE, &mut pending);
        assert!(cache.get(3).unwrap().height_map.is_none());
        assert!(pending.contains(3));
    }

    // The first frame where the texture is available binds it and clears
    // the pending entry, with no call beyond re-running the pass.
    images.insert(11, 777);
    prepare_height_map_buffer(&mut cache, &chunks, &images, FALLBACK_TEXTURE, &mut pending);
    let binding = cache.get(3).unwrap().height_map.as_ref().unwrap().clone();
    assert_eq!(binding.texture, 777);
    // The scale buffer holds the bounding-box extents.
    assert_eq!(binding.scale.x, FIXED_ONE as i64);
    assert_eq!(binding.scale.y, 2 * FIXED_ONE as i64);
    assert_eq!(binding.scale.z, 0);
    assert!(!pending.contains(3));
}

#[test]
fn chunks_without_heightmap_bind_the_fallback() {
    let mut cache = GrassCache::new();
    cache.get_or_create(4);
    let chunks = add_aabb_box_to_grass(vec![ChunkInput { id: 4, spawner: line_descriptor(2) }]);
    let images = ImageAssets::new();
    let mut pending = PendingHeightmaps::new();
    prepare_height_map_buffer(&mut cache, &chunks, &images, FALLBACK_TEXTURE, &mut pending);
    let binding = cache.get(4).unwrap().height_map.as_ref().unwrap().clone();
    assert_eq!(binding.texture, FALLBACK_TEXTURE);
    assert_eq!((binding.scale.x, binding.scale.y, binding.scale.z), (0, 0, 0));
    assert!(!pending.contains(4));
}

#[test]
fn stages_write_only_their_own_binding() {
    let mut cache = GrassCache::new();
    cache.get_or_create(1);
    let inputs = vec![ChunkInput { id: 1, spawner: line_descriptor(2) }];
    assert_eq!(prepare_explicit_xz_buffer(&mut cache, &inputs), Ok(()));
    assert!(cache.get(1).unwrap().height_buffer.is_none());
    assert!(cache.get(1).unwrap().explicit_y_buffer.is_none());
    prepare_height_buffer(&mut cache, &inputs);
    assert!(cache.get(1).unwrap().explicit_xz_buffer.is_some());
    assert!(cache.get(1).unwrap().height_buffer.is_some());
    assert!(cache.get(1).unwrap().explicit_y_buffer.is_none());
    assert_eq!(prepare_explicit_y_buffer(&mut cache, &inputs), Ok(()));
    assert!(cache.get(1).unwrap().explicit_y_buffer.is_some());
    assert!(cache.get(1).unwrap().uniform_bindgroup.is_none());
}
