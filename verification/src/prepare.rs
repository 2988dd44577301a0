//! The per-frame resource preparation pipeline: five independent stages that
//! turn changed placement descriptors into cache bindings, plus the shared
//! region configuration they broadcast.

use vstd::prelude::*;

use crate::cache::{
    height_map_updated, uniform_updated, CacheSlot, GrassCache, GrassInstanceData,
    HeightMapBinding, RegionBinding,
};
use crate::error::GrassError;
use crate::grass_spawner::{GrassSpawner, HeightRepresentation};
use crate::texture::{is_packed, pack_to_texture, TextureFormat, MAX_PACK_LEN};
use crate::types::{Aabb, ColorFixed, Vec2Fixed, Vec3World};

verus! {

/// Process-wide rendering parameters shared by all chunks, mutated by
/// application code between frames and snapshot-read once per frame.
#[derive(Clone, Copy, PartialEq, Eq, Structural, Debug)]
pub struct GrassConfiguration {
    pub main_color: ColorFixed,
    pub bottom_color: ColorFixed,
    pub wind: Vec2Fixed,
    /// The externally assigned identifier of the wind-noise image asset.
    pub wind_noise_texture: u64,
}

/// The shader-facing copy of the region configuration, laid out as the
/// uniform buffer expects it.
#[derive(Clone, Copy, PartialEq, Eq, Structural, Debug)]
pub struct ShaderRegionConfiguration {
    pub main_color: ColorFixed,
    pub bottom_color: ColorFixed,
    pub wind: Vec2Fixed,
    /// Kept zero: uniform buffers are padded to a 16-byte boundary.
    pub wasm_padding: Vec2Fixed,
}

/// The shader-facing record derived from a region configuration.
pub open spec fn spec_shader_config(config: GrassConfiguration) -> ShaderRegionConfiguration {
    ShaderRegionConfiguration {
        main_color: config.main_color,
        bottom_color: config.bottom_color,
        wind: config.wind,
        wasm_padding: Vec2Fixed { x: 0, y: 0 },
    }
}

impl From<GrassConfiguration> for ShaderRegionConfiguration {
    fn from(config: GrassConfiguration) -> (r: Self) {
        ShaderRegionConfiguration {
            main_color: config.main_color,
            bottom_color: config.bottom_color,
            wind: config.wind,
            wasm_padding: Vec2Fixed { x: 0, y: 0 },
        }
    }
}

impl vstd::std_specs::convert::FromSpecImpl<GrassConfiguration> for ShaderRegionConfiguration {
    open spec fn obeys_from_spec() -> bool {
        true
    }

    open spec fn from_spec(config: GrassConfiguration) -> Self {
        spec_shader_config(config)
    }
}

/// One chunk handed to a preparation stage: its externally assigned stable
/// identifier and its placement descriptor.
pub struct ChunkInput {
    pub id: u64,
    pub spawner: GrassSpawner,
}

/// One chunk with its bounding box attached, as the heightmap stage needs it.
pub struct ChunkWithBounds {
    pub id: u64,
    pub spawner: GrassSpawner,
    pub aabb: Aabb,
}

/// No two chunks of one preparation pass share an identifier.
pub open spec fn unique_chunk_ids(chunks: Seq<ChunkInput>) -> bool {
    forall|i: int, j: int| 0 <= i < j < chunks.len() ==> chunks[i].id != chunks[j].id
}

/// No two bounded chunks of one preparation pass share an identifier.
pub open spec fn unique_bound_ids(chunks: Seq<ChunkWithBounds>) -> bool {
    forall|i: int, j: int| 0 <= i < j < chunks.len() ==> chunks[i].id != chunks[j].id
}

/// Whether some chunk of the pass carries `q`.
pub open spec fn spec_has_chunk(chunks: Seq<ChunkInput>, q: u64) -> bool {
    exists|i: int| 0 <= i < chunks.len() && chunks[i].id == q
}

/// Whether some bounded chunk of the pass carries `q`.
pub open spec fn spec_has_bound_chunk(chunks: Seq<ChunkWithBounds>, q: u64) -> bool {
    exists|i: int| 0 <= i < chunks.len() && chunks[i].id == q
}

/// One loaded image asset: the externally assigned handle of the image and
/// the identity of its GPU texture view.
#[derive(Clone, Copy, PartialEq, Eq, Structural, Debug)]
pub struct ImageEntry {
    pub handle: u64,
    pub texture: u64,
}

/// The texture of the first entry under `handle`, scanning left to right.
pub open spec fn spec_img_find(s: Seq<ImageEntry>, handle: u64) -> Option<u64>
    decreases s.len(),
{
    if s.len() == 0 {
        None
    } else if s[0].handle == handle {
        Some(s[0].texture)
    } else {
        spec_img_find(s.drop_first(), handle)
    }
}

/// The image assets whose GPU textures are resolvable this frame: what of
/// the external asset store a preparation pass can see. An image appears
/// here once its asset finishes loading.
pub struct ImageAssets {
    pub images: Vec<ImageEntry>,
}

impl ImageAssets {
    /// The resolved texture of `handle`, if its image has loaded.
    pub open spec fn spec_get(self, handle: u64) -> Option<u64> {
        spec_img_find(self.images@, handle)
    }

    /// No loaded images.
    pub fn new() -> (a: ImageAssets)
        ensures
            forall|q: u64| a.spec_get(q) is None,
    {
        ImageAssets { images: Vec::new() }
    }

    /// Looks the handle up.
    pub fn get(&self, handle: u64) -> (r: Option<u64>)
        ensures
            r == self.spec_get(handle),
    {
        let mut i: usize = 0;
        while i < self.images.len()
            invariant
                i <= self.images@.len(),
                forall|j: int| 0 <= j < i ==> self.images@[j].handle != handle,
            decreases self.images@.len() - i,
        {
            if self.images[i].handle == handle {
                proof {
                    lemma_img_find_at(self.images@, handle, i as int);
                }
                return Some(self.images[i].texture);
            }
            i = i + 1;
        }
        proof {
            lemma_img_find_absent(self.images@, handle);
        }
        None
    }

    /// Records that `handle` resolved to `texture`; a newer resolution of
    /// the same handle shadows an older one.
    pub fn insert(&mut self, handle: u64, texture: u64)
        ensures
            final(self).spec_get(handle) == Some(texture),
            forall|q: u64| q != handle ==> final(self).spec_get(q) == old(self).spec_get(q),
    {
        let entry = ImageEntry { handle, texture };
        self.images.insert(0, entry);
        proof {
            assert(self.images@[0] == entry);
            assert(self.images@.drop_first() =~= old(self).images@);
        }
    }
}

proof fn lemma_img_find_absent(s: Seq<ImageEntry>, handle: u64)
    requires
        forall|j: int| 0 <= j < s.len() ==> s[j].handle != handle,
    ensures
        spec_img_find(s, handle) is None,
    decreases s.len(),
{
    if s.len() > 0 {
        assert(forall|j: int| 0 <= j < s.drop_first().len() ==> s.drop_first()[j].handle != handle);
        lemma_img_find_absent(s.drop_first(), handle);
    }
}

proof fn lemma_img_find_at(s: Seq<ImageEntry>, handle: u64, i: int)
    requires
        0 <= i < s.len(),
        s[i].handle == handle,
        forall|j: int| 0 <= j < i ==> s[j].handle != handle,
    ensures
        spec_img_find(s, handle) == Some(s[i].texture),
    decreases i,
{
    if i > 0 {
        assert(forall|j: int| 0 <= j < i - 1 ==> s.drop_first()[j].handle != handle);
        lemma_img_find_at(s.drop_first(), handle, i - 1);
    }
}

/// The chunks whose heightmap texture has not resolved yet: re-checked every
/// frame, left as soon as the texture resolves.
pub struct PendingHeightmaps {
    pub ids: Vec<u64>,
}

impl PendingHeightmaps {
    /// Each chunk is pending at most once.
    pub open spec fn wf(self) -> bool {
        forall|i: int, j: int| 0 <= i < j < self.ids@.len() ==> self.ids@[i] != self.ids@[j]
    }

    /// Whether `id` awaits its heightmap texture.
    pub open spec fn spec_contains(self, id: u64) -> bool {
        self.ids@.contains(id)
    }

    /// Nothing pending.
    pub fn new() -> (p: PendingHeightmaps)
        ensures
            p.wf(),
            forall|q: u64| !p.spec_contains(q),
    {
        PendingHeightmaps { ids: Vec::new() }
    }

    /// Whether `id` awaits its heightmap texture.
    pub fn contains(&self, id: u64) -> (r: bool)
        ensures
            r <==> self.spec_contains(id),
    {
        let mut i: usize = 0;
        while i < self.ids.len()
            invariant
                i <= self.ids@.len(),
                forall|j: int| 0 <= j < i ==> self.ids@[j] != id,
            decreases self.ids@.len() - i,
        {
            if self.ids[i] == id {
                return true;
            }
            i = i + 1;
        }
        false
    }

    /// Marks `id` pending; already-pending chunks are kept once.
    pub fn insert(&mut self, id: u64)
        requires
            old(self).wf(),
        ensures
            final(self).wf(),
            forall|q: u64| final(self).spec_contains(q) <==> old(self).spec_contains(q) || q == id,
    {
        if !self.contains(id) {
            self.ids.push(id);
            proof {
                let s0 = old(self).ids@;
                assert forall|q: u64|
                    final(self).spec_contains(q) <==> old(self).spec_contains(q) || q
                    == id by {
                    if s0.contains(q) {
                        let k = choose|k: int| 0 <= k < s0.len() && s0[k] == q;
                        assert(self.ids@[k] == q);
                    }
                    if q == id {
                        assert(self.ids@[s0.len() as int] == id);
                    }
                    if self.ids@.contains(q) {
                        let k = choose|k: int| 0 <= k < self.ids@.len() && self.ids@[k] == q;
                        if k < s0.len() {
                            assert(s0[k] == q);
                        }
                    }
                }
                assert forall|i: int, j: int|
                    0 <= i < j < self.ids@.len() implies self.ids@[i] != self.ids@[j] by {
                    if j == s0.len() {
                        assert(self.ids@[i] == s0[i]);
                        if s0[i] == id {
                            assert(s0.contains(id));
                        }
                    }
                }
            }
        }
    }

    /// Takes `id` out of the pending set.
    pub fn remove(&mut self, id: u64)
        requires
            old(self).wf(),
        ensures
            final(self).wf(),
            forall|q: u64| final(self).spec_contains(q) <==> old(self).spec_contains(q) && q != id,
    {
        let mut i: usize = 0;
        while i < self.ids.len()
            invariant
                i <= self.ids@.len(),
                forall|j: int| 0 <= j < i ==> self.ids@[j] != id,
                self.wf(),
                self == old(self),
            decreases self.ids@.len() - i,
        {
            if self.ids[i] == id {
                self.ids.remove(i);
                proof {
                    let s0 = old(self).ids@;
                    assert forall|q: u64|
                        final(self).spec_contains(q) <==> old(self).spec_contains(q) && q
                        != id by {
                        if self.ids@.contains(q) {
                            let k = choose|k: int| 0 <= k < self.ids@.len() && self.ids@[k] == q;
                            if k < i {
                                assert(s0[k] == q);
                            } else {
                                assert(s0[k + 1] == q);
                            }
                        }
                        if s0.contains(q) && q != id {
                            let k = choose|k: int| 0 <= k < s0.len() && s0[k] == q;
                            if k < i {
                                assert(self.ids@[k] == q);
                            } else {
                                assert(k != i);
                                assert(self.ids@[k - 1] == q);
                            }
                        }
                    }
                    assert forall|a: int, b: int|
                        0 <= a < b < self.ids@.len() implies self.ids@[a] != self.ids@[b] by {
                        let a0: int = if a < i { a } else { a + 1 };
                        let b0: int = if b < i { b } else { b + 1 };
                        assert(self.ids@[a] == s0[a0]);
                        assert(self.ids@[b] == s0[b0]);
                    }
                }
                return ;
            }
            i = i + 1;
        }
        proof {
            assert forall|q: u64|
                final(self).spec_contains(q) <==> old(self).spec_contains(q) && q != id by {
                if self.ids@.contains(q) && q == id {
                    let k = choose|k: int| 0 <= k < self.ids@.len() && self.ids@[k] == q;
                }
            }
        }
    }
}

/// What the region-uniform stage remembers of its last upload: the
/// configuration value and the resolved wind-noise texture identity.
pub struct RegionUniformState {
    pub last_config: Option<GrassConfiguration>,
    pub last_texture: Option<u64>,
}

impl RegionUniformState {
    /// Nothing uploaded yet.
    pub fn new() -> (s: RegionUniformState)
        ensures
            s.last_config is None,
            s.last_texture is None,
    {
        RegionUniformState { last_config: None, last_texture: None }
    }
}

/// The wind-noise texture the stage binds: the configured image if it has
/// loaded, else the neutral fallback texture.
pub open spec fn spec_resolve_wind(
    images: ImageAssets,
    config: GrassConfiguration,
    fallback_texture: u64,
) -> u64 {
    match images.spec_get(config.wind_noise_texture) {
        Some(t) => t,
        None => fallback_texture,
    }
}

/// When the region-uniform stage re-uploads: the configuration value
/// changed, the resolved texture identity changed, or some registered chunk
/// does not carry the shared binding yet.
pub open spec fn spec_needs_upload(
    state: RegionUniformState,
    config: GrassConfiguration,
    tex: u64,
    cache: GrassCache,
) -> bool {
    ||| state.last_config != Some(config)
    ||| state.last_texture != Some(tex)
    ||| !cache.spec_all_uniform_bound()
}

/// Re-derives the shared shader-facing configuration record and broadcasts
/// it into every cache entry, but only when the configuration value or the
/// resolved wind-noise texture changed since the last upload (or a chunk is
/// still missing the binding). Returns whether an upload happened.
pub fn prepare_uniform_buffers(
    cache: &mut GrassCache,
    config: &GrassConfiguration,
    images: &ImageAssets,
    fallback_texture: u64,
    state: &mut RegionUniformState,
) -> (uploaded: bool)
    requires
        old(cache).wf(),
    ensures
        final(cache).wf(),
        final(cache).ids() == old(cache).ids(),
        uploaded == spec_needs_upload(
            *old(state),
            *config,
            spec_resolve_wind(*images, *config, fallback_texture),
            *old(cache),
        ),
        !uploaded ==> *final(cache) == *old(cache) && *final(state) == *old(state),
        uploaded ==> forall|k: int| 0 <= k < old(cache).entries@.len()
            ==> final(cache).entries@[k] == (CacheSlot {
            id: old(cache).entries@[k].id,
            data: uniform_updated(
                old(cache).entries@[k].data,
                RegionBinding {
                    config: spec_shader_config(*config),
                    texture: spec_resolve_wind(*images, *config, fallback_texture),
                },
            ),
        }),
        final(state).last_config == Some(*config),
        final(state).last_texture == Some(spec_resolve_wind(*images, *config, fallback_texture)),
        final(cache).spec_all_uniform_bound(),
{
    let tex = match images.get(config.wind_noise_texture) {
        Some(t) => t,
        None => fallback_texture,
    };
    let config_unchanged = match &state.last_config {
        Some(c0) => *c0 == *config,
        None => false,
    };
    let texture_unchanged = match &state.last_texture {
        Some(t0) => *t0 == tex,
        None => false,
    };
    let all_bound = cache.all_have_uniform();
    if config_unchanged && texture_unchanged && all_bound {
        return false;
    }
    let shader_config = ShaderRegionConfiguration::from(*config);
    let binding = RegionBinding { config: shader_config, texture: tex };
    cache.set_uniform_all(binding);
    state.last_config = Some(*config);
    state.last_texture = Some(tex);
    true
}

/// A chunk misses its xz positions at preparation time: the fatal error of
/// the explicit-xz stage. Render-ready descriptors never satisfy this.
pub open spec fn spec_xz_stage_fails(chunks: Seq<ChunkInput>) -> bool {
    exists|i: int| 0 <= i < chunks.len() && !(#[trigger] chunks[i]).spawner.flags.xz_defined
}

/// A chunk misses its y positions at preparation time: the fatal error of
/// the explicit-y stage. Render-ready descriptors never satisfy this.
pub open spec fn spec_y_stage_fails(chunks: Seq<ChunkInput>) -> bool {
    exists|i: int| 0 <= i < chunks.len() && !(#[trigger] chunks[i]).spawner.flags.y_defined
}

/// Descriptors that are render-ready never trigger the fatal
/// missing-required-field paths of the explicit-xz and explicit-y stages.
pub proof fn lemma_ready_descriptors_never_fail(chunks: Seq<ChunkInput>)
    requires
        forall|i: int| 0 <= i < chunks.len() ==> (#[trigger] chunks[i]).spawner.spec_render_ready(),
    ensures
        !spec_xz_stage_fails(chunks),
        !spec_y_stage_fails(chunks),
{
}

/// The explicit-xz stage's effect on one chunk's entry: instance count,
/// packed ground positions (two channels per texel, zero-padded) and
/// mirrored flags written; every other field kept; unregistered chunks
/// skipped.
pub open spec fn xz_chunk_prepared(
    before: Option<GrassInstanceData>,
    after: Option<GrassInstanceData>,
    s: GrassSpawner,
) -> bool {
    match before {
        None => after is None,
        Some(d) => {
            &&& after matches Some(d2)
            &&& d2.instance_count == s.positions_xz@.len()
            &&& (d2.explicit_xz_buffer matches Some(tex) && is_packed(
                tex,
                s.positions_xz@,
                Vec2Fixed { x: 0, y: 0 },
                TextureFormat::Rg32,
            ))
            &&& d2.flags == s.flags
            &&& d2.explicit_y_buffer == d.explicit_y_buffer
            &&& d2.height_buffer == d.height_buffer
            &&& d2.height_map == d.height_map
            &&& d2.uniform_bindgroup == d.uniform_bindgroup
        },
    }
}

/// Packs each registered chunk's ground positions into its cache entry and
/// refreshes the instance count and mirrored flags. A chunk without xz
/// positions is the fatal `MissingXzPositions`: nothing is prepared then.
/// Unregistered chunks are skipped and picked up on a later frame.
pub fn prepare_explicit_xz_buffer(cache: &mut GrassCache, chunks: &Vec<ChunkInput>) -> (r: Result<
    (),
    GrassError,
>)
    requires
        old(cache).wf(),
        forall|i: int| 0 <= i < chunks@.len() ==> (#[trigger] chunks@[i]).spawner.wf(),
        unique_chunk_ids(chunks@),
    ensures
        final(cache).wf(),
        final(cache).ids() == old(cache).ids(),
        r is Err <==> spec_xz_stage_fails(chunks@),
        r is Err ==> r == Err::<(), GrassError>(GrassError::MissingXzPositions) && *final(cache)
            == *old(cache),
        r is Ok ==> forall|i: int| 0 <= i < chunks@.len() ==> xz_chunk_prepared(
            old(cache).spec_get((#[trigger] chunks@[i]).id),
            final(cache).spec_get(chunks@[i].id),
            chunks@[i].spawner,
        ),
        forall|q: u64| !spec_has_chunk(chunks@, q) ==> final(cache).spec_get(q) == old(
            cache,
        ).spec_get(q),
{
    let mut i: usize = 0;
    while i < chunks.len()
        invariant
            i <= chunks@.len(),
            forall|j: int| 0 <= j < i ==> (#[trigger] chunks@[j]).spawner.flags.xz_defined,
            cache == old(cache),
            old(cache).wf(),
        decreases chunks@.len() - i,
    {
        if !chunks[i].spawner.flags.xz_defined {
            return Err(GrassError::MissingXzPositions);
        }
        i = i + 1;
    }
    let mut k: usize = 0;
    while k < chunks.len()
        invariant
            cache.wf(),
            cache.ids() == old(cache).ids(),
            k <= chunks@.len(),
            unique_chunk_ids(chunks@),
            forall|i2: int| 0 <= i2 < chunks@.len() ==> (#[trigger] chunks@[i2]).spawner.wf(),
            forall|j: int| 0 <= j < k ==> xz_chunk_prepared(
                old(cache).spec_get((#[trigger] chunks@[j]).id),
                cache.spec_get(chunks@[j].id),
                chunks@[j].spawner,
            ),
            forall|q: u64| !spec_has_chunk(chunks@.subrange(0, k as int), q) ==> cache.spec_get(q)
                == old(cache).spec_get(q),
        decreases chunks@.len() - k,
    {
        let c = &chunks[k];
        let count = c.spawner.positions_xz.len();
        let tex = pack_to_texture(
            &c.spawner.positions_xz,
            Vec2Fixed { x: 0, y: 0 },
            TextureFormat::Rg32,
        );
        let ghost pre = *cache;
        cache.update_xz(c.id, count, tex, c.spawner.flags);
        proof {
            lemma_stage_step_chunks(chunks@, k as int, pre, *cache, *old(cache), c.id);
        }
        k = k + 1;
    }
    proof {
        assert(chunks@.subrange(0, chunks@.len() as int) =~= chunks@);
    }
    Ok(())
}

/// One stage step's bookkeeping, shared by the per-chunk stages: chunk `k`'s
/// identifier was untouched by the earlier steps (so its entry still reads
/// as before the stage), and preserving every identifier but chunk `k`'s
/// extends prefix preservation by one.
proof fn lemma_stage_step_chunks(
    chunks: Seq<ChunkInput>,
    k: int,
    pre: GrassCache,
    post: GrassCache,
    orig: GrassCache,
    id: u64,
)
    requires
        0 <= k < chunks.len(),
        unique_chunk_ids(chunks),
        id == chunks[k].id,
        forall|q: u64| !spec_has_chunk(chunks.subrange(0, k), q) ==> pre.spec_get(q)
            == orig.spec_get(q),
        forall|q: u64| q != id ==> post.spec_get(q) == pre.spec_get(q),
    ensures
        pre.spec_get(id) == orig.spec_get(id),
        forall|q: u64| !spec_has_chunk(chunks.subrange(0, k + 1), q) ==> post.spec_get(q)
            == orig.spec_get(q),
        forall|j: int| 0 <= j < k ==> post.spec_get((#[trigger] chunks[j]).id) == pre.spec_get(
            chunks[j].id,
        ),
{
    assert(!spec_has_chunk(chunks.subrange(0, k), id)) by {
        if spec_has_chunk(chunks.subrange(0, k), id) {
            let j = choose|j: int|
                0 <= j < k && (#[trigger] chunks.subrange(0, k)[j]).id == id;
            assert(chunks[j].id == chunks[k].id);
        }
    }
    assert forall|q: u64| !spec_has_chunk(chunks.subrange(0, k + 1), q) implies post.spec_get(q)
        == orig.spec_get(q) by {
        assert(chunks.subrange(0, k + 1)[k] == chunks[k]);
        assert(q != id);
        if spec_has_chunk(chunks.subrange(0, k), q) {
            let j = choose|j: int|
                0 <= j < k && (#[trigger] chunks.subrange(0, k)[j]).id == q;
            assert(chunks.subrange(0, k + 1)[j].id == q);
        }
    }
    assert forall|j: int| 0 <= j < k implies post.spec_get((#[trigger] chunks[j]).id)
        == pre.spec_get(chunks[j].id) by {
        assert(chunks[j].id != id);
    }
}

/// The height stage's effect on one chunk's entry: a uniform height is
/// expanded to one value per blade before packing, a per-blade array packs
/// directly; the packed texture and mirrored flags are written, every other
/// field kept.
pub open spec fn height_chunk_prepared(
    before: Option<GrassInstanceData>,
    after: Option<GrassInstanceData>,
    s: GrassSpawner,
) -> bool {
    match before {
        None => after is None,
        Some(d) => {
            &&& after matches Some(d2)
            &&& (match s.heights {
                HeightRepresentation::Uniform(h) => d2.height_buffer matches Some(tex)
                    && is_packed(
                    tex,
                    Seq::new(s.positions_xz@.len(), |j: int| h),
                    0i32,
                    TextureFormat::R32,
                ),
                HeightRepresentation::PerBlade(hs) => d2.height_buffer matches Some(tex)
                    && is_packed(tex, hs@, 0i32, TextureFormat::R32),
            })
            &&& d2.flags == s.flags
            &&& d2.instance_count == d.instance_count
            &&& d2.explicit_xz_buffer == d.explicit_xz_buffer
            &&& d2.explicit_y_buffer == d.explicit_y_buffer
            &&& d2.height_map == d.height_map
            &&& d2.uniform_bindgroup == d.uniform_bindgroup
        },
    }
}

/// Packs each registered chunk's blade heights into its cache entry: a
/// uniform height is expanded to the chunk's blade count first, a per-blade
/// array packs as it is. Runs for every registered chunk; unregistered
/// chunks are skipped and picked up on a later frame.
pub fn prepare_height_buffer(cache: &mut GrassCache, chunks: &Vec<ChunkInput>)
    requires
        old(cache).wf(),
        forall|i: int| 0 <= i < chunks@.len() ==> (#[trigger] chunks@[i]).spawner.wf(),
        unique_chunk_ids(chunks@),
    ensures
        final(cache).wf(),
        final(cache).ids() == old(cache).ids(),
        forall|i: int| 0 <= i < chunks@.len() ==> height_chunk_prepared(
            old(cache).spec_get((#[trigger] chunks@[i]).id),
            final(cache).spec_get(chunks@[i].id),
            chunks@[i].spawner,
        ),
        forall|q: u64| !spec_has_chunk(chunks@, q) ==> final(cache).spec_get(q) == old(
            cache,
        ).spec_get(q),
{
    let mut k: usize = 0;
    while k < chunks.len()
        invariant
            cache.wf(),
            cache.ids() == old(cache).ids(),
            k <= chunks@.len(),
            unique_chunk_ids(chunks@),
            forall|i2: int| 0 <= i2 < chunks@.len() ==> (#[trigger] chunks@[i2]).spawner.wf(),
            forall|j: int| 0 <= j < k ==> height_chunk_prepared(
                old(cache).spec_get((#[trigger] chunks@[j]).id),
                cache.spec_get(chunks@[j].id),
                chunks@[j].spawner,
            ),
            forall|q: u64| !spec_has_chunk(chunks@.subrange(0, k as int), q) ==> cache.spec_get(q)
                == old(cache).spec_get(q),
        decreases chunks@.len() - k,
    {
        let c = &chunks[k];
        let tex = match &c.spawner.heights {
            HeightRepresentation::Uniform(h) => {
                let hv: i32 = *h;
                let count = c.spawner.positions_xz.len();
                let mut expanded: Vec<i32> = Vec::new();
                let mut m: usize = 0;
                while m < count
                    invariant
                        m <= count,
                        count == c.spawner.positions_xz@.len(),
                        count <= MAX_PACK_LEN,
                        expanded@.len() == m,
                        forall|j: int| 0 <= j < m ==> expanded@[j] == hv,
                    decreases count - m,
                {
                    expanded.push(hv);
                    m = m + 1;
                }
                proof {
                    assert(expanded@ =~= Seq::new(c.spawner.positions_xz@.len(), |j: int| hv));
                }
                pack_to_texture(&expanded, 0i32, TextureFormat::R32)
            },
            HeightRepresentation::PerBlade(hs) => pack_to_texture(hs, 0i32, TextureFormat::R32),
        };
        let ghost pre = *cache;
        cache.update_height(c.id, tex, c.spawner.flags);
        proof {
            lemma_stage_step_chunks(chunks@, k as int, pre, *cache, *old(cache), c.id);
        }
        k = k + 1;
    }
    proof {
        assert(chunks@.subrange(0, chunks@.len() as int) =~= chunks@);
    }
}

/// The explicit-y stage's effect on one chunk's entry: heightmap chunks are
/// left untouched (the heightmap is their vertical source); otherwise the
/// packed y offsets are written and every other field kept.
pub open spec fn y_chunk_prepared(
    before: Option<GrassInstanceData>,
    after: Option<GrassInstanceData>,
    s: GrassSpawner,
) -> bool {
    match before {
        None => after is None,
        Some(d) => if s.flags.height_map {
            after == Some(d)
        } else {
            &&& after matches Some(d2)
            &&& (d2.explicit_y_buffer matches Some(tex) && is_packed(
                tex,
                s.positions_y@,
                0i32,
                TextureFormat::R32,
            ))
            &&& d2.instance_count == d.instance_count
            &&& d2.explicit_xz_buffer == d.explicit_xz_buffer
            &&& d2.height_buffer == d.height_buffer
            &&& d2.height_map == d.height_map
            &&& d2.uniform_bindgroup == d.uniform_bindgroup
            &&& d2.flags == d.flags
        },
    }
}

/// Packs each registered chunk's explicit y offsets into its cache entry.
/// A chunk whose vertical placement comes from a heightmap is skipped as a
/// no-op, not an error; a chunk without y positions defined at all is the
/// fatal `MissingYPositions`.
pub fn prepare_explicit_y_buffer(cache: &mut GrassCache, chunks: &Vec<ChunkInput>) -> (r: Result<
    (),
    GrassError,
>)
    requires
        old(cache).wf(),
        forall|i: int| 0 <= i < chunks@.len() ==> (#[trigger] chunks@[i]).spawner.wf(),
        unique_chunk_ids(chunks@),
    ensures
        final(cache).wf(),
        final(cache).ids() == old(cache).ids(),
        r is Err <==> spec_y_stage_fails(chunks@),
        r is Err ==> r == Err::<(), GrassError>(GrassError::MissingYPositions) && *final(cache)
            == *old(cache),
        r is Ok ==> forall|i: int| 0 <= i < chunks@.len() ==> y_chunk_prepared(
            old(cache).spec_get((#[trigger] chunks@[i]).id),
            final(cache).spec_get(chunks@[i].id),
            chunks@[i].spawner,
        ),
        forall|q: u64| !spec_has_chunk(chunks@, q) ==> final(cache).spec_get(q) == old(
            cache,
        ).spec_get(q),
{
    let mut i: usize = 0;
    while i < chunks.len()
        invariant
            i <= chunks@.len(),
            forall|j: int| 0 <= j < i ==> (#[trigger] chunks@[j]).spawner.flags.y_defined,
            cache == old(cache),
            old(cache).wf(),
        decreases chunks@.len() - i,
    {
        if !chunks[i].spawner.flags.y_defined {
            return Err(GrassError::MissingYPositions);
        }
        i = i + 1;
    }
    let mut k: usize = 0;
    while k < chunks.len()
        invariant
            cache.wf(),
            cache.ids() == old(cache).ids(),
            k <= chunks@.len(),
            unique_chunk_ids(chunks@),
            forall|i2: int| 0 <= i2 < chunks@.len() ==> (#[trigger] chunks@[i2]).spawner.wf(),
            forall|j: int| 0 <= j < k ==> y_chunk_prepared(
                old(cache).spec_get((#[trigger] chunks@[j]).id),
                cache.spec_get(chunks@[j].id),
                chunks@[j].spawner,
            ),
            forall|q: u64| !spec_has_chunk(chunks@.subrange(0, k as int), q) ==> cache.spec_get(q)
                == old(cache).spec_get(q),
        decreases chunks@.len() - k,
    {
        let c = &chunks[k];
        let ghost pre = *cache;
        if !c.spawner.flags.height_map {
            let tex = pack_to_texture(&c.spawner.positions_y, 0i32, TextureFormat::R32);
            cache.update_y(c.id, tex);
            proof {
                lemma_stage_step_chunks(chunks@, k as int, pre, *cache, *old(cache), c.id);
            }
        } else {
            proof {
                lemma_stage_step_chunks(chunks@, k as int, pre, *cache, *old(cache), c.id);
            }
        }
        k = k + 1;
    }
    proof {
        assert(chunks@.subrange(0, chunks@.len() as int) =~= chunks@);
    }
    Ok(())
}

/// Attaches a bounding box to every chunk that lacks one: computed once per
/// chunk from its descriptor, when the chunk is first encountered.
pub fn add_aabb_box_to_grass(chunks: Vec<ChunkInput>) -> (r: Vec<ChunkWithBounds>)
    requires
        forall|i: int| 0 <= i < chunks@.len() ==> {
            let s = (#[trigger] chunks@[i]).spawner;
            &&& s.wf()
            &&& s.spec_validate_ok()
            &&& s.flags.xz_defined
            &&& (!s.flags.height_map ==> s.flags.y_defined)
        },
    ensures
        r@.len() == chunks@.len(),
        forall|i: int| 0 <= i < chunks@.len() ==> (#[trigger] r@[i]).id == chunks@[i].id && r@[i].spawner
            == chunks@[i].spawner && crate::grass_spawner::spec_aabb_of(chunks@[i].spawner, r@[i].aabb),
        unique_chunk_ids(chunks@) ==> unique_bound_ids(r@),
{
    let ghost orig = chunks@;
    let mut rest = chunks;
    let mut out: Vec<ChunkWithBounds> = Vec::new();
    while rest.len() > 0
        invariant
            out@.len() + rest@.len() == orig.len(),
            rest@ =~= orig.subrange(out@.len() as int, orig.len() as int),
            forall|i: int| 0 <= i < orig.len() ==> {
                let s = (#[trigger] orig[i]).spawner;
                &&& s.wf()
                &&& s.spec_validate_ok()
                &&& s.flags.xz_defined
                &&& (!s.flags.height_map ==> s.flags.y_defined)
            },
            forall|j: int| 0 <= j < out@.len() ==> (#[trigger] out@[j]).id == orig[j].id
                && out@[j].spawner == orig[j].spawner && crate::grass_spawner::spec_aabb_of(
                orig[j].spawner,
                out@[j].aabb,
            ),
        decreases rest@.len(),
    {
        proof {
            assert(rest@[0] == orig[out@.len() as int]);
        }
        let c = rest.remove(0);
        let aabb = c.spawner.calculate_aabb();
        out.push(ChunkWithBounds { id: c.id, spawner: c.spawner, aabb });
    }
    proof {
        if unique_chunk_ids(orig) {
            assert forall|a: int, b: int|
                0 <= a < b < out@.len() implies out@[a].id != out@[b].id by {
                assert(out@[a].id == orig[a].id);
                assert(out@[b].id == orig[b].id);
            }
        }
    }
    out
}

/// The componentwise side lengths of a bounding box, the scale the heightmap
/// is stretched over.
pub open spec fn spec_extents(a: Aabb) -> Vec3World {
    Vec3World {
        x: (a.max.x - a.min.x) as i64,
        y: (a.max.y - a.min.y) as i64,
        z: (a.max.z - a.min.z) as i64,
    }
}

/// Chunk `q` uses a heightmap whose texture resolved this frame.
pub open spec fn spec_hm_resolved(
    chunks: Seq<ChunkWithBounds>,
    images: ImageAssets,
    q: u64,
) -> bool {
    exists|i: int|
        0 <= i < chunks.len() && (#[trigger] chunks[i]).id == q && chunks[i].spawner.flags.height_map
            && images.spec_get(chunks[i].spawner.height_map.unwrap().height_map) is Some
}

/// Chunk `q` uses a heightmap whose texture has not resolved yet.
pub open spec fn spec_hm_waiting(
    chunks: Seq<ChunkWithBounds>,
    images: ImageAssets,
    q: u64,
) -> bool {
    exists|i: int|
        0 <= i < chunks.len() && (#[trigger] chunks[i]).id == q && chunks[i].spawner.flags.height_map
            && images.spec_get(chunks[i].spawner.height_map.unwrap().height_map) is None
}

/// The heightmap stage's effect on one chunk's entry. A chunk without a
/// heightmap binds the neutral fallback texture and a zeroed scale, so the
/// shader's binding layout is uniform. A heightmap chunk whose texture has
/// resolved binds the texture and the scale from its bounding-box extents; a
/// chunk still waiting is left untouched.
pub open spec fn hm_chunk_prepared(
    before: Option<GrassInstanceData>,
    after: Option<GrassInstanceData>,
    c: ChunkWithBounds,
    images: ImageAssets,
    fallback_texture: u64,
) -> bool {
    match before {
        None => after is None,
        Some(d) => if !c.spawner.flags.height_map {
            after == Some(
                height_map_updated(
                    d,
                    HeightMapBinding {
                        texture: fallback_texture,
                        scale: Vec3World { x: 0, y: 0, z: 0 },
                    },
                ),
            )
        } else {
            match images.spec_get(c.spawner.height_map.unwrap().height_map) {
                Some(t) => after == Some(
                    height_map_updated(
                        d,
                        HeightMapBinding { texture: t, scale: spec_extents(c.aabb) },
                    ),
                ),
                None => after == Some(d),
            }
        },
    }
}

/// Binds each registered chunk's heightmap resources. Chunks without a
/// heightmap bind the neutral fallback texture and a zeroed scale buffer. A
/// heightmap chunk waits in the pending set until its texture asset
/// resolves, re-checked every pass; on the first pass where it has resolved
/// the chunk binds the texture with a scale buffer from its bounding-box
/// extents and leaves the pending set.
pub fn prepare_height_map_buffer(
    cache: &mut GrassCache,
    chunks: &Vec<ChunkWithBounds>,
    images: &ImageAssets,
    fallback_texture: u64,
    pending: &mut PendingHeightmaps,
)
    requires
        old(cache).wf(),
        old(pending).wf(),
        forall|i: int| 0 <= i < chunks@.len() ==> (#[trigger] chunks@[i]).spawner.wf(),
        forall|i: int| 0 <= i < chunks@.len() ==> (#[trigger] chunks@[i]).aabb.spec_extents_fit(),
        unique_bound_ids(chunks@),
    ensures
        final(cache).wf(),
        final(pending).wf(),
        final(cache).ids() == old(cache).ids(),
        forall|i: int| 0 <= i < chunks@.len() ==> hm_chunk_prepared(
            old(cache).spec_get((#[trigger] chunks@[i]).id),
            final(cache).spec_get(chunks@[i].id),
            chunks@[i],
            *images,
            fallback_texture,
        ),
        forall|q: u64| !spec_has_bound_chunk(chunks@, q) ==> final(cache).spec_get(q) == old(
            cache,
        ).spec_get(q),
        forall|q: u64| final(pending).spec_contains(q) <==> ((old(pending).spec_contains(q)
            && !spec_hm_resolved(chunks@, *images, q)) || spec_hm_waiting(chunks@, *images, q)),
{
    let mut k: usize = 0;
    while k < chunks.len()
        invariant
            cache.wf(),
            pending.wf(),
            cache.ids() == old(cache).ids(),
            k <= chunks@.len(),
            unique_bound_ids(chunks@),
            forall|i2: int| 0 <= i2 < chunks@.len() ==> (#[trigger] chunks@[i2]).spawner.wf(),
            forall|i2: int| 0 <= i2 < chunks@.len() ==> (#[trigger] chunks@[i2]).aabb.spec_extents_fit(),
            forall|j: int| 0 <= j < k ==> hm_chunk_prepared(
                old(cache).spec_get((#[trigger] chunks@[j]).id),
                cache.spec_get(chunks@[j].id),
                chunks@[j],
                *images,
                fallback_texture,
            ),
            forall|q: u64| !spec_has_bound_chunk(chunks@.subrange(0, k as int), q)
                ==> cache.spec_get(q) == old(cache).spec_get(q),
            forall|q: u64| pending.spec_contains(q) <==> ((old(pending).spec_contains(q)
                && !spec_hm_resolved(chunks@.subrange(0, k as int), *images, q)) || spec_hm_waiting(
                chunks@.subrange(0, k as int),
                *images,
                q,
            )),
        decreases chunks@.len() - k,
    {
        let c = &chunks[k];
        let ghost pre = *cache;
        let ghost pending_pre = *pending;
        if c.spawner.flags.height_map {
            let hm = match &c.spawner.height_map {
                Some(hm) => *hm,
                None => {
                    proof {
                        assert(false);
                    }
                    crate::grass_spawner::HeightMap { height_map: 0, height: 0 }
                },
            };
            match images.get(hm.height_map) {
                Some(t) => {
                    let binding = HeightMapBinding { texture: t, scale: c.aabb.extents() };
                    cache.update_height_map(c.id, binding);
                    pending.remove(c.id);
                },
                None => {
                    pending.insert(c.id);
                },
            }
        } else {
            let binding = HeightMapBinding {
                texture: fallback_texture,
                scale: Vec3World { x: 0, y: 0, z: 0 },
            };
            cache.update_height_map(c.id, binding);
        }
        proof {
            lemma_hm_step(chunks@, k as int, pre, *cache, *old(cache), *images);
            lemma_hm_pending_step(
                chunks@,
                k as int,
                pending_pre,
                *pending,
                *old(pending),
                *images,
            );
        }
        k = k + 1;
    }
    proof {
        assert(chunks@.subrange(0, chunks@.len() as int) =~= chunks@);
    }
}

/// The cache bookkeeping of one heightmap-stage step, the bounded-chunk
/// sibling of `lemma_stage_step_chunks`.
proof fn lemma_hm_step(
    chunks: Seq<ChunkWithBounds>,
    k: int,
    pre: GrassCache,
    post: GrassCache,
    orig: GrassCache,
    images: ImageAssets,
)
    requires
        0 <= k < chunks.len(),
        unique_bound_ids(chunks),
        forall|q: u64| !spec_has_bound_chunk(chunks.subrange(0, k), q) ==> pre.spec_get(q)
            == orig.spec_get(q),
        forall|q: u64| q != chunks[k].id ==> post.spec_get(q) == pre.spec_get(q),
    ensures
        pre.spec_get(chunks[k].id) == orig.spec_get(chunks[k].id),
        forall|q: u64| !spec_has_bound_chunk(chunks.subrange(0, k + 1), q) ==> post.spec_get(q)
            == orig.spec_get(q),
        forall|j: int| 0 <= j < k ==> post.spec_get((#[trigger] chunks[j]).id) == pre.spec_get(
            chunks[j].id,
        ),
{
    let id = chunks[k].id;
    assert(!spec_has_bound_chunk(chunks.subrange(0, k), id)) by {
        if spec_has_bound_chunk(chunks.subrange(0, k), id) {
            let j = choose|j: int|
                0 <= j < k && (#[trigger] chunks.subrange(0, k)[j]).id == id;
            assert(chunks[j].id == chunks[k].id);
        }
    }
    assert forall|q: u64| !spec_has_bound_chunk(chunks.subrange(0, k + 1), q) implies post.spec_get(
        q,
    ) == orig.spec_get(q) by {
        assert(chunks.subrange(0, k + 1)[k] == chunks[k]);
        assert(q != id);
        if spec_has_bound_chunk(chunks.subrange(0, k), q) {
            let j = choose|j: int|
                0 <= j < k && (#[trigger] chunks.subrange(0, k)[j]).id == q;
            assert(chunks.subrange(0, k + 1)[j].id == q);
        }
    }
    assert forall|j: int| 0 <= j < k implies post.spec_get((#[trigger] chunks[j]).id)
        == pre.spec_get(chunks[j].id) by {
        assert(chunks[j].id != id);
    }
}

/// The pending-set bookkeeping of one heightmap-stage step: handling chunk
/// `k` extends the resolved/waiting account of the prefix by one.
proof fn lemma_hm_pending_step(
    chunks: Seq<ChunkWithBounds>,
    k: int,
    pre: PendingHeightmaps,
    post: PendingHeightmaps,
    orig: PendingHeightmaps,
    images: ImageAssets,
)
    requires
        0 <= k < chunks.len(),
        unique_bound_ids(chunks),
        forall|q: u64| pre.spec_contains(q) <==> ((orig.spec_contains(q) && !spec_hm_resolved(
            chunks.subrange(0, k),
            images,
            q,
        )) || spec_hm_waiting(chunks.subrange(0, k), images, q)),
        chunks[k].spawner.flags.height_map && images.spec_get(
            chunks[k].spawner.height_map.unwrap().height_map,
        ) is Some ==> forall|q: u64|
            post.spec_contains(q) <==> pre.spec_contains(q) && q != chunks[k].id,
        chunks[k].spawner.flags.height_map && images.spec_get(
            chunks[k].spawner.height_map.unwrap().height_map,
        ) is None ==> forall|q: u64|
            post.spec_contains(q) <==> pre.spec_contains(q) || q == chunks[k].id,
        !chunks[k].spawner.flags.height_map ==> post == pre,
    ensures
        forall|q: u64| post.spec_contains(q) <==> ((orig.spec_contains(q) && !spec_hm_resolved(
            chunks.subrange(0, k + 1),
            images,
            q,
        )) || spec_hm_waiting(chunks.subrange(0, k + 1), images, q)),
{
    let id = chunks[k].id;
    let prefix = chunks.subrange(0, k);
    let prefix1 = chunks.subrange(0, k + 1);
    assert(prefix1[k] == chunks[k]);
    assert(prefix =~= prefix1.subrange(0, k));
    assert forall|q: u64|
        post.spec_contains(q) <==> ((orig.spec_contains(q) && !spec_hm_resolved(
            prefix1,
            images,
            q,
        )) || spec_hm_waiting(prefix1, images, q)) by {
        // Relate the prefix predicates to their one-step extensions.
        if spec_hm_resolved(prefix, images, q) {
            let j = choose|j: int|
                0 <= j < prefix.len() && (#[trigger] prefix[j]).id == q
                    && prefix[j].spawner.flags.height_map && images.spec_get(
                    prefix[j].spawner.height_map.unwrap().height_map,
                ) is Some;
            assert(prefix1[j] == prefix[j]);
            assert(spec_hm_resolved(prefix1, images, q));
        }
        if spec_hm_waiting(prefix, images, q) {
            let j = choose|j: int|
                0 <= j < prefix.len() && (#[trigger] prefix[j]).id == q
                    && prefix[j].spawner.flags.height_map && images.spec_get(
                    prefix[j].spawner.height_map.unwrap().height_map,
                ) is None;
            assert(prefix1[j] == prefix[j]);
            assert(spec_hm_waiting(prefix1, images, q));
        }
        if q != id {
            if spec_hm_resolved(prefix1, images, q) {
                let j = choose|j: int|
                    0 <= j < prefix1.len() && (#[trigger] prefix1[j]).id == q
                        && prefix1[j].spawner.flags.height_map && images.spec_get(
                        prefix1[j].spawner.height_map.unwrap().height_map,
                    ) is Some;
                assert(j < k);
                assert(prefix[j] == prefix1[j]);
                assert(spec_hm_resolved(prefix, images, q));
            }
            if spec_hm_waiting(prefix1, images, q) {
                let j = choose|j: int|
                    0 <= j < prefix1.len() && (#[trigger] prefix1[j]).id == q
                        && prefix1[j].spawner.flags.height_map && images.spec_get(
                        prefix1[j].spawner.height_map.unwrap().height_map,
                    ) is None;
                assert(j < k);
                assert(prefix[j] == prefix1[j]);
                assert(spec_hm_waiting(prefix, images, q));
            }
        } else {
            // q is chunk k's identifier: no earlier chunk carries it.
            if spec_hm_resolved(prefix, images, q) {
                let j = choose|j: int|
                    0 <= j < prefix.len() && (#[trigger] prefix[j]).id == q
                        && prefix[j].spawner.flags.height_map && images.spec_get(
                        prefix[j].spawner.height_map.unwrap().height_map,
                    ) is Some;
                assert(chunks[j].id == chunks[k].id);
            }
            if spec_hm_waiting(prefix, images, q) {
                let j = choose|j: int|
                    0 <= j < prefix.len() && (#[trigger] prefix[j]).id == q
                        && prefix[j].spawner.flags.height_map && images.spec_get(
                        prefix[j].spawner.height_map.unwrap().height_map,
                    ) is None;
                assert(chunks[j].id == chunks[k].id);
            }
        }
    }
}

/// The region-uniform stage's change detection at rest: after an upload for
/// `config` with resolved texture `tex`, a pass over the same configuration,
/// the same texture identity and a fully bound cache uploads nothing.
pub proof fn lemma_uniform_stage_settles(
    state: RegionUniformState,
    config: GrassConfiguration,
    tex: u64,
    cache: GrassCache,
)
    requires
        state.last_config == Some(config),
        state.last_texture == Some(tex),
        cache.spec_all_uniform_bound(),
    ensures
        !spec_needs_upload(state, config, tex, cache),
{
}

/// The region-uniform stage's change detection on change: a pass whose
/// configuration value differs from the last uploaded one (a changed wind
/// vector, say) re-uploads, whatever the cache holds.
pub proof fn lemma_uniform_stage_reuploads_on_change(
    state: RegionUniformState,
    config: GrassConfiguration,
    tex: u64,
    cache: GrassCache,
)
    requires
        state.last_config != Some(config),
    ensures
        spec_needs_upload(state, config, tex, cache),
{
}

} // verus!
