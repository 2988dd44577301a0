//! The GPU resource cache: a keyed store from a chunk identifier to the
//! chunk's prepared per-instance resources. Entries are created on first
//! encounter and updated in place; each preparation stage writes only its
//! own binding field of an entry.

use vstd::prelude::*;

use crate::grass_spawner::GrassSpawnerFlags;
use crate::prepare::ShaderRegionConfiguration;
use crate::texture::PackedTexture;
use crate::types::{Vec2Fixed, Vec3World};

verus! {

/// The shared region-uniform binding written into every cache entry: the
/// shader-facing configuration record and the resolved wind-noise texture.
#[derive(Clone, Copy, PartialEq, Eq, Structural, Debug)]
pub struct RegionBinding {
    pub config: ShaderRegionConfiguration,
    pub texture: u64,
}

/// The heightmap binding of one chunk: the sampled texture and the scale
/// buffer derived from the chunk's bounding-box extents.
#[derive(Clone, Copy, PartialEq, Eq, Structural, Debug)]
pub struct HeightMapBinding {
    pub texture: u64,
    pub scale: Vec3World,
}

/// One chunk's cache entry: the instance count, one optional binding per
/// preparation stage, and a mirror of the descriptor's definition flags used
/// to detect representation changes across frames.
pub struct GrassInstanceData {
    pub instance_count: usize,
    pub explicit_xz_buffer: Option<PackedTexture<Vec2Fixed>>,
    pub explicit_y_buffer: Option<PackedTexture<i32>>,
    pub height_buffer: Option<PackedTexture<i32>>,
    pub height_map: Option<HeightMapBinding>,
    pub uniform_bindgroup: Option<RegionBinding>,
    pub flags: GrassSpawnerFlags,
}

/// The entry a fresh chunk starts from: no bindings, no instances.
pub open spec fn spec_empty_instance() -> GrassInstanceData {
    GrassInstanceData {
        instance_count: 0,
        explicit_xz_buffer: None,
        explicit_y_buffer: None,
        height_buffer: None,
        height_map: None,
        uniform_bindgroup: None,
        flags: GrassSpawnerFlags {
            xz_defined: false,
            y_defined: false,
            height_defined: false,
            height_map: false,
        },
    }
}

/// An entry after the explicit-xz stage: instance count, packed ground
/// positions and mirrored flags replaced, everything else kept.
pub open spec fn xz_updated(
    d: GrassInstanceData,
    instance_count: usize,
    tex: PackedTexture<Vec2Fixed>,
    flags: GrassSpawnerFlags,
) -> GrassInstanceData {
    GrassInstanceData { instance_count, explicit_xz_buffer: Some(tex), flags, ..d }
}

/// An entry after the height stage: packed heights and mirrored flags
/// replaced, everything else kept.
pub open spec fn height_updated(
    d: GrassInstanceData,
    tex: PackedTexture<i32>,
    flags: GrassSpawnerFlags,
) -> GrassInstanceData {
    GrassInstanceData { height_buffer: Some(tex), flags, ..d }
}

/// An entry after the explicit-y stage: packed y offsets replaced,
/// everything else kept.
pub open spec fn y_updated(d: GrassInstanceData, tex: PackedTexture<i32>) -> GrassInstanceData {
    GrassInstanceData { explicit_y_buffer: Some(tex), ..d }
}

/// An entry after the heightmap stage: the heightmap binding replaced,
/// everything else kept.
pub open spec fn height_map_updated(
    d: GrassInstanceData,
    binding: HeightMapBinding,
) -> GrassInstanceData {
    GrassInstanceData { height_map: Some(binding), ..d }
}

/// An entry after the region-uniform broadcast: the shared binding
/// replaced, everything else kept.
pub open spec fn uniform_updated(d: GrassInstanceData, binding: RegionBinding) -> GrassInstanceData {
    GrassInstanceData { uniform_bindgroup: Some(binding), ..d }
}

/// One keyed slot of the cache.
pub struct CacheSlot {
    pub id: u64,
    pub data: GrassInstanceData,
}

/// The first entry stored under `id`, scanning left to right.
pub open spec fn spec_find(s: Seq<CacheSlot>, id: u64) -> Option<GrassInstanceData>
    decreases s.len(),
{
    if s.len() == 0 {
        None
    } else if s[0].id == id {
        Some(s[0].data)
    } else {
        spec_find(s.drop_first(), id)
    }
}

/// No two slots share an identifier.
pub open spec fn unique_ids(s: Seq<CacheSlot>) -> bool {
    forall|i: int, j: int| 0 <= i < j < s.len() ==> s[i].id != s[j].id
}

proof fn lemma_find_absent(s: Seq<CacheSlot>, id: u64)
    requires
        forall|j: int| 0 <= j < s.len() ==> s[j].id != id,
    ensures
        spec_find(s, id) is None,
    decreases s.len(),
{
    if s.len() > 0 {
        assert(forall|j: int| 0 <= j < s.drop_first().len() ==> s.drop_first()[j].id != id);
        lemma_find_absent(s.drop_first(), id);
    }
}

proof fn lemma_find_at(s: Seq<CacheSlot>, id: u64, i: int)
    requires
        0 <= i < s.len(),
        s[i].id == id,
        forall|j: int| 0 <= j < i ==> s[j].id != id,
    ensures
        spec_find(s, id) == Some(s[i].data),
    decreases i,
{
    if i > 0 {
        assert(forall|j: int| 0 <= j < i - 1 ==> s.drop_first()[j].id != id);
        lemma_find_at(s.drop_first(), id, i - 1);
    }
}

proof fn lemma_find_update(s: Seq<CacheSlot>, i: int, slot: CacheSlot)
    requires
        0 <= i < s.len(),
        slot.id == s[i].id,
        unique_ids(s),
    ensures
        forall|q: u64| spec_find(s.update(i, slot), q) == (if q == slot.id {
            Some(slot.data)
        } else {
            spec_find(s, q)
        }),
    decreases i,
{
    let t = s.update(i, slot);
    if i == 0 {
        assert(t.drop_first() =~= s.drop_first());
        assert forall|q: u64|
            spec_find(t, q) == (if q == slot.id {
                Some(slot.data)
            } else {
                spec_find(s, q)
            }) by {
            if q != slot.id {
                assert(spec_find(t, q) == spec_find(t.drop_first(), q));
            }
        }
    } else {
        assert(t.drop_first() =~= s.drop_first().update(i - 1, slot));
        assert(unique_ids(s.drop_first()));
        assert(s.drop_first()[i - 1].id == slot.id);
        lemma_find_update(s.drop_first(), i - 1, slot);
        assert(s[0].id != slot.id);
        assert forall|q: u64|
            spec_find(t, q) == (if q == slot.id {
                Some(slot.data)
            } else {
                spec_find(s, q)
            }) by {
            assert(t[0] == s[0]);
            if q == s[0].id {
            } else {
                assert(spec_find(t, q) == spec_find(t.drop_first(), q));
                assert(spec_find(s, q) == spec_find(s.drop_first(), q));
            }
        }
    }
}

proof fn lemma_find_push(s: Seq<CacheSlot>, slot: CacheSlot, q: u64)
    ensures
        spec_find(s.push(slot), q) == (if spec_find(s, q) is Some {
            spec_find(s, q)
        } else if q == slot.id {
            Some(slot.data)
        } else {
            None
        }),
    decreases s.len(),
{
    let t = s.push(slot);
    if s.len() == 0 {
        assert(t[0] == slot);
        assert(t.drop_first() =~= Seq::<CacheSlot>::empty());
        assert(spec_find(t.drop_first(), q) is None);
    } else {
        assert(t[0] == s[0]);
        assert(t.drop_first() =~= s.drop_first().push(slot));
        lemma_find_push(s.drop_first(), slot, q);
        if q == s[0].id {
            assert(spec_find(t, q) == Some(s[0].data));
            assert(spec_find(s, q) == Some(s[0].data));
        } else {
            assert(spec_find(t, q) == spec_find(t.drop_first(), q));
            assert(spec_find(s, q) == spec_find(s.drop_first(), q));
        }
    }
}

/// The keyed store from a chunk identifier to its cache entry. Slots keep
/// their insertion order and identifiers are unique.
pub struct GrassCache {
    pub entries: Vec<CacheSlot>,
}

impl GrassCache {
    /// Identifier uniqueness: the invariant every operation preserves.
    pub open spec fn wf(self) -> bool {
        unique_ids(self.entries@)
    }

    /// The stored identifiers, in insertion order.
    pub open spec fn ids(self) -> Seq<u64> {
        self.entries@.map_values(|s: CacheSlot| s.id)
    }

    /// The entry stored under `id`, if any.
    pub open spec fn spec_get(self, id: u64) -> Option<GrassInstanceData> {
        spec_find(self.entries@, id)
    }

    /// Whether `id` is registered.
    pub open spec fn contains_id(self, id: u64) -> bool {
        self.spec_get(id) is Some
    }

    /// Every entry already carries the shared region-uniform binding.
    pub open spec fn spec_all_uniform_bound(self) -> bool {
        forall|k: int|
            0 <= k < self.entries@.len() ==> self.entries@[k].data.uniform_bindgroup is Some
    }

    /// An empty cache.
    pub fn new() -> (c: GrassCache)
        ensures
            c.entries@.len() == 0,
            c.wf(),
            forall|q: u64| c.spec_get(q) is None,
    {
        GrassCache { entries: Vec::new() }
    }

    /// How many chunks are registered.
    pub fn len(&self) -> (n: usize)
        ensures
            n == self.entries@.len(),
    {
        self.entries.len()
    }

    /// The position of `id` in the store, if registered.
    fn index_of(&self, id: u64) -> (r: Option<usize>)
        ensures
            r matches Some(i) ==> i < self.entries@.len() && self.entries@[i as int].id == id
                && self.spec_get(id) == Some(self.entries@[i as int].data),
            r is None ==> self.spec_get(id) is None && (forall|j: int|
                0 <= j < self.entries@.len() ==> self.entries@[j].id != id),
    {
        let mut i: usize = 0;
        while i < self.entries.len()
            invariant
                i <= self.entries@.len(),
                forall|j: int| 0 <= j < i ==> self.entries@[j].id != id,
            decreases self.entries@.len() - i,
        {
            if self.entries[i].id == id {
                proof {
                    lemma_find_at(self.entries@, id, i as int);
                }
                return Some(i);
            }
            i = i + 1;
        }
        proof {
            lemma_find_absent(self.entries@, id);
        }
        None
    }

    /// A borrow of the entry stored under `id`, if any.
    pub fn get(&self, id: u64) -> (r: Option<&GrassInstanceData>)
        ensures
            r matches Some(d) ==> self.spec_get(id) == Some(*d),
            r is None ==> self.spec_get(id) is None,
    {
        match self.index_of(id) {
            Some(i) => Some(&self.entries[i].data),
            None => None,
        }
    }

    /// Returns the existing entry position for `id`, or registers a default
    /// entry for it. Every other entry is untouched.
    pub fn get_or_create(&mut self, id: u64)
        requires
            old(self).wf(),
        ensures
            final(self).wf(),
            final(self).spec_get(id) == (if old(self).spec_get(id) is Some {
                old(self).spec_get(id)
            } else {
                Some(spec_empty_instance())
            }),
            forall|q: u64| q != id ==> final(self).spec_get(q) == old(self).spec_get(q),
            old(self).contains_id(id) ==> *final(self) == *old(self),
            !old(self).contains_id(id) ==> final(self).entries@ == old(self).entries@.push(
                CacheSlot { id, data: spec_empty_instance() },
            ),
    {
        match self.index_of(id) {
            Some(_) => {},
            None => {
                let slot = CacheSlot {
                    id,
                    data: GrassInstanceData {
                        instance_count: 0,
                        explicit_xz_buffer: None,
                        explicit_y_buffer: None,
                        height_buffer: None,
                        height_map: None,
                        uniform_bindgroup: None,
                        flags: GrassSpawnerFlags {
                            xz_defined: false,
                            y_defined: false,
                            height_defined: false,
                            height_map: false,
                        },
                    },
                };
                self.entries.push(slot);
                proof {
                    let s0 = old(self).entries@;
                    let slot0 = CacheSlot { id, data: spec_empty_instance() };
                    assert(self.entries@ =~= s0.push(slot0));
                    assert forall|q: u64|
                        spec_find(self.entries@, q) == (if q == id {
                            Some(spec_empty_instance())
                        } else {
                            spec_find(s0, q)
                        }) by {
                        lemma_find_push(s0, slot0, q);
                        if q != id {
                        } else {
                            lemma_find_absent(s0, id);
                        }
                    }
                    assert forall|i: int, j: int|
                        0 <= i < j < self.entries@.len() implies self.entries@[i].id
                        != self.entries@[j].id by {
                        if j == s0.len() {
                            assert(self.entries@[i].id == s0[i].id);
                            assert(s0[i].id != id);
                        }
                    }
                }
            },
        }
    }

    /// Writes the explicit-xz stage's fields of the entry under `id`:
    /// instance count, packed ground positions and mirrored flags. Returns
    /// whether the chunk was registered; an unregistered chunk leaves the
    /// cache unchanged.
    pub fn update_xz(
        &mut self,
        id: u64,
        instance_count: usize,
        tex: PackedTexture<Vec2Fixed>,
        flags: GrassSpawnerFlags,
    ) -> (found: bool)
        requires
            old(self).wf(),
        ensures
            final(self).wf(),
            final(self).ids() == old(self).ids(),
            found <==> old(self).contains_id(id),
            !found ==> *final(self) == *old(self),
            found ==> (old(self).spec_get(id) matches Some(d) && final(self).spec_get(id) == Some(
                xz_updated(d, instance_count, tex, flags),
            )),
            forall|q: u64| q != id ==> final(self).spec_get(q) == old(self).spec_get(q),
    {
        match self.index_of(id) {
            Some(i) => {
                let mut slot = self.entries.remove(i);
                slot.data.instance_count = instance_count;
                slot.data.explicit_xz_buffer = Some(tex);
                slot.data.flags = flags;
                let ghost slot1 = slot;
                self.entries.insert(i, slot);
                proof {
                    self.lemma_slot_replaced(*old(self), i as int, slot1);
                }
                true
            },
            None => false,
        }
    }

    /// Writes the height stage's fields of the entry under `id`: the packed
    /// heights and the mirrored flags.
    pub fn update_height(&mut self, id: u64, tex: PackedTexture<i32>, flags: GrassSpawnerFlags) -> (found:
        bool)
        requires
            old(self).wf(),
        ensures
            final(self).wf(),
            final(self).ids() == old(self).ids(),
            found <==> old(self).contains_id(id),
            !found ==> *final(self) == *old(self),
            found ==> (old(self).spec_get(id) matches Some(d) && final(self).spec_get(id) == Some(
                height_updated(d, tex, flags),
            )),
            forall|q: u64| q != id ==> final(self).spec_get(q) == old(self).spec_get(q),
    {
        match self.index_of(id) {
            Some(i) => {
                let mut slot = self.entries.remove(i);
                slot.data.height_buffer = Some(tex);
                slot.data.flags = flags;
                let ghost slot1 = slot;
                self.entries.insert(i, slot);
                proof {
                    self.lemma_slot_replaced(*old(self), i as int, slot1);
                }
                true
            },
            None => false,
        }
    }

    /// Writes the explicit-y stage's field of the entry under `id`: the
    /// packed y offsets.
    pub fn update_y(&mut self, id: u64, tex: PackedTexture<i32>) -> (found: bool)
        requires
            old(self).wf(),
        ensures
            final(self).wf(),
            final(self).ids() == old(self).ids(),
            found <==> old(self).contains_id(id),
            !found ==> *final(self) == *old(self),
            found ==> (old(self).spec_get(id) matches Some(d) && final(self).spec_get(id) == Some(
                y_updated(d, tex),
            )),
            forall|q: u64| q != id ==> final(self).spec_get(q) == old(self).spec_get(q),
    {
        match self.index_of(id) {
            Some(i) => {
                let mut slot = self.entries.remove(i);
                slot.data.explicit_y_buffer = Some(tex);
                let ghost slot1 = slot;
                self.entries.insert(i, slot);
                proof {
                    self.lemma_slot_replaced(*old(self), i as int, slot1);
                }
                true
            },
            None => false,
        }
    }

    /// Writes the heightmap stage's field of the entry under `id`: the
    /// heightmap texture and scale binding.
    pub fn update_height_map(&mut self, id: u64, binding: HeightMapBinding) -> (found: bool)
        requires
            old(self).wf(),
        ensures
            final(self).wf(),
            final(self).ids() == old(self).ids(),
            found <==> old(self).contains_id(id),
            !found ==> *final(self) == *old(self),
            found ==> (old(self).spec_get(id) matches Some(d) && final(self).spec_get(id) == Some(
                height_map_updated(d, binding),
            )),
            forall|q: u64| q != id ==> final(self).spec_get(q) == old(self).spec_get(q),
    {
        match self.index_of(id) {
            Some(i) => {
                let mut slot = self.entries.remove(i);
                slot.data.height_map = Some(binding);
                let ghost slot1 = slot;
                self.entries.insert(i, slot);
                proof {
                    self.lemma_slot_replaced(*old(self), i as int, slot1);
                }
                true
            },
            None => false,
        }
    }

    /// After replacing the slot at `i` with one of the same identifier, the
    /// store is still well formed and lookups change only under that
    /// identifier.
    proof fn lemma_slot_replaced(&self, prev: GrassCache, i: int, slot: CacheSlot)
        requires
            prev.wf(),
            0 <= i < prev.entries@.len(),
            slot.id == prev.entries@[i].id,
            self.entries@ == prev.entries@.remove(i).insert(i, slot),
        ensures
            self.wf(),
            self.ids() == prev.ids(),
            self.spec_get(slot.id) == Some(slot.data),
            forall|q: u64| q != slot.id ==> self.spec_get(q) == prev.spec_get(q),
    {
        assert(self.entries@ =~= prev.entries@.update(i, slot));
        lemma_find_update(prev.entries@, i, slot);
        assert(self.ids() =~= prev.ids());
        assert forall|a: int, b: int|
            0 <= a < b < self.entries@.len() implies self.entries@[a].id != self.entries@[b].id by {
            assert(self.entries@[a].id == prev.entries@[a].id);
            assert(self.entries@[b].id == prev.entries@[b].id);
        }
        lemma_find_at(prev.entries@, slot.id, i);
    }

    /// Broadcasts the shared region-uniform binding into every entry,
    /// leaving every other field of every entry unchanged.
    pub fn set_uniform_all(&mut self, binding: RegionBinding)
        requires
            old(self).wf(),
        ensures
            final(self).wf(),
            final(self).ids() == old(self).ids(),
            final(self).entries@.len() == old(self).entries@.len(),
            forall|k: int| 0 <= k < old(self).entries@.len() ==> final(self).entries@[k]
                == (CacheSlot {
                id: old(self).entries@[k].id,
                data: uniform_updated(old(self).entries@[k].data, binding),
            }),
            final(self).spec_all_uniform_bound(),
    {
        let mut i: usize = 0;
        while i < self.entries.len()
            invariant
                old(self).wf(),
                i <= self.entries@.len(),
                self.entries@.len() == old(self).entries@.len(),
                forall|k: int| 0 <= k < i ==> self.entries@[k] == (CacheSlot {
                    id: old(self).entries@[k].id,
                    data: uniform_updated(old(self).entries@[k].data, binding),
                }),
                forall|k: int| i <= k < self.entries@.len() ==> self.entries@[k]
                    == old(self).entries@[k],
            decreases self.entries@.len() - i,
        {
            let mut slot = self.entries.remove(i);
            slot.data.uniform_bindgroup = Some(binding);
            let ghost slot1 = slot;
            let ghost before = self.entries@;
            self.entries.insert(i, slot);
            proof {
                assert(self.entries@ =~= before.insert(i as int, slot1));
            }
            i = i + 1;
        }
        proof {
            assert(self.ids() =~= old(self).ids());
            assert forall|a: int, b: int|
                0 <= a < b < self.entries@.len() implies self.entries@[a].id
                != self.entries@[b].id by {
                assert(self.entries@[a].id == old(self).entries@[a].id);
                assert(self.entries@[b].id == old(self).entries@[b].id);
            }
        }
    }

    /// Whether every registered chunk already carries the shared binding.
    pub fn all_have_uniform(&self) -> (r: bool)
        ensures
            r <==> self.spec_all_uniform_bound(),
    {
        let mut i: usize = 0;
        while i < self.entries.len()
            invariant
                i <= self.entries@.len(),
                forall|k: int| 0 <= k < i ==> self.entries@[k].data.uniform_bindgroup is Some,
            decreases self.entries@.len() - i,
        {
            if self.entries[i].data.uniform_bindgroup.is_none() {
                return false;
            }
            i = i + 1;
        }
        true
    }
}

} // verus!
