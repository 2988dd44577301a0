//! The placement descriptor: an immutable-after-build description of one
//! chunk's blades, authored through consuming builder calls that enforce the
//! cross-field rules immediately, plus the bounds calculator derived from it.

use vstd::prelude::*;

use crate::error::GrassError;
use crate::texture::MAX_PACK_LEN;
use crate::types::{Aabb, Vec2Fixed, Vec3Fixed, Vec3World, FIXED_ONE};

verus! {

/// Which descriptor fields have been defined. Each field is written once;
/// attaching a heightmap also claims the y positions, since the two are
/// alternate sources of vertical placement.
#[derive(Clone, Copy, PartialEq, Eq, Structural, Debug)]
pub struct GrassSpawnerFlags {
    pub xz_defined: bool,
    pub y_defined: bool,
    pub height_defined: bool,
    pub height_map: bool,
}

impl Default for GrassSpawnerFlags {
    fn default() -> (r: Self)
        ensures
            r == (GrassSpawnerFlags {
                xz_defined: false,
                y_defined: false,
                height_defined: false,
                height_map: false,
            }),
    {
        GrassSpawnerFlags { xz_defined: false, y_defined: false, height_defined: false, height_map: false }
    }
}

/// A height-sampling texture reference: the image handle to sample y
/// positions from, and the maximum height it is scaled to.
#[derive(Clone, Copy, PartialEq, Eq, Structural, Debug)]
pub struct HeightMap {
    /// The externally assigned identifier of the heightmap image asset.
    pub height_map: u64,
    /// The vertical extent the sampled values are scaled to, in Q16.16.
    pub height: i32,
}

/// One blade given as a combined record: full position and height.
#[derive(Clone, Copy, PartialEq, Eq, Structural, Debug)]
pub struct GrassBlade {
    pub position: Vec3Fixed,
    pub height: i32,
}

/// The blade heights: one value for every blade, or one entry per blade.
#[derive(Clone, PartialEq, Eq, Debug)]
pub enum HeightRepresentation {
    PerBlade(Vec<i32>),
    Uniform(i32),
}

impl Default for HeightRepresentation {
    fn default() -> (r: Self)
        ensures
            r == HeightRepresentation::Uniform(FIXED_ONE),
    {
        HeightRepresentation::Uniform(FIXED_ONE)
    }
}

/// Whether the defined array-shaped fields agree in length: the xz and y
/// arrays where both are non-empty, and a per-blade height array against
/// each non-empty position array.
pub open spec fn spec_lengths_agree(n_xz: int, n_y: int, heights: HeightRepresentation) -> bool {
    &&& n_xz > 0 && n_y > 0 ==> n_xz == n_y
    &&& match heights {
        HeightRepresentation::PerBlade(h) => {
            &&& n_y > 0 ==> h@.len() == n_y
            &&& n_xz > 0 ==> h@.len() == n_xz
        },
        HeightRepresentation::Uniform(_) => true,
    }
}

/// One chunk's placement description: ground positions, vertical placement
/// (explicit y values or a heightmap), blade heights, and the definition
/// flags mirrored later into the resource cache.
#[derive(Clone, PartialEq, Eq, Debug)]
pub struct GrassSpawner {
    pub positions_xz: Vec<Vec2Fixed>,
    pub positions_y: Vec<i32>,
    pub heights: HeightRepresentation,
    pub height_map: Option<HeightMap>,
    pub flags: GrassSpawnerFlags,
}

impl GrassSpawner {
    /// The internal consistency every builder step preserves: flags reflect
    /// field presence, a heightmap excludes explicit y positions, arrays fit
    /// the packer, and heights are positive.
    pub open spec fn wf(self) -> bool {
        &&& self.flags.xz_defined <==> self.positions_xz@.len() > 0
        &&& (self.flags.y_defined && !self.flags.height_map) <==> self.positions_y@.len() > 0
        &&& self.flags.height_map ==> self.height_map is Some && self.flags.y_defined
        &&& !self.flags.height_map ==> self.height_map is None
        &&& self.positions_xz@.len() <= MAX_PACK_LEN
        &&& self.positions_y@.len() <= MAX_PACK_LEN
        &&& match self.heights {
            HeightRepresentation::PerBlade(h) => {
                &&& 0 < h@.len() <= MAX_PACK_LEN
                &&& forall|i: int| 0 <= i < h@.len() ==> h@[i] > 0
            },
            HeightRepresentation::Uniform(u) => u > 0,
        }
    }

    /// Whether the defined array-shaped fields agree in length.
    pub open spec fn spec_validate_ok(self) -> bool {
        spec_lengths_agree(self.positions_xz@.len() as int, self.positions_y@.len() as int, self.heights)
    }

    /// A descriptor is render-ready when ground positions, a vertical
    /// placement source and a height representation are all defined.
    pub open spec fn spec_render_ready(self) -> bool {
        &&& self.flags.xz_defined
        &&& self.flags.y_defined
        &&& self.flags.height_defined
    }

    /// An empty descriptor: nothing defined, heights one world unit.
    pub fn new() -> (s: GrassSpawner)
        ensures
            s.positions_xz@ == Seq::<Vec2Fixed>::empty(),
            s.positions_y@ == Seq::<i32>::empty(),
            s.heights == HeightRepresentation::Uniform(FIXED_ONE),
            s.height_map is None,
            s.flags == (GrassSpawnerFlags {
                xz_defined: false,
                y_defined: false,
                height_defined: false,
                height_map: false,
            }),
            s.wf(),
            s.spec_validate_ok(),
    {
        GrassSpawner {
            positions_xz: Vec::new(),
            positions_y: Vec::new(),
            heights: HeightRepresentation::Uniform(FIXED_ONE),
            height_map: None,
            flags: GrassSpawnerFlags {
                xz_defined: false,
                y_defined: false,
                height_defined: false,
                height_map: false,
            },
        }
    }

    /// Checks array-length agreement between whichever array-shaped fields
    /// are currently defined; a disagreement is the fatal `LengthMismatch`.
    ///
    /// Length agreement is checked after every mutating builder call.
    pub fn validate(&self) -> (r: Result<(), GrassError>)
        ensures
            r is Ok <==> self.spec_validate_ok(),
            r is Err ==> r == Err::<(), GrassError>(GrassError::LengthMismatch),
    {
        if self.positions_xz.len() > 0 && self.positions_y.len() > 0
            && self.positions_xz.len() != self.positions_y.len() {
            return Err(GrassError::LengthMismatch);
        }
        match &self.heights {
            HeightRepresentation::PerBlade(h) => {
                if self.positions_y.len() > 0 && h.len() != self.positions_y.len() {
                    return Err(GrassError::LengthMismatch);
                }
                if self.positions_xz.len() > 0 && h.len() != self.positions_xz.len() {
                    return Err(GrassError::LengthMismatch);
                }
            },
            HeightRepresentation::Uniform(_) => {},
        }
        Ok(())
    }

    /// Defines the xz positions of all grass blades. Fails if the array is
    /// empty, the xz positions are already defined, or the new length
    /// disagrees with an already defined array.
    pub fn with_positions_xz(self, positions_xz: Vec<Vec2Fixed>) -> (r: Result<GrassSpawner, GrassError>)
        requires
            self.wf(),
            positions_xz@.len() <= MAX_PACK_LEN,
        ensures
            positions_xz@.len() == 0 ==> r == Err::<GrassSpawner, GrassError>(GrassError::EmptyPositions),
            positions_xz@.len() > 0 && self.flags.xz_defined ==> r == Err::<GrassSpawner, GrassError>(
                GrassError::XzAlreadyDefined,
            ),
            positions_xz@.len() > 0 && !self.flags.xz_defined && !spec_lengths_agree(
                positions_xz@.len() as int,
                self.positions_y@.len() as int,
                self.heights,
            ) ==> r == Err::<GrassSpawner, GrassError>(GrassError::LengthMismatch),
            r is Ok <==> positions_xz@.len() > 0 && !self.flags.xz_defined && spec_lengths_agree(
                positions_xz@.len() as int,
                self.positions_y@.len() as int,
                self.heights,
            ),
            r matches Ok(s) ==> {
                &&& s.positions_xz == positions_xz
                &&& s.positions_y == self.positions_y
                &&& s.heights == self.heights
                &&& s.height_map == self.height_map
                &&& s.flags == (GrassSpawnerFlags { xz_defined: true, ..self.flags })
                &&& s.wf()
                &&& s.spec_validate_ok()
            },
    {
        if positions_xz.len() == 0 {
            return Err(GrassError::EmptyPositions);
        }
        if self.flags.xz_defined {
            return Err(GrassError::XzAlreadyDefined);
        }
        let mut s = self;
        s.flags.xz_defined = true;
        s.positions_xz = positions_xz;
        match s.validate() {
            Ok(()) => Ok(s),
            Err(e) => Err(e),
        }
    }

    /// Defines the y position of each grass blade. Fails if the array is
    /// empty, the y positions are already defined (explicitly or by a
    /// heightmap), or the new length disagrees with a defined array.
    pub fn with_positions_y(self, positions_y: Vec<i32>) -> (r: Result<GrassSpawner, GrassError>)
        requires
            self.wf(),
            positions_y@.len() <= MAX_PACK_LEN,
        ensures
            positions_y@.len() == 0 ==> r == Err::<GrassSpawner, GrassError>(GrassError::EmptyPositions),
            positions_y@.len() > 0 && self.flags.y_defined ==> r == Err::<GrassSpawner, GrassError>(
                GrassError::YAlreadyDefined,
            ),
            positions_y@.len() > 0 && !self.flags.y_defined && !spec_lengths_agree(
                self.positions_xz@.len() as int,
                positions_y@.len() as int,
                self.heights,
            ) ==> r == Err::<GrassSpawner, GrassError>(GrassError::LengthMismatch),
            r is Ok <==> positions_y@.len() > 0 && !self.flags.y_defined && spec_lengths_agree(
                self.positions_xz@.len() as int,
                positions_y@.len() as int,
                self.heights,
            ),
            r matches Ok(s) ==> {
                &&& s.positions_xz == self.positions_xz
                &&& s.positions_y == positions_y
                &&& s.heights == self.heights
                &&& s.height_map == self.height_map
                &&& s.flags == (GrassSpawnerFlags { y_defined: true, ..self.flags })
                &&& s.wf()
                &&& s.spec_validate_ok()
            },
    {
        if positions_y.len() == 0 {
            return Err(GrassError::EmptyPositions);
        }
        if self.flags.y_defined {
            return Err(GrassError::YAlreadyDefined);
        }
        let mut s = self;
        s.flags.y_defined = true;
        s.positions_y = positions_y;
        match s.validate() {
            Ok(()) => Ok(s),
            Err(e) => Err(e),
        }
    }

    /// Defines the height of each grass blade. Fails if the array is empty,
    /// a height is not positive, or the length disagrees with a defined
    /// position array.
    pub fn with_heights(self, heights: Vec<i32>) -> (r: Result<GrassSpawner, GrassError>)
        requires
            self.wf(),
            heights@.len() <= MAX_PACK_LEN,
        ensures
            heights@.len() == 0 ==> r == Err::<GrassSpawner, GrassError>(GrassError::EmptyHeights),
            heights@.len() > 0 && (exists|i: int| 0 <= i < heights@.len() && heights@[i] <= 0) ==> r
                == Err::<GrassSpawner, GrassError>(GrassError::NonPositiveHeight),
            heights@.len() > 0 && (forall|i: int| 0 <= i < heights@.len() ==> heights@[i] > 0)
                && !spec_lengths_agree(
                self.positions_xz@.len() as int,
                self.positions_y@.len() as int,
                HeightRepresentation::PerBlade(heights),
            ) ==> r == Err::<GrassSpawner, GrassError>(GrassError::LengthMismatch),
            r is Ok <==> heights@.len() > 0 && (forall|i: int|
                0 <= i < heights@.len() ==> heights@[i] > 0) && spec_lengths_agree(
                self.positions_xz@.len() as int,
                self.positions_y@.len() as int,
                HeightRepresentation::PerBlade(heights),
            ),
            r matches Ok(s) ==> {
                &&& s.positions_xz == self.positions_xz
                &&& s.positions_y == self.positions_y
                &&& s.heights == HeightRepresentation::PerBlade(heights)
                &&& s.height_map == self.height_map
                &&& s.flags == (GrassSpawnerFlags { height_defined: true, ..self.flags })
                &&& s.wf()
                &&& s.spec_validate_ok()
            },
    {
        if heights.len() == 0 {
            return Err(GrassError::EmptyHeights);
        }
        let mut i: usize = 0;
        while i < heights.len()
            invariant
                i <= heights@.len(),
                forall|j: int| 0 <= j < i ==> heights@[j] > 0,
            decreases heights@.len() - i,
        {
            if heights[i] <= 0 {
                return Err(GrassError::NonPositiveHeight);
            }
            i = i + 1;
        }
        let mut s = self;
        s.flags.height_defined = true;
        s.heights = HeightRepresentation::PerBlade(heights);
        match s.validate() {
            Ok(()) => Ok(s),
            Err(e) => Err(e),
        }
    }

    /// Defines the uniform height of all grass blades. Fails if the value
    /// is not positive.
    pub fn with_height_uniform(self, uniform_height: i32) -> (r: Result<GrassSpawner, GrassError>)
        requires
            self.wf(),
        ensures
            uniform_height <= 0 ==> r == Err::<GrassSpawner, GrassError>(GrassError::NonPositiveHeight),
            r is Ok <==> uniform_height > 0,
            r matches Ok(s) ==> {
                &&& s.positions_xz == self.positions_xz
                &&& s.positions_y == self.positions_y
                &&& s.heights == HeightRepresentation::Uniform(uniform_height)
                &&& s.height_map == self.height_map
                &&& s.flags == (GrassSpawnerFlags { height_defined: true, ..self.flags })
                &&& s.wf()
                &&& (self.spec_validate_ok() ==> s.spec_validate_ok())
            },
    {
        if uniform_height <= 0 {
            return Err(GrassError::NonPositiveHeight);
        }
        let mut s = self;
        s.flags.height_defined = true;
        s.heights = HeightRepresentation::Uniform(uniform_height);
        Ok(s)
    }

    /// Attaches a heightmap as the source of y positions. Fails if the y
    /// positions are already defined.
    pub fn with_height_map(self, height_map: HeightMap) -> (r: Result<GrassSpawner, GrassError>)
        requires
            self.wf(),
        ensures
            self.flags.y_defined ==> r == Err::<GrassSpawner, GrassError>(GrassError::YAlreadyDefined),
            r is Ok <==> !self.flags.y_defined,
            r matches Ok(s) ==> {
                &&& s.positions_xz == self.positions_xz
                &&& s.positions_y == self.positions_y
                &&& s.heights == self.heights
                &&& s.height_map == Some(height_map)
                &&& s.flags == (GrassSpawnerFlags { y_defined: true, height_map: true, ..self.flags })
                &&& s.wf()
                &&& (self.spec_validate_ok() ==> s.spec_validate_ok())
            },
    {
        if self.flags.y_defined {
            return Err(GrassError::YAlreadyDefined);
        }
        let mut s = self;
        s.flags.y_defined = true;
        s.flags.height_map = true;
        s.height_map = Some(height_map);
        Ok(s)
    }

    /// Defines the full positions of all grass blades, splitting them into
    /// the xz and y arrays.
    pub fn with_positions(self, positions: Vec<Vec3Fixed>) -> (r: Result<GrassSpawner, GrassError>)
        requires
            self.wf(),
            positions@.len() <= MAX_PACK_LEN,
        ensures
            positions@.len() == 0 ==> r == Err::<GrassSpawner, GrassError>(GrassError::EmptyPositions),
            positions@.len() > 0 && self.flags.xz_defined ==> r == Err::<GrassSpawner, GrassError>(
                GrassError::XzAlreadyDefined,
            ),
            positions@.len() > 0 && !self.flags.xz_defined && !spec_lengths_agree(
                positions@.len() as int,
                self.positions_y@.len() as int,
                self.heights,
            ) ==> r == Err::<GrassSpawner, GrassError>(GrassError::LengthMismatch),
            positions@.len() > 0 && !self.flags.xz_defined && spec_lengths_agree(
                positions@.len() as int,
                self.positions_y@.len() as int,
                self.heights,
            ) && self.flags.y_defined ==> r == Err::<GrassSpawner, GrassError>(GrassError::YAlreadyDefined),
            r is Ok <==> positions@.len() > 0 && !self.flags.xz_defined && !self.flags.y_defined
                && spec_lengths_agree(
                positions@.len() as int,
                self.positions_y@.len() as int,
                self.heights,
            ),
            r matches Ok(s) ==> {
                &&& s.positions_xz@ == xz_of(positions@)
                &&& s.positions_y@ == y_of(positions@)
                &&& s.heights == self.heights
                &&& s.height_map == self.height_map
                &&& s.flags == (GrassSpawnerFlags { xz_defined: true, y_defined: true, ..self.flags })
                &&& s.wf()
                &&& s.spec_validate_ok()
            },
    {
        if positions.len() == 0 {
            return Err(GrassError::EmptyPositions);
        }
        let mut positions_xz: Vec<Vec2Fixed> = Vec::new();
        let mut positions_y: Vec<i32> = Vec::new();
        let mut i: usize = 0;
        while i < positions.len()
            invariant
                i <= positions@.len(),
                positions_xz@.len() == i,
                positions_y@.len() == i,
                forall|j: int| 0 <= j < i ==> positions_xz@[j] == (Vec2Fixed {
                    x: positions@[j].x,
                    y: positions@[j].z,
                }),
                forall|j: int| 0 <= j < i ==> positions_y@[j] == positions@[j].y,
            decreases positions@.len() - i,
        {
            positions_xz.push(Vec2Fixed { x: positions[i].x, y: positions[i].z });
            positions_y.push(positions[i].y);
            i = i + 1;
        }
        proof {
            assert(positions_xz@ =~= xz_of(positions@));
            assert(positions_y@ =~= y_of(positions@));
        }
        let s1 = match self.with_positions_xz(positions_xz) {
            Ok(s) => s,
            Err(e) => {
                return Err(e);
            },
        };
        let s2 = match s1.with_positions_y(positions_y) {
            Ok(s) => s,
            Err(e) => {
                return Err(e);
            },
        };
        match s2.validate() {
            Ok(()) => Ok(s2),
            Err(e) => Err(e),
        }
    }

    /// Builds the descriptor from combined blade records, splitting them
    /// into the xz, y and height arrays.
    pub fn from_grass_blades(self, grass_blades: Vec<GrassBlade>) -> (r: Result<GrassSpawner, GrassError>)
        requires
            self.wf(),
            grass_blades@.len() <= MAX_PACK_LEN,
        ensures
            grass_blades@.len() == 0 ==> r == Err::<GrassSpawner, GrassError>(GrassError::EmptyPositions),
            r is Ok <==> grass_blades@.len() > 0 && !self.flags.xz_defined && !self.flags.y_defined
                && spec_lengths_agree(
                grass_blades@.len() as int,
                self.positions_y@.len() as int,
                self.heights,
            ) && (forall|i: int| 0 <= i < grass_blades@.len() ==> grass_blades@[i].height > 0),
            r matches Ok(s) ==> {
                &&& s.positions_xz@ == xz_of(pos_of(grass_blades@))
                &&& s.positions_y@ == y_of(pos_of(grass_blades@))
                &&& s.heights matches HeightRepresentation::PerBlade(h) && h@ == heights_of(grass_blades@)
                &&& s.height_map == self.height_map
                &&& s.flags == (GrassSpawnerFlags {
                    xz_defined: true,
                    y_defined: true,
                    height_defined: true,
                    ..self.flags
                })
                &&& s.wf()
                &&& s.spec_validate_ok()
                &&& s.spec_render_ready()
            },
    {
        if grass_blades.len() == 0 {
            return Err(GrassError::EmptyPositions);
        }
        let mut positions: Vec<Vec3Fixed> = Vec::new();
        let mut heights: Vec<i32> = Vec::new();
        let mut i: usize = 0;
        while i < grass_blades.len()
            invariant
                i <= grass_blades@.len(),
                positions@.len() == i,
                heights@.len() == i,
                forall|j: int| 0 <= j < i ==> positions@[j] == grass_blades@[j].position,
                forall|j: int| 0 <= j < i ==> heights@[j] == grass_blades@[j].height,
            decreases grass_blades@.len() - i,
        {
            positions.push(grass_blades[i].position);
            heights.push(grass_blades[i].height);
            i = i + 1;
        }
        proof {
            assert(positions@ =~= pos_of(grass_blades@));
            assert(heights@ =~= heights_of(grass_blades@));
            assert(xz_of(positions@) =~= xz_of(pos_of(grass_blades@)));
            assert(y_of(positions@) =~= y_of(pos_of(grass_blades@)));
        }
        let s1 = match self.with_positions(positions) {
            Ok(s) => s,
            Err(e) => {
                return Err(e);
            },
        };
        proof {
            assert(heights@.len() == grass_blades@.len());
            assert(s1.positions_xz@.len() == grass_blades@.len());
            assert(s1.positions_y@.len() == grass_blades@.len());
        }
        let s2 = match s1.with_heights(heights) {
            Ok(s) => s,
            Err(e) => {
                proof {
                    assert(exists|i: int| 0 <= i < heights@.len() && heights@[i] <= 0);
                    let i = choose|i: int| 0 <= i < heights@.len() && heights@[i] <= 0;
                    assert(grass_blades@[i].height <= 0);
                }
                return Err(e);
            },
        };
        proof {
            assert forall|i: int| 0 <= i < grass_blades@.len() implies grass_blades@[i].height > 0 by {
                assert(heights@[i] == grass_blades@[i].height);
                assert(heights@[i] > 0);
            }
        }
        match s2.validate() {
            Ok(()) => Ok(s2),
            Err(e) => Err(e),
        }
    }
}

impl Default for GrassSpawner {
    fn default() -> (s: Self)
        ensures
            s.positions_xz@ == Seq::<Vec2Fixed>::empty(),
            s.positions_y@ == Seq::<i32>::empty(),
            s.heights == HeightRepresentation::Uniform(FIXED_ONE),
            s.height_map is None,
            s.wf(),
            s.spec_validate_ok(),
            !s.flags.xz_defined && !s.flags.y_defined && !s.flags.height_defined
                && !s.flags.height_map,
    {
        GrassSpawner::new()
    }
}

/// The least of `acc` and the first `n` elements of `s`.
pub open spec fn min_upto(s: Seq<int>, n: int, acc: int) -> int
    decreases n,
{
    if n <= 0 {
        acc
    } else {
        let prev = min_upto(s, n - 1, acc);
        if s[n - 1] < prev {
            s[n - 1]
        } else {
            prev
        }
    }
}

/// The greatest of `acc` and the first `n` elements of `s`.
pub open spec fn max_upto(s: Seq<int>, n: int, acc: int) -> int
    decreases n,
{
    if n <= 0 {
        acc
    } else {
        let prev = max_upto(s, n - 1, acc);
        if s[n - 1] > prev {
            s[n - 1]
        } else {
            prev
        }
    }
}

/// The least of `acc` and all elements of `s`.
pub open spec fn min_fold(s: Seq<int>, acc: int) -> int {
    min_upto(s, s.len() as int, acc)
}

/// The greatest of `acc` and all elements of `s`.
pub open spec fn max_fold(s: Seq<int>, acc: int) -> int {
    max_upto(s, s.len() as int, acc)
}

/// The x coordinates of ground positions, as integers.
pub open spec fn xs_of(ps: Seq<Vec2Fixed>) -> Seq<int> {
    ps.map_values(|p: Vec2Fixed| p.x as int)
}

/// The z coordinates of ground positions, as integers.
pub open spec fn zs_of(ps: Seq<Vec2Fixed>) -> Seq<int> {
    ps.map_values(|p: Vec2Fixed| p.y as int)
}

/// The y offsets, as integers.
pub open spec fn ints_of(s: Seq<i32>) -> Seq<int> {
    s.map_values(|v: i32| v as int)
}

/// What the bounds calculator returns for descriptor `s`: the ground-plane
/// extremes of the xz positions; vertically `[0, heightmap.height]` with a
/// heightmap, else the y extremes with one nominal world unit (`FIXED_ONE`)
/// added on top, whatever the configured blade height.
pub open spec fn spec_aabb_of(s: GrassSpawner, r: Aabb) -> bool {
    &&& r.min.x == min_fold(xs_of(s.positions_xz@), i64::MAX as int)
    &&& r.min.z == min_fold(zs_of(s.positions_xz@), i64::MAX as int)
    &&& r.max.x == max_fold(xs_of(s.positions_xz@), i64::MIN as int)
    &&& r.max.z == max_fold(zs_of(s.positions_xz@), i64::MIN as int)
    &&& s.flags.height_map ==> r.min.y == 0 && r.max.y == s.height_map.unwrap().height as int
    &&& !s.flags.height_map ==> r.min.y == min_fold(ints_of(s.positions_y@), i64::MAX as int)
        && r.max.y == max_fold(ints_of(s.positions_y@), i64::MIN as int) + FIXED_ONE
    &&& r.spec_extents_fit()
}

impl GrassSpawner {
    /// Derives the axis-aligned bounding box of all blades. With a heightmap
    /// the vertical extent is `[0, heightmap.height]` applied uniformly,
    /// since per-pixel heights are not known at this stage; otherwise each
    /// blade spans one nominal world unit (`FIXED_ONE`) above its y offset,
    /// whatever the configured blade height.
    pub fn calculate_aabb(&self) -> (r: Aabb)
        requires
            self.wf(),
            self.spec_validate_ok(),
            self.flags.xz_defined,
            !self.flags.height_map ==> self.flags.y_defined,
        ensures
            spec_aabb_of(*self, r),
    {
        let ghost xs = xs_of(self.positions_xz@);
        let ghost zs = zs_of(self.positions_xz@);
        let mut min_x: i64 = i64::MAX;
        let mut min_z: i64 = i64::MAX;
        let mut max_x: i64 = i64::MIN;
        let mut max_z: i64 = i64::MIN;
        let mut i: usize = 0;
        while i < self.positions_xz.len()
            invariant
                i <= self.positions_xz@.len(),
                xs == xs_of(self.positions_xz@),
                zs == zs_of(self.positions_xz@),
                min_x == min_upto(xs, i as int, i64::MAX as int),
                min_z == min_upto(zs, i as int, i64::MAX as int),
                max_x == max_upto(xs, i as int, i64::MIN as int),
                max_z == max_upto(zs, i as int, i64::MIN as int),
                i > 0 ==> i32::MIN <= min_x <= i32::MAX && i32::MIN <= min_z <= i32::MAX
                    && i32::MIN <= max_x <= i32::MAX && i32::MIN <= max_z <= i32::MAX,
            decreases self.positions_xz@.len() - i,
        {
            let p = self.positions_xz[i];
            if (p.x as i64) < min_x {
                min_x = p.x as i64;
            }
            if (p.y as i64) < min_z {
                min_z = p.y as i64;
            }
            if (p.x as i64) > max_x {
                max_x = p.x as i64;
            }
            if (p.y as i64) > max_z {
                max_z = p.y as i64;
            }
            i = i + 1;
        }
        if self.flags.height_map {
            let hm = match &self.height_map {
                Some(hm) => *hm,
                None => {
                    // wf with the heightmap flag set guarantees the field.
                    proof {
                        assert(false);
                    }
                    HeightMap { height_map: 0, height: 0 }
                },
            };
            Aabb {
                min: Vec3World { x: min_x, y: 0, z: min_z },
                max: Vec3World { x: max_x, y: hm.height as i64, z: max_z },
            }
        } else {
            let ghost ys = ints_of(self.positions_y@);
            let mut min_y: i64 = i64::MAX;
            let mut max_y: i64 = i64::MIN;
            let mut j: usize = 0;
            while j < self.positions_y.len()
                invariant
                    j <= self.positions_y@.len(),
                    ys == ints_of(self.positions_y@),
                    min_y == min_upto(ys, j as int, i64::MAX as int),
                    max_y == max_upto(ys, j as int, i64::MIN as int),
                    j > 0 ==> i32::MIN <= max_y <= i32::MAX && i32::MIN <= min_y <= i32::MAX,
                decreases self.positions_y@.len() - j,
            {
                let y = self.positions_y[j];
                if (y as i64) < min_y {
                    min_y = y as i64;
                }
                if (y as i64) > max_y {
                    max_y = y as i64;
                }
                j = j + 1;
            }
            // Non-empty y positions: validated against the non-empty xz array.
            assert(self.positions_y@.len() > 0);
            Aabb {
                min: Vec3World { x: min_x, y: min_y, z: min_z },
                max: Vec3World { x: max_x, y: max_y + (FIXED_ONE as i64), z: max_z },
            }
        }
    }
}

/// The xz projections of full positions, in order.
pub open spec fn xz_of(ps: Seq<Vec3Fixed>) -> Seq<Vec2Fixed> {
    ps.map_values(|p: Vec3Fixed| Vec2Fixed { x: p.x, y: p.z })
}

/// The y components of full positions, in order.
pub open spec fn y_of(ps: Seq<Vec3Fixed>) -> Seq<i32> {
    ps.map_values(|p: Vec3Fixed| p.y)
}

/// The positions of combined blade records, in order.
pub open spec fn pos_of(bs: Seq<GrassBlade>) -> Seq<Vec3Fixed> {
    bs.map_values(|b: GrassBlade| b.position)
}

/// The heights of combined blade records, in order.
pub open spec fn heights_of(bs: Seq<GrassBlade>) -> Seq<i32> {
    bs.map_values(|b: GrassBlade| b.height)
}

} // verus!
