//! Square-texture packing: the single primitive behind all per-instance data
//! upload. An arbitrary-length attribute array is laid out in the smallest
//! square texture that holds it, padded with a fill element, so a shader can
//! address element `i` at `(i % side, i / side)` without a dynamically sized
//! buffer binding.

use vstd::prelude::*;

use crate::types::Vec2Fixed;

verus! {

/// The largest array length the packer accepts: 65535 * 65535, the largest
/// count whose square texture side and texel count still fit in `u32`.
pub const MAX_PACK_LEN: usize = 0xFFFE_0001;

/// The texel layout of a packed texture: one or two 32-bit channels.
#[derive(Clone, Copy, PartialEq, Eq, Structural, Debug)]
pub enum TextureFormat {
    /// One 32-bit channel per texel.
    R32,
    /// Two 32-bit channels per texel.
    Rg32,
}

/// A packed square texture: `side * side` texels, the source data first,
/// fill elements after. The element byte layout must match what `format`
/// promises to the consuming shader; that is the caller's contract, not a
/// runtime check.
pub struct PackedTexture<T> {
    pub format: TextureFormat,
    pub side: u32,
    pub texels: Vec<T>,
}

/// What it means for `t` to be the packing of `data` padded with `fill`:
/// the side is the smallest square root that holds `data`, the first
/// `data.len()` texels are `data` in order, and the rest are `fill`.
pub open spec fn is_packed<T>(t: PackedTexture<T>, data: Seq<T>, fill: T, format: TextureFormat) -> bool {
    &&& t.format == format
    &&& (t.side as int) * (t.side as int) >= data.len()
    &&& data.len() > 0 ==> t.side >= 1 && ((t.side - 1) as int) * ((t.side - 1) as int) < data.len()
    &&& data.len() == 0 ==> t.side == 0
    &&& t.texels@.len() == (t.side as int) * (t.side as int)
    &&& forall|i: int| 0 <= i < data.len() ==> t.texels@[i] == data[i]
    &&& forall|i: int| data.len() <= i < t.texels@.len() ==> t.texels@[i] == fill
}

/// Whether `a * a <= b`, for `a` small enough that the square fits.
fn sq_le(a: u64, b: u64) -> (r: bool)
    requires
        a <= 0x1_0000,
    ensures
        r <==> (a as int) * (a as int) <= b,
{
    proof {
        assert((a as int) * (a as int) <= 0x1_0000_0000) by (nonlinear_arith)
            requires
                a <= 0x1_0000,
        ;
    }
    a * a <= b
}

/// The smallest `n` with `n * n >= len`.
fn ceil_sqrt(len: usize) -> (n: u32)
    requires
        len <= MAX_PACK_LEN,
    ensures
        n <= 0xFFFF,
        (n as int) * (n as int) >= len,
        len > 0 ==> n >= 1 && ((n - 1) as int) * ((n - 1) as int) < len,
        len == 0 ==> n == 0,
{
    let mut r: u64 = 0;
    while r < 0xFFFF && sq_le(r + 1, len as u64)
        invariant
            len <= MAX_PACK_LEN,
            r <= 0xFFFF,
            (r as int) * (r as int) <= len,
            len == 0 ==> r == 0,
        decreases 0xFFFF - r,
    {
        proof {
            assert(len >= 1) by (nonlinear_arith)
                requires
                    ((r + 1) as int) * ((r + 1) as int) <= len as int,
            ;
        }
        r = r + 1;
    }
    assert(65535int * 65535int == MAX_PACK_LEN as int);
    if sq_le(r, len as u64) && sq_le_rev(r, len as u64) {
        proof {
            if len > 0 {
                assert(r >= 1 && ((r - 1) as int) * ((r - 1) as int) < (r as int) * (r as int))
                    by (nonlinear_arith)
                    requires
                        (r as int) * (r as int) == len as int,
                        len > 0,
                ;
            }
        }
        r as u32
    } else {
        assert((r as int) * (r as int) < len);
        assert(r < 0xFFFF);
        r as u32 + 1
    }
}

/// Whether `a * a >= b`, for `a` small enough that the square fits.
fn sq_le_rev(a: u64, b: u64) -> (r: bool)
    requires
        a <= 0x1_0000,
    ensures
        r <==> (a as int) * (a as int) >= b,
{
    proof {
        assert((a as int) * (a as int) <= 0x1_0000_0000) by (nonlinear_arith)
            requires
                a <= 0x1_0000,
        ;
    }
    a * a >= b
}

/// Packs `data` into the minimal square texture, padding with `fill`.
/// The format is recorded for the consumer; element layout matching it is a
/// documented contract of the caller.
pub fn pack_to_texture<T: Copy>(data: &Vec<T>, fill: T, format: TextureFormat) -> (t: PackedTexture<T>)
    requires
        data@.len() <= MAX_PACK_LEN,
    ensures
        is_packed(t, data@, fill, format),
{
    let side = ceil_sqrt(data.len());
    proof {
        assert((side as int) * (side as int) <= 0xFFFE_0001) by (nonlinear_arith)
            requires
                side <= 0xFFFF,
        ;
    }
    let total: usize = (side as usize) * (side as usize);
    let mut texels: Vec<T> = Vec::new();
    let mut i: usize = 0;
    while i < total
        invariant
            i <= total,
            total == (side as int) * (side as int),
            total >= data@.len(),
            texels@.len() == i,
            forall|j: int| 0 <= j < i && j < data@.len() ==> texels@[j] == data@[j],
            forall|j: int| data@.len() <= j < i ==> texels@[j] == fill,
        decreases total - i,
    {
        if i < data.len() {
            texels.push(data[i]);
        } else {
            texels.push(fill);
        }
        i = i + 1;
    }
    PackedTexture { format, side, texels }
}

/// Relies on bytemuck::cast_slice: reinterprets a slice of 32-bit integers
/// as its raw bytes, four per element (it never panics here, since every
/// slice length divides evenly into bytes).
#[verifier::external_body]
fn fixed_slice_bytes(v: &Vec<i32>) -> (r: Vec<u8>)
    ensures
        r@.len() == 4 * v@.len(),
{
    bytemuck::cast_slice::<i32, u8>(v.as_slice()).to_vec()
}

impl PackedTexture<i32> {
    /// The texel byte buffer to upload in one transfer: four bytes per texel.
    pub fn byte_data(&self) -> (r: Vec<u8>)
        ensures
            r@.len() == 4 * self.texels@.len(),
    {
        fixed_slice_bytes(&self.texels)
    }
}

impl PackedTexture<Vec2Fixed> {
    /// The texel byte buffer to upload in one transfer: eight bytes per texel,
    /// the two channels of each texel in order.
    pub fn byte_data(&self) -> (r: Vec<u8>)
        ensures
            r@.len() == 8 * self.texels@.len(),
    {
        let mut flat: Vec<i32> = Vec::new();
        let mut i: usize = 0;
        while i < self.texels.len()
            invariant
                i <= self.texels@.len(),
                flat@.len() == 2 * i,
            decreases self.texels@.len() - i,
        {
            flat.push(self.texels[i].x);
            flat.push(self.texels[i].y);
            i = i + 1;
        }
        fixed_slice_bytes(&flat)
    }
}

} // verus!
