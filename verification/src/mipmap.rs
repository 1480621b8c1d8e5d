//! The mip chain of a cube texture: how many levels it has, how large each
//! level is, and the passes that build every level from the one before it.

use vstd::arithmetic::power2::{lemma2_to64, lemma_pow2_unfold, pow2};
use vstd::prelude::*;

use crate::shader_src::{set_texture_format, spec_set_texture_format};
use crate::texture::{Dispatch, Extent, TextureFormat, TextureResource, TextureUsages};

verus! {

/// The whole part of the base-two logarithm of `n`; 0 for `n` below 2.
pub open spec fn floor_log2(n: nat) -> nat
    decreases n,
{
    if n <= 1 {
        0
    } else {
        1 + floor_log2(n / 2)
    }
}

/// The number of levels of a full mip chain over a base level of side `side`.
pub open spec fn mip_levels(side: nat) -> nat {
    floor_log2(side) + 1
}

/// The side of mip level `level` over a base level of side `side`: every
/// level has half the side of the one before it, rounded down.
pub open spec fn mip_side(side: nat, level: nat) -> nat
    decreases level,
{
    if level == 0 {
        side
    } else {
        mip_side(side, (level - 1) as nat) / 2
    }
}

/// Halving first and then descending is the same as descending one level more.
pub proof fn lemma_mip_side_of_half(side: nat, level: nat)
    ensures
        mip_side(side / 2, level) == mip_side(side, level + 1),
    decreases level,
{
    if level > 0 {
        lemma_mip_side_of_half(side, (level - 1) as nat);
    } else {
        assert(mip_side(side, 0) == side);
    }
}

/// The sides of a mip chain never grow.
pub proof fn lemma_mip_side_decreases(side: nat, lower: nat, upper: nat)
    requires
        lower <= upper,
    ensures
        mip_side(side, upper) <= mip_side(side, lower),
    decreases upper,
{
    if lower < upper {
        lemma_mip_side_decreases(side, lower, (upper - 1) as nat);
    }
}

/// The chain ends where the side reaches zero: every level of the chain has
/// a side of at least one texel, the last level has a side of exactly one,
/// and one level further the side is zero.
pub proof fn lemma_mip_chain_ends(side: nat)
    requires
        side >= 1,
    ensures
        forall|level: nat| level < mip_levels(side) ==> mip_side(side, level) >= 1,
        mip_side(side, (mip_levels(side) - 1) as nat) == 1,
        mip_side(side, mip_levels(side)) == 0,
    decreases side,
{
    if side > 1 {
        lemma_mip_chain_ends(side / 2);
        assert forall|level: nat| level < mip_levels(side) implies mip_side(side, level)
            >= 1 by {
            if level > 0 {
                lemma_mip_side_of_half(side, (level - 1) as nat);
            }
        }
        lemma_mip_side_of_half(side, (mip_levels(side / 2) - 1) as nat);
        lemma_mip_side_of_half(side, mip_levels(side / 2));
    }
}

/// The level count is the logarithm it is named after: the side lies between
/// two to the last level's number and twice that.
pub proof fn lemma_mip_levels_brackets_side(side: nat)
    requires
        side >= 1,
    ensures
        pow2(floor_log2(side)) <= side,
        side < pow2(floor_log2(side) + 1),
    decreases side,
{
    lemma2_to64();
    if side > 1 {
        lemma_mip_levels_brackets_side(side / 2);
        lemma_pow2_unfold(floor_log2(side));
        lemma_pow2_unfold(floor_log2(side) + 1);
    }
}

/// A side below two to the power of `bits` has at most `bits` levels.
pub proof fn lemma_mip_levels_bound(side: nat, bits: nat)
    requires
        bits >= 1,
        side < pow2(bits),
    ensures
        mip_levels(side) <= bits,
    decreases side,
{
    lemma2_to64();
    if side > 1 {
        lemma_pow2_unfold(bits);
        if bits >= 2 {
            lemma_mip_levels_bound(side / 2, (bits - 1) as nat);
        }
    }
}

/// A level has texels exactly when it belongs to the chain.
pub proof fn lemma_mip_side_positive(side: nat, level: nat)
    ensures
        mip_side(side, level) >= 1 <==> side >= 1 && level < mip_levels(side),
{
    if side >= 1 {
        lemma_mip_chain_ends(side);
        if level >= mip_levels(side) {
            lemma_mip_side_decreases(side, mip_levels(side), level);
        }
    } else {
        lemma_mip_side_decreases(side, 0, level);
    }
}

/// Halving a side `level` times is shifting it right by `level` bits.
pub proof fn lemma_mip_side_is_shift(side: u32, level: u32)
    requires
        level < 32,
    ensures
        mip_side(side as nat, level as nat) == side >> level,
    decreases level,
{
    if level == 0 {
        assert(side >> 0u32 == side) by (bit_vector);
    } else {
        let before = (level - 1) as u32;
        lemma_mip_side_is_shift(side, before);
        assert(side >> level == (side >> before) / 2) by (bit_vector)
            requires
                level == before + 1,
                before < 31,
        ;
    }
}

/// The side of mip level `level` over a base level of side `side`.
pub fn level_side(side: u32, level: u32) -> (level_side: u32)
    ensures
        level_side == mip_side(side as nat, level as nat),
{
    let mut current = side;
    let mut done: u32 = 0;
    while done < level && current > 0
        invariant
            done <= level,
            current == mip_side(side as nat, done as nat),
        decreases level - done,
    {
        current = current / 2;
        done = done + 1;
    }
    proof {
        if done < level {
            lemma_mip_side_decreases(side as nat, done as nat, level as nat);
        }
    }
    current
}

/// The number of levels of a full mip chain over a base level of side `side`:
/// the whole part of its base-two logarithm, and one more.
pub fn mip_level_count(side: u32) -> (levels: u32)
    ensures
        levels == mip_levels(side as nat),
        1 <= levels <= 32,
{
    let mut levels: u32 = 1;
    let mut rest = side;
    proof {
        lemma2_to64();
        lemma_mip_levels_bound(side as nat, 32);
    }
    while rest > 1
        invariant
            levels + floor_log2(rest as nat) == mip_levels(side as nat),
            1 <= levels,
            mip_levels(side as nat) <= 32,
        decreases rest,
    {
        rest = rest / 2;
        levels = levels + 1;
    }
    levels
}

/// The entry point of the kernel that halves one level into the next.
pub const GENERATE_MIPMAPS_ENTRY_POINT: &'static str = "generate_mipmaps";

/// One pass of the mip chain: a kernel run that reads `source_level` and
/// writes `target_level`, one workgroup for each texel of the target.
#[derive(Clone, Copy, Debug, PartialEq, Eq, Structural)]
pub struct MipPass {
    pub source_level: u32,
    pub target_level: u32,
    pub workgroups: Dispatch,
}

/// What the device has to do for a mip chain, all of it in one submission:
/// create `output`, copy the source texture into its level 0, then run the
/// passes in order.
#[derive(Debug)]
pub struct MipmapPlan {
    /// The kernel text, specialised for the format of the texture.
    pub shader: String,
    /// The texture that receives the chain.
    pub output: TextureResource,
    /// What is copied from level 0 of the source to level 0 of `output`.
    pub base_copy: Extent,
    /// The passes, in the order in which they must run.
    pub passes: Vec<MipPass>,
}

/// The pass that writes level `target` of a chain over a base of side `side`.
pub open spec fn mip_pass(side: nat, target: nat) -> MipPass {
    MipPass {
        source_level: (target - 1) as u32,
        target_level: target as u32,
        workgroups: Dispatch::per_texel(mip_side(side, target) as u32),
    }
}

/// The passes of a full chain over a base of side `side`: level 1 from level
/// 0, level 2 from level 1, and so on to the last level.
pub open spec fn mip_passes(side: nat) -> Seq<MipPass> {
    Seq::new((mip_levels(side) - 1) as nat, |i: int| mip_pass(side, (i + 1) as nat))
}

/// The larger of the width and the height of a texture.
pub open spec fn max_side(texture: TextureResource) -> u32 {
    if texture.width >= texture.height {
        texture.width
    } else {
        texture.height
    }
}

/// The texture that holds the mip chain of `texture`.
pub open spec fn mipmapped(texture: TextureResource) -> TextureResource {
    TextureResource {
        width: texture.width,
        height: texture.height,
        faces: texture.faces,
        mip_level_count: mip_levels(max_side(texture) as nat) as u32,
        format: texture.format,
        usage: TextureUsages {
            storage_binding: true,
            texture_binding: true,
            copy_src: true,
            copy_dst: true,
        },
    }
}

/// The formats that the mipmap kernel is specialised with.
pub open spec fn mipmap_formats(format: TextureFormat) -> Seq<(Seq<char>, TextureFormat)> {
    seq![("input"@, format), ("output"@, format)]
}

/// Plans the mip chain of a cube texture.
///
/// Level 0 is not computed: it is a copy of the source. Each further level is
/// halved from the level before it, so the passes run in ascending order, and
/// the chain stops where the side would reach zero.
pub fn generate_mipmaps(shader_template: &str, texture: &TextureResource) -> (plan: MipmapPlan)
    ensures
        plan.shader@ == spec_set_texture_format(shader_template@, mipmap_formats(texture.format)),
        plan.output == mipmapped(*texture),
        plan.base_copy == (Extent {
            width: texture.width,
            height: texture.height,
            layers: texture.faces,
        }),
        plan.passes@ == mip_passes(max_side(*texture) as nat),
{
    let table = [("input", texture.format), ("output", texture.format)];
    let formats = table.as_slice();
    proof {
        broadcast use vstd::array::group_array_axioms;

        assert(formats@ == table@);
        assert(formats.deep_view() =~= mipmap_formats(texture.format));
    }
    let shader = set_texture_format(shader_template, formats);
    let max_side = if texture.width >= texture.height {
        texture.width
    } else {
        texture.height
    };
    let mip_level_count = mip_level_count(max_side);
    let output = TextureResource {
        width: texture.width,
        height: texture.height,
        faces: texture.faces,
        mip_level_count,
        format: texture.format,
        usage: TextureUsages {
            storage_binding: true,
            texture_binding: true,
            copy_src: true,
            copy_dst: true,
        },
    };
    let base_copy = Extent { width: texture.width, height: texture.height, layers: texture.faces };
    let mut passes: Vec<MipPass> = Vec::new();
    let mut side = max_side / 2;
    let mut level: u32 = 0;
    proof {
        assert(mip_side(max_side as nat, 0) == max_side);
    }
    while side > 0
        invariant
            level < mip_levels(max_side as nat) <= 32,
            side == mip_side(max_side as nat, (level + 1) as nat),
            passes@.len() == level,
            forall|i: int| 0 <= i < level ==> passes@[i] == mip_pass(max_side as nat, (i + 1) as nat),
        decreases side,
    {
        proof {
            lemma_mip_side_positive(max_side as nat, (level + 1) as nat);
        }
        passes.push(
            MipPass {
                source_level: level,
                target_level: level + 1,
                workgroups: Dispatch::for_each_texel(side),
            },
        );
        side = side / 2;
        level = level + 1;
    }
    proof {
        lemma_mip_side_positive(max_side as nat, (level + 1) as nat);
        lemma_mip_side_positive(max_side as nat, level as nat);
        assert(passes@ =~= mip_passes(max_side as nat));
    }
    MipmapPlan { shader, output, base_copy, passes }
}

} // verus!
