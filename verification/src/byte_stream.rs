//! The layout of a cubemap as one run of bytes: mip levels in ascending
//! order, the six faces of each level in order, each face row by row without
//! padding.

use vstd::prelude::*;

use crate::mipmap::{level_side, mip_side};

verus! {

/// The bytes of one row of a face at mip level `level`.
pub open spec fn row_bytes(side: nat, bytes_per_pixel: nat, level: nat) -> nat {
    mip_side(side, level) * bytes_per_pixel
}

/// The bytes of one face at mip level `level`.
pub open spec fn face_bytes(side: nat, bytes_per_pixel: nat, level: nat) -> nat {
    mip_side(side, level) * row_bytes(side, bytes_per_pixel, level)
}

/// The bytes of the six faces of mip level `level`.
pub open spec fn level_bytes(side: nat, bytes_per_pixel: nat, level: nat) -> nat {
    6 * face_bytes(side, bytes_per_pixel, level)
}

/// The bytes of the first `levels` mip levels: where level `levels` begins.
pub open spec fn stream_bytes(side: nat, bytes_per_pixel: nat, levels: nat) -> nat
    decreases levels,
{
    if levels == 0 {
        0
    } else {
        stream_bytes(side, bytes_per_pixel, (levels - 1) as nat) + level_bytes(
            side,
            bytes_per_pixel,
            (levels - 1) as nat,
        )
    }
}

/// Where face `face` of mip level `level` begins.
pub open spec fn face_offset(side: nat, bytes_per_pixel: nat, level: nat, face: nat) -> nat {
    stream_bytes(side, bytes_per_pixel, level) + face * face_bytes(side, bytes_per_pixel, level)
}

/// A stream of more levels is no shorter.
pub proof fn lemma_stream_bytes_grows(side: nat, bytes_per_pixel: nat, fewer: nat, more: nat)
    requires
        fewer <= more,
    ensures
        stream_bytes(side, bytes_per_pixel, fewer) <= stream_bytes(side, bytes_per_pixel, more),
    decreases more,
{
    if fewer < more {
        lemma_stream_bytes_grows(side, bytes_per_pixel, fewer, (more - 1) as nat);
    }
}

/// The faces of a level follow one another without a gap, and the level after
/// the last face begins where that face ends.
pub proof fn lemma_faces_are_contiguous(side: nat, bytes_per_pixel: nat, level: nat, face: nat)
    requires
        face < 6,
    ensures
        face_offset(side, bytes_per_pixel, level, face) + face_bytes(side, bytes_per_pixel, level)
            == if face < 5 {
            face_offset(side, bytes_per_pixel, level, face + 1)
        } else {
            face_offset(side, bytes_per_pixel, level + 1, 0)
        },
{
    let size = face_bytes(side, bytes_per_pixel, level);
    assert(face * size + size == (face + 1) * size) by (nonlinear_arith);
    assert(stream_bytes(side, bytes_per_pixel, level + 1) == stream_bytes(
        side,
        bytes_per_pixel,
        level,
    ) + 6 * size);
    assert(0 * face_bytes(side, bytes_per_pixel, level + 1) == 0);
}

/// The bytes of one row of a face at a mip level.
pub fn level_row_bytes(side: u32, bytes_per_pixel: u32, level: u32) -> (bytes: u64)
    ensures
        bytes == row_bytes(side as nat, bytes_per_pixel as nat, level as nat),
{
    let texels = level_side(side, level);
    assert(texels * bytes_per_pixel <= u64::MAX) by (nonlinear_arith)
        requires
            texels <= u32::MAX,
            bytes_per_pixel <= u32::MAX,
    ;
    texels as u64 * bytes_per_pixel as u64
}

/// The bytes of one face at a mip level.
pub fn level_face_bytes(side: u32, bytes_per_pixel: u32, level: u32) -> (bytes: u128)
    ensures
        bytes == face_bytes(side as nat, bytes_per_pixel as nat, level as nat),
        bytes < 0x1_0000_0000_0000_0000_0000_0000,
{
    let texels = level_side(side, level);
    let row = level_row_bytes(side, bytes_per_pixel, level);
    assert(texels * row < 0x1_0000_0000_0000_0000_0000_0000) by (nonlinear_arith)
        requires
            texels <= 0xffff_ffff,
            row == texels * bytes_per_pixel,
            bytes_per_pixel <= 0xffff_ffff,
    ;
    texels as u128 * row as u128
}

} // verus!
