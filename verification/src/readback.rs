//! Reading a cube texture back from the device, one mip level at a time
//! through one staging buffer, into a byte stream without padding.
//!
//! The device copies rows at a pitch of at least its row alignment. A level
//! whose rows are shorter than that alignment is first copied into an
//! auxiliary texture that is exactly one aligned row wide, so that every copy
//! reads whole rows; what the host then finds behind each row is padding, and
//! it is left out of the stream.

use vstd::prelude::*;

use crate::byte_stream::{
    face_bytes, lemma_stream_bytes_grows, level_bytes, level_face_bytes, level_row_bytes,
    row_bytes, stream_bytes,
};
use crate::error::BakeError;
use crate::ktx::holds_cubemap;
use crate::mipmap::{level_side, lemma_mip_side_decreases, mip_level_count, mip_levels, mip_side};
use crate::texture::{
    row_alignment, Extent, TextureFormat, TextureResource, TextureUsages, CUBE_FACES, ROW_ALIGNMENT,
};

verus! {

/// What remains of `rows` rows that lie `pitch` bytes apart in `mapped` when
/// only the first `row` bytes of each are kept.
pub open spec fn unpadded(mapped: Seq<u8>, pitch: nat, row: nat, rows: nat) -> Seq<u8>
    decreases rows,
{
    if rows == 0 {
        Seq::empty()
    } else {
        unpadded(mapped, pitch, row, (rows - 1) as nat) + mapped.subrange(
            (rows - 1) * pitch,
            (rows - 1) * pitch + row,
        )
    }
}

/// No padding leaks through: what remains has exactly `row` bytes for each
/// row, and byte `column` of row `r` is the byte that the device wrote there.
pub proof fn lemma_unpadded_rows(mapped: Seq<u8>, pitch: nat, row: nat, rows: nat)
    requires
        row <= pitch,
        rows * pitch <= mapped.len(),
    ensures
        unpadded(mapped, pitch, row, rows).len() == rows * row,
        forall|r: int, column: int|
            0 <= r < rows && 0 <= column < row ==> #[trigger] unpadded(mapped, pitch, row, rows)[r
                * row + column] == mapped[r * pitch + column],
    decreases rows,
{
    if rows > 0 {
        let before = (rows - 1) as nat;
        assert(before * pitch + pitch == rows * pitch) by (nonlinear_arith)
            requires
                before + 1 == rows,
        ;
        assert(before * row + row == rows * row) by (nonlinear_arith)
            requires
                before + 1 == rows,
        ;
        assert(before * pitch <= rows * pitch);
        lemma_unpadded_rows(mapped, pitch, row, before);
        let all = unpadded(mapped, pitch, row, rows);
        let head = unpadded(mapped, pitch, row, before);
        assert forall|r: int, column: int| 0 <= r < rows && 0 <= column < row implies #[trigger] all[r
            * row + column] == mapped[r * pitch + column] by {
            if r < before {
                assert(r * row + column < before * row) by (nonlinear_arith)
                    requires
                        0 <= r < before,
                        0 <= column < row,
                ;
                assert(all[r * row + column] == head[r * row + column]);
            } else {
                assert(r == before);
                assert(all[before * row + column] == mapped.subrange(
                    (before * pitch) as int,
                    (before * pitch + row) as int,
                )[column]);
            }
        }
    }
}

/// Rows that lie exactly one row apart hold no padding: all of them remain.
pub proof fn lemma_unpadded_dense(mapped: Seq<u8>, row: nat, rows: nat)
    requires
        rows * row <= mapped.len(),
    ensures
        unpadded(mapped, row, row, rows) == mapped.subrange(0, (rows * row) as int),
    decreases rows,
{
    if rows > 0 {
        let before = (rows - 1) as nat;
        assert(before * row + row == rows * row) by (nonlinear_arith)
            requires
                before + 1 == rows,
        ;
        lemma_unpadded_dense(mapped, row, before);
        assert(unpadded(mapped, row, row, rows) =~= mapped.subrange(0, (rows * row) as int));
    } else {
        assert(0 * row == 0);
        assert(unpadded(mapped, row, row, rows) =~= mapped.subrange(0, (rows * row) as int));
    }
}

/// Appends to `stream` the first `row` bytes of each of `rows` rows that lie
/// `pitch` bytes apart in `mapped`.
pub fn append_unpadded(stream: &mut Vec<u8>, mapped: &[u8], pitch: usize, row: usize, rows: usize)
    requires
        row <= pitch,
        rows * pitch <= mapped@.len(),
        old(stream)@.len() + rows * row <= usize::MAX,
    ensures
        final(stream)@ == old(stream)@ + unpadded(mapped@, pitch as nat, row as nat, rows as nat),
{
    let ghost before = stream@;
    let available = mapped.len();
    let mut r: usize = 0;
    while r < rows
        invariant
            available == mapped@.len(),
            r <= rows,
            row <= pitch,
            rows * pitch <= mapped@.len(),
            before.len() + rows * row <= usize::MAX,
            stream@ == before + unpadded(mapped@, pitch as nat, row as nat, r as nat),
            stream@.len() == before.len() + r * row,
        decreases rows - r,
    {
        assert(r * pitch + row <= rows * pitch && (r + 1) * row <= rows * row && r * row + row == (r
            + 1) * row) by (nonlinear_arith)
            requires
                r < rows,
                row <= pitch,
        ;
        let start = r * pitch;
        let kept = vstd::slice::slice_subrange(mapped, start, start + row);
        let ghost so_far = stream@;
        stream.extend_from_slice(kept);
        proof {
            assert(stream@ =~= so_far + kept@);
            assert(unpadded(mapped@, pitch as nat, row as nat, (r + 1) as nat) == unpadded(
                mapped@,
                pitch as nat,
                row as nat,
                r as nat,
            ) + kept@);
            assert(before + (unpadded(mapped@, pitch as nat, row as nat, r as nat) + kept@) =~= (
            before + unpadded(mapped@, pitch as nat, row as nat, r as nat)) + kept@);
        }
        r = r + 1;
    }
}

/// Whether the rows of a mip level are shorter than the row alignment, so
/// that the level has to travel through the auxiliary texture.
pub open spec fn is_padded(side: nat, bytes_per_pixel: nat, level: nat) -> bool {
    row_bytes(side, bytes_per_pixel, level) < ROW_ALIGNMENT
}

/// The distance in bytes between two rows of a mip level in the staging
/// buffer: the row alignment for a padded level, else the row itself.
pub open spec fn row_pitch(side: nat, bytes_per_pixel: nat, level: nat) -> nat {
    if is_padded(side, bytes_per_pixel, level) {
        ROW_ALIGNMENT as nat
    } else {
        row_bytes(side, bytes_per_pixel, level)
    }
}

/// The rows of a mip level: the rows of its six faces.
pub open spec fn level_rows(side: nat, level: nat) -> nat {
    6 * mip_side(side, level)
}

/// The bytes of the staging buffer that a mip level fills.
pub open spec fn mapped_bytes(side: nat, bytes_per_pixel: nat, level: nat) -> nat {
    level_rows(side, level) * row_pitch(side, bytes_per_pixel, level)
}

/// How one mip level is copied into the staging buffer.
#[derive(Clone, Copy, Debug, PartialEq, Eq, Structural)]
pub struct LevelCopy {
    /// The mip level that is read.
    pub level: u32,
    /// The side of that level.
    pub level_side: u32,
    /// Whether the level is first copied into level 0 of the auxiliary
    /// texture, from where it is then copied into the staging buffer.
    pub through_aux: bool,
    /// The distance in bytes between two rows in the staging buffer.
    pub bytes_per_row: u32,
    /// The rows of one face in the staging buffer.
    pub rows_per_image: u32,
    /// What is copied into the staging buffer: whole rows of the pitch.
    pub extent: Extent,
    /// The bytes of the staging buffer to map and to hand back.
    pub mapped_bytes: u64,
}

/// How mip level `level` of a cube of side `side` is copied.
pub open spec fn level_copy(side: nat, bytes_per_pixel: nat, level: nat) -> LevelCopy {
    LevelCopy {
        level: level as u32,
        level_side: mip_side(side, level) as u32,
        through_aux: is_padded(side, bytes_per_pixel, level),
        bytes_per_row: row_pitch(side, bytes_per_pixel, level) as u32,
        rows_per_image: mip_side(side, level) as u32,
        extent: Extent {
            width: (row_pitch(side, bytes_per_pixel, level) / bytes_per_pixel) as u32,
            height: mip_side(side, level) as u32,
            layers: CUBE_FACES,
        },
        mapped_bytes: mapped_bytes(side, bytes_per_pixel, level) as u64,
    }
}

/// Whether a texture can be read back: it is a cube with texels, its mip
/// levels all have texels, a row of it fits the 32 bits in which the device
/// takes a row pitch, and its byte stream fits the memory of the host.
pub open spec fn readable(texture: TextureResource) -> bool {
    &&& texture.is_cube()
    &&& texture.width >= 1
    &&& 1 <= texture.mip_level_count <= mip_levels(texture.width as nat)
    &&& row_bytes(texture.width as nat, texture.format.texel_bytes() as nat, 0) <= u32::MAX
    &&& stream_bytes(
        texture.width as nat,
        texture.format.texel_bytes() as nat,
        texture.mip_level_count as nat,
    ) <= usize::MAX
}

/// A level is no larger than the level before it, in rows and in pitch.
pub proof fn lemma_levels_shrink(side: nat, bytes_per_pixel: nat, lower: nat, upper: nat)
    requires
        lower <= upper,
    ensures
        row_bytes(side, bytes_per_pixel, upper) <= row_bytes(side, bytes_per_pixel, lower),
        row_pitch(side, bytes_per_pixel, upper) <= row_pitch(side, bytes_per_pixel, lower),
        face_bytes(side, bytes_per_pixel, upper) <= face_bytes(side, bytes_per_pixel, lower),
        mapped_bytes(side, bytes_per_pixel, upper) <= mapped_bytes(side, bytes_per_pixel, lower),
        is_padded(side, bytes_per_pixel, lower) ==> is_padded(side, bytes_per_pixel, upper),
{
    lemma_mip_side_decreases(side, lower, upper);
    let small = mip_side(side, upper);
    let large = mip_side(side, lower);
    assert(small * bytes_per_pixel <= large * bytes_per_pixel) by (nonlinear_arith)
        requires
            small <= large,
    ;
    let small_row = row_bytes(side, bytes_per_pixel, upper);
    let large_row = row_bytes(side, bytes_per_pixel, lower);
    assert(small * small_row <= large * large_row) by (nonlinear_arith)
        requires
            small <= large,
            small_row <= large_row,
    ;
    let small_pitch = row_pitch(side, bytes_per_pixel, upper);
    let large_pitch = row_pitch(side, bytes_per_pixel, lower);
    assert((6 * small) * small_pitch <= (6 * large) * large_pitch) by (nonlinear_arith)
        requires
            small <= large,
            small_pitch <= large_pitch,
    ;
}

/// The staging buffer is sized for the worst case: no level fills more of
/// it than level 0 does.
pub proof fn lemma_staging_buffer_holds_every_level(side: nat, bytes_per_pixel: nat, level: nat)
    ensures
        mapped_bytes(side, bytes_per_pixel, level) <= mapped_bytes(side, bytes_per_pixel, 0),
{
    lemma_levels_shrink(side, bytes_per_pixel, 0, level);
}

/// A level that is read back has exactly the bytes of its place in the
/// stream: its rows without their padding are its six faces.
pub proof fn lemma_unpadded_level_fills_its_place(
    mapped: Seq<u8>,
    side: nat,
    bytes_per_pixel: nat,
    level: nat,
)
    requires
        mapped.len() == mapped_bytes(side, bytes_per_pixel, level),
    ensures
        unpadded(
            mapped,
            row_pitch(side, bytes_per_pixel, level),
            row_bytes(side, bytes_per_pixel, level),
            level_rows(side, level),
        ).len() == level_bytes(side, bytes_per_pixel, level),
{
    let texels = mip_side(side, level);
    lemma_unpadded_rows(
        mapped,
        row_pitch(side, bytes_per_pixel, level),
        row_bytes(side, bytes_per_pixel, level),
        level_rows(side, level),
    );
    assert((6 * texels) * (texels * bytes_per_pixel) == 6 * (texels * (texels * bytes_per_pixel)))
        by (nonlinear_arith);
}

/// The progress of reading one cube texture back.
///
/// Levels are drained strictly in ascending order, because one staging
/// buffer serves them all: the bytes of a level are taken over, without their
/// padding, before the copy of the next level is asked for.
#[derive(Debug)]
pub struct Readback {
    side: u32,
    format: TextureFormat,
    levels: u32,
    drained: u32,
    stream: Vec<u8>,
}

impl Readback {
    /// The side of level 0 of the texture.
    pub closed spec fn side(&self) -> nat {
        self.side as nat
    }

    /// The bytes of one pixel of the texture.
    pub closed spec fn bytes_per_pixel(&self) -> nat {
        self.format.texel_bytes() as nat
    }

    /// The pixel format of the texture.
    pub closed spec fn format(&self) -> TextureFormat {
        self.format
    }

    /// The number of mip levels of the texture.
    pub closed spec fn levels(&self) -> nat {
        self.levels as nat
    }

    /// The number of mip levels that have been taken over.
    pub closed spec fn drained(&self) -> nat {
        self.drained as nat
    }

    /// The byte stream so far.
    pub closed spec fn stream(&self) -> Seq<u8> {
        self.stream@
    }

    /// Whether every level has been taken over.
    pub open spec fn finished(&self) -> bool {
        self.drained() == self.levels()
    }

    /// The texture that is read back.
    pub open spec fn texture_readable(&self, texture: TextureResource) -> bool {
        &&& readable(texture)
        &&& self.side() == texture.width
        &&& self.format() == texture.format
        &&& self.levels() == texture.mip_level_count
    }

    /// What holds of every readback: the levels taken over are levels of the
    /// texture, and the stream holds exactly their bytes.
    pub open spec fn wf(&self) -> bool {
        &&& self.side() >= 1
        &&& self.bytes_per_pixel() == self.format().texel_bytes()
        &&& 1 <= self.levels() <= mip_levels(self.side())
        &&& self.drained() <= self.levels()
        &&& row_bytes(self.side(), self.bytes_per_pixel(), 0) <= u32::MAX
        &&& stream_bytes(self.side(), self.bytes_per_pixel(), self.levels()) <= usize::MAX
        &&& self.stream().len() == stream_bytes(
            self.side(),
            self.bytes_per_pixel(),
            self.drained(),
        )
    }

    /// Starts reading a texture back, with an empty stream. There is nothing
    /// to start for a texture that cannot be read back.
    pub fn new(texture: &TextureResource) -> (readback: Option<Readback>)
        ensures
            readback is Some <==> readable(*texture),
            readback matches Some(start) ==> {
                &&& start.wf()
                &&& start.texture_readable(*texture)
                &&& start.drained() == 0
                &&& start.stream() == Seq::<u8>::empty()
            },
    {
        if texture.faces != CUBE_FACES || texture.width != texture.height || texture.width < 1
            || texture.mip_level_count < 1 || texture.mip_level_count > mip_level_count(
            texture.width,
        ) {
            return None;
        }
        let bytes_per_pixel = texture.format.bytes_per_pixel();
        let ghost side = texture.width as nat;
        let ghost bpp = bytes_per_pixel as nat;
        if level_row_bytes(texture.width, bytes_per_pixel, 0) > u32::MAX as u64 {
            return None;
        }
        let mut total: u128 = 0;
        let mut level: u32 = 0;
        while level < texture.mip_level_count
            invariant
                side == texture.width,
                bpp == bytes_per_pixel,
                level <= texture.mip_level_count <= 32,
                total == stream_bytes(side, bpp, level as nat),
                total <= level * 6 * 0x1_0000_0000_0000_0000_0000_0000,
            decreases texture.mip_level_count - level,
        {
            let face = level_face_bytes(texture.width, bytes_per_pixel, level);
            total = total + 6 * face;
            level = level + 1;
        }
        if total > usize::MAX as u128 {
            return None;
        }
        Some(
            Readback {
                side: texture.width,
                format: texture.format,
                levels: texture.mip_level_count,
                drained: 0,
                stream: Vec::new(),
            },
        )
    }

    /// The size of the one staging buffer, in bytes: what the largest level
    /// fills, which is level 0.
    pub fn staging_buffer_size(&self) -> (size: u64)
        requires
            self.wf(),
        ensures
            size == mapped_bytes(self.side(), self.bytes_per_pixel(), 0),
    {
        let copy = Self::copy_of_level(self.side, self.format, 0);
        copy.mapped_bytes
    }

    /// The auxiliary texture through which padded levels travel, where the
    /// texture has such a level: a cube whose rows are exactly one row
    /// alignment long.
    pub fn aux_texture(&self) -> (aux: Option<TextureResource>)
        requires
            self.wf(),
        ensures
            aux is Some <==> is_padded(
                self.side(),
                self.bytes_per_pixel(),
                (self.levels() - 1) as nat,
            ),
            aux matches Some(texture) ==> texture == TextureResource::cube(
                (ROW_ALIGNMENT as nat / self.bytes_per_pixel()) as u32,
                1,
                self.format(),
                TextureUsages {
                    storage_binding: false,
                    texture_binding: false,
                    copy_src: true,
                    copy_dst: true,
                },
            ),
    {
        let bytes_per_pixel = self.format.bytes_per_pixel();
        let alignment = row_alignment();
        if level_row_bytes(self.side, bytes_per_pixel, self.levels - 1) < alignment as u64 {
            Some(
                TextureResource::new_cube(
                    alignment / bytes_per_pixel,
                    1,
                    self.format,
                    TextureUsages {
                        storage_binding: false,
                        texture_binding: false,
                        copy_src: true,
                        copy_dst: true,
                    },
                ),
            )
        } else {
            None
        }
    }

    /// How one level of a texture is copied into the staging buffer.
    fn copy_of_level(side: u32, format: TextureFormat, level: u32) -> (copy: LevelCopy)
        requires
            row_bytes(side as nat, format.texel_bytes() as nat, 0) <= u32::MAX,
        ensures
            copy == level_copy(side as nat, format.texel_bytes() as nat, level as nat),
            copy.level_side == mip_side(side as nat, level as nat),
            copy.bytes_per_row == row_pitch(
                side as nat,
                format.texel_bytes() as nat,
                level as nat,
            ),
            copy.mapped_bytes == mapped_bytes(
                side as nat,
                format.texel_bytes() as nat,
                level as nat,
            ),
    {
        let bytes_per_pixel = format.bytes_per_pixel();
        let alignment = row_alignment();
        let level_side = level_side(side, level);
        let row = level_row_bytes(side, bytes_per_pixel, level);
        proof {
            lemma_levels_shrink(side as nat, bytes_per_pixel as nat, 0, level as nat);
        }
        let through_aux = row < alignment as u64;
        let bytes_per_row = if through_aux {
            alignment
        } else {
            row as u32
        };
        assert(6 * level_side * bytes_per_row <= 6 * 0x1fff_ffff * 0xffff_ffff) by (nonlinear_arith)
            requires
                level_side <= 0x1fff_ffff,
                bytes_per_row <= 0xffff_ffff,
        ;
        LevelCopy {
            level,
            level_side,
            through_aux,
            bytes_per_row,
            rows_per_image: level_side,
            extent: Extent {
                width: bytes_per_row / bytes_per_pixel,
                height: level_side,
                layers: CUBE_FACES,
            },
            mapped_bytes: 6 * level_side as u64 * bytes_per_row as u64,
        }
    }

    /// The copy to ask of the device next, or nothing once every level has
    /// been taken over.
    pub fn next_copy(&self) -> (copy: Option<LevelCopy>)
        requires
            self.wf(),
        ensures
            copy is None <==> self.finished(),
            copy matches Some(next) ==> next == level_copy(
                self.side(),
                self.bytes_per_pixel(),
                self.drained(),
            ),
    {
        if self.drained < self.levels {
            Some(Self::copy_of_level(self.side, self.format, self.drained))
        } else {
            None
        }
    }

    /// Takes over the bytes that the device handed back for the copy that was
    /// asked for last, without the padding behind their rows.
    ///
    /// Fails with `ReadbackFailed`, and changes nothing, where no copy was
    /// asked for or the bytes are not all the bytes of that copy.
    pub fn accept_level(&mut self, mapped: &[u8]) -> (accepted: Result<(), BakeError>)
        requires
            old(self).wf(),
        ensures
            final(self).wf(),
            final(self).side() == old(self).side(),
            final(self).format() == old(self).format(),
            final(self).bytes_per_pixel() == old(self).bytes_per_pixel(),
            final(self).levels() == old(self).levels(),
            accepted is Ok <==> !old(self).finished() && mapped@.len() == mapped_bytes(
                old(self).side(),
                old(self).bytes_per_pixel(),
                old(self).drained(),
            ),
            accepted is Ok ==> {
                &&& final(self).drained() == old(self).drained() + 1
                &&& final(self).stream() == old(self).stream() + unpadded(
                    mapped@,
                    row_pitch(old(self).side(), old(self).bytes_per_pixel(), old(self).drained()),
                    row_bytes(old(self).side(), old(self).bytes_per_pixel(), old(self).drained()),
                    level_rows(old(self).side(), old(self).drained()),
                )
            },
            accepted matches Err(error) ==> {
                &&& error == BakeError::ReadbackFailed
                &&& final(self).drained() == old(self).drained()
                &&& final(self).stream() == old(self).stream()
            },
    {
        if self.drained >= self.levels {
            return Err(BakeError::ReadbackFailed);
        }
        let copy = Self::copy_of_level(self.side, self.format, self.drained);
        if mapped.len() as u64 != copy.mapped_bytes {
            return Err(BakeError::ReadbackFailed);
        }
        let bytes_per_pixel = self.format.bytes_per_pixel();
        let ghost side = self.side as nat;
        let ghost bpp = bytes_per_pixel as nat;
        let ghost level = self.drained as nat;
        let pitch = copy.bytes_per_row as usize;
        let row = level_row_bytes(self.side, bytes_per_pixel, self.drained);
        proof {
            lemma_levels_shrink(side, bpp, 0, level);
            lemma_stream_bytes_grows(side, bpp, level + 1, self.levels as nat);
            let texels = mip_side(side, level);
            assert((6 * texels) * (texels * bpp) == 6 * (texels * (texels * bpp)))
                by (nonlinear_arith);
            assert(6 * texels <= (6 * texels) * pitch) by (nonlinear_arith)
                requires
                    pitch >= 1,
            ;
        }
        let row = row as usize;
        let rows = (6 * copy.level_side as u64) as usize;
        if copy.through_aux {
            proof {
                lemma_unpadded_rows(mapped@, pitch as nat, row as nat, rows as nat);
            }
            append_unpadded(&mut self.stream, mapped, pitch, row, rows);
        } else {
            let ghost before = self.stream@;
            self.stream.extend_from_slice(mapped);
            proof {
                lemma_unpadded_dense(mapped@, row as nat, rows as nat);
                assert(mapped@.subrange(0, (rows * row) as int) =~= mapped@);
                assert(self.stream@ =~= before + mapped@);
            }
        }
        self.drained = self.drained + 1;
        Ok(())
    }

    /// Hands the byte stream out once every level has been taken over. A
    /// readback that has not come to its end has no result: there is never a
    /// partial stream.
    pub fn finish(self) -> (stream: Option<Vec<u8>>)
        requires
            self.wf(),
        ensures
            stream is Some <==> self.finished(),
            stream matches Some(bytes) ==> {
                &&& bytes@ == self.stream()
                &&& bytes@.len() == stream_bytes(
                    self.side(),
                    self.bytes_per_pixel(),
                    self.levels(),
                )
            },
    {
        if self.drained == self.levels {
            Some(self.stream)
        } else {
            None
        }
    }
}

/// What a finished readback hands out is a whole cubemap of the texture: its
/// stream has exactly the bytes of all its levels, so it can be laid out for
/// a container as it stands.
pub proof fn lemma_finished_stream_holds_cubemap(readback: Readback)
    requires
        readback.wf(),
        readback.finished(),
    ensures
        readback.stream().len() == stream_bytes(
            readback.side(),
            readback.bytes_per_pixel(),
            readback.levels(),
        ),
        holds_cubemap(
            readback.stream().len(),
            readback.side(),
            readback.bytes_per_pixel(),
            readback.levels(),
        ),
{
}

} // verus!
