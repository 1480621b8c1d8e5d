//! Laying a cubemap byte stream out for a KTX container: the description of
//! the texture that the container library is given, and the block of bytes of
//! every face of every mip level.

use vstd::prelude::*;

use crate::byte_stream::{
    face_bytes, face_offset, lemma_faces_are_contiguous, lemma_stream_bytes_grows,
    level_face_bytes, stream_bytes,
};
use crate::error::BakeError;
use crate::mipmap::{mip_level_count, mip_levels};
use crate::texture::{TextureFormat, ToApi, CUBE_FACES};

verus! {

/// The version of the container format.
#[derive(Clone, Copy, Debug, PartialEq, Eq, Structural)]
pub enum KtxVersion {
    Ktx1,
    Ktx2,
}

/// The description of a texture that the container library creates.
#[derive(Clone, Copy, Debug, PartialEq, Eq, Structural)]
pub struct KtxCreateInfo {
    pub gl_internalformat: u32,
    pub vk_format: u32,
    pub base_width: u32,
    pub base_height: u32,
    pub base_depth: u32,
    pub num_dimensions: u32,
    pub num_levels: u32,
    pub num_layers: u32,
    pub num_faces: u32,
    pub is_array: bool,
    pub generate_mipmaps: bool,
}

/// The block of the byte stream that holds one face of one mip level.
#[derive(Clone, Copy, Debug, PartialEq, Eq, Structural)]
pub struct FaceImage {
    pub level: u32,
    pub face: u32,
    pub offset: usize,
    pub size: usize,
}

/// A cubemap laid out for a container: what is created, and the images that
/// are set in it, in the order of the byte stream.
#[derive(Debug)]
pub struct KtxTexture {
    pub version: KtxVersion,
    pub create_info: KtxCreateInfo,
    pub images: Vec<FaceImage>,
}

/// The description of a cubemap of the given format, side and level count:
/// a two-dimensional texture of six faces and one layer, with both numeric
/// names of the format, whose mip levels are supplied and not generated.
pub open spec fn cubemap_create_info(format: TextureFormat, side: u32, levels: u32) -> KtxCreateInfo {
    KtxCreateInfo {
        gl_internalformat: format.gl(),
        vk_format: format.vulkan(),
        base_width: side,
        base_height: side,
        base_depth: 1,
        num_dimensions: 2,
        num_levels: levels,
        num_layers: 1,
        num_faces: 6,
        is_array: false,
        generate_mipmaps: false,
    }
}

/// The image at position `index` of a stream: the level is the index divided
/// by six, the face what remains.
pub open spec fn face_image(side: nat, bytes_per_pixel: nat, index: nat) -> FaceImage {
    FaceImage {
        level: (index / 6) as u32,
        face: (index % 6) as u32,
        offset: face_offset(side, bytes_per_pixel, index / 6, index % 6) as usize,
        size: face_bytes(side, bytes_per_pixel, index / 6) as usize,
    }
}

/// The images of a stream of `levels` levels, level by level and face by face.
pub open spec fn face_images(side: nat, bytes_per_pixel: nat, levels: nat) -> Seq<FaceImage> {
    Seq::new(6 * levels, |index: int| face_image(side, bytes_per_pixel, index as nat))
}

/// The images come in the order of the stream: after a face comes the next
/// face of the same level, after the last face of a level the first face of
/// the next level, and each image begins where the one before it ends.
pub proof fn lemma_face_images_follow_the_stream(side: nat, bytes_per_pixel: nat, index: nat)
    ensures
        index % 6 < 5 ==> (index + 1) / 6 == index / 6 && (index + 1) % 6 == index % 6 + 1,
        index % 6 == 5 ==> (index + 1) / 6 == index / 6 + 1 && (index + 1) % 6 == 0,
        face_offset(side, bytes_per_pixel, (index + 1) / 6, (index + 1) % 6) == face_offset(
            side,
            bytes_per_pixel,
            index / 6,
            index % 6,
        ) + face_bytes(side, bytes_per_pixel, index / 6),
{
    lemma_faces_are_contiguous(side, bytes_per_pixel, index / 6, index % 6);
}

/// Whether `len` bytes hold a cubemap of `levels` levels: there is at least
/// one level, every level has texels, and the bytes reach to the end of the
/// last level.
pub open spec fn holds_cubemap(len: nat, side: nat, bytes_per_pixel: nat, levels: nat) -> bool {
    &&& 1 <= levels <= mip_levels(side)
    &&& side >= 1
    &&& stream_bytes(side, bytes_per_pixel, levels) <= len
}

/// Whether every image lies within `len` bytes.
pub open spec fn images_within(images: Seq<FaceImage>, len: nat) -> bool {
    forall|index: int|
        0 <= index < images.len() ==> (#[trigger] images[index]).offset + images[index].size <= len
}

/// Lays a cubemap byte stream out for a container of the given version.
///
/// Fails with `InvalidSize`, and only then, where the bytes do not hold a
/// cubemap of that shape.
#[verifier::loop_isolation(false)]
pub fn write_cubemap_to_ktx(
    cubemap_data: &[u8],
    format: TextureFormat,
    cubemap_side: u32,
    cubemap_levels: u32,
    ktx_version: KtxVersion,
) -> (texture: Result<KtxTexture, BakeError>)
    ensures
        texture is Ok <==> holds_cubemap(
            cubemap_data@.len(),
            cubemap_side as nat,
            format.texel_bytes() as nat,
            cubemap_levels as nat,
        ),
        texture matches Ok(laid_out) ==> {
            &&& laid_out.version == ktx_version
            &&& laid_out.create_info == cubemap_create_info(format, cubemap_side, cubemap_levels)
            &&& laid_out.images@ == face_images(
                cubemap_side as nat,
                format.texel_bytes() as nat,
                cubemap_levels as nat,
            )
            &&& images_within(laid_out.images@, cubemap_data@.len())
        },
        texture matches Err(error) ==> error == BakeError::InvalidSize,
{
    let bytes_per_pixel = format.bytes_per_pixel();
    let ghost side = cubemap_side as nat;
    let ghost bpp = bytes_per_pixel as nat;
    if cubemap_levels < 1 || cubemap_side < 1 || cubemap_levels > mip_level_count(cubemap_side) {
        return Err(BakeError::InvalidSize);
    }
    let create_info = KtxCreateInfo {
        gl_internalformat: format.to_gl(),
        vk_format: format.to_vulkan(),
        base_width: cubemap_side,
        base_height: cubemap_side,
        base_depth: 1,
        num_dimensions: 2,
        num_levels: cubemap_levels,
        num_layers: 1,
        num_faces: CUBE_FACES,
        is_array: false,
        generate_mipmaps: false,
    };
    let mut images: Vec<FaceImage> = Vec::new();
    let mut prev_end: usize = 0;
    let mut level: u32 = 0;
    while level < cubemap_levels
        invariant
            level <= cubemap_levels,
            prev_end == stream_bytes(side, bpp, level as nat),
            prev_end <= cubemap_data@.len(),
            images@.len() == 6 * level,
            forall|index: int|
                0 <= index < 6 * level ==> images@[index] == face_image(side, bpp, index as nat),
            images_within(images@, cubemap_data@.len()),
        decreases cubemap_levels - level,
    {
        let face_size = level_face_bytes(cubemap_side, bytes_per_pixel, level);
        let remaining = cubemap_data.len() - prev_end;
        if face_size * 6 > remaining as u128 {
            proof {
                assert(stream_bytes(side, bpp, (level + 1) as nat) == prev_end + 6 * face_size);
                lemma_stream_bytes_grows(side, bpp, (level + 1) as nat, cubemap_levels as nat);
            }
            return Err(BakeError::InvalidSize);
        }
        let face_size = face_size as usize;
        let mut face: u32 = 0;
        while face < CUBE_FACES
            invariant
                face <= 6,
                face_size == face_bytes(side, bpp, level as nat),
                prev_end == stream_bytes(side, bpp, level as nat),
                prev_end + 6 * face_size <= cubemap_data@.len(),
                images@.len() == 6 * level + face,
                forall|index: int|
                    0 <= index < 6 * level + face ==> images@[index] == face_image(
                        side,
                        bpp,
                        index as nat,
                    ),
                images_within(images@, cubemap_data@.len()),
            decreases 6 - face,
        {
            assert(face * face_size <= 5 * face_size) by (nonlinear_arith)
                requires
                    face <= 5,
            ;
            images.push(
                FaceImage { level, face, offset: prev_end + face as usize * face_size, size: face_size },
            );
            face = face + 1;
        }
        prev_end = prev_end + 6 * face_size;
        level = level + 1;
    }
    proof {
        assert(images@ =~= face_images(side, bpp, cubemap_levels as nat));
    }
    Ok(KtxTexture { version: ktx_version, create_info, images })
}

/// Lays a cubemap byte stream, as it was read back from the device, out for
/// a KTX2 container.
pub fn write_cubemap_to_ktx2(
    cubemap_data: &[u8],
    format: TextureFormat,
    cubemap_side: u32,
    cubemap_levels: u32,
) -> (texture: Result<KtxTexture, BakeError>)
    ensures
        texture is Ok <==> holds_cubemap(
            cubemap_data@.len(),
            cubemap_side as nat,
            format.texel_bytes() as nat,
            cubemap_levels as nat,
        ),
        texture matches Ok(laid_out) ==> {
            &&& laid_out.version == KtxVersion::Ktx2
            &&& laid_out.create_info == cubemap_create_info(format, cubemap_side, cubemap_levels)
            &&& laid_out.images@ == face_images(
                cubemap_side as nat,
                format.texel_bytes() as nat,
                cubemap_levels as nat,
            )
            &&& images_within(laid_out.images@, cubemap_data@.len())
        },
        texture matches Err(error) ==> error == BakeError::InvalidSize,
{
    write_cubemap_to_ktx(cubemap_data, format, cubemap_side, cubemap_levels, KtxVersion::Ktx2)
}

} // verus!
