//! Projecting an equirectangular panorama onto the six faces of a cube.

use std::borrow::Cow;
use vstd::prelude::*;

use crate::error::BakeError;
use crate::shader_src::{
    set_constants, set_texture_format, spec_set_constants, spec_set_texture_format,
};
use crate::text::{bool_str, bool_text};
use crate::texture::{Dispatch, TextureFormat, TextureResource, TextureUsages};

verus! {

/// The entry point of the projection kernel.
pub const EQUIRECTANGULAR_TO_CUBEMAP_ENTRY_POINT: &'static str = "equirectangular_to_cubemap";

/// The number of samples of one pixel of a panorama: red, green, blue, alpha.
pub const PANORAMA_CHANNELS: u32 = 4;

/// The number of samples of a panorama of the given shape: four for each
/// pixel.
pub open spec fn panorama_samples(width: u32, height: u32) -> nat {
    (PANORAMA_CHANNELS * width * height) as nat
}

/// Holds the size of a buffer of samples against the shape of the panorama
/// that it is said to hold.
///
/// Fails with `InvalidSize`, and only then, where the buffer does not have
/// exactly the samples of that shape: neither too few nor too many.
pub fn check_panorama(width: u32, height: u32, samples: usize) -> (checked: Result<(), BakeError>)
    ensures
        checked is Ok <==> samples == panorama_samples(width, height),
        checked matches Err(error) ==> error == BakeError::InvalidSize,
{
    assert(4 * width * height <= 4 * 0xffff_ffff * 0xffff_ffff) by (nonlinear_arith)
        requires
            width <= 0xffff_ffff,
            height <= 0xffff_ffff,
    ;
    let needed = PANORAMA_CHANNELS as u128 * width as u128 * height as u128;
    if needed == samples as u128 {
        Ok(())
    } else {
        Err(BakeError::InvalidSize)
    }
}

/// What the device has to do for the projection: upload the panorama, create
/// the cube and run one pass, all in one submission.
#[derive(Debug)]
pub struct ProjectionPlan {
    /// The kernel text, specialised for the flip and the formats.
    pub shader: String,
    /// The texture that the panorama is uploaded to.
    pub source: TextureResource,
    /// The cube texture that the pass writes.
    pub cubemap: TextureResource,
    /// The workgroups of the pass: one for each texel of each face.
    pub workgroups: Dispatch,
}

/// The constants that the projection kernel is specialised with.
pub open spec fn projection_constants(flip_y: bool) -> Seq<(Seq<char>, Seq<char>)> {
    seq![("FLIP_Y"@, bool_text(flip_y))]
}

/// The formats that the projection kernel is specialised with: the panorama
/// is always read as 32-bit floats.
pub open spec fn projection_formats(pixel_format: TextureFormat) -> Seq<
    (Seq<char>, TextureFormat),
> {
    seq![("equirectangular"@, TextureFormat::Rgba32Float), ("cubemap_faces"@, pixel_format)]
}

/// The texture that holds a panorama on the device: one face, one level,
/// 32-bit floats, read by kernels.
pub open spec fn panorama_texture(width: u32, height: u32) -> TextureResource {
    TextureResource {
        width,
        height,
        faces: 1,
        mip_level_count: 1,
        format: TextureFormat::Rgba32Float,
        usage: TextureUsages {
            storage_binding: true,
            texture_binding: true,
            copy_src: false,
            copy_dst: false,
        },
    }
}

/// What the projected cube may be used for.
pub open spec fn cubemap_usage() -> TextureUsages {
    TextureUsages { storage_binding: true, texture_binding: true, copy_src: true, copy_dst: false }
}

/// Plans the projection of an equirectangular panorama onto a cube of the
/// given side and format.
///
/// The panorama is given by its shape and by the number of samples of its
/// data. Where the two do not agree there is no plan, so that nothing reaches
/// the device: the projection fails with `InvalidSize`, and only then.
/// Otherwise the cube has six faces and a single mip level, and every texel
/// of every face is computed by a workgroup of its own.
pub fn equirectangular_to_cubemap(
    shader_template: &str,
    env_map_width: u32,
    env_map_height: u32,
    env_map_samples: usize,
    cubemap_side: u32,
    pixel_format: TextureFormat,
    flip_y: bool,
) -> (projection: Result<ProjectionPlan, BakeError>)
    ensures
        projection is Ok <==> env_map_samples == panorama_samples(env_map_width, env_map_height),
        projection matches Err(error) ==> error == BakeError::InvalidSize,
        projection matches Ok(plan) ==> {
            &&& plan.shader@ == spec_set_texture_format(
                spec_set_constants(shader_template@, projection_constants(flip_y)),
                projection_formats(pixel_format),
            )
            &&& plan.source == panorama_texture(env_map_width, env_map_height)
            &&& plan.cubemap == TextureResource::cube(
                cubemap_side,
                1,
                pixel_format,
                cubemap_usage(),
            )
            &&& plan.workgroups == Dispatch::per_texel(cubemap_side)
            &&& plan.workgroups.invocations() == cubemap_side * cubemap_side * 6
        },
{
    match check_panorama(env_map_width, env_map_height, env_map_samples) {
        Ok(_) => {},
        Err(error) => {
            return Err(error);
        },
    }
    let constants = [("FLIP_Y", Cow::Borrowed(bool_str(flip_y)))];
    let constants = constants.as_slice();
    let table = [("equirectangular", TextureFormat::Rgba32Float), ("cubemap_faces", pixel_format)];
    let formats = table.as_slice();
    proof {
        broadcast use vstd::array::group_array_axioms;

        assert(constants.deep_view() =~= projection_constants(flip_y));
        assert(formats.deep_view() =~= projection_formats(pixel_format));
    }
    let with_constants = set_constants(shader_template, constants);
    let shader = set_texture_format(with_constants.as_str(), formats);
    let source = TextureResource {
        width: env_map_width,
        height: env_map_height,
        faces: 1,
        mip_level_count: 1,
        format: TextureFormat::Rgba32Float,
        usage: TextureUsages {
            storage_binding: true,
            texture_binding: true,
            copy_src: false,
            copy_dst: false,
        },
    };
    let cubemap = TextureResource::new_cube(
        cubemap_side,
        1,
        pixel_format,
        TextureUsages {
            storage_binding: true,
            texture_binding: true,
            copy_src: true,
            copy_dst: false,
        },
    );
    Ok(
        ProjectionPlan {
            shader,
            source,
            cubemap,
            workgroups: Dispatch::for_each_texel(cubemap_side),
        },
    )
}

} // verus!
