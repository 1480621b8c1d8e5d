//! The two convolutions of image-based lighting over a mip-mapped environment
//! cube: the specular radiance chain and the diffuse irradiance map.

use std::borrow::Cow;
use vstd::prelude::*;
use vstd::string::*;

use crate::mipmap::{level_side, mip_level_count, mip_levels, mip_side};
use crate::shader_src::{
    set_constants, set_texture_format, spec_set_constants, spec_set_texture_format,
};
use crate::text::{decimal, to_decimal};
use crate::texture::{Dispatch, TextureFormat, TextureResource, TextureUsages};

verus! {

/// The settings of one bake.
///
/// The kernels take every setting as a constant of their source text, so the
/// real-valued ones are held as they are written there, such as `1.0`.
#[derive(Clone, Debug)]
pub struct BakeParameters {
    /// The number of samples that each texel takes from the environment.
    pub num_samples: u16,
    /// The strength of the environment light.
    pub strength: String,
    /// The contrast correction.
    pub contrast_correction: String,
    /// The brightness correction.
    pub brightness_correction: String,
    /// The saturation correction.
    pub saturation_correction: String,
    /// The hue correction.
    pub hue_correction: String,
}

impl BakeParameters {
    /// The constants that the settings give to the kernel, by name: the
    /// sample count as an unsigned literal, the corrections as they are held,
    /// and the vertical flip, which is always on.
    pub open spec fn name_values(&self) -> Seq<(Seq<char>, Seq<char>)> {
        seq![
            ("NUM_SAMPLES"@, decimal(self.num_samples as nat) + "u"@),
            ("STRENGTH"@, self.strength@),
            ("CONTRAST_CORRECTION"@, self.contrast_correction@),
            ("BRIGHTNESS_CORRECTION"@, self.brightness_correction@),
            ("SATURATION_CORRECTION"@, self.saturation_correction@),
            ("HUE_CORRECTION"@, self.hue_correction@),
            ("FLIP_Y"@, "true"@),
        ]
    }

    /// The constants that the settings give to the kernel, by name.
    pub fn to_name_value(&self) -> (table: [(&'static str, Cow<'_, str>); 7])
        ensures
            table.deep_view() == self.name_values(),
    {
        let mut samples = to_decimal(self.num_samples as u64);
        samples.append("u");
        let table = [
            ("NUM_SAMPLES", Cow::Owned(samples)),
            ("STRENGTH", Cow::Borrowed(self.strength.as_str())),
            ("CONTRAST_CORRECTION", Cow::Borrowed(self.contrast_correction.as_str())),
            ("BRIGHTNESS_CORRECTION", Cow::Borrowed(self.brightness_correction.as_str())),
            ("SATURATION_CORRECTION", Cow::Borrowed(self.saturation_correction.as_str())),
            ("HUE_CORRECTION", Cow::Borrowed(self.hue_correction.as_str())),
            ("FLIP_Y", Cow::Borrowed("true")),
        ];
        proof {
            broadcast use vstd::array::group_array_axioms;

            assert(table.deep_view() =~= self.name_values());
        }
        table
    }
}

/// The entry point of the radiance kernel.
pub const RADIANCE_ENTRY_POINT: &'static str = "radiance";

/// The entry point of the irradiance kernel.
pub const IRRADIANCE_ENTRY_POINT: &'static str = "irradiance";

/// How a sampler treats coordinates outside the texture.
#[derive(Clone, Copy, Debug, PartialEq, Eq, Structural)]
pub enum AddressMode {
    /// The coordinate is clamped to the edge of the texture.
    ClampToEdge,
    /// The texture repeats.
    Repeat,
    /// The texture repeats, mirrored every other time.
    MirrorRepeat,
    /// Outside the texture lies a border colour.
    ClampToBorder,
}

/// How a sampler blends neighbouring texels or mip levels.
#[derive(Clone, Copy, Debug, PartialEq, Eq, Structural)]
pub enum FilterMode {
    /// The nearest texel or level is taken.
    Nearest,
    /// The neighbours are blended by their distance.
    Linear,
}

/// The sampler through which a kernel reads the environment.
#[derive(Clone, Copy, Debug, PartialEq, Eq, Structural)]
pub struct Sampler {
    pub address_mode_u: AddressMode,
    pub address_mode_v: AddressMode,
    pub address_mode_w: AddressMode,
    pub mag_filter: FilterMode,
    pub min_filter: FilterMode,
    pub mipmap_filter: FilterMode,
}

/// The sampler of both bakes: trilinear, clamped to the edge on every axis, so
/// that a sample may fall between texels and between mip levels.
pub open spec fn trilinear_clamped() -> Sampler {
    Sampler {
        address_mode_u: AddressMode::ClampToEdge,
        address_mode_v: AddressMode::ClampToEdge,
        address_mode_w: AddressMode::ClampToEdge,
        mag_filter: FilterMode::Linear,
        min_filter: FilterMode::Linear,
        mipmap_filter: FilterMode::Linear,
    }
}

/// The sampler of both bakes.
pub fn environment_sampler() -> (sampler: Sampler)
    ensures
        sampler == trilinear_clamped(),
{
    Sampler {
        address_mode_u: AddressMode::ClampToEdge,
        address_mode_v: AddressMode::ClampToEdge,
        address_mode_w: AddressMode::ClampToEdge,
        mag_filter: FilterMode::Linear,
        min_filter: FilterMode::Linear,
        mipmap_filter: FilterMode::Linear,
    }
}

/// The formats that the bake kernels are specialised with.
pub open spec fn ibl_formats(format: TextureFormat) -> Seq<(Seq<char>, TextureFormat)> {
    seq![("envmap"@, format), ("output_faces"@, format)]
}

/// The kernel text of a bake: the constants of the settings first, then the
/// formats of the environment.
pub open spec fn ibl_shader(
    template: Seq<char>,
    parameters: BakeParameters,
    format: TextureFormat,
) -> Seq<char> {
    spec_set_texture_format(
        spec_set_constants(template, parameters.name_values()),
        ibl_formats(format),
    )
}

/// Specialises the text of the bake kernels for the settings of a bake and
/// the format of the environment.
pub fn specialize_ibl_shader(
    shader_template: &str,
    parameters: &BakeParameters,
    format: TextureFormat,
) -> (shader: String)
    ensures
        shader@ == ibl_shader(shader_template@, *parameters, format),
{
    let constants = parameters.to_name_value();
    let constants = constants.as_slice();
    let with_constants = set_constants(shader_template, constants);
    let table = [("envmap", format), ("output_faces", format)];
    let formats = table.as_slice();
    proof {
        broadcast use vstd::array::group_array_axioms;

        assert(formats@ == table@);
        assert(formats.deep_view() =~= ibl_formats(format));
        assert(constants.deep_view() =~= parameters.name_values());
    }
    set_texture_format(with_constants.as_str(), formats)
}

/// What a bake may do with its output: kernels write it, copies read it.
pub open spec fn bake_usage() -> TextureUsages {
    TextureUsages {
        storage_binding: true,
        texture_binding: false,
        copy_src: true,
        copy_dst: false,
    }
}

/// What the kernel is told about the level it computes: the level and the
/// number of levels, from which it derives the roughness of the level.
#[derive(Clone, Copy, Debug, PartialEq, Eq, Structural)]
pub struct RadianceData {
    pub mip_level: u32,
    pub max_mip: u32,
}

/// The four bytes of a number, the least significant byte first.
pub open spec fn little_endian(word: u32) -> Seq<u8> {
    seq![
        (word % 256) as u8,
        (word / 256 % 256) as u8,
        (word / 65536 % 256) as u8,
        (word / 16777216) as u8,
    ]
}

/// The four bytes of a number, the most significant byte first.
pub open spec fn big_endian(word: u32) -> Seq<u8> {
    seq![
        (word / 16777216) as u8,
        (word / 65536 % 256) as u8,
        (word / 256 % 256) as u8,
        (word % 256) as u8,
    ]
}

/// Asks `bytemuck::cast_slice` for the bytes of the two numbers as they lie
/// in the memory of the host, one after the other.
///
/// Trusted: that function reads the same memory as bytes, so what comes back
/// are the bytes of the level and then those of the level count, each in the
/// byte order of the host, which is one of two.
#[verifier::external_body]
fn cast_words(data: RadianceData) -> (bytes: Vec<u8>)
    ensures
        bytes@ == little_endian(data.mip_level) + little_endian(data.max_mip) || bytes@
            == big_endian(data.mip_level) + big_endian(data.max_mip),
{
    bytemuck::cast_slice::<u32, u8>(&[data.mip_level, data.max_mip]).to_vec()
}

impl RadianceData {
    /// The contents of the uniform buffer of a pass: the level and the level
    /// count, four bytes each, in the byte order of the host.
    pub fn to_bytes(self) -> (bytes: Vec<u8>)
        ensures
            bytes@.len() == 8,
            bytes@ == little_endian(self.mip_level) + little_endian(self.max_mip) || bytes@
                == big_endian(self.mip_level) + big_endian(self.max_mip),
    {
        cast_words(self)
    }
}

/// One level of the radiance chain: a kernel run that writes one mip level,
/// one workgroup for each texel of the level.
#[derive(Clone, Copy, Debug, PartialEq, Eq, Structural)]
pub struct RadiancePass {
    pub uniforms: RadianceData,
    pub workgroups: Dispatch,
}

/// What the device has to do for the radiance chain.
///
/// Every pass is a submission of its own: its commands are submitted and the
/// device has finished them before the next pass is encoded. The passes are
/// never put into one submission.
#[derive(Debug)]
pub struct RadiancePlan {
    /// The kernel text, specialised for the settings and the environment.
    pub shader: String,
    /// The number of mip levels of the environment that the kernel samples.
    pub source_mip_levels: u32,
    /// The sampler through which the kernel reads the environment.
    pub sampler: Sampler,
    /// The texture that receives the chain.
    pub output: TextureResource,
    /// The passes, one for each level, in ascending order.
    pub passes: Vec<RadiancePass>,
}

/// The pass that writes level `level` of a radiance chain of side `side`.
pub open spec fn radiance_pass(side: nat, level: nat) -> RadiancePass {
    RadiancePass {
        uniforms: RadianceData { mip_level: level as u32, max_mip: mip_levels(side) as u32 },
        workgroups: Dispatch::per_texel(mip_side(side, level) as u32),
    }
}

/// The passes of a radiance chain of side `side`: one for each level of its
/// full mip chain, in ascending order.
pub open spec fn radiance_passes(side: nat) -> Seq<RadiancePass> {
    Seq::new(mip_levels(side), |level: int| radiance_pass(side, level as nat))
}

/// Plans the specular radiance chain of an environment.
///
/// The output is a cube of the requested side with a full mip chain of its
/// own, in the format of the environment.
pub fn radiance(
    shader_template: &str,
    env_map: &TextureResource,
    cubemap_side: u32,
    parameters: &BakeParameters,
) -> (plan: RadiancePlan)
    ensures
        plan.shader@ == ibl_shader(shader_template@, *parameters, env_map.format),
        plan.source_mip_levels == env_map.mip_level_count,
        plan.sampler == trilinear_clamped(),
        plan.output == TextureResource::cube(
            cubemap_side,
            mip_levels(cubemap_side as nat) as u32,
            env_map.format,
            bake_usage(),
        ),
        plan.passes@ == radiance_passes(cubemap_side as nat),
{
    let shader = specialize_ibl_shader(shader_template, parameters, env_map.format);
    let max_mip = mip_level_count(cubemap_side);
    let output = TextureResource::new_cube(
        cubemap_side,
        max_mip,
        env_map.format,
        TextureUsages {
            storage_binding: true,
            texture_binding: false,
            copy_src: true,
            copy_dst: false,
        },
    );
    let mut passes: Vec<RadiancePass> = Vec::new();
    let mut mip_level: u32 = 0;
    while mip_level < max_mip
        invariant
            max_mip == mip_levels(cubemap_side as nat),
            mip_level <= max_mip,
            passes@.len() == mip_level,
            forall|i: int|
                0 <= i < mip_level ==> passes@[i] == radiance_pass(cubemap_side as nat, i as nat),
        decreases max_mip - mip_level,
    {
        let side = level_side(cubemap_side, mip_level);
        passes.push(
            RadiancePass {
                uniforms: RadianceData { mip_level, max_mip },
                workgroups: Dispatch::for_each_texel(side),
            },
        );
        mip_level = mip_level + 1;
    }
    proof {
        assert(passes@ =~= radiance_passes(cubemap_side as nat));
    }
    RadiancePlan {
        shader,
        source_mip_levels: env_map.mip_level_count,
        sampler: environment_sampler(),
        output,
        passes,
    }
}

/// What the device has to do for the irradiance map: one pass, one submission.
#[derive(Debug)]
pub struct IrradiancePlan {
    /// The kernel text, specialised for the settings and the environment.
    pub shader: String,
    /// The number of mip levels of the environment that the kernel samples.
    pub source_mip_levels: u32,
    /// The sampler through which the kernel reads the environment.
    pub sampler: Sampler,
    /// The texture that receives the map.
    pub output: TextureResource,
    /// The workgroups of the one pass: one for each texel of each face.
    pub workgroups: Dispatch,
}

/// Plans the diffuse irradiance map of an environment.
///
/// The output is a cube of the requested side with a single level, in the
/// format of the environment.
pub fn irradiance(
    shader_template: &str,
    env_map: &TextureResource,
    cubemap_side: u32,
    parameters: &BakeParameters,
) -> (plan: IrradiancePlan)
    ensures
        plan.shader@ == ibl_shader(shader_template@, *parameters, env_map.format),
        plan.source_mip_levels == env_map.mip_level_count,
        plan.sampler == trilinear_clamped(),
        plan.output == TextureResource::cube(cubemap_side, 1, env_map.format, bake_usage()),
        plan.workgroups == Dispatch::per_texel(cubemap_side),
{
    let shader = specialize_ibl_shader(shader_template, parameters, env_map.format);
    let output = TextureResource::new_cube(
        cubemap_side,
        1,
        env_map.format,
        TextureUsages {
            storage_binding: true,
            texture_binding: false,
            copy_src: true,
            copy_dst: false,
        },
    );
    IrradiancePlan {
        shader,
        source_mip_levels: env_map.mip_level_count,
        sampler: environment_sampler(),
        output,
        workgroups: Dispatch::for_each_texel(cubemap_side),
    }
}

} // verus!
