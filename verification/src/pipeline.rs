//! The bake as a whole: its settings, the order of its stages, and where its
//! three files go.

use vstd::prelude::*;
use vstd::std_specs::iter::IteratorSpec;
use vstd::string::*;

use crate::cubemap::cubemap_usage;
use crate::error::BakeError;
use crate::ibl::{bake_usage, BakeParameters};
use crate::mipmap::{lemma_mip_levels_bound, mip_levels, mipmapped};
use crate::texture::{TextureFormat, TextureResource};

verus! {

/// The settings of the pipeline.
#[derive(Clone, Debug)]
pub struct PipelineConfig {
    /// The side of the faces of all three cubemaps.
    pub cubemap_side: u32,
    /// The pixel format of all three cubemaps.
    pub pixel_format: TextureFormat,
    /// Whether the panorama is flipped vertically while it is projected.
    pub flip_y: bool,
    /// The settings of the two bakes.
    pub bake_parameters: BakeParameters,
    /// The file name of the environment cubemap.
    pub environment_file: String,
    /// The file name of the specular radiance cubemap.
    pub radiance_file: String,
    /// The file name of the diffuse irradiance cubemap.
    pub irradiance_file: String,
}

impl PipelineConfig {
    /// Whether the settings are the ones that a bake uses unless it is told
    /// otherwise: faces of 1024 texels in 16-bit floats, the panorama
    /// flipped, 128 samples, no correction, and the three usual file names.
    pub open spec fn is_default(&self) -> bool {
        &&& self.cubemap_side == 1024
        &&& self.pixel_format == TextureFormat::Rgba16Float
        &&& self.flip_y
        &&& self.bake_parameters.num_samples == 128
        &&& self.bake_parameters.strength@ == "1.0"@
        &&& self.bake_parameters.contrast_correction@ == "1.0"@
        &&& self.bake_parameters.brightness_correction@ == "1.0"@
        &&& self.bake_parameters.saturation_correction@ == "1.0"@
        &&& self.bake_parameters.hue_correction@ == "0.0"@
        &&& self.environment_file@ == "skybox.ktx2"@
        &&& self.radiance_file@ == "specular_map.ktx2"@
        &&& self.irradiance_file@ == "diffuse_map.ktx2"@
    }
}

impl Default for PipelineConfig {
    fn default() -> (config: PipelineConfig)
        ensures
            config.is_default(),
    {
        PipelineConfig {
            cubemap_side: 1024,
            pixel_format: TextureFormat::Rgba16Float,
            flip_y: true,
            bake_parameters: BakeParameters {
                num_samples: 128,
                strength: String::from_str("1.0"),
                contrast_correction: String::from_str("1.0"),
                brightness_correction: String::from_str("1.0"),
                saturation_correction: String::from_str("1.0"),
                hue_correction: String::from_str("0.0"),
            },
            environment_file: String::from_str("skybox.ktx2"),
            radiance_file: String::from_str("specular_map.ktx2"),
            irradiance_file: String::from_str("diffuse_map.ktx2"),
        }
    }
}

/// The index of the last `/` of a path, if it has one.
pub open spec fn last_slash(path: Seq<char>) -> Option<int>
    decreases path.len(),
{
    if path.len() == 0 {
        None
    } else if path.last() == '/' {
        Some(path.len() - 1)
    } else {
        last_slash(path.drop_last())
    }
}

/// The directory of a path: what stands before its last `/`, or `.` for a
/// path without one.
pub open spec fn directory_of(path: Seq<char>) -> Seq<char> {
    match last_slash(path) {
        Some(slash) => path.subrange(0, slash),
        None => "."@,
    }
}

/// The last `/` of a path lies inside the path.
pub proof fn lemma_last_slash_in_range(path: Seq<char>)
    ensures
        last_slash(path) matches Some(slash) ==> 0 <= slash < path.len() && path[slash] == '/',
    decreases path.len(),
{
    if path.len() > 0 && path.last() != '/' {
        lemma_last_slash_in_range(path.drop_last());
    }
}

/// The directory beside the source file, where the output files go.
pub fn output_directory(source: &str) -> (directory: String)
    ensures
        directory@ == directory_of(source@),
{
    broadcast use group_string_axioms;

    let len = source.unicode_len();
    let ghost path = source@;
    let mut chars = source.chars();
    let mut pos: usize = 0;
    let mut slash: Option<usize> = None;
    loop
        invariant
            path == source@,
            len == path.len(),
            0 <= pos <= len,
            chars.remaining() == path.subrange(pos as int, len as int),
            slash matches Some(at) ==> at < pos,
            match slash {
                Some(at) => last_slash(path.take(pos as int)) == Some(at as int),
                None => last_slash(path.take(pos as int)) is None,
            },
        ensures
            pos == len,
        decreases len - pos,
    {
        let c = match chars.next() {
            Some(c) => c,
            None => {
                break;
            },
        };
        proof {
            assert(c == path[pos as int]);
            assert(path.take(pos + 1).drop_last() == path.take(pos as int));
            assert(path.take(pos + 1).last() == c);
        }
        if c == '/' {
            slash = Some(pos);
        }
        pos = pos + 1;
    }
    proof {
        assert(path.take(len as int) == path);
    }
    match slash {
        Some(at) => String::from_str(source.substring_char(0, at)),
        None => String::from_str("."),
    }
}

/// The path of a file in a directory.
pub fn output_path(directory: &str, file: &str) -> (path: String)
    ensures
        path@ == directory@ + "/"@ + file@,
{
    let mut path = String::from_str(directory);
    path.append("/");
    path.append(file);
    path
}

/// A buffer of red, green and blue samples with an alpha sample behind every
/// three of them.
pub open spec fn with_alpha<T>(rgb: Seq<T>, alpha: T) -> Seq<T> {
    Seq::new(
        (rgb.len() / 3 * 4) as nat,
        |i: int|
            if i % 4 == 3 {
                alpha
            } else {
                rgb[i / 4 * 3 + i % 4]
            },
    )
}

/// Gives every pixel of a buffer of red, green and blue samples an alpha
/// sample.
pub fn add_alpha<T: Copy>(rgb: &[T], alpha: T) -> (rgba: Vec<T>)
    requires
        rgb@.len() % 3 == 0,
    ensures
        rgba@ == with_alpha(rgb@, alpha),
{
    let samples = rgb.len();
    let pixels = samples / 3;
    let mut rgba: Vec<T> = Vec::new();
    let mut pixel: usize = 0;
    while pixel < pixels
        invariant
            samples == rgb@.len(),
            pixels == rgb@.len() / 3,
            rgb@.len() % 3 == 0,
            pixel <= pixels,
            rgba@.len() == pixel * 4,
            forall|i: int| 0 <= i < pixel * 4 ==> rgba@[i] == with_alpha(rgb@, alpha)[i],
        decreases pixels - pixel,
    {
        let at = pixel * 3;
        rgba.push(rgb[at]);
        rgba.push(rgb[at + 1]);
        rgba.push(rgb[at + 2]);
        rgba.push(alpha);
        pixel = pixel + 1;
    }
    proof {
        assert(rgba@ =~= with_alpha(rgb@, alpha));
    }
    rgba
}

/// The stages of a bake, in the order in which they run. Each stage has
/// finished before the next one begins.
#[derive(Clone, Copy, Debug, PartialEq, Eq, Structural)]
pub enum Stage {
    /// Finding a device that runs compute kernels.
    AcquireDevice,
    /// Reading and decoding the panorama.
    LoadPanorama,
    /// Projecting the panorama onto the cube.
    Project,
    /// Building the mip chain of the cube.
    GenerateMipmaps,
    /// Reading the environment back and writing its file.
    WriteEnvironment,
    /// Baking the radiance chain.
    BakeRadiance,
    /// Reading the radiance chain back and writing its file.
    WriteRadiance,
    /// Baking the irradiance map.
    BakeIrradiance,
    /// Reading the irradiance map back and writing its file.
    WriteIrradiance,
    /// Every stage has finished.
    Done,
    /// A stage failed, and the bake with it.
    Failed(BakeError),
}

impl Stage {
    /// The stage that follows a stage that finished.
    pub open spec fn successor(self) -> Stage {
        match self {
            Stage::AcquireDevice => Stage::LoadPanorama,
            Stage::LoadPanorama => Stage::Project,
            Stage::Project => Stage::GenerateMipmaps,
            Stage::GenerateMipmaps => Stage::WriteEnvironment,
            Stage::WriteEnvironment => Stage::BakeRadiance,
            Stage::BakeRadiance => Stage::WriteRadiance,
            Stage::WriteRadiance => Stage::BakeIrradiance,
            Stage::BakeIrradiance => Stage::WriteIrradiance,
            Stage::WriteIrradiance => Stage::Done,
            Stage::Done => Stage::Done,
            Stage::Failed(error) => Stage::Failed(error),
        }
    }

    /// Whether the bake has come to its end, one way or the other.
    pub open spec fn is_final(self) -> bool {
        self is Done || self is Failed
    }

    /// Where the bake stands after the outcome of a stage: at the next stage
    /// if the stage finished, at its failure otherwise. A bake that has come
    /// to its end stays there.
    pub open spec fn after(self, outcome: Result<(), BakeError>) -> Stage {
        if self.is_final() {
            self
        } else {
            match outcome {
                Ok(_) => self.successor(),
                Err(error) => Stage::Failed(error),
            }
        }
    }

    /// The stage with which every bake begins.
    pub fn first() -> (stage: Stage)
        ensures
            stage == Stage::AcquireDevice,
    {
        Stage::AcquireDevice
    }

    /// Moves on after the outcome of the current stage.
    pub fn advance(self, outcome: Result<(), BakeError>) -> (next: Stage)
        ensures
            next == self.after(outcome),
    {
        match self {
            Stage::Done => Stage::Done,
            Stage::Failed(error) => Stage::Failed(error),
            running => match outcome {
                Err(error) => Stage::Failed(error),
                Ok(_) => match running {
                    Stage::AcquireDevice => Stage::LoadPanorama,
                    Stage::LoadPanorama => Stage::Project,
                    Stage::Project => Stage::GenerateMipmaps,
                    Stage::GenerateMipmaps => Stage::WriteEnvironment,
                    Stage::WriteEnvironment => Stage::BakeRadiance,
                    Stage::BakeRadiance => Stage::WriteRadiance,
                    Stage::WriteRadiance => Stage::BakeIrradiance,
                    Stage::BakeIrradiance => Stage::WriteIrradiance,
                    Stage::WriteIrradiance => Stage::Done,
                    Stage::Done => Stage::Done,
                    Stage::Failed(error) => Stage::Failed(error),
                },
            },
        }
    }
}

/// Nothing is retried: a failure ends the bake at once, whatever the stage.
pub proof fn lemma_failure_ends_the_bake(stage: Stage, error: BakeError)
    requires
        !stage.is_final(),
    ensures
        stage.after(Err(error)) == Stage::Failed(error),
        stage.after(Err(error)).is_final(),
{
}

/// Nothing is recovered: a bake that has come to its end stays where it is,
/// whatever is reported to it.
pub proof fn lemma_the_end_is_final(stage: Stage, outcome: Result<(), BakeError>)
    requires
        stage.is_final(),
    ensures
        stage.after(outcome) == stage,
{
}

/// A bake whose stages all finish runs through nine stages, one after the
/// other, and is then done.
pub proof fn lemma_nine_stages_finish_the_bake()
    ensures
        Stage::AcquireDevice.after(Ok(())).after(Ok(())).after(Ok(())).after(Ok(())).after(
            Ok(()),
        ).after(Ok(())).after(Ok(())).after(Ok(())).after(Ok(())) == Stage::Done,
        Stage::AcquireDevice.after(Ok(())).after(Ok(())).after(Ok(())).after(Ok(())).after(
            Ok(()),
        ).after(Ok(())).after(Ok(())).after(Ok(())) == Stage::WriteIrradiance,
{
}

/// The shapes of the three outputs of a bake of side `side`: the environment
/// is the projected cube with a full mip chain, the radiance chain has the
/// same side, levels and format as the environment, and the irradiance map
/// has the same side and format and a single level.
pub proof fn lemma_bake_yields_three_cubes(side: u32, format: TextureFormat)
    ensures
        ({
            let projected = TextureResource::cube(side, 1, format, cubemap_usage());
            let environment = mipmapped(projected);
            let levels = mip_levels(side as nat);
            let radiance = TextureResource::cube(
                side,
                levels as u32,
                environment.format,
                bake_usage(),
            );
            let irradiance = TextureResource::cube(side, 1, environment.format, bake_usage());
            &&& 1 <= levels <= 32
            &&& projected.is_cube() && environment.is_cube() && radiance.is_cube()
                && irradiance.is_cube()
            &&& environment.width == side && environment.format == format
            &&& environment.mip_level_count == levels
            &&& radiance.width == environment.width && radiance.format == format
            &&& radiance.mip_level_count == environment.mip_level_count
            &&& irradiance.width == environment.width && irradiance.format == format
            &&& irradiance.mip_level_count == 1
        }),
{
    vstd::arithmetic::power2::lemma2_to64();
    lemma_mip_levels_bound(side as nat, 32);
}

} // verus!
