//! Pixel formats and texture descriptions shared by every stage.

use vstd::prelude::*;

verus! {

/// OpenGL internal format of four 32-bit float channels.
pub const GL_RGBA32F: u32 = 0x8814;

/// OpenGL internal format of four 16-bit float channels.
pub const GL_RGBA16F: u32 = 0x881A;

/// Vulkan format number of four 32-bit float channels.
pub const VK_FORMAT_R32G32B32A32_SFLOAT: u32 = 109;

/// Vulkan format number of four 16-bit float channels.
pub const VK_FORMAT_R16G16B16A16_SFLOAT: u32 = 97;

/// The row pitch alignment of copies between textures and buffers, in bytes.
pub const ROW_ALIGNMENT: u32 = 256;

/// The number of faces of a cube texture.
pub const CUBE_FACES: u32 = 6;

/// The pixel formats the pipeline works with: four float channels of 32 or
/// 16 bits each.
#[derive(Clone, Copy, Debug, PartialEq, Eq, Structural)]
pub enum TextureFormat {
    Rgba32Float,
    Rgba16Float,
}

impl View for TextureFormat {
    type V = TextureFormat;

    open spec fn view(&self) -> TextureFormat {
        *self
    }
}

impl DeepView for TextureFormat {
    type V = TextureFormat;

    open spec fn deep_view(&self) -> TextureFormat {
        *self
    }
}

/// How a pixel format is written in each API the pipeline talks to.
pub trait ToApi {
    /// The OpenGL internal format number.
    fn to_gl(self) -> u32;

    /// The Vulkan format number.
    fn to_vulkan(self) -> u32;

    /// The WGSL texel format of a storage texture binding.
    fn to_wgsl_storage_str(self) -> &'static str;

    /// The WGSL sampled type of a texture binding.
    fn to_wgsl_texture_str(self) -> &'static str;
}

impl TextureFormat {
    /// The OpenGL internal format number of the format.
    pub open spec fn gl(self) -> u32 {
        match self {
            TextureFormat::Rgba32Float => GL_RGBA32F,
            TextureFormat::Rgba16Float => GL_RGBA16F,
        }
    }

    /// The Vulkan format number of the format.
    pub open spec fn vulkan(self) -> u32 {
        match self {
            TextureFormat::Rgba32Float => VK_FORMAT_R32G32B32A32_SFLOAT,
            TextureFormat::Rgba16Float => VK_FORMAT_R16G16B16A16_SFLOAT,
        }
    }

    /// The WGSL texel format token of the format.
    pub open spec fn wgsl_storage(self) -> Seq<char> {
        match self {
            TextureFormat::Rgba32Float => "rgba32float"@,
            TextureFormat::Rgba16Float => "rgba16float"@,
        }
    }

    /// The WGSL sampled type of the format: both are read as `f32`.
    pub open spec fn wgsl_texture(self) -> Seq<char> {
        "f32"@
    }

    /// The bytes of one pixel: four channels of four or of two bytes.
    pub open spec fn texel_bytes(self) -> u32 {
        match self {
            TextureFormat::Rgba32Float => 16,
            TextureFormat::Rgba16Float => 8,
        }
    }
}

impl ToApi for TextureFormat {
    fn to_gl(self) -> (id: u32)
        ensures
            id == self.gl(),
    {
        match self {
            TextureFormat::Rgba32Float => GL_RGBA32F,
            TextureFormat::Rgba16Float => GL_RGBA16F,
        }
    }

    fn to_vulkan(self) -> (id: u32)
        ensures
            id == self.vulkan(),
    {
        match self {
            TextureFormat::Rgba32Float => VK_FORMAT_R32G32B32A32_SFLOAT,
            TextureFormat::Rgba16Float => VK_FORMAT_R16G16B16A16_SFLOAT,
        }
    }

    fn to_wgsl_storage_str(self) -> (token: &'static str)
        ensures
            token@ == self.wgsl_storage(),
    {
        match self {
            TextureFormat::Rgba32Float => "rgba32float",
            TextureFormat::Rgba16Float => "rgba16float",
        }
    }

    fn to_wgsl_texture_str(self) -> (token: &'static str)
        ensures
            token@ == self.wgsl_texture(),
    {
        match self {
            TextureFormat::Rgba32Float => "f32",
            TextureFormat::Rgba16Float => "f32",
        }
    }
}

/// Asks `wgpu::TextureFormat::block_copy_size` for the bytes that one texel
/// of the format takes in an image copy, all aspects taken.
///
/// Trusted: for the two formats of this library that function answers
/// `Some(16)` for `Rgba32Float` and `Some(8)` for `Rgba16Float`.
#[verifier::external_body]
fn block_copy_size(format: TextureFormat) -> (size: Option<u32>)
    ensures
        size == Some(format.texel_bytes()),
{
    let format = match format {
        TextureFormat::Rgba32Float => wgpu::TextureFormat::Rgba32Float,
        TextureFormat::Rgba16Float => wgpu::TextureFormat::Rgba16Float,
    };
    format.block_copy_size(Some(wgpu::TextureAspect::All))
}

/// Reads `wgpu::COPY_BYTES_PER_ROW_ALIGNMENT`, the alignment that the device
/// interface asks of the row pitch of every copy between a texture and a
/// buffer.
///
/// Trusted: that constant is 256.
#[verifier::external_body]
fn copy_bytes_per_row_alignment() -> (alignment: u32)
    ensures
        alignment == ROW_ALIGNMENT,
{
    wgpu::COPY_BYTES_PER_ROW_ALIGNMENT
}

/// The row pitch alignment of copies between textures and buffers, as the
/// device interface gives it.
pub fn row_alignment() -> (alignment: u32)
    ensures
        alignment == ROW_ALIGNMENT,
{
    copy_bytes_per_row_alignment()
}

impl TextureFormat {
    /// The bytes of one pixel, as the device interface counts them.
    pub fn bytes_per_pixel(self) -> (bytes: u32)
        ensures
            bytes == self.texel_bytes(),
    {
        block_copy_size(self).unwrap()
    }
}

/// What a texture may be used for.
#[derive(Clone, Copy, Debug, PartialEq, Eq, Structural)]
pub struct TextureUsages {
    /// Kernels may read and write it as a storage texture.
    pub storage_binding: bool,
    /// Kernels may sample it.
    pub texture_binding: bool,
    /// Copies may read from it.
    pub copy_src: bool,
    /// Copies may write to it.
    pub copy_dst: bool,
}

/// A texture on the device: its extent, its mip chain, its pixel format and
/// what it may be used for. A panorama has one face, a cube texture six.
#[derive(Clone, Copy, Debug, PartialEq, Eq, Structural)]
pub struct TextureResource {
    pub width: u32,
    pub height: u32,
    pub faces: u32,
    pub mip_level_count: u32,
    pub format: TextureFormat,
    pub usage: TextureUsages,
}

impl TextureResource {
    /// Whether this describes a cube texture: six square faces.
    pub open spec fn is_cube(self) -> bool {
        self.faces == CUBE_FACES && self.width == self.height
    }

    /// A cube texture of the given side.
    pub open spec fn cube(
        side: u32,
        mip_level_count: u32,
        format: TextureFormat,
        usage: TextureUsages,
    ) -> TextureResource {
        TextureResource {
            width: side,
            height: side,
            faces: CUBE_FACES,
            mip_level_count,
            format,
            usage,
        }
    }

    /// Describes a cube texture of the given side.
    pub fn new_cube(
        side: u32,
        mip_level_count: u32,
        format: TextureFormat,
        usage: TextureUsages,
    ) -> (texture: TextureResource)
        ensures
            texture == TextureResource::cube(side, mip_level_count, format, usage),
            texture.is_cube(),
    {
        TextureResource {
            width: side,
            height: side,
            faces: CUBE_FACES,
            mip_level_count,
            format,
            usage,
        }
    }
}

/// The extent of a copy: texels across, texels down, and layers.
#[derive(Clone, Copy, Debug, PartialEq, Eq, Structural)]
pub struct Extent {
    pub width: u32,
    pub height: u32,
    pub layers: u32,
}

/// The number of workgroups that a dispatch starts along each axis.
#[derive(Clone, Copy, Debug, PartialEq, Eq, Structural)]
pub struct Dispatch {
    pub x: u32,
    pub y: u32,
    pub z: u32,
}

impl Dispatch {
    /// One workgroup for each texel of each face of a cube level of the given side.
    pub open spec fn per_texel(side: u32) -> Dispatch {
        Dispatch { x: side, y: side, z: CUBE_FACES }
    }

    /// The number of workgroups that the dispatch starts.
    pub open spec fn invocations(self) -> nat {
        (self.x * self.y * self.z) as nat
    }

    /// One workgroup for each texel of each face of a cube level of the given side.
    pub fn for_each_texel(side: u32) -> (dispatch: Dispatch)
        ensures
            dispatch == Dispatch::per_texel(side),
            dispatch.invocations() == side * side * 6,
    {
        Dispatch { x: side, y: side, z: CUBE_FACES }
    }
}

} // verus!
