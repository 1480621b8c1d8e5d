use ibl_bake::texture::{
    row_alignment, Dispatch, TextureFormat, TextureResource, TextureUsages, ToApi, CUBE_FACES,
    GL_RGBA16F, GL_RGBA32F, ROW_ALIGNMENT, VK_FORMAT_R16G16B16A16_SFLOAT,
    VK_FORMAT_R32G32B32A32_SFLOAT,
};

#[test]
fn formats_have_their_opengl_numbers() {
    assert_eq!(TextureFormat::Rgba32Float.to_gl(), 0x8814);
    assert_eq!(TextureFormat::Rgba16Float.to_gl(), 0x881A);
    assert_eq!(GL_RGBA32F, 0x8814);
    assert_eq!(GL_RGBA16F, 0x881A);
}

#[test]
fn formats_have_their_vulkan_numbers() {
    assert_eq!(TextureFormat::Rgba32Float.to_vulkan(), 109);
    assert_eq!(TextureFormat::Rgba16Float.to_vulkan(), 97);
    assert_eq!(VK_FORMAT_R32G32B32A32_SFLOAT, 109);
    assert_eq!(VK_FORMAT_R16G16B16A16_SFLOAT, 97);
}

#[test]
fn formats_have_their_wgsl_names() {
    assert_eq!(TextureFormat::Rgba32Float.to_wgsl_storage_str(), "rgba32float");
    assert_eq!(TextureFormat::Rgba16Float.to_wgsl_storage_str(), "rgba16float");
    assert_eq!(TextureFormat::Rgba32Float.to_wgsl_texture_str(), "f32");
    assert_eq!(TextureFormat::Rgba16Float.to_wgsl_texture_str(), "f32");
}

#[test]
fn pixels_take_four_channels() {
    assert_eq!(TextureFormat::Rgba32Float.bytes_per_pixel(), 16);
    assert_eq!(TextureFormat::Rgba16Float.bytes_per_pixel(), 8);
}

#[test]
fn rows_are_aligned_to_256_bytes() {
    assert_eq!(row_alignment(), 256);
    assert_eq!(ROW_ALIGNMENT, 256);
    assert_eq!(row_alignment(), wgpu::COPY_BYTES_PER_ROW_ALIGNMENT);
}

#[test]
fn a_cube_has_six_square_faces() {
    let usage = TextureUsages {
        storage_binding: true,
        texture_binding: false,
        copy_src: true,
        copy_dst: false,
    };
    let cube = TextureResource::new_cube(64, 7, TextureFormat::Rgba16Float, usage);
    assert_eq!(cube.width, 64);
    assert_eq!(cube.height, 64);
    assert_eq!(cube.faces, 6);
    assert_eq!(cube.faces, CUBE_FACES);
    assert_eq!(cube.mip_level_count, 7);
    assert_eq!(cube.format, TextureFormat::Rgba16Float);
    assert_eq!(cube.usage, usage);
}

#[test]
fn a_dispatch_covers_every_texel_of_every_face() {
    let dispatch = Dispatch::for_each_texel(1024);
    assert_eq!(dispatch, Dispatch { x: 1024, y: 1024, z: 6 });
    assert_eq!(Dispatch::for_each_texel(0), Dispatch { x: 0, y: 0, z: 6 });
}
