use ibl_bake::cubemap::{
    check_panorama, equirectangular_to_cubemap, EQUIRECTANGULAR_TO_CUBEMAP_ENTRY_POINT,
    PANORAMA_CHANNELS,
};
use ibl_bake::error::BakeError;
use ibl_bake::texture::{Dispatch, TextureFormat, TextureResource, TextureUsages};

#[test]
fn panorama_needs_four_samples_for_each_pixel() {
    assert_eq!(PANORAMA_CHANNELS, 4);
    assert_eq!(check_panorama(1024, 512, 1024 * 512 * 4), Ok(()));
    assert_eq!(check_panorama(1024, 512, 1024 * 512 * 4 - 1), Err(BakeError::InvalidSize));
    assert_eq!(check_panorama(1024, 512, 1024 * 512 * 3), Err(BakeError::InvalidSize));
    assert_eq!(check_panorama(1, 1, 3), Err(BakeError::InvalidSize));
    assert_eq!(check_panorama(1, 1, 4), Ok(()));
}

#[test]
fn panorama_may_not_leave_samples_over() {
    assert_eq!(check_panorama(2, 1, 100), Err(BakeError::InvalidSize));
    assert_eq!(check_panorama(2, 2, 17), Err(BakeError::InvalidSize));
    assert_eq!(check_panorama(1024, 512, 1024 * 512 * 4 + 1), Err(BakeError::InvalidSize));
    assert_eq!(check_panorama(0, 0, 1), Err(BakeError::InvalidSize));
}

#[test]
fn panorama_without_pixels_has_no_samples() {
    assert_eq!(check_panorama(0, 0, 0), Ok(()));
    assert_eq!(check_panorama(0, 7, 0), Ok(()));
}

#[test]
fn panorama_too_large_for_any_buffer_is_refused() {
    assert_eq!(check_panorama(u32::MAX, u32::MAX, usize::MAX), Err(BakeError::InvalidSize));
}

#[test]
fn projection_refuses_data_that_does_not_match_the_shape() {
    for samples in [0, 1024 * 512 * 3, 1024 * 512 * 4 - 1, 1024 * 512 * 4 + 1, 1024 * 512 * 16] {
        let refused =
            equirectangular_to_cubemap("", 1024, 512, samples, 1024, TextureFormat::Rgba16Float, true);
        assert_eq!(refused.err(), Some(BakeError::InvalidSize));
    }
}

#[test]
fn projection_of_a_1024_by_512_panorama() {
    let plan =
        equirectangular_to_cubemap("", 1024, 512, 1024 * 512 * 4, 1024, TextureFormat::Rgba16Float, true)
            .unwrap();
    assert_eq!(
        plan.source,
        TextureResource {
            width: 1024,
            height: 512,
            faces: 1,
            mip_level_count: 1,
            format: TextureFormat::Rgba32Float,
            usage: TextureUsages {
                storage_binding: true,
                texture_binding: true,
                copy_src: false,
                copy_dst: false,
            },
        }
    );
    assert_eq!(
        plan.cubemap,
        TextureResource {
            width: 1024,
            height: 1024,
            faces: 6,
            mip_level_count: 1,
            format: TextureFormat::Rgba16Float,
            usage: TextureUsages {
                storage_binding: true,
                texture_binding: true,
                copy_src: true,
                copy_dst: false,
            },
        }
    );
    assert_eq!(plan.workgroups, Dispatch { x: 1024, y: 1024, z: 6 });
    assert_eq!(EQUIRECTANGULAR_TO_CUBEMAP_ENTRY_POINT, "equirectangular_to_cubemap");
}

#[test]
fn projection_kernel_takes_the_flip_and_the_formats() {
    let template = "const FLIP_Y: bool = false;\n@group(0) @binding(0) var equirectangular: texture_storage_2d<rgba16float, read>;\n@group(0) @binding(1) var cubemap_faces: texture_storage_2d_array<rgba32float, write>;\n";
    let plan =
        equirectangular_to_cubemap(template, 8, 4, 128, 4, TextureFormat::Rgba16Float, true).unwrap();
    assert_eq!(
        plan.shader,
        "const FLIP_Y: bool = true;\n@group(0) @binding(0) var equirectangular: texture_storage_2d<rgba32float, read>;\n@group(0) @binding(1) var cubemap_faces: texture_storage_2d_array<rgba16float, write>;\n"
    );
    let plan =
        equirectangular_to_cubemap(template, 8, 4, 128, 4, TextureFormat::Rgba32Float, false).unwrap();
    assert_eq!(
        plan.shader,
        "const FLIP_Y: bool = false;\n@group(0) @binding(0) var equirectangular: texture_storage_2d<rgba32float, read>;\n@group(0) @binding(1) var cubemap_faces: texture_storage_2d_array<rgba32float, write>;\n"
    );
}
