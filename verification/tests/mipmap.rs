use ibl_bake::mipmap::{
    generate_mipmaps, level_side, mip_level_count, MipPass, GENERATE_MIPMAPS_ENTRY_POINT,
};
use ibl_bake::texture::{Dispatch, Extent, TextureFormat, TextureResource, TextureUsages};

fn base_cube(side: u32, format: TextureFormat) -> TextureResource {
    TextureResource::new_cube(
        side,
        1,
        format,
        TextureUsages { storage_binding: true, texture_binding: true, copy_src: true, copy_dst: false },
    )
}

#[test]
fn level_count_is_the_logarithm_and_one() {
    assert_eq!(mip_level_count(1), 1);
    assert_eq!(mip_level_count(2), 2);
    assert_eq!(mip_level_count(3), 2);
    assert_eq!(mip_level_count(4), 3);
    assert_eq!(mip_level_count(255), 8);
    assert_eq!(mip_level_count(256), 9);
    assert_eq!(mip_level_count(1023), 10);
    assert_eq!(mip_level_count(1024), 11);
    assert_eq!(mip_level_count(1025), 11);
    assert_eq!(mip_level_count(u32::MAX), 32);
}

#[test]
fn level_count_of_an_empty_side_is_one() {
    assert_eq!(mip_level_count(0), 1);
}

#[test]
fn level_count_agrees_with_the_float_logarithm() {
    for side in 1u32..5000 {
        assert_eq!(mip_level_count(side), (side as f32).log2().floor() as u32 + 1);
    }
}

#[test]
fn level_side_is_the_side_shifted() {
    assert_eq!(level_side(1024, 0), 1024);
    assert_eq!(level_side(1024, 1), 512);
    assert_eq!(level_side(1024, 10), 1);
    assert_eq!(level_side(1024, 11), 0);
    assert_eq!(level_side(1000, 3), 125);
    assert_eq!(level_side(1000, 4), 62);
    assert_eq!(level_side(u32::MAX, 31), 1);
    assert_eq!(level_side(u32::MAX, 32), 0);
    assert_eq!(level_side(u32::MAX, 500), 0);
    for level in 0u32..32 {
        assert_eq!(level_side(123_456_789, level), 123_456_789 >> level);
    }
}

#[test]
fn the_chain_ends_where_the_side_reaches_zero() {
    for side in [1u32, 2, 3, 7, 8, 100, 1024, 4097] {
        let levels = mip_level_count(side);
        for level in 0..levels {
            assert!(level_side(side, level) >= 1);
        }
        assert_eq!(level_side(side, levels - 1), 1);
        assert_eq!(level_side(side, levels), 0);
    }
}

#[test]
fn chain_of_a_1024_cube() {
    let plan = generate_mipmaps("", &base_cube(1024, TextureFormat::Rgba16Float));
    assert_eq!(plan.output.width, 1024);
    assert_eq!(plan.output.height, 1024);
    assert_eq!(plan.output.faces, 6);
    assert_eq!(plan.output.mip_level_count, 11);
    assert_eq!(plan.output.format, TextureFormat::Rgba16Float);
    assert_eq!(
        plan.output.usage,
        TextureUsages { storage_binding: true, texture_binding: true, copy_src: true, copy_dst: true }
    );
    assert_eq!(plan.base_copy, Extent { width: 1024, height: 1024, layers: 6 });
    assert_eq!(plan.passes.len(), 10);
    let mut side = 512;
    for (i, pass) in plan.passes.iter().enumerate() {
        assert_eq!(
            *pass,
            MipPass {
                source_level: i as u32,
                target_level: i as u32 + 1,
                workgroups: Dispatch { x: side, y: side, z: 6 },
            }
        );
        side /= 2;
    }
    assert_eq!(plan.passes[9].workgroups, Dispatch { x: 1, y: 1, z: 6 });
}

#[test]
fn chain_of_a_single_texel_has_no_pass() {
    let plan = generate_mipmaps("", &base_cube(1, TextureFormat::Rgba32Float));
    assert_eq!(plan.output.mip_level_count, 1);
    assert!(plan.passes.is_empty());
}

#[test]
fn chain_goes_by_the_larger_side() {
    let texture = TextureResource {
        width: 8,
        height: 32,
        faces: 6,
        mip_level_count: 1,
        format: TextureFormat::Rgba16Float,
        usage: TextureUsages { storage_binding: true, texture_binding: true, copy_src: true, copy_dst: false },
    };
    let plan = generate_mipmaps("", &texture);
    assert_eq!(plan.output.mip_level_count, 6);
    assert_eq!(plan.passes.len(), 5);
    assert_eq!(plan.passes[0].workgroups, Dispatch { x: 16, y: 16, z: 6 });
    assert_eq!(plan.base_copy, Extent { width: 8, height: 32, layers: 6 });
}

#[test]
fn mipmap_kernel_takes_the_format_of_the_texture() {
    let template = "@group(0) @binding(0)\nvar input: texture_storage_2d_array<rgba32float, read>;\n@group(0) @binding(1)\nvar output: texture_storage_2d_array<rgba32float, write>;\nfn generate_mipmaps() {}\n";
    let plan = generate_mipmaps(template, &base_cube(64, TextureFormat::Rgba16Float));
    assert_eq!(
        plan.shader,
        "@group(0) @binding(0)\nvar input: texture_storage_2d_array<rgba16float, read>;\n@group(0) @binding(1)\nvar output: texture_storage_2d_array<rgba16float, write>;\nfn generate_mipmaps() {}\n"
    );
    let plan = generate_mipmaps(template, &base_cube(64, TextureFormat::Rgba32Float));
    assert_eq!(plan.shader, template);
    assert_eq!(GENERATE_MIPMAPS_ENTRY_POINT, "generate_mipmaps");
}
