use ibl_bake::error::BakeError;
use ibl_bake::ktx::{
    write_cubemap_to_ktx, write_cubemap_to_ktx2, FaceImage, KtxCreateInfo, KtxVersion,
};
use ibl_bake::texture::TextureFormat;

#[test]
fn container_is_told_what_the_cubemap_is() {
    let data = vec![0u8; 6 * 4 * 4 * 8 + 6 * 2 * 2 * 8 + 6 * 8];
    let texture = write_cubemap_to_ktx2(&data, TextureFormat::Rgba16Float, 4, 3).unwrap();
    assert_eq!(texture.version, KtxVersion::Ktx2);
    assert_eq!(
        texture.create_info,
        KtxCreateInfo {
            gl_internalformat: 0x881A,
            vk_format: 97,
            base_width: 4,
            base_height: 4,
            base_depth: 1,
            num_dimensions: 2,
            num_levels: 3,
            num_layers: 1,
            num_faces: 6,
            is_array: false,
            generate_mipmaps: false,
        }
    );
    let texture = write_cubemap_to_ktx(&data, TextureFormat::Rgba16Float, 4, 3, KtxVersion::Ktx1).unwrap();
    assert_eq!(texture.version, KtxVersion::Ktx1);
    assert_eq!(texture.images.len(), 18);
}

#[test]
fn images_are_level_major_and_face_minor() {
    let data = vec![0u8; 6 * 4 * 4 * 16 + 6 * 2 * 2 * 16 + 6 * 16];
    let texture = write_cubemap_to_ktx2(&data, TextureFormat::Rgba32Float, 4, 3).unwrap();
    assert_eq!(texture.create_info.gl_internalformat, 0x8814);
    assert_eq!(texture.create_info.vk_format, 109);
    let mut expected = Vec::new();
    let mut offset = 0usize;
    for level in 0u32..3 {
        let side = (4usize) >> level;
        let size = side * side * 16;
        for face in 0u32..6 {
            expected.push(FaceImage { level, face, offset, size });
            offset += size;
        }
    }
    assert_eq!(texture.images, expected);
    assert_eq!(texture.images[0], FaceImage { level: 0, face: 0, offset: 0, size: 256 });
    assert_eq!(texture.images[5], FaceImage { level: 0, face: 5, offset: 1280, size: 256 });
    assert_eq!(texture.images[6], FaceImage { level: 1, face: 0, offset: 1536, size: 64 });
    assert_eq!(texture.images[17], FaceImage { level: 2, face: 5, offset: 1536 + 384 + 80, size: 16 });
    assert_eq!(offset, data.len());
}

#[test]
fn images_are_the_chunks_of_the_stream() {
    let data: Vec<u8> = (0..(6 * 2 * 2 * 8 + 6 * 8)).map(|i| i as u8).collect();
    let texture = write_cubemap_to_ktx2(&data, TextureFormat::Rgba16Float, 2, 2).unwrap();
    let mut prev_end = 0;
    let mut image = 0;
    for level in 0..2u32 {
        let level_side = (2usize) >> level;
        let face_size = level_side * level_side * 8;
        for (face_idx, face) in data[prev_end..].chunks(face_size).enumerate().take(6) {
            let block = texture.images[image];
            assert_eq!(block.level, level);
            assert_eq!(block.face, face_idx as u32);
            assert_eq!(&data[block.offset..block.offset + block.size], face);
            image += 1;
        }
        prev_end += face_size * 6;
    }
    assert_eq!(image, texture.images.len());
}

#[test]
fn single_level_of_a_large_cube() {
    let data = vec![0u8; 6 * 1024 * 1024 * 8];
    let texture = write_cubemap_to_ktx2(&data, TextureFormat::Rgba16Float, 1024, 1).unwrap();
    assert_eq!(texture.create_info.num_levels, 1);
    assert_eq!(texture.images.len(), 6);
    assert_eq!(texture.images[5], FaceImage { level: 0, face: 5, offset: 5 * 8388608, size: 8388608 });
}

#[test]
fn bytes_beyond_the_cubemap_are_left_alone() {
    let data = vec![0u8; 6 * 8 + 100];
    let texture = write_cubemap_to_ktx2(&data, TextureFormat::Rgba16Float, 1, 1).unwrap();
    assert_eq!(texture.images.len(), 6);
    assert_eq!(texture.images[5], FaceImage { level: 0, face: 5, offset: 40, size: 8 });
}

#[test]
fn short_stream_is_refused() {
    let data = vec![0u8; 6 * 4 * 4 * 8 + 6 * 2 * 2 * 8 + 6 * 8 - 1];
    let refused = write_cubemap_to_ktx2(&data, TextureFormat::Rgba16Float, 4, 3);
    assert_eq!(refused.err(), Some(BakeError::InvalidSize));
    let refused = write_cubemap_to_ktx2(&[], TextureFormat::Rgba16Float, 4, 1);
    assert_eq!(refused.err(), Some(BakeError::InvalidSize));
}

#[test]
fn levels_without_texels_are_refused() {
    let data = vec![0u8; 4096];
    assert_eq!(
        write_cubemap_to_ktx2(&data, TextureFormat::Rgba16Float, 4, 4).err(),
        Some(BakeError::InvalidSize)
    );
    assert_eq!(
        write_cubemap_to_ktx2(&data, TextureFormat::Rgba16Float, 4, 0).err(),
        Some(BakeError::InvalidSize)
    );
    assert_eq!(
        write_cubemap_to_ktx2(&data, TextureFormat::Rgba16Float, 0, 1).err(),
        Some(BakeError::InvalidSize)
    );
    assert_eq!(
        write_cubemap_to_ktx2(&data, TextureFormat::Rgba16Float, 4, 40).err(),
        Some(BakeError::InvalidSize)
    );
}

#[test]
fn huge_cubemap_does_not_overflow() {
    let data = vec![0u8; 16];
    assert_eq!(
        write_cubemap_to_ktx2(&data, TextureFormat::Rgba32Float, u32::MAX, 32).err(),
        Some(BakeError::InvalidSize)
    );
}
