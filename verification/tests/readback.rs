use ibl_bake::error::BakeError;
use ibl_bake::ktx::write_cubemap_to_ktx2;
use ibl_bake::readback::{append_unpadded, LevelCopy, Readback};
use ibl_bake::texture::{Extent, TextureFormat, TextureResource, TextureUsages};

const PADDING: u8 = 0xEE;

fn cube(side: u32, levels: u32, format: TextureFormat) -> TextureResource {
    TextureResource::new_cube(
        side,
        levels,
        format,
        TextureUsages { storage_binding: true, texture_binding: false, copy_src: true, copy_dst: false },
    )
}

fn texel_byte(level: u32, face: u32, row: u32, column: u32) -> u8 {
    let byte = (level * 31 + face * 17 + row * 7 + column) % 200;
    byte as u8
}

// What the device leaves in the staging buffer for one copy: the rows of the
// six faces at the pitch of the copy, padding behind each row.
fn staged(copy: &LevelCopy, bytes_per_pixel: u32) -> Vec<u8> {
    let mut mapped = Vec::new();
    for face in 0..6 {
        for row in 0..copy.rows_per_image {
            for column in 0..copy.level_side * bytes_per_pixel {
                mapped.push(texel_byte(copy.level, face, row, column));
            }
            for _ in copy.level_side * bytes_per_pixel..copy.bytes_per_row {
                mapped.push(PADDING);
            }
        }
    }
    mapped
}

fn expected_stream(side: u32, levels: u32, bytes_per_pixel: u32) -> Vec<u8> {
    let mut stream = Vec::new();
    for level in 0..levels {
        let level_side = side >> level;
        for face in 0..6 {
            for row in 0..level_side {
                for column in 0..level_side * bytes_per_pixel {
                    stream.push(texel_byte(level, face, row, column));
                }
            }
        }
    }
    stream
}

fn read_back(texture: &TextureResource) -> Option<Vec<u8>> {
    let bytes_per_pixel = texture.format.bytes_per_pixel();
    let mut readback = Readback::new(texture)?;
    while let Some(copy) = readback.next_copy() {
        let mapped = staged(&copy, bytes_per_pixel);
        assert!(mapped.len() as u64 <= readback.staging_buffer_size());
        readback.accept_level(&mapped).ok()?;
    }
    readback.finish()
}

#[test]
fn rows_lose_their_padding() {
    let mut stream = vec![1u8, 2];
    let mapped = [10u8, 11, 12, PADDING, PADDING, 20, 21, 22, PADDING, PADDING];
    append_unpadded(&mut stream, &mapped, 5, 3, 2);
    assert_eq!(stream, vec![1, 2, 10, 11, 12, 20, 21, 22]);
}

#[test]
fn rows_without_padding_are_taken_whole() {
    let mut stream = Vec::new();
    let mapped = [1u8, 2, 3, 4, 5, 6];
    append_unpadded(&mut stream, &mapped, 2, 2, 3);
    assert_eq!(stream, vec![1, 2, 3, 4, 5, 6]);
    append_unpadded(&mut stream, &mapped, 2, 2, 0);
    assert_eq!(stream.len(), 6);
}

#[test]
fn every_row_of_a_padded_level_has_its_natural_size() {
    let texture = cube(16, 1, TextureFormat::Rgba16Float);
    let mut readback = Readback::new(&texture).unwrap();
    let copy = readback.next_copy().unwrap();
    assert!(copy.through_aux);
    assert_eq!(copy.bytes_per_row, 256);
    let mapped = staged(&copy, 8);
    assert_eq!(mapped.len(), 256 * 16 * 6);
    readback.accept_level(&mapped).unwrap();
    let stream = readback.finish().unwrap();
    assert_eq!(stream.len(), 16 * 8 * 16 * 6);
    for (index, row) in stream.chunks(16 * 8).enumerate() {
        assert_eq!(row.len(), 16 * 8);
        assert_eq!(row, &mapped[index * 256..index * 256 + 16 * 8]);
    }
    assert!(!stream.contains(&PADDING));
}

#[test]
fn padded_rows_agree_with_chunking_the_staging_buffer() {
    let texture = cube(4, 1, TextureFormat::Rgba32Float);
    let mut readback = Readback::new(&texture).unwrap();
    let copy = readback.next_copy().unwrap();
    let mapped = staged(&copy, 16);
    let level_side = 4usize;
    let aux_width = 256 / 16;
    let mut expected = Vec::new();
    for row in mapped.chunks(aux_width * 16).take(level_side * 6) {
        expected.extend(&row[..level_side * 16]);
    }
    readback.accept_level(&mapped).unwrap();
    assert_eq!(readback.finish().unwrap(), expected);
}

#[test]
fn copies_of_a_chain() {
    let texture = cube(64, 7, TextureFormat::Rgba16Float);
    let mut readback = Readback::new(&texture).unwrap();
    assert_eq!(readback.staging_buffer_size(), 64 * 64 * 6 * 8);
    let mut copies = Vec::new();
    while let Some(copy) = readback.next_copy() {
        copies.push(copy);
        readback.accept_level(&staged(&copy, 8)).unwrap();
    }
    assert_eq!(copies.len(), 7);
    assert_eq!(
        copies[0],
        LevelCopy {
            level: 0,
            level_side: 64,
            through_aux: false,
            bytes_per_row: 512,
            rows_per_image: 64,
            extent: Extent { width: 64, height: 64, layers: 6 },
            mapped_bytes: 512 * 64 * 6,
        }
    );
    assert_eq!(
        copies[1],
        LevelCopy {
            level: 1,
            level_side: 32,
            through_aux: false,
            bytes_per_row: 256,
            rows_per_image: 32,
            extent: Extent { width: 32, height: 32, layers: 6 },
            mapped_bytes: 256 * 32 * 6,
        }
    );
    assert_eq!(
        copies[2],
        LevelCopy {
            level: 2,
            level_side: 16,
            through_aux: true,
            bytes_per_row: 256,
            rows_per_image: 16,
            extent: Extent { width: 32, height: 16, layers: 6 },
            mapped_bytes: 256 * 16 * 6,
        }
    );
    assert_eq!(
        copies[6],
        LevelCopy {
            level: 6,
            level_side: 1,
            through_aux: true,
            bytes_per_row: 256,
            rows_per_image: 1,
            extent: Extent { width: 32, height: 1, layers: 6 },
            mapped_bytes: 256 * 6,
        }
    );
    let levels: Vec<u32> = copies.iter().map(|copy| copy.level).collect();
    assert_eq!(levels, vec![0, 1, 2, 3, 4, 5, 6]);
}

#[test]
fn stream_of_a_chain_is_level_major() {
    for (side, levels, format) in [
        (64, 7, TextureFormat::Rgba16Float),
        (32, 6, TextureFormat::Rgba32Float),
        (16, 5, TextureFormat::Rgba16Float),
        (8, 2, TextureFormat::Rgba32Float),
        (1, 1, TextureFormat::Rgba16Float),
        (12, 4, TextureFormat::Rgba16Float),
    ] {
        let texture = cube(side, levels, format);
        let stream = read_back(&texture).unwrap();
        assert_eq!(stream, expected_stream(side, levels, format.bytes_per_pixel()));
        assert!(write_cubemap_to_ktx2(&stream, format, side, levels).is_ok());
    }
}

#[test]
fn staging_buffer_holds_the_largest_level() {
    for (side, levels, format) in [
        (64, 7, TextureFormat::Rgba16Float),
        (16, 5, TextureFormat::Rgba16Float),
        (4, 3, TextureFormat::Rgba32Float),
        (1, 1, TextureFormat::Rgba32Float),
    ] {
        let readback = Readback::new(&cube(side, levels, format)).unwrap();
        let row = (side * format.bytes_per_pixel()).max(256) as u64;
        assert_eq!(readback.staging_buffer_size(), row * side as u64 * 6);
    }
    let readback = Readback::new(&cube(1024, 11, TextureFormat::Rgba16Float)).unwrap();
    assert_eq!(readback.staging_buffer_size(), 1024 * 1024 * 6 * 8);
}

#[test]
fn aux_texture_is_one_aligned_row_wide() {
    let readback = Readback::new(&cube(1024, 11, TextureFormat::Rgba16Float)).unwrap();
    assert_eq!(
        readback.aux_texture(),
        Some(TextureResource::new_cube(
            32,
            1,
            TextureFormat::Rgba16Float,
            TextureUsages { storage_binding: false, texture_binding: false, copy_src: true, copy_dst: true },
        ))
    );
    let readback = Readback::new(&cube(1024, 11, TextureFormat::Rgba32Float)).unwrap();
    assert_eq!(readback.aux_texture().map(|aux| aux.width), Some(16));
}

#[test]
fn aux_texture_only_where_a_level_is_padded() {
    assert!(Readback::new(&cube(1024, 1, TextureFormat::Rgba16Float)).unwrap().aux_texture().is_none());
    assert!(Readback::new(&cube(1024, 6, TextureFormat::Rgba16Float)).unwrap().aux_texture().is_none());
    assert!(Readback::new(&cube(1024, 7, TextureFormat::Rgba16Float)).unwrap().aux_texture().is_some());
    assert!(Readback::new(&cube(16, 1, TextureFormat::Rgba32Float)).unwrap().aux_texture().is_none());
    assert!(Readback::new(&cube(16, 1, TextureFormat::Rgba16Float)).unwrap().aux_texture().is_some());
}

#[test]
fn wrong_number_of_bytes_is_a_failed_readback() {
    let texture = cube(64, 2, TextureFormat::Rgba16Float);
    let mut readback = Readback::new(&texture).unwrap();
    let copy = readback.next_copy().unwrap();
    let mut mapped = staged(&copy, 8);
    mapped.pop();
    assert_eq!(readback.accept_level(&mapped), Err(BakeError::ReadbackFailed));
    assert_eq!(readback.accept_level(&[]), Err(BakeError::ReadbackFailed));
    assert_eq!(readback.next_copy(), Some(copy));
    mapped.push(0);
    assert_eq!(readback.accept_level(&mapped), Ok(()));
    assert_eq!(readback.next_copy().map(|copy| copy.level), Some(1));
}

#[test]
fn there_is_never_a_partial_stream() {
    let texture = cube(64, 3, TextureFormat::Rgba16Float);
    let readback = Readback::new(&texture).unwrap();
    assert!(readback.finish().is_none());
    let mut readback = Readback::new(&texture).unwrap();
    let copy = readback.next_copy().unwrap();
    readback.accept_level(&staged(&copy, 8)).unwrap();
    let copy = readback.next_copy().unwrap();
    readback.accept_level(&staged(&copy, 8)).unwrap();
    assert!(readback.finish().is_none());
}

#[test]
fn nothing_is_taken_after_the_last_level() {
    let texture = cube(64, 1, TextureFormat::Rgba16Float);
    let mut readback = Readback::new(&texture).unwrap();
    let copy = readback.next_copy().unwrap();
    let mapped = staged(&copy, 8);
    readback.accept_level(&mapped).unwrap();
    assert!(readback.next_copy().is_none());
    assert_eq!(readback.accept_level(&mapped), Err(BakeError::ReadbackFailed));
    assert_eq!(readback.finish().unwrap().len(), 64 * 64 * 6 * 8);
}

#[test]
fn only_cubes_with_texels_are_read_back() {
    assert!(Readback::new(&cube(0, 1, TextureFormat::Rgba16Float)).is_none());
    assert!(Readback::new(&cube(4, 0, TextureFormat::Rgba16Float)).is_none());
    assert!(Readback::new(&cube(4, 4, TextureFormat::Rgba16Float)).is_none());
    assert!(Readback::new(&cube(4, 3, TextureFormat::Rgba16Float)).is_some());
    let mut flat = cube(4, 1, TextureFormat::Rgba16Float);
    flat.faces = 1;
    assert!(Readback::new(&flat).is_none());
    let mut oblong = cube(4, 1, TextureFormat::Rgba16Float);
    oblong.height = 8;
    assert!(Readback::new(&oblong).is_none());
}

#[test]
fn rows_beyond_the_device_interface_are_refused() {
    assert!(Readback::new(&cube(u32::MAX, 1, TextureFormat::Rgba16Float)).is_none());
    assert!(Readback::new(&cube(1 << 29, 1, TextureFormat::Rgba16Float)).is_none());
    assert!(Readback::new(&cube(1 << 28, 1, TextureFormat::Rgba32Float)).is_none());
}
