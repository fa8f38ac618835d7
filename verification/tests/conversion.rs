use gfx2inc::convert;
use gfx2inc::ConversionError;
use gfx2inc::Pixel;
use gfx2inc::SourceImage;

fn px(r: u8, g: u8, b: u8, a: u8) -> Pixel {
    Pixel { r, g, b, a }
}

/// A width x height image whose pixel at (x, y) is produced by `f`.
fn grid(width: u32, height: u32, f: impl Fn(u32, u32) -> Pixel) -> SourceImage {
    let mut pixels = Vec::new();
    for y in 0..height {
        for x in 0..width {
            pixels.push(f(x, y));
        }
    }
    SourceImage::new(width, height, pixels).unwrap()
}

#[test]
fn packing_of_sample_channels() {
    assert_eq!(gfx2inc::packed_pixel(px(0x12, 0x34, 0x56, 0x78)), 0x78563412);
}

#[test]
fn token_for_sample_channels() {
    let img = grid(1, 1, |_, _| px(0x12, 0x34, 0x56, 0x78));
    let out = convert(&img, 1, 1).unwrap();
    assert_eq!(out, b"data.32 0x78563412 \n\n".to_vec());
}

#[test]
fn two_by_two_single_pixel_tiles() {
    let img = grid(2, 2, |x, y| match (x, y) {
        (0, 0) => px(1, 0, 0, 0),
        (1, 0) => px(0, 1, 0, 0),
        (0, 1) => px(0, 0, 1, 0),
        _ => px(0, 0, 0, 1),
    });
    let out = convert(&img, 1, 1).unwrap();
    let expected = [
        "data.32 0x00000001 \n\n",
        "data.32 0x00000100 \n\n",
        "data.32 0x00010000 \n\n",
        "data.32 0x01000000 \n\n",
    ]
    .concat();
    assert_eq!(out, expected.into_bytes());
}

#[test]
fn tiles_are_emitted_in_tile_grid_order() {
    // Pixel (x, y) packs to a word whose low byte is 0x10 * y + x, so every
    // token names its pixel's coordinates.
    let img = grid(4, 4, |x, y| px((0x10 * y + x) as u8, 0, 0, 0));
    let out = String::from_utf8(convert(&img, 2, 2).unwrap()).unwrap();
    let blocks: Vec<&str> = out.split("\n\n").filter(|b| !b.is_empty()).collect();
    assert_eq!(blocks.len(), 4);
    // The second block is the top-right tile: columns 2..4 of rows 0..2, not
    // the continuation of raster row 0.
    assert_eq!(blocks[1], "data.32 0x00000002 data.32 0x00000003 \ndata.32 0x00000012 data.32 0x00000013 ");
    // And the remaining blocks follow tile-grid row-major order.
    assert_eq!(blocks[0], "data.32 0x00000000 data.32 0x00000001 \ndata.32 0x00000010 data.32 0x00000011 ");
    assert_eq!(blocks[2], "data.32 0x00000020 data.32 0x00000021 \ndata.32 0x00000030 data.32 0x00000031 ");
    assert_eq!(blocks[3], "data.32 0x00000022 data.32 0x00000023 \ndata.32 0x00000032 data.32 0x00000033 ");
}

#[test]
fn non_divisible_dimensions_are_rejected() {
    let img = grid(4, 4, |_, _| px(0, 0, 0, 0));
    assert_eq!(convert(&img, 3, 2), Err(ConversionError::InvalidTileDimensions));
    assert_eq!(convert(&img, 2, 3), Err(ConversionError::InvalidTileDimensions));
    assert_eq!(convert(&img, 5, 5), Err(ConversionError::InvalidTileDimensions));
}

#[test]
fn zero_tile_dimensions_are_rejected() {
    let img = grid(4, 4, |_, _| px(0, 0, 0, 0));
    assert_eq!(convert(&img, 0, 2), Err(ConversionError::InvalidTileDimensions));
    assert_eq!(convert(&img, 2, 0), Err(ConversionError::InvalidTileDimensions));
    assert_eq!(convert(&img, 0, 0), Err(ConversionError::InvalidTileDimensions));
}

#[test]
fn block_and_line_counts_match_the_grid() {
    // 6x4 image in 3x2 tiles: 2 tiles wide, 2 tiles high.
    let img = grid(6, 4, |x, y| px(x as u8, y as u8, 0, 0));
    let out = String::from_utf8(convert(&img, 3, 2).unwrap()).unwrap();
    let blocks: Vec<&str> = out.split("\n\n").filter(|b| !b.is_empty()).collect();
    assert_eq!(blocks.len(), (6 / 3) * (4 / 2));
    for block in blocks {
        let lines: Vec<&str> = block.split('\n').collect();
        assert_eq!(lines.len(), 2);
        for line in lines {
            let tokens: Vec<&str> = line.split_whitespace().collect();
            assert_eq!(tokens.len(), 2 * 3);
            for pair in tokens.chunks(2) {
                assert_eq!(pair[0], "data.32");
                assert!(pair[1].starts_with("0x"));
                assert_eq!(pair[1].len(), 10);
            }
        }
    }
    // The whole output ends with the last tile's blank line.
    assert!(out.ends_with("\n\n"));
}

#[test]
fn conversion_is_deterministic() {
    let img = grid(4, 2, |x, y| px(x as u8, y as u8, 7, 9));
    let first = convert(&img, 2, 2).unwrap();
    let second = convert(&img, 2, 2).unwrap();
    assert_eq!(first, second);
}

#[test]
fn whole_image_as_one_tile_is_raster_order() {
    let img = grid(2, 2, |x, y| px((10 * y + x) as u8, 0, 0, 0));
    let out = convert(&img, 2, 2).unwrap();
    let expected = "data.32 0x00000000 data.32 0x00000001 \n\
                    data.32 0x0000000a data.32 0x0000000b \n\n";
    assert_eq!(out, expected.as_bytes().to_vec());
}

#[test]
fn image_store_length_must_match_dimensions() {
    assert!(SourceImage::new(2, 2, vec![px(0, 0, 0, 0); 3]).is_none());
    assert!(SourceImage::new(2, 2, vec![px(0, 0, 0, 0); 4]).is_some());
    assert!(SourceImage::new(0, 5, Vec::new()).is_some());
}

#[test]
fn zero_sized_image_converts_to_nothing() {
    let img = SourceImage::new(0, 0, Vec::new()).unwrap();
    assert_eq!(convert(&img, 1, 1).unwrap(), Vec::<u8>::new());
}
