use audio_converter::cover_art::{construct_flac_picture_block, parse_flac_picture_block};

#[test]
fn picture_block_has_the_documented_layout() {
    let block = construct_flac_picture_block(3, "image/png", "Front cover", &[1, 2, 3]);
    let mut expected: Vec<u8> = Vec::new();
    expected.extend_from_slice(&[0, 0, 0, 3]);
    expected.extend_from_slice(&[0, 0, 0, 9]);
    expected.extend_from_slice(b"image/png");
    expected.extend_from_slice(&[0, 0, 0, 11]);
    expected.extend_from_slice(b"Front cover");
    expected.extend_from_slice(&[0; 16]);
    expected.extend_from_slice(&[0, 0, 0, 3]);
    expected.extend_from_slice(&[1, 2, 3]);
    assert_eq!(block, expected);
}

#[test]
fn picture_block_writes_numbers_most_significant_byte_first() {
    let block = construct_flac_picture_block(0x0102_0304, "", "", &[]);
    assert_eq!(&block[0..4], &[1, 2, 3, 4]);
    assert_eq!(block.len(), 32);
}

#[test]
fn picture_block_round_trip() {
    let data: Vec<u8> = (0..=255u8).collect();
    let block = construct_flac_picture_block(3, "image/jpeg", "Front cover \u{e9}", &data);
    let picture = parse_flac_picture_block(&block).expect("a block that was just built");
    assert_eq!(picture.picture_type, 3);
    assert_eq!(picture.mime, "image/jpeg");
    assert_eq!(picture.description, "Front cover \u{e9}");
    assert_eq!(picture.width, 0);
    assert_eq!(picture.height, 0);
    assert_eq!(picture.depth, 0);
    assert_eq!(picture.colors, 0);
    assert_eq!(picture.data, data);
}

#[test]
fn a_block_with_bytes_missing_or_left_over_is_no_block() {
    let block = construct_flac_picture_block(3, "image/png", "Front cover", &[9, 8, 7]);
    assert!(parse_flac_picture_block(&block).is_some());
    for cut in 0..block.len() {
        assert_eq!(parse_flac_picture_block(&block[..cut]), None);
    }
    let mut longer = block.clone();
    longer.push(0);
    assert_eq!(parse_flac_picture_block(&longer), None);
    assert_eq!(parse_flac_picture_block(&[]), None);
}

#[test]
fn a_block_whose_texts_are_no_utf8_is_no_block() {
    let mut block = construct_flac_picture_block(3, "ab", "cd", &[1]);
    assert!(parse_flac_picture_block(&block).is_some());
    block[8] = 0xff;
    assert_eq!(parse_flac_picture_block(&block), None);
    let mut block = construct_flac_picture_block(3, "ab", "cd", &[1]);
    block[15] = 0xc3;
    assert_eq!(parse_flac_picture_block(&block), None);
}

#[test]
fn a_block_with_lengths_beyond_its_end_is_no_block() {
    let mut block = construct_flac_picture_block(3, "ab", "cd", &[1]);
    block[4] = 0xff;
    assert_eq!(parse_flac_picture_block(&block), None);
    let mut block = construct_flac_picture_block(3, "ab", "cd", &[1]);
    block[10] = 0x7f;
    assert_eq!(parse_flac_picture_block(&block), None);
    let mut block = construct_flac_picture_block(3, "ab", "cd", &[1]);
    let at = block.len() - 2;
    block[at] = 2;
    assert_eq!(parse_flac_picture_block(&block), None);
}

#[test]
fn a_block_is_read_with_the_numbers_it_holds() {
    let mut bytes: Vec<u8> = Vec::new();
    bytes.extend_from_slice(&4u32.to_be_bytes());
    bytes.extend_from_slice(&0u32.to_be_bytes());
    bytes.extend_from_slice(&1u32.to_be_bytes());
    bytes.extend_from_slice(b"x");
    bytes.extend_from_slice(&640u32.to_be_bytes());
    bytes.extend_from_slice(&480u32.to_be_bytes());
    bytes.extend_from_slice(&24u32.to_be_bytes());
    bytes.extend_from_slice(&0xffff_ffffu32.to_be_bytes());
    bytes.extend_from_slice(&2u32.to_be_bytes());
    bytes.extend_from_slice(&[5, 6]);
    let picture = parse_flac_picture_block(&bytes).expect("a block");
    assert_eq!(picture.picture_type, 4);
    assert_eq!(picture.mime, "");
    assert_eq!(picture.description, "x");
    assert_eq!(picture.width, 640);
    assert_eq!(picture.height, 480);
    assert_eq!(picture.depth, 24);
    assert_eq!(picture.colors, 0xffff_ffff);
    assert_eq!(picture.data, vec![5, 6]);
}
