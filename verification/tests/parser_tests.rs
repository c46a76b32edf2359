use minipng::errors::ErrorKind;
use minipng::parser::{
    parse_blocks, validate_file_integrity, validate_magic_bytes, Block, BwData, Comment,
    DataBlock, Header, Palette, MAGIC_BYTES,
};
use minipng::cursor::ByteCursor;

fn chunk(tag: u8, payload: &[u8]) -> Vec<u8> {
    let mut bytes = vec![tag];
    bytes.extend((payload.len() as u32).to_be_bytes());
    bytes.extend(payload);
    bytes
}

fn header_payload(width: u32, height: u32, pixel_type: u8) -> Vec<u8> {
    let mut bytes = Vec::new();
    bytes.extend(width.to_be_bytes());
    bytes.extend(height.to_be_bytes());
    bytes.push(pixel_type);
    bytes
}

fn file(chunks: &[Vec<u8>]) -> Vec<u8> {
    let mut bytes = MAGIC_BYTES.to_vec();
    for c in chunks {
        bytes.extend(c);
    }
    bytes
}

fn kind_of<T>(r: Result<T, minipng::errors::MalformedFileError>) -> ErrorKind {
    match r {
        Ok(_) => panic!("expected a failure"),
        Err(e) => e.kind(),
    }
}

#[test]
fn test_magic_bytes() {
    let mut test_bytes = MAGIC_BYTES.to_vec();
    assert!(validate_magic_bytes(&test_bytes).is_ok());

    test_bytes.append(&mut vec![1, 2, 81]);
    assert!(validate_magic_bytes(&test_bytes).is_ok());

    test_bytes[0] = 15;
    assert!(!validate_magic_bytes(&test_bytes).is_ok());

    test_bytes[0] = 0x4d;
    test_bytes[7] = 0;
    assert!(!validate_magic_bytes(&test_bytes).is_ok());
}

#[test]
fn test_blocks_parsing() {
    let h_block = vec![b'H', 0, 0, 0, 9, 0, 0, 0, 42, 0, 0, 0, 42, 0];

    let com = "Ceci est un commentaire";
    let mut c_block = vec![b'C'];
    c_block.extend((com.len() as u32).to_be_bytes());
    c_block.extend(Vec::from(String::from(com).as_bytes()));

    let mut d_block = vec![b'D'];
    d_block.extend((42u32 * 42).to_be_bytes());
    d_block.extend([0; 42 * 42]);

    let mut data = MAGIC_BYTES.to_vec();
    data.extend(h_block);
    data.extend(c_block);
    data.extend(d_block);
    let blocks = parse_blocks(&data).unwrap();
    assert_eq!(blocks.0.unwrap().get_content(), (42, 42, 0));
    assert_eq!((blocks.1)[0].get_content(), &com.to_string());
    assert_eq!(blocks.1.len(), 1);
    assert_eq!(blocks.2.len(), 1);
    assert_eq!(blocks.2[0].get_content(), &vec![0u8; 42 * 42]);
    assert!(blocks.3.is_none());
}

#[test]
fn magic_is_the_ascii_name() {
    assert_eq!(MAGIC_BYTES.to_vec(), b"Mini-PNG".to_vec());
}

#[test]
fn magic_rejects_short_and_empty_buffers() {
    assert_eq!(kind_of(validate_magic_bytes(&vec![])), ErrorKind::BadMagic);
    assert_eq!(kind_of(validate_magic_bytes(&b"Mini-PN".to_vec())), ErrorKind::BadMagic);
}

#[test]
fn magic_rejects_each_changed_byte() {
    for i in 0..8 {
        let mut bytes = MAGIC_BYTES.to_vec();
        bytes.extend([7, 7, 7]);
        bytes[i] ^= 0x20;
        assert_eq!(kind_of(validate_magic_bytes(&bytes)), ErrorKind::BadMagic);
    }
}

#[test]
fn magic_ignores_bytes_behind_the_prefix() {
    let mut bytes = MAGIC_BYTES.to_vec();
    bytes.extend([0xff; 100]);
    assert!(validate_magic_bytes(&bytes).is_ok());
}

#[test]
fn cursor_reads_big_endian() {
    let bytes = [0x01u8, 0x02, 0x03, 0x04, 0xff, 0xff, 0xff, 0xff, 0x2a];
    let mut cursor = ByteCursor::new(&bytes);
    assert_eq!(cursor.remaining_len(), 9);
    assert_eq!(cursor.read_u32_be().unwrap(), 0x0102_0304);
    assert_eq!(cursor.read_u32_be().unwrap(), u32::MAX);
    assert_eq!(cursor.remaining_len(), 1);
    assert_eq!(kind_of(cursor.read_u32_be()), ErrorKind::TruncatedInput);
    assert_eq!(cursor.remaining_len(), 1);
    assert_eq!(cursor.read_u8().unwrap(), 0x2a);
    assert_eq!(kind_of(cursor.read_u8()), ErrorKind::TruncatedInput);
}

#[test]
fn cursor_read_n_is_bounds_checked() {
    let bytes = [1u8, 2, 3, 4, 5];
    let mut cursor = ByteCursor::new(&bytes);
    assert_eq!(cursor.read_n(2).unwrap(), &[1u8, 2][..]);
    assert_eq!(kind_of(cursor.read_n(4)), ErrorKind::TruncatedInput);
    assert_eq!(cursor.remaining_len(), 3);
    assert_eq!(cursor.read_n(3).unwrap(), &[3u8, 4, 5][..]);
    assert_eq!(cursor.read_n(0).unwrap(), &[0u8; 0][..]);
    assert_eq!(kind_of(cursor.read_n(1)), ErrorKind::TruncatedInput);
}

#[test]
fn header_decodes_from_nine_bytes() {
    let payload = header_payload(0x0102_0304, 7, 3);
    let mut cursor = ByteCursor::new(&payload);
    let header = Header::from_raw_data(&mut cursor, 9).unwrap();
    assert_eq!(header.get_content(), (0x0102_0304, 7, 3));
    assert_eq!(header.get_kind(), 'H');
    assert_eq!(header.get_length(), 9);
    assert_eq!(cursor.remaining_len(), 0);
}

#[test]
fn header_of_wrong_length_is_malformed() {
    let payload = header_payload(1, 1, 0);
    let mut cursor = ByteCursor::new(&payload);
    assert_eq!(kind_of(Header::from_raw_data(&mut cursor, 8)), ErrorKind::MalformedHeader);
    assert_eq!(kind_of(Header::from_raw_data(&mut cursor, 10)), ErrorKind::MalformedHeader);
    assert_eq!(cursor.remaining_len(), 9);
}

#[test]
fn header_cut_short_is_truncated() {
    let payload = header_payload(1, 1, 0);
    let mut cursor = ByteCursor::new(&payload[..8]);
    assert_eq!(kind_of(Header::from_raw_data(&mut cursor, 9)), ErrorKind::TruncatedInput);
    assert_eq!(cursor.remaining_len(), 8);
}

#[test]
fn comment_reads_one_character_per_byte() {
    let payload = [b'c', b'a', b'f', 0xe9, b'!'];
    let mut cursor = ByteCursor::new(&payload);
    let comment = Comment::from_raw_data(&mut cursor, 4).unwrap();
    assert_eq!(comment.get_content(), "caf\u{e9}");
    assert_eq!(comment.get_kind(), 'C');
    assert_eq!(comment.get_length(), 4);
    assert_eq!(cursor.remaining_len(), 1);
}

#[test]
fn data_block_keeps_bytes_unchanged() {
    let payload = [9u8, 8, 7, 6];
    let mut cursor = ByteCursor::new(&payload);
    let block = DataBlock::from_raw_data(&mut cursor, 3).unwrap();
    assert_eq!(block.get_content(), &vec![9u8, 8, 7]);
    assert_eq!(block.get_kind(), 'D');
    assert_eq!(block.get_length(), 3);
    assert_eq!(kind_of(DataBlock::from_raw_data(&mut cursor, 2)), ErrorKind::TruncatedInput);
}

#[test]
fn bits_unpack_most_significant_first() {
    let payload = [0b1011_0000u8];
    let mut cursor = ByteCursor::new(&payload);
    let bits = BwData::from_raw_data(&mut cursor, 1).unwrap();
    assert_eq!(
        bits.get_content(),
        &vec![true, false, true, true, false, false, false, false]
    );
    assert_eq!(bits.get_kind(), 'D');
    assert_eq!(bits.get_length(), 1);
}

#[test]
fn bits_unpack_in_byte_order() {
    let payload = [0x80u8, 0x01];
    let mut cursor = ByteCursor::new(&payload);
    let bits = BwData::from_raw_data(&mut cursor, 2).unwrap();
    let mut expected = vec![false; 16];
    expected[0] = true;
    expected[15] = true;
    assert_eq!(bits.get_content(), &expected);
}

#[test]
fn palette_takes_whole_triples() {
    let payload = [1u8, 2, 3, 4, 5, 6, 7, 8];
    let mut cursor = ByteCursor::new(&payload);
    let palette = Palette::from_raw_data(&mut cursor, 8).unwrap();
    assert_eq!(palette.len(), 2);
    assert_eq!(palette.get_index(0).unwrap(), (1, 2, 3));
    assert_eq!(palette.get_index(1).unwrap(), (4, 5, 6));
    assert_eq!(kind_of(palette.get_index(2)), ErrorKind::PaletteIndexOutOfRange);
    assert_eq!(cursor.remaining_len(), 0);
}

#[test]
fn parse_rejects_missing_magic() {
    let bytes = chunk(b'H', &header_payload(1, 1, 0));
    assert_eq!(kind_of(parse_blocks(&bytes)), ErrorKind::BadMagic);
    assert_eq!(kind_of(parse_blocks(&vec![])), ErrorKind::BadMagic);
}

#[test]
fn parse_of_bare_magic_finds_nothing() {
    let blocks = parse_blocks(&file(&[])).unwrap();
    assert!(blocks.0.is_none());
    assert!(blocks.1.is_empty());
    assert!(blocks.2.is_empty());
    assert!(blocks.3.is_none());
}

#[test]
fn parse_keeps_file_order() {
    let bytes = file(&[
        chunk(b'C', b"one"),
        chunk(b'D', &[1, 2]),
        chunk(b'H', &header_payload(3, 5, 1)),
        chunk(b'D', &[]),
        chunk(b'C', b""),
        chunk(b'D', &[3]),
        chunk(b'C', b"two"),
    ]);
    let (header, comments, data, palette) = parse_blocks(&bytes).unwrap();
    assert_eq!(header.unwrap().get_content(), (3, 5, 1));
    let texts: Vec<&str> = comments.iter().map(|c| c.get_content().as_str()).collect();
    assert_eq!(texts, vec!["one", "", "two"]);
    let payloads: Vec<&Vec<u8>> = data.iter().map(|d| d.get_content()).collect();
    assert_eq!(payloads, vec![&vec![1u8, 2], &vec![], &vec![3u8]]);
    assert!(palette.is_none());
}

#[test]
fn parse_steps_over_unknown_tags() {
    let bytes = file(&[
        chunk(b'X', &[b'H', 0, 0, 0, 9]),
        chunk(b'H', &header_payload(2, 2, 0)),
        chunk(b'P', &[1, 2, 3]),
        chunk(0, &[]),
        chunk(b'D', &[0xf0]),
    ]);
    let (header, comments, data, palette) = parse_blocks(&bytes).unwrap();
    assert_eq!(header.unwrap().get_content(), (2, 2, 0));
    assert!(comments.is_empty());
    assert_eq!(data.len(), 1);
    assert_eq!(data[0].get_content(), &vec![0xf0u8]);
    assert!(palette.is_none());
}

#[test]
fn parse_rejects_second_header() {
    let bytes = file(&[
        chunk(b'H', &header_payload(1, 1, 0)),
        chunk(b'C', b"between"),
        chunk(b'H', &header_payload(1, 1, 0)),
    ]);
    assert_eq!(kind_of(parse_blocks(&bytes)), ErrorKind::DuplicateHeader);
    let other = file(&[
        chunk(b'H', &header_payload(1, 1, 0)),
        chunk(b'H', &header_payload(2, 2, 1)),
        chunk(b'D', &[0]),
    ]);
    assert_eq!(kind_of(parse_blocks(&other)), ErrorKind::DuplicateHeader);
}

#[test]
fn parse_rejects_header_of_wrong_length() {
    let bytes = file(&[chunk(b'H', &[0; 8])]);
    assert_eq!(kind_of(parse_blocks(&bytes)), ErrorKind::MalformedHeader);
    let long = file(&[chunk(b'H', &[0; 10])]);
    assert_eq!(kind_of(parse_blocks(&long)), ErrorKind::MalformedHeader);
}

#[test]
fn parse_rejects_length_past_the_end() {
    for tag in [b'C', b'D', b'Z'] {
        let mut bytes = file(&[chunk(b'H', &header_payload(1, 1, 0))]);
        bytes.extend([tag, 0, 0, 0, 5, 1, 2, 3, 4]);
        assert_eq!(kind_of(parse_blocks(&bytes)), ErrorKind::TruncatedInput);
    }
    let mut bytes = file(&[]);
    bytes.extend([b'H', 0, 0, 0, 9, 0, 0, 0, 1, 0, 0, 0, 1]);
    assert_eq!(kind_of(parse_blocks(&bytes)), ErrorKind::TruncatedInput);
    let mut huge = file(&[]);
    huge.extend([b'D', 0xff, 0xff, 0xff, 0xff, 0]);
    assert_eq!(kind_of(parse_blocks(&huge)), ErrorKind::TruncatedInput);
}

#[test]
fn parse_rejects_cut_length_field() {
    for cut in 1..5 {
        let mut bytes = file(&[chunk(b'D', &[1])]);
        bytes.extend(&[b'C', 0, 0, 0, 0][..cut]);
        assert_eq!(kind_of(parse_blocks(&bytes)), ErrorKind::TruncatedInput);
    }
}

#[test]
fn parse_reports_the_first_failure() {
    let mut bytes = file(&[chunk(b'H', &[0; 3])]);
    bytes.extend([b'D', 0, 0, 0, 9]);
    assert_eq!(kind_of(parse_blocks(&bytes)), ErrorKind::MalformedHeader);
    let mut wrong_length_and_short = file(&[]);
    wrong_length_and_short.extend([b'H', 0, 0, 0, 200, 1, 2]);
    assert_eq!(kind_of(parse_blocks(&wrong_length_and_short)), ErrorKind::MalformedHeader);
}

fn blocks_of(payloads: &[&[u8]]) -> Vec<DataBlock> {
    let chunks: Vec<Vec<u8>> = payloads.iter().map(|p| chunk(b'D', p)).collect();
    parse_blocks(&file(&chunks)).unwrap().2
}

fn palette_of(payload: &[u8]) -> Palette {
    let mut cursor = ByteCursor::new(payload);
    Palette::from_raw_data(&mut cursor, payload.len() as u32).unwrap()
}

#[test]
fn validate_needs_a_header() {
    let data = blocks_of(&[&[0; 16]]);
    assert_eq!(kind_of(validate_file_integrity(&None, &data, &None)), ErrorKind::MissingHeader);
}

#[test]
fn validate_rejects_unknown_pixel_type() {
    let data = blocks_of(&[&[0; 16]]);
    for pixel_type in [4u8, 5, 255] {
        let header = Some(Header { width: 1, height: 1, pixel_type });
        assert_eq!(
            kind_of(validate_file_integrity(&header, &data, &None)),
            ErrorKind::InvalidPixelType
        );
    }
}

#[test]
fn validate_needs_a_palette_for_indexed_images() {
    let header = Some(Header { width: 100, height: 100, pixel_type: 2 });
    let data = blocks_of(&[&[0]]);
    assert_eq!(kind_of(validate_file_integrity(&header, &data, &None)), ErrorKind::MissingPalette);
    let palette = Some(palette_of(&[1, 2, 3]));
    assert_eq!(
        kind_of(validate_file_integrity(&header, &data, &palette)),
        ErrorKind::InsufficientData
    );
    let small = Some(Header { width: 1, height: 1, pixel_type: 2 });
    assert!(validate_file_integrity(&small, &data, &palette).is_ok());
}

#[test]
fn validate_counts_bits_for_black_and_white() {
    let header = Some(Header { width: 3, height: 3, pixel_type: 0 });
    assert_eq!(
        kind_of(validate_file_integrity(&header, &blocks_of(&[&[0]]), &None)),
        ErrorKind::InsufficientData
    );
    assert!(validate_file_integrity(&header, &blocks_of(&[&[0, 0]]), &None).is_ok());
    assert!(validate_file_integrity(&header, &blocks_of(&[&[0], &[0]]), &None).is_ok());
    let exact = Some(Header { width: 4, height: 4, pixel_type: 0 });
    assert!(validate_file_integrity(&exact, &blocks_of(&[&[0, 0]]), &None).is_ok());
    let over = Some(Header { width: 17, height: 1, pixel_type: 0 });
    assert_eq!(
        kind_of(validate_file_integrity(&over, &blocks_of(&[&[0, 0]]), &None)),
        ErrorKind::InsufficientData
    );
}

#[test]
fn validate_counts_bytes_for_greyscale_and_colour() {
    let grey = Some(Header { width: 2, height: 3, pixel_type: 1 });
    assert_eq!(
        kind_of(validate_file_integrity(&grey, &blocks_of(&[&[0; 5]]), &None)),
        ErrorKind::InsufficientData
    );
    assert!(validate_file_integrity(&grey, &blocks_of(&[&[0; 6]]), &None).is_ok());
    let colour = Some(Header { width: 2, height: 3, pixel_type: 3 });
    assert_eq!(
        kind_of(validate_file_integrity(&colour, &blocks_of(&[&[0; 17]]), &None)),
        ErrorKind::InsufficientData
    );
    assert!(validate_file_integrity(&colour, &blocks_of(&[&[0; 9], &[0; 9]]), &None).is_ok());
}

#[test]
fn validate_accepts_empty_images() {
    for pixel_type in [0u8, 1, 3] {
        let header = Some(Header { width: 0, height: 9, pixel_type });
        assert!(validate_file_integrity(&header, &Vec::new(), &None).is_ok());
    }
}

#[test]
fn validate_handles_the_largest_size() {
    let header = Some(Header { width: u32::MAX, height: u32::MAX, pixel_type: 3 });
    assert_eq!(
        kind_of(validate_file_integrity(&header, &blocks_of(&[&[0; 64]]), &None)),
        ErrorKind::InsufficientData
    );
}
