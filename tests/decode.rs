use sarc::reader::{read_text_entry, smart_align_4};
use sarc::format::{byte_order_from_u16, check_magic_number, SARC_MAGIC, SFAT_MAGIC, SFNT_MAGIC};
use sarc::{
    is_yaz0, ByteOrder, ByteReader, SarcError, SARCHeader, SARC, SFAT, SFATHeader, SFATNode, SFNT,
    SFNTHeader,
};

fn be16(v: u16) -> [u8; 2] {
    v.to_be_bytes()
}

fn be32(v: u32) -> [u8; 4] {
    v.to_be_bytes()
}

fn pad4(out: &mut Vec<u8>) {
    while out.len() % 4 != 0 {
        out.push(0);
    }
}

/// Lays out an archive holding `files`, each a name and its contents.
fn build_archive(files: &[(&str, &[u8])]) -> Vec<u8> {
    let mut sfat = Vec::new();
    sfat.extend_from_slice(b"SFAT");
    sfat.extend_from_slice(&be16(0x0C));
    sfat.extend_from_slice(&be16(files.len() as u16));
    sfat.extend_from_slice(&be32(0x65));
    let mut data = Vec::new();
    for (i, (_, contents)) in files.iter().enumerate() {
        let start = data.len() as u32;
        data.extend_from_slice(contents);
        let end = data.len() as u32;
        pad4(&mut data);
        sfat.extend_from_slice(&be32(0x1000 + i as u32));
        sfat.extend_from_slice(&be32(0x0100_0000));
        sfat.extend_from_slice(&be32(start));
        sfat.extend_from_slice(&be32(end));
    }
    let mut out = Vec::new();
    out.extend_from_slice(b"SARC");
    out.extend_from_slice(&be16(0x14));
    out.extend_from_slice(&be16(0xFEFF));
    out.extend_from_slice(&be32(0));
    out.extend_from_slice(&be32(0));
    out.extend_from_slice(&be16(0x0100));
    out.extend_from_slice(&[0, 0]);
    out.extend_from_slice(&sfat);
    out.extend_from_slice(b"SFNT");
    out.extend_from_slice(&be16(0x08));
    out.extend_from_slice(&[0, 0]);
    for (name, _) in files {
        pad4(&mut out);
        out.extend_from_slice(name.as_bytes());
        out.push(0);
    }
    pad4(&mut out);
    let data_offset = out.len() as u32;
    out.extend_from_slice(&data);
    let size = out.len() as u32;
    out[8..12].copy_from_slice(&be32(size));
    out[12..16].copy_from_slice(&be32(data_offset));
    out
}

fn header_bytes(magic: &[u8], bom: u16) -> Vec<u8> {
    let mut out = Vec::new();
    out.extend_from_slice(magic);
    out.extend_from_slice(&be16(0x14));
    out.extend_from_slice(&be16(bom));
    out.extend_from_slice(&be32(0x1234));
    out.extend_from_slice(&be32(0x40));
    out.extend_from_slice(&be16(0x0100));
    out.extend_from_slice(&[0, 0]);
    out
}

#[test]
fn round_trip_names_and_bytes() {
    let files: [(&str, &[u8]); 3] =
        [("a.txt", b"hello"), ("dir/bin.dat", &[1, 2, 3, 4, 5, 6, 7, 8, 9]), ("e", b"")];
    let bytes = build_archive(&files);
    let mut reader = ByteReader::new(bytes.clone());
    let sarc = SARC::import(&mut reader).unwrap();
    assert_eq!(sarc.file_table.header.node_count, 3);
    assert_eq!(sarc.file_table.nodes.len(), 3);
    assert_eq!(sarc.name_table.file_names.len(), 3);
    let out = sarc.get_files(&reader).unwrap();
    assert_eq!(out.len(), 3);
    let base = sarc.header.data_offset as usize;
    for (i, (name, contents)) in files.iter().enumerate() {
        assert_eq!(out[i].name, *name);
        assert_eq!(out[i].data.len(), contents.len());
        assert_eq!(out[i].data, *contents);
        let node = &sarc.file_table.nodes[i];
        let s = base + node.data_start_offset as usize;
        let e = base + node.data_end_offset as usize;
        assert_eq!(out[i].data, bytes[s..e].to_vec());
    }
}

#[test]
fn header_fields_decode_big_endian() {
    let mut reader = ByteReader::new(header_bytes(b"SARC", 0xFEFF));
    let h = SARCHeader::import(&mut reader).unwrap();
    assert_eq!(h.header_length, 0x14);
    assert_eq!(h.bom, ByteOrder::Big);
    assert_eq!(h.file_size, 0x1234);
    assert_eq!(h.data_offset, 0x40);
    assert_eq!(h.version, 0x0100);
    assert_eq!(reader.position(), 20);
}

#[test]
fn little_marker_still_reads_big_endian() {
    let mut reader = ByteReader::new(header_bytes(b"SARC", 0xFFFE));
    let h = SARCHeader::import(&mut reader).unwrap();
    assert_eq!(h.bom, ByteOrder::Little);
    assert_eq!(h.file_size, 0x1234);
}

#[test]
fn byte_order_markers() {
    assert_eq!(byte_order_from_u16(0xFEFF), Some(ByteOrder::Big));
    assert_eq!(byte_order_from_u16(0xFFFE), Some(ByteOrder::Little));
    assert_eq!(byte_order_from_u16(0x0000), None);
    let mut reader = ByteReader::new(header_bytes(b"SARC", 0x0000));
    assert_eq!(
        SARCHeader::import(&mut reader),
        Err(SarcError::UnrecognizedEnumValue { value: 0 })
    );
}

#[test]
fn header_rejects_other_magic() {
    let mut reader = ByteReader::new(header_bytes(b"SFAT", 0xFEFF));
    assert_eq!(
        SARCHeader::import(&mut reader),
        Err(SarcError::MagicMismatch { expected: SARC_MAGIC, found: SFAT_MAGIC })
    );
    let mut reader = ByteReader::new(header_bytes(b"SARD", 0xFEFF));
    assert_eq!(
        SARCHeader::import(&mut reader),
        Err(SarcError::MagicMismatch { expected: SARC_MAGIC, found: 0x5341_5244 })
    );
}

#[test]
fn file_table_rejects_other_magic() {
    let mut bytes = Vec::new();
    bytes.extend_from_slice(b"SARC");
    bytes.extend_from_slice(&be16(0x0C));
    bytes.extend_from_slice(&be16(0));
    bytes.extend_from_slice(&be32(0x65));
    let mut reader = ByteReader::new(bytes);
    assert_eq!(
        SFATHeader::import(&mut reader),
        Err(SarcError::MagicMismatch { expected: SFAT_MAGIC, found: SARC_MAGIC })
    );
}

#[test]
fn name_table_rejects_other_magic() {
    let mut bytes = Vec::new();
    bytes.extend_from_slice(b"SFAT");
    bytes.extend_from_slice(&be16(0x08));
    let mut reader = ByteReader::new(bytes);
    assert!(matches!(
        SFNT::import(&mut reader, 0),
        Err(SarcError::MagicMismatch { expected: SFNT_MAGIC, found: SFAT_MAGIC })
    ));
}

#[test]
fn magic_check_values() {
    assert_eq!(check_magic_number(SARC_MAGIC, SARC_MAGIC), Ok(()));
    assert_eq!(
        check_magic_number(SFNT_MAGIC, SARC_MAGIC),
        Err(SarcError::MagicMismatch { expected: SARC_MAGIC, found: SFNT_MAGIC })
    );
}

#[test]
fn truncated_header() {
    let mut reader = ByteReader::new(b"SAR".to_vec());
    assert_eq!(SARCHeader::import(&mut reader), Err(SarcError::TruncatedInput));
    let mut short = header_bytes(b"SARC", 0xFEFF);
    short.truncate(17);
    let mut reader = ByteReader::new(short);
    assert_eq!(SARCHeader::import(&mut reader), Err(SarcError::TruncatedInput));
}

#[test]
fn header_without_reserved_bytes_still_decodes() {
    let mut short = header_bytes(b"SARC", 0xFEFF);
    short.truncate(18);
    let mut reader = ByteReader::new(short);
    assert!(SARCHeader::import(&mut reader).is_ok());
    assert_eq!(reader.position(), 20);
}

#[test]
fn file_node_fields() {
    let mut bytes = Vec::new();
    for v in [0xDEAD_BEEFu32, 7, 0x10, 0x24] {
        bytes.extend_from_slice(&be32(v));
    }
    let mut reader = ByteReader::new(bytes);
    let n = SFATNode::import(&mut reader).unwrap();
    assert_eq!(n.file_name_hash, 0xDEAD_BEEF);
    assert_eq!(n.file_attributes, 7);
    assert_eq!(n.data_start_offset, 0x10);
    assert_eq!(n.data_end_offset, 0x24);
    assert_eq!(reader.position(), 16);
}

#[test]
fn file_table_truncated_nodes() {
    let mut bytes = Vec::new();
    bytes.extend_from_slice(b"SFAT");
    bytes.extend_from_slice(&be16(0x0C));
    bytes.extend_from_slice(&be16(2));
    bytes.extend_from_slice(&be32(0x65));
    bytes.extend_from_slice(&[0u8; 31]);
    let mut reader = ByteReader::new(bytes);
    assert!(matches!(SFAT::import(&mut reader), Err(SarcError::TruncatedInput)));
}

#[test]
fn alignment_skips_to_next_multiple_of_four() {
    let bytes = vec![b'x', b'a', b'b', b'c', 0, 0xFF, 0xFF, 0xFF, b'd', b'e', 0];
    let mut reader = ByteReader::new(bytes);
    reader.skip(1);
    assert_eq!(read_text_entry(&mut reader), Ok("abc".to_string()));
    assert_eq!(reader.position(), 5);
    smart_align_4(&mut reader);
    assert_eq!(reader.position(), 8);
    smart_align_4(&mut reader);
    assert_eq!(reader.position(), 8);
    assert_eq!(read_text_entry(&mut reader), Ok("de".to_string()));
}

#[test]
fn alignment_passes_end_of_data() {
    let mut reader = ByteReader::new(vec![b'x', b'a', b'b', b'c', 0, 7]);
    reader.skip(1);
    assert_eq!(read_text_entry(&mut reader), Ok("abc".to_string()));
    assert_eq!(reader.position(), 5);
    smart_align_4(&mut reader);
    assert_eq!(reader.position(), 8);
    assert_eq!(read_text_entry(&mut reader), Err(SarcError::TruncatedInput));
    assert_eq!(reader.read_u8(), Err(SarcError::TruncatedInput));
    assert_eq!(reader.position(), 8);
}

#[test]
fn name_table_aligns_every_name() {
    let mut bytes = Vec::new();
    bytes.extend_from_slice(b"SFNT");
    bytes.extend_from_slice(&be16(0x08));
    bytes.extend_from_slice(&[0xFF, 0xFF]);
    bytes.extend_from_slice(b"abc\0");
    bytes.extend_from_slice(b"x\0\xFF\xFF");
    bytes.extend_from_slice(b"yz\0");
    let mut reader = ByteReader::new(bytes);
    let t = SFNT::import(&mut reader, 3).unwrap();
    assert_eq!(t.header.header_length, 8);
    assert_eq!(t.file_names, vec!["abc".to_string(), "x".to_string(), "yz".to_string()]);
    assert_eq!(reader.position(), 19);
}

#[test]
fn name_without_terminator_is_truncated() {
    let mut reader = ByteReader::new(b"abc".to_vec());
    assert_eq!(read_text_entry(&mut reader), Err(SarcError::TruncatedInput));
}

#[test]
fn name_with_invalid_utf8() {
    let mut reader = ByteReader::new(vec![b'a', 0xC3, 0x28, 0]);
    assert_eq!(read_text_entry(&mut reader), Err(SarcError::InvalidEncoding));
}

#[test]
fn name_with_multibyte_utf8() {
    let mut reader = ByteReader::new(vec![0xC3, 0xA9, b't', 0xC3, 0xA9, 0]);
    let s = read_text_entry(&mut reader).unwrap();
    assert_eq!(s, "été");
    assert_eq!(s.chars().count(), 3);
    assert_eq!(reader.position(), 6);
}

#[test]
fn count_mismatch_fails_extraction() {
    let node = SFATNode {
        file_name_hash: 0,
        file_attributes: 0,
        data_start_offset: 0,
        data_end_offset: 1,
    };
    let sarc = SARC {
        header: SARCHeader {
            header_length: 0x14,
            bom: ByteOrder::Big,
            file_size: 4,
            data_offset: 0,
            version: 0x0100,
        },
        file_table: SFAT {
            header: SFATHeader { header_length: 0x0C, node_count: 3, hash_multiplier: 0x65 },
            nodes: vec![node, node, node],
        },
        name_table: SFNT {
            header: SFNTHeader { header_length: 8 },
            file_names: vec!["a".to_string(), "b".to_string()],
        },
    };
    let reader = ByteReader::new(vec![1, 2, 3, 4]);
    assert!(matches!(
        sarc.get_files(&reader),
        Err(SarcError::NodeNameCountMismatch { node_count: 3, name_count: 2 })
    ));
}

#[test]
fn three_nodes_two_names_fails_decode() {
    let mut bytes = build_archive(&[("a", b"1"), ("b", b"2")]);
    bytes[26] = 0;
    bytes[27] = 3;
    let mut reader = ByteReader::new(bytes);
    assert!(SARC::import(&mut reader).is_err());
}

#[test]
fn empty_archive() {
    let bytes = build_archive(&[]);
    let mut reader = ByteReader::new(bytes);
    let sarc = SARC::import(&mut reader).unwrap();
    assert_eq!(sarc.file_table.header.node_count, 0);
    assert!(sarc.name_table.file_names.is_empty());
    let out = sarc.get_files(&reader).unwrap();
    assert!(out.is_empty());
}

#[test]
fn range_past_end_is_truncated() {
    let mut bytes = build_archive(&[("a", b"abcd")]);
    bytes.truncate(bytes.len() - 1);
    let mut reader = ByteReader::new(bytes);
    let sarc = SARC::import(&mut reader).unwrap();
    assert!(matches!(sarc.get_files(&reader), Err(SarcError::TruncatedInput)));
}

#[test]
fn reversed_range_is_truncated() {
    let bytes = build_archive(&[("a", b"abcd")]);
    let mut reader = ByteReader::new(bytes);
    let mut sarc = SARC::import(&mut reader).unwrap();
    sarc.file_table.nodes[0].data_start_offset = 3;
    sarc.file_table.nodes[0].data_end_offset = 1;
    assert!(matches!(sarc.get_files(&reader), Err(SarcError::TruncatedInput)));
}

#[test]
fn yaz0_signature() {
    assert!(is_yaz0(b"Yaz0\0\0\0\x10"));
    assert!(!is_yaz0(b"SARC"));
    assert!(!is_yaz0(b"Yaz"));
    assert!(!is_yaz0(b""));
}

#[test]
fn big_endian_reads() {
    let mut reader = ByteReader::new(vec![0x12, 0x34, 0x56, 0x78, 0x9A, 0xBC, 0xDE]);
    assert_eq!(reader.read_be_u16(), Ok(0x1234));
    assert_eq!(reader.read_be_u32(), Ok(0x5678_9ABC));
    assert_eq!(reader.read_be_u16(), Err(SarcError::TruncatedInput));
    assert_eq!(reader.read_u8(), Ok(0xDE));
    assert_eq!(reader.read_u8(), Err(SarcError::TruncatedInput));
}
