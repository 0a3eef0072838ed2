use codeplug::error::{CodecError, CodeplugError, Field};
use codeplug::section::{write_at, Reader, Section, SectionHeader, SectionMappings};

fn header_bytes(section_type: u16, cap_field: u16, used: u16, unk2: u32, byte_size: u32) -> Vec<u8> {
    let mut b = Vec::new();
    b.extend_from_slice(&section_type.to_le_bytes());
    b.extend_from_slice(&cap_field.to_le_bytes());
    b.extend_from_slice(&used.to_le_bytes());
    b.extend_from_slice(&0x20u32.to_le_bytes());
    b.extend_from_slice(&unk2.to_le_bytes());
    b.extend_from_slice(&byte_size.to_le_bytes());
    b.extend_from_slice(&(byte_size + 0x16).to_le_bytes());
    b
}

fn section_bytes(section_type: u16, capacity: u16, used: u16, data: &[u8], table: &[(u16, u32)]) -> Vec<u8> {
    let mut b = header_bytes(section_type, capacity, used, 0, data.len() as u32);
    b.extend_from_slice(data);
    for (idx, offset) in table {
        b.extend_from_slice(&idx.to_le_bytes());
        b.extend_from_slice(&offset.to_le_bytes());
    }
    b
}

fn image_with(sections: &[Vec<u8>]) -> Vec<u8> {
    let mut image = vec![0u8; 0x392];
    for s in sections {
        image.extend_from_slice(s);
    }
    let end = image.len() as u32;
    image[0x38e..0x392].copy_from_slice(&end.to_le_bytes());
    image
}

#[test]
fn section_header_known_bytes() {
    let h = SectionHeader {
        section_type: 0x2a,
        capacity: 0x123,
        unk1: 0xa,
        elements_in_use: 5,
        unk2: 0xdead_beef,
        byte_size: 0x3690,
    };
    let mut out = Vec::new();
    h.write(&mut out).unwrap();
    assert_eq!(out.len(), 22);
    assert_eq!(
        out,
        vec![
            0x2a, 0x00, 0x23, 0xa1, 0x05, 0x00, 0x20, 0x00, 0x00, 0x00, 0xef, 0xbe, 0xad, 0xde,
            0x90, 0x36, 0x00, 0x00, 0xa6, 0x36, 0x00, 0x00,
        ]
    );
    assert_eq!(SectionHeader::from_bytes(&out), Ok(h));
    let mut reader = Reader::new(&out);
    assert_eq!(SectionHeader::load(&mut reader), Ok(h));
    assert_eq!(reader.stream_position(), 22);
}

#[test]
fn section_header_serde() {
    for capacity in [0u16, 1, 0x7ff, 0xfff] {
        for unk1 in [0u8, 1, 7, 15] {
            for byte_size in [0u32, 1, 0x1234_5678, 0xffff_ffe9] {
                let sh = SectionHeader {
                    section_type: 0xabcd,
                    capacity,
                    unk1,
                    elements_in_use: 0xffff,
                    unk2: 0x0102_0304,
                    byte_size,
                };
                let mut out = Vec::new();
                sh.write(&mut out).unwrap();
                assert_eq!(SectionHeader::from_bytes(&out), Ok(sh));
            }
        }
    }
}

#[test]
fn section_header_errors() {
    let good = header_bytes(1, 2, 0, 0, 0x10);
    let mut b = good.clone();
    b[6] = 0x21;
    assert_eq!(SectionHeader::from_bytes(&b), Err(CodecError::ReservedMismatch(Field::SectionMagic)));
    let mut b = good.clone();
    b[18] = 0x27;
    assert_eq!(
        SectionHeader::from_bytes(&b),
        Err(CodecError::ReservedMismatch(Field::SectionByteSize))
    );
    let mut b = good.clone();
    b[14..18].copy_from_slice(&0xffff_fff0u32.to_le_bytes());
    b[18..22].copy_from_slice(&6u32.to_le_bytes());
    assert_eq!(
        SectionHeader::from_bytes(&b),
        Err(CodecError::ReservedMismatch(Field::SectionByteSize))
    );
    assert_eq!(SectionHeader::from_bytes(&good[..21]), Err(CodecError::UnexpectedEof));
    let mut reader = Reader::new(&b);
    assert!(SectionHeader::load(&mut reader).is_err());
    assert_eq!(reader.stream_position(), 0);
    let huge = SectionHeader {
        section_type: 1,
        capacity: 1,
        unk1: 0,
        elements_in_use: 0,
        unk2: 0,
        byte_size: 0xffff_ffea,
    };
    let mut out = vec![5u8];
    assert_eq!(huge.write(&mut out), Err(CodecError::IndexOutOfRange(Field::SectionByteSize)));
    assert_eq!(out, vec![5u8]);
}

#[test]
fn section_mappings_serde() {
    for (idx, offset) in [(0u16, 0u32), (1, 48), (0xffff, 0xffff_ffff), (0x1234, 0x89ab_cdef)] {
        let sm = SectionMappings { idx, offset };
        let mut out = Vec::new();
        sm.write(&mut out);
        assert_eq!(out.len(), 6);
        let mut reader = Reader::new(&out);
        assert_eq!(SectionMappings::load(&mut reader), Ok(sm));
        assert_eq!(reader.stream_position(), 6);
    }
    let mut out = Vec::new();
    SectionMappings { idx: 0x0102, offset: 0x0304_0506 }.write(&mut out);
    assert_eq!(out, vec![2, 1, 6, 5, 4, 3]);
    let mut reader = Reader::new(&out[..5]);
    assert_eq!(SectionMappings::load(&mut reader), Err(CodecError::UnexpectedEof));
    assert_eq!(reader.stream_position(), 0);
}

#[test]
fn reader_reads_front_to_back() {
    let data = [1u8, 2, 3, 4, 5];
    let mut reader = Reader::new(&data);
    assert_eq!(reader.peek(2).unwrap(), &[1, 2]);
    assert_eq!(reader.read_exact(2).unwrap(), &[1, 2]);
    assert_eq!(reader.stream_position(), 2);
    assert_eq!(reader.read_exact(4), Err(CodecError::UnexpectedEof));
    assert_eq!(reader.stream_position(), 2);
    assert_eq!(reader.read_exact(3).unwrap(), &[3, 4, 5]);
    assert_eq!(reader.read_exact(0).unwrap(), &[] as &[u8]);
    assert_eq!(reader.read_exact(1), Err(CodecError::UnexpectedEof));
    reader.seek(100);
    assert_eq!(reader.read_exact(1), Err(CodecError::UnexpectedEof));
    assert_eq!(reader.read_exact(0).unwrap(), &[] as &[u8]);
    reader.seek(4);
    assert_eq!(reader.read_exact(1).unwrap(), &[5]);
}

#[test]
fn write_at_patches_in_place() {
    let mut image = vec![1u8, 2, 3, 4, 5];
    write_at(&mut image, 1, &[9, 8]);
    assert_eq!(image, vec![1, 9, 8, 4, 5]);
    write_at(&mut image, 4, &[7, 6]);
    assert_eq!(image, vec![1, 9, 8, 4, 7, 6]);
    write_at(&mut image, 8, &[5]);
    assert_eq!(image, vec![1, 9, 8, 4, 7, 6, 0, 0, 5]);
    write_at(&mut image, 0, &[]);
    assert_eq!(image, vec![1, 9, 8, 4, 7, 6, 0, 0, 5]);
}

#[test]
fn section_load_known_bytes() {
    let data: Vec<u8> = (0..12).collect();
    let mut bytes = vec![0xeeu8; 3];
    bytes.extend_from_slice(&section_bytes(0x99, 3, 2, &data, &[(2, 8), (0, 0), (1, 4)]));
    bytes.extend_from_slice(&[0xdd; 2]);
    let mut reader = Reader::new(&bytes);
    reader.seek(3);
    let s = Section::load(&mut reader).unwrap();
    assert_eq!(reader.stream_position(), 3 + 22 + 12 + 18);
    assert_eq!(s.addr, 3);
    assert_eq!(s.header.section_type, 0x99);
    assert_eq!(s.header.capacity, 3);
    assert_eq!(s.header.elements_in_use, 2);
    assert_eq!(s.header.byte_size, 12);
    assert_eq!(s.data, data);
    assert_eq!(
        s.mappings,
        vec![
            SectionMappings { idx: 2, offset: 8 },
            SectionMappings { idx: 0, offset: 0 },
            SectionMappings { idx: 1, offset: 4 },
        ]
    );
    assert!(s.has_stride());
    assert_eq!(s.get_element_sz(), 4);
    assert_eq!(s.get_mapping(2), SectionMappings { idx: 2, offset: 8 });
    assert_eq!(s.rev_map(0), Some(1));
    assert_eq!(s.rev_map(2), Some(0));
    assert_eq!(s.rev_map(3), None);
    assert_eq!(s.get_data_chunk(0).unwrap(), &[8, 9, 10, 11]);
    assert_eq!(s.get_data_chunk(1).unwrap(), &[0, 1, 2, 3]);
    assert_eq!(s.get_data_chunk(2).unwrap(), &[4, 5, 6, 7]);
    assert_eq!(
        s.get_data_chunk(3),
        Err(CodeplugError::MissingMapping { section: 0x99, position: 3 })
    );
    let copy = s.duplicate();
    assert_eq!(copy.data, s.data);
    assert_eq!(copy.mappings, s.mappings);
    assert_eq!(copy.header, s.header);
    assert_eq!(copy.addr, s.addr);
}

#[test]
fn section_load_truncated() {
    let bytes = section_bytes(1, 2, 0, &[0; 8], &[(0, 0), (1, 4)]);
    for cut in [0usize, 21, 22, 29, 30, 35, 41] {
        let mut reader = Reader::new(&bytes[..cut]);
        assert!(matches!(Section::load(&mut reader), Err(CodecError::UnexpectedEof)));
        assert_eq!(reader.stream_position(), 0);
    }
    let mut reader = Reader::new(&bytes);
    assert!(Section::load(&mut reader).is_ok());
}

#[test]
fn section_chunk_errors() {
    let uneven = Section {
        header: SectionHeader {
            section_type: 5,
            capacity: 3,
            unk1: 0,
            elements_in_use: 0,
            unk2: 0,
            byte_size: 10,
        },
        data: vec![0; 10],
        mappings: vec![SectionMappings { idx: 0, offset: 0 }],
        addr: 0,
    };
    assert!(!uneven.has_stride());
    assert_eq!(uneven.get_data_chunk(0), Err(CodeplugError::UnevenSection(5)));
    let empty = Section {
        header: SectionHeader {
            section_type: 6,
            capacity: 0,
            unk1: 0,
            elements_in_use: 0,
            unk2: 0,
            byte_size: 0,
        },
        data: vec![],
        mappings: vec![],
        addr: 0,
    };
    assert!(!empty.has_stride());
    assert_eq!(empty.get_data_chunk(0), Err(CodeplugError::UnevenSection(6)));
    let outside = Section {
        header: SectionHeader {
            section_type: 7,
            capacity: 2,
            unk1: 0,
            elements_in_use: 1,
            unk2: 0,
            byte_size: 8,
        },
        data: vec![1, 2, 3, 4, 5, 6],
        mappings: vec![SectionMappings { idx: 2, offset: 8 }, SectionMappings { idx: 1, offset: 4 }],
        addr: 0,
    };
    assert_eq!(
        outside.get_data_chunk(0),
        Err(CodeplugError::MissingChunk { section: 7, position: 0 })
    );
    assert_eq!(outside.get_data_chunk(1).unwrap(), &[5, 6]);
    let no_bytes = Section {
        header: SectionHeader {
            section_type: 8,
            capacity: 2,
            unk1: 0,
            elements_in_use: 1,
            unk2: 0,
            byte_size: 0,
        },
        data: vec![],
        mappings: vec![SectionMappings { idx: 0, offset: 0 }],
        addr: 0,
    };
    assert!(no_bytes.has_stride());
    assert_eq!(no_bytes.get_element_sz(), 0);
    assert_eq!(
        no_bytes.get_data_chunk(0),
        Err(CodeplugError::MissingChunk { section: 8, position: 0 })
    );
}

#[test]
fn directory_is_read_up_to_the_end_address() {
    let a = section_bytes(0x10, 2, 1, &[1, 2, 3, 4], &[(0, 0), (1, 2)]);
    let b = section_bytes(0x20, 1, 0, &[], &[(0, 0)]);
    let c = section_bytes(0x10, 1, 1, &[9, 9], &[(0, 0)]);
    let mut image = image_with(&[a.clone(), b.clone(), c.clone()]);
    image.extend_from_slice(&[0xff; 7]);
    let sections = Section::load_sections(&image).unwrap();
    assert_eq!(sections.len(), 2);
    assert_eq!(sections[&0x10].data, vec![9, 9]);
    assert_eq!(sections[&0x10].addr, (0x392 + a.len() + b.len()) as u64);
    assert_eq!(sections[&0x20].addr, (0x392 + a.len()) as u64);
    assert_eq!(sections[&0x20].header.capacity, 1);
    let end = (0x392 + a.len() + 1) as u32;
    image[0x38e..0x392].copy_from_slice(&end.to_le_bytes());
    let sections = Section::load_sections(&image).unwrap();
    assert_eq!(sections.len(), 2);
    assert_eq!(sections[&0x10].data, vec![1, 2, 3, 4]);
    let end = 0x392u32;
    image[0x38e..0x392].copy_from_slice(&end.to_le_bytes());
    assert!(Section::load_sections(&image).unwrap().is_empty());
    image[0x38e..0x392].copy_from_slice(&0u32.to_le_bytes());
    assert!(Section::load_sections(&image).unwrap().is_empty());
}

#[test]
fn directory_errors() {
    assert!(matches!(Section::load_sections(&[0u8; 0x391]), Err((0x38e, CodecError::UnexpectedEof))));
    assert!(Section::load_sections(&[0u8; 0x392]).unwrap().is_empty());
    let a = section_bytes(0x10, 2, 1, &[1, 2, 3, 4], &[(0, 0), (1, 2)]);
    let mut image = image_with(&[a.clone()]);
    let beyond = (image.len() + 1) as u32;
    image[0x38e..0x392].copy_from_slice(&beyond.to_le_bytes());
    let behind = 0x392 + a.len();
    assert_eq!(Section::load_sections(&image).err(), Some((behind, CodecError::UnexpectedEof)));
    let mut image = image_with(&[a.clone(), a]);
    image[behind + 6] = 0x21;
    assert_eq!(
        Section::load_sections(&image).err(),
        Some((behind, CodecError::ReservedMismatch(Field::SectionMagic)))
    );
}

#[test]
fn records_are_found_by_the_offset_of_their_mapping() {
    let data: Vec<u8> = (0..12).collect();
    let bytes = section_bytes(0x31, 3, 3, &data, &[(0, 8), (7, 0), (1, 6)]);
    let mut reader = Reader::new(&bytes);
    let s = Section::load(&mut reader).unwrap();
    assert_eq!(s.get_element_sz(), 4);
    assert_eq!(s.get_data_chunk(0).unwrap(), &[8, 9, 10, 11]);
    assert_eq!(s.get_data_chunk(1).unwrap(), &[0, 1, 2, 3]);
    assert_eq!(s.get_data_chunk(2).unwrap(), &[6, 7, 8, 9]);
    assert_eq!(s.rev_map(7), Some(1));
}
