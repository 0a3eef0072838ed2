use codeplug::channel_pointer::digi_chan_pointer::DigiChannelPointer;
use codeplug::channel_pointer::pointer::ChannelPointer;
use codeplug::channel_pointer::section::{ChannelPointerSection, ChannelPointerSectionHeader};
use codeplug::cp_data::{CPData, RawCPData};
use codeplug::error::{CodecError, Field};
use codeplug::roam::list::RoamList;
use codeplug::roam::Roam;
use codeplug::scan::modes::{CTCSSScanMode, ScanTxMode, ScanType};
use codeplug::scan::Scan;
use codeplug::scan_list::ScanList;
use codeplug::section::{Reader, SectionMappings};
use codeplug::zone::Zone;
use codeplug::zone_list::ZoneList;

fn name_field(name: &str) -> Vec<u8> {
    let mut b = Vec::new();
    for u in name.encode_utf16() {
        b.push((u & 0xff) as u8);
        b.push((u >> 8) as u8);
    }
    b.resize(32, 0);
    b
}

fn packed(unk1: u16, capacity: u16, region: &[u8], data_sz: u32, table: &[(u16, u32)]) -> Vec<u8> {
    let mut b = Vec::new();
    b.extend_from_slice(&unk1.to_le_bytes());
    b.extend_from_slice(&capacity.to_le_bytes());
    b.extend_from_slice(&(table.len() as u16).to_le_bytes());
    b.extend_from_slice(&data_sz.to_le_bytes());
    b.extend_from_slice(&(data_sz + 14).to_le_bytes());
    let mut data = region.to_vec();
    data.resize(data_sz as usize, 0);
    b.extend_from_slice(&data);
    for (idx, offset) in table {
        b.extend_from_slice(&idx.to_le_bytes());
        b.extend_from_slice(&offset.to_le_bytes());
    }
    b
}

#[test]
fn zone_known_bytes() {
    let z = Zone::new(
        "Z1".to_string(),
        &vec![ChannelPointer::Digital(0), ChannelPointer::Analog(1), ChannelPointer::Selected],
    );
    assert_eq!(z.no_channels, 3);
    assert_eq!(z.pointer_data, [1, 0, 0, 0, 2, 0]);
    let mut out = Vec::new();
    z.store(&mut out).unwrap();
    let mut expected = name_field("Z1");
    expected.extend_from_slice(&[3, 0, 1, 0, 0, 0, 2, 0]);
    assert_eq!(out, expected);
    assert_eq!(Zone::load(&out).unwrap(), z);
    assert_eq!(Zone::load(&out[..39]), Err(CodecError::UnexpectedEof));
    assert_eq!(Zone::cp_section(), 0x24);
}

#[test]
fn zone_name_overflow() {
    let z = Zone { name: "x".repeat(17), no_channels: 0, pointer_data: [0; 6] };
    let mut out = Vec::new();
    assert_eq!(z.store(&mut out), Err(CodecError::NameTooLong));
    assert!(out.is_empty());
}

#[test]
fn scan_known_bytes() {
    let s = Scan::new("Home".to_string());
    assert_eq!(s.scan_type, ScanType::Normal);
    assert_eq!(s.ctcss_mode, CTCSSScanMode::Disabled);
    assert_eq!(s.tx_mode, ScanTxMode::Selected);
    assert_eq!(s.designated_tx_channel, ChannelPointer::Digital(0));
    let mut out = Vec::new();
    s.store(&mut out).unwrap();
    let mut expected = name_field("Home");
    expected.extend_from_slice(&[0, 0, 1, 0, 0, 0]);
    expected.extend_from_slice(&[0x00, 0x00, 0x05, 0x00, 0x00, 0x00, 0x05, 0x08, 0x06, 0x14, 0x06]);
    assert_eq!(out.len(), 49);
    assert_eq!(out, expected);
    assert_eq!(Scan::load(&out).unwrap(), s);
    assert_eq!(Scan::load(&out[..38]).unwrap(), s);
    assert_eq!(Scan::load(&out[..37]), Err(CodecError::UnexpectedEof));
    assert_eq!(Scan::cp_section(), 0x6d);
}

#[test]
fn scan_flags_word() {
    let s = Scan {
        name: "s".to_string(),
        scan_type: ScanType::DigitalChannel,
        ctcss_mode: CTCSSScanMode::PriorityAndNonPriorityChannel,
        tx_mode: ScanTxMode::Designated,
        designated_tx_channel: ChannelPointer::Analog(9),
    };
    let mut out = Vec::new();
    s.store(&mut out).unwrap();
    assert_eq!(&out[32..38], &[0x8e, 0, 10, 0, 1, 0]);
    assert_eq!(Scan::load(&out).unwrap(), s);
    for scan_type in [ScanType::Normal, ScanType::Vote, ScanType::DigitalChannel] {
        for ctcss_mode in [
            CTCSSScanMode::Disabled,
            CTCSSScanMode::NonPriorityChannel,
            CTCSSScanMode::PriorityChannel,
            CTCSSScanMode::PriorityAndNonPriorityChannel,
        ] {
            for tx_mode in [ScanTxMode::Selected, ScanTxMode::LastActive, ScanTxMode::Designated] {
                let s = Scan {
                    name: "s".to_string(),
                    scan_type,
                    ctcss_mode,
                    tx_mode,
                    designated_tx_channel: ChannelPointer::Selected,
                };
                let mut out = Vec::new();
                s.store(&mut out).unwrap();
                assert_eq!(Scan::load(&out).unwrap(), s);
            }
        }
    }
}

#[test]
fn scan_errors() {
    let mut out = Vec::new();
    Scan::new("s".to_string()).store(&mut out).unwrap();
    let mut b = out.clone();
    b[32] = 3;
    assert_eq!(Scan::load(&b), Err(CodecError::InvalidTag(Field::ScanType)));
    let mut b = out.clone();
    b[32] = 0xc0;
    assert_eq!(Scan::load(&b), Err(CodecError::InvalidTag(Field::ScanTxMode)));
    let mut b = out.clone();
    b[36] = 7;
    assert_eq!(Scan::load(&b), Err(CodecError::InvalidTag(Field::PointerTarget)));
    let mut b = out.clone();
    b[34] = 0;
    assert_eq!(Scan::load(&b), Err(CodecError::IndexOutOfRange(Field::PointerIndex)));
    let mut s = Scan::new("s".to_string());
    s.designated_tx_channel = ChannelPointer::Digital(0xffff);
    let mut out = vec![1u8];
    assert_eq!(s.store(&mut out), Err(CodecError::IndexOutOfRange(Field::PointerIndex)));
    assert_eq!(out, vec![1u8]);
    assert_eq!(ScanType::try_from(0xfffd), Ok(ScanType::Vote));
    assert_eq!(ScanTxMode::try_from(0x40), Ok(ScanTxMode::LastActive));
    assert_eq!(CTCSSScanMode::from(0x08), CTCSSScanMode::PriorityChannel);
}

#[test]
fn roam_known_bytes() {
    let r = Roam::new("M62 Corridor".to_string());
    assert_eq!(r.rssi_threshold, 108);
    assert_eq!(r.rssi_offset, 5);
    assert_eq!(r.interval_time, 15);
    assert!(r.active_site_roam && r.stay);
    assert!(!r.return_to_selected_ch && !r.follow_all_master_site_config);
    let mut out = Vec::new();
    r.store(&mut out).unwrap();
    let mut expected = name_field("M62 Corridor");
    expected.extend_from_slice(&[108, 0, 0, 0, 0x12, 5, 15, 0]);
    assert_eq!(out, expected);
    assert_eq!(Roam::load(&out).unwrap(), r);
    assert_eq!(Roam::cp_section(), 0x7a);
}

#[test]
fn roam_round_trip_over_all_flags() {
    for bits in 0..16u8 {
        let r = Roam {
            name: "r".to_string(),
            rssi_threshold: 1,
            rssi_offset: 2,
            interval_time: 3,
            active_site_roam: bits & 1 != 0,
            return_to_selected_ch: bits & 2 != 0,
            follow_all_master_site_config: bits & 4 != 0,
            stay: bits & 8 != 0,
        };
        let mut out = Vec::new();
        r.store(&mut out).unwrap();
        assert_eq!(out[36], bits << 1);
        assert_eq!(Roam::load(&out).unwrap(), r);
    }
}

#[test]
fn roam_errors() {
    let mut out = Vec::new();
    Roam::new("r".to_string()).store(&mut out).unwrap();
    for at in [33usize, 34, 35] {
        let mut b = out.clone();
        b[at] = 1;
        assert_eq!(Roam::load(&b), Err(CodecError::ReservedMismatch(Field::RoamPadding)));
    }
    let mut b = out.clone();
    b[39] = 1;
    assert_eq!(Roam::load(&b), Err(CodecError::ReservedMismatch(Field::RoamReserved)));
    assert_eq!(Roam::load(&out[..39]), Err(CodecError::UnexpectedEof));
}

#[test]
fn packed_list_from_channels() {
    let channels = vec![ChannelPointer::Digital(0), ChannelPointer::Analog(1)];
    let cps = ChannelPointerSection::from_channels(&channels, 0x800).unwrap();
    assert_eq!(
        cps.header,
        ChannelPointerSectionHeader {
            unk1: 0,
            capacity: 512,
            no_channels: 2,
            data_sz: 0x800,
            mappings_offset: 0x80e,
        }
    );
    assert_eq!(cps.data.len(), 0x800);
    assert_eq!(&cps.data[..8], &[1, 0, 0, 0, 2, 0, 1, 0]);
    assert!(cps.data[8..].iter().all(|b| *b == 0));
    assert_eq!(
        cps.mappings,
        vec![SectionMappings { idx: 0, offset: 0 }, SectionMappings { idx: 1, offset: 4 }]
    );
    let mut out = Vec::new();
    cps.store(&mut out);
    assert_eq!(out, packed(0, 512, &[1, 0, 0, 0, 2, 0, 1, 0], 0x800, &[(0, 0), (1, 4)]));
    assert_eq!(out.len(), 14 + 0x800 + 12);
    assert_eq!(ChannelPointerSectionHeader::sz(), 14);
}

#[test]
fn packed_list_capacity() {
    let full: Vec<DigiChannelPointer> = (0..32).map(DigiChannelPointer::Digital).collect();
    let cps = ChannelPointerSection::from_channels(&full, 0x40).unwrap();
    assert_eq!(cps.header.capacity, 32);
    assert_eq!(cps.header.no_channels, 32);
    assert_eq!(cps.mappings[31], SectionMappings { idx: 31, offset: 62 });
    assert_eq!(cps.deduce_channels::<DigiChannelPointer>().unwrap(), full);
    let over: Vec<DigiChannelPointer> = (0..33).map(DigiChannelPointer::Digital).collect();
    assert!(matches!(
        ChannelPointerSection::from_channels(&over, 0x40),
        Err(CodecError::TooManyChannels)
    ));
    let wide: Vec<ChannelPointer> = (0..17).map(ChannelPointer::Digital).collect();
    assert!(matches!(
        ChannelPointerSection::from_channels(&wide, 0x40),
        Err(CodecError::TooManyChannels)
    ));
    assert!(ChannelPointerSection::from_channels(&wide[..16].to_vec(), 0x40).is_ok());
    let bad = vec![ChannelPointer::Digital(0xffff)];
    assert!(matches!(
        ChannelPointerSection::from_channels(&bad, 0x40),
        Err(CodecError::IndexOutOfRange(Field::PointerIndex))
    ));
}

#[test]
fn packed_list_follows_its_table() {
    let region = [1u8, 0, 0, 0, 2, 0, 1, 0, 0xff, 0xff, 0, 0];
    let b = packed(7, 16, &region, 0x40, &[(0, 8), (1, 0), (2, 4), (3, 0)]);
    let mut reader = Reader::new(&b);
    let cps = ChannelPointerSection::load(&mut reader).unwrap();
    assert_eq!(reader.stream_position(), b.len());
    assert_eq!(cps.header.unk1, 7);
    assert_eq!(cps.header.capacity, 16);
    assert_eq!(
        cps.deduce_channels::<ChannelPointer>().unwrap(),
        vec![
            ChannelPointer::Selected,
            ChannelPointer::Digital(0),
            ChannelPointer::Analog(1),
            ChannelPointer::Digital(0),
        ]
    );
    assert_eq!(
        cps.deduce_channels::<DigiChannelPointer>().unwrap(),
        vec![
            DigiChannelPointer::Selected,
            DigiChannelPointer::Digital(0),
            DigiChannelPointer::Digital(1),
            DigiChannelPointer::Digital(0),
        ]
    );
}

#[test]
fn packed_list_errors() {
    let b = packed(0, 16, &[1, 0, 0, 0], 0x40, &[(0, 0)]);
    let mut reader = Reader::new(&b[..b.len() - 1]);
    assert!(matches!(ChannelPointerSection::load(&mut reader), Err(CodecError::UnexpectedEof)));
    assert_eq!(reader.stream_position(), 0);
    let mut reader = Reader::new(&b[..13]);
    assert!(matches!(ChannelPointerSection::load(&mut reader), Err(CodecError::UnexpectedEof)));
    let mut reader = Reader::new(&b[..40]);
    assert!(matches!(ChannelPointerSection::load(&mut reader), Err(CodecError::UnexpectedEof)));
    let beyond = packed(0, 16, &[1, 0, 0, 0], 0x40, &[(0, 62)]);
    let mut reader = Reader::new(&beyond);
    let cps = ChannelPointerSection::load(&mut reader).unwrap();
    assert!(matches!(
        cps.deduce_channels::<ChannelPointer>(),
        Err(CodecError::UnexpectedEof)
    ));
    let far = packed(0, 16, &[1, 0, 0, 0], 0x40, &[(0, 1000)]);
    let mut reader = Reader::new(&far);
    let cps = ChannelPointerSection::load(&mut reader).unwrap();
    assert!(matches!(
        cps.deduce_channels::<DigiChannelPointer>(),
        Err(CodecError::UnexpectedEof)
    ));
}

#[test]
fn zone_list_round_trip() {
    let z = ZoneList {
        channels: vec![
            ChannelPointer::Digital(3),
            ChannelPointer::Analog(0),
            ChannelPointer::Digital(0xfffd),
        ],
    };
    let mut out = Vec::new();
    z.store(&mut out).unwrap();
    assert_eq!(out.len(), 14 + 0x800 + 18);
    assert_eq!(ZoneList::load(&out).unwrap(), z);
    assert_eq!(ZoneList::cp_section(), 0x23);
    let mut longer = out.clone();
    longer.extend_from_slice(&[0xee; 10]);
    assert_eq!(ZoneList::load(&longer).unwrap(), z);
}

#[test]
fn zone_list_must_not_be_empty() {
    let z = ZoneList { channels: vec![] };
    let mut out = vec![4u8];
    assert_eq!(z.store(&mut out), Err(CodecError::EmptyChannelList));
    assert_eq!(out, vec![4u8]);
    let too_many = ZoneList { channels: vec![ChannelPointer::Selected; 513] };
    assert_eq!(too_many.store(&mut out), Err(CodecError::TooManyChannels));
    assert_eq!(out, vec![4u8]);
    let full = ZoneList { channels: vec![ChannelPointer::Selected; 512] };
    assert!(full.store(&mut out).is_ok());
}

#[test]
fn scan_list_round_trip() {
    let s = ScanList::new(&[ChannelPointer::Digital(0), ChannelPointer::Analog(5)]);
    assert_eq!(
        s.channels,
        vec![ChannelPointer::Selected, ChannelPointer::Digital(0), ChannelPointer::Analog(5)]
    );
    let mut out = Vec::new();
    s.store(&mut out).unwrap();
    assert_eq!(
        out,
        packed(
            0,
            32,
            &[0xff, 0xff, 0, 0, 1, 0, 0, 0, 6, 0, 1, 0],
            0x80,
            &[(0, 0), (1, 4), (2, 8)]
        )
    );
    assert_eq!(ScanList::load(&out).unwrap(), s);
    assert_eq!(ScanList::cp_section(), 0x4d);
    assert_eq!(ScanList::new(&[]).channels, vec![ChannelPointer::Selected]);
}

#[test]
fn scan_list_region_size_is_fixed() {
    let b = packed(0, 16, &[0xff, 0xff, 0, 0], 0x40, &[(0, 0)]);
    assert_eq!(ScanList::load(&b), Err(CodecError::ReservedMismatch(Field::PointerRegionSize)));
    let b = packed(0, 16, &[0xff, 0xff, 0, 0], 0x80, &[(0, 0)]);
    assert_eq!(ScanList::load(&b).unwrap().channels, vec![ChannelPointer::Selected]);
    let full = ScanList { channels: vec![ChannelPointer::Selected; 33] };
    let mut out = Vec::new();
    assert_eq!(full.store(&mut out), Err(CodecError::TooManyChannels));
}

#[test]
fn roam_list_round_trip() {
    let r = RoamList::new(&[DigiChannelPointer::Digital(2), DigiChannelPointer::Digital(12)]);
    assert_eq!(
        r.channels,
        vec![
            DigiChannelPointer::Selected,
            DigiChannelPointer::Digital(2),
            DigiChannelPointer::Digital(12),
        ]
    );
    let mut out = Vec::new();
    r.store(&mut out).unwrap();
    assert_eq!(
        out,
        packed(0, 32, &[0xff, 0xff, 3, 0, 13, 0], 0x40, &[(0, 0), (1, 2), (2, 4)])
    );
    assert_eq!(RoamList::load(&out).unwrap(), r);
    assert_eq!(RoamList::cp_section(), 0x79);
    let b = packed(0, 16, &[0xff, 0xff], 0x80, &[(0, 0)]);
    assert_eq!(RoamList::load(&b), Err(CodecError::ReservedMismatch(Field::PointerRegionSize)));
}
