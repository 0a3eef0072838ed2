use codeplug::aggregate::{Codeplug, DeviceType};
use codeplug::analog_channel::ctcss::{CTCSSType, Ctcss};
use codeplug::analog_channel::AnalogChannel;
use codeplug::channel_common::PowerLevel;
use codeplug::channel_pointer::digi_chan_pointer::DigiChannelPointer;
use codeplug::channel_pointer::pointer::ChannelPointer;
use codeplug::channel_pointer::raw_pointer::RawPointer;
use codeplug::contact::{CallType, Contact};
use codeplug::cp_data::{CPData, RawCPData};
use codeplug::digital_channel::modes::{SLRLPointer, Timeslot};
use codeplug::digital_channel::DigitalChannel;
use codeplug::error::{CodecError, CodeplugError, Field, ReferenceError};
use codeplug::roam::list::RoamList;
use codeplug::roam::Roam;
use codeplug::scan::Scan;
use codeplug::scan_list::ScanList;
use codeplug::section::Section;
use codeplug::zone::Zone;
use codeplug::zone_list::ZoneList;

const ZONE_LIST_SLOT: u32 = 14 + 0x800 + 6 * 16;
const SCAN_LIST_SLOT: u32 = 14 + 0x80 + 6 * 32;
const ROAM_LIST_SLOT: u32 = 14 + 0x40 + 6 * 32;

fn empty_section(section_type: u16, capacity: u16, slot: u32) -> Vec<u8> {
    let byte_size = capacity as u32 * slot;
    let mut b = Vec::new();
    b.extend_from_slice(&section_type.to_le_bytes());
    b.extend_from_slice(&capacity.to_le_bytes());
    b.extend_from_slice(&0u16.to_le_bytes());
    b.extend_from_slice(&0x20u32.to_le_bytes());
    b.extend_from_slice(&0u32.to_le_bytes());
    b.extend_from_slice(&byte_size.to_le_bytes());
    b.extend_from_slice(&(byte_size + 0x16).to_le_bytes());
    b.resize(22 + byte_size as usize, 0);
    for i in 0..capacity {
        b.extend_from_slice(&i.to_le_bytes());
        b.extend_from_slice(&(i as u32 * slot).to_le_bytes());
    }
    b
}

fn empty_image(model: &str) -> Vec<u8> {
    let mut image = vec![0u8; 0x392];
    image[0x3c..0x3c + model.len()].copy_from_slice(model.as_bytes());
    for (section_type, capacity, slot) in [
        (0x2au16, 8u16, 48u32),
        (0x26, 8, 74),
        (0x27, 8, 68),
        (0x24, 4, 40),
        (0x23, 4, ZONE_LIST_SLOT),
        (0x6d, 4, 49),
        (0x4d, 4, SCAN_LIST_SLOT),
        (0x7a, 4, 40),
        (0x79, 4, ROAM_LIST_SLOT),
    ] {
        image.extend_from_slice(&empty_section(section_type, capacity, slot));
    }
    let end = image.len() as u32;
    image[0x38e..0x392].copy_from_slice(&end.to_le_bytes());
    image
}

fn empty_codeplug() -> Codeplug {
    Codeplug::read_codeplug(&empty_image("portable radio DMR 400-470")).unwrap()
}

fn digital(name: &str) -> DigitalChannel {
    DigitalChannel::new(
        name.to_string(),
        430_000_000,
        439_000_000,
        false,
        PowerLevel::High,
        1,
        0,
        Timeslot::Slot1,
    )
}

fn analog(name: &str) -> AnalogChannel {
    let off = Ctcss { kind: CTCSSType::Off, freq: 0 };
    AnalogChannel::new(name.to_string(), 145_500_000, 145_500_000, false, PowerLevel::Low, off, off)
}

fn reference(section: u16, index: usize, reason: ReferenceError) -> CodeplugError {
    CodeplugError::Reference { section, index, reason }
}

#[test]
fn empty_codeplug_reads_and_verifies() {
    let cp = empty_codeplug();
    assert!(cp.contacts.data.is_empty());
    assert!(cp.digi_chans.data.is_empty());
    assert!(cp.ana_chans.data.is_empty());
    assert!(cp.zones.data.data.is_empty() && cp.zones.channels.data.is_empty());
    assert!(cp.scan_list.data.data.is_empty() && cp.scan_list.channels.data.is_empty());
    assert!(cp.roam_list.data.data.is_empty() && cp.roam_list.channels.data.is_empty());
    assert_eq!(cp.contacts.sec.header.capacity, 8);
    assert_eq!(cp.contacts.sec.header.section_type, 0x2a);
    assert_eq!(cp.contacts.sec.addr, 0x392);
    assert_eq!(cp.contacts.sec.get_element_sz(), 48);
    assert_eq!(cp.zones.channels.sec.get_element_sz(), ZONE_LIST_SLOT as usize);
    assert_eq!(cp.model, "portable radio DMR 400-470\0");
    assert_eq!(cp.verify(), Ok(()));
}

#[test]
fn minimal_round_trip() {
    let image = empty_image("portable");
    let mut cp = Codeplug::read_codeplug(&image).unwrap();
    let contact = Contact::new("TEST".to_string(), CallType::Group, 100);
    assert_eq!(cp.contacts.insert(contact.clone()), 0);
    let mut buffer = image.clone();
    assert_eq!(cp.write_codeplug(&mut buffer), Ok(0));
    assert_eq!(buffer.len(), image.len());
    assert_ne!(buffer, image);
    let reloaded = Codeplug::read_codeplug(&buffer).unwrap();
    assert_eq!(reloaded.contacts.data, vec![contact]);
    assert_eq!(reloaded.contacts.data[0].name, "TEST");
    assert_eq!(reloaded.contacts.data[0].id, 100);
    assert_eq!(reloaded.contacts.data[0].call_type, CallType::Group);
    assert_eq!(reloaded.contacts.sec.header.elements_in_use, 1);
    assert_eq!(reloaded.verify(), Ok(()));
    assert_eq!(&buffer[0x392 + 22 + 4..0x392 + 22 + 12], &[b'T', 0, b'E', 0, b'S', 0, b'T', 0]);
}

#[test]
fn full_round_trip() {
    let image = empty_image("mobile");
    let mut cp = Codeplug::read_codeplug(&image).unwrap();
    cp.contacts.insert(Contact::new("9 Local".to_string(), CallType::Group, 9));
    cp.contacts.insert(Contact::new("Bob".to_string(), CallType::Private, 2_340_001));
    let mut first = digital("LE 9 S1 Local");
    first.slrl_pointer = SLRLPointer::ScanList(0);
    first.auto_start_scan = true;
    cp.digi_chans.insert(first);
    let mut second = digital("LE 9 S2 Local");
    second.slrl_pointer = SLRLPointer::RoamList(0);
    second.timeslot = Timeslot::Slot2;
    cp.digi_chans.insert(second);
    cp.ana_chans.insert(analog("U272"));
    let channels =
        vec![ChannelPointer::Digital(0), ChannelPointer::Digital(1), ChannelPointer::Analog(0)];
    let place = cp
        .zones
        .insert(Zone::new("GB7LE".to_string(), &channels), ZoneList { channels: channels.clone() });
    assert_eq!(place, 0);
    cp.scan_list.insert(Scan::new("GB7LE".to_string()), ScanList::new(&channels));
    cp.roam_list.insert(
        Roam::new("M62".to_string()),
        RoamList::new(&[DigiChannelPointer::Digital(1)]),
    );
    assert_eq!(cp.verify(), Ok(()));
    let mut buffer = image.clone();
    assert_eq!(cp.write_codeplug(&mut buffer), Ok(3));
    assert_eq!(buffer.len(), image.len());
    let reloaded = Codeplug::read_codeplug(&buffer).unwrap();
    assert_eq!(reloaded.contacts.data, cp.contacts.data);
    assert_eq!(reloaded.digi_chans.data, cp.digi_chans.data);
    assert_eq!(reloaded.ana_chans.data, cp.ana_chans.data);
    assert_eq!(reloaded.zones.data.data, cp.zones.data.data);
    assert_eq!(reloaded.zones.channels.data, cp.zones.channels.data);
    assert_eq!(reloaded.scan_list.data.data, cp.scan_list.data.data);
    assert_eq!(reloaded.scan_list.channels.data, cp.scan_list.channels.data);
    assert_eq!(reloaded.roam_list.data.data, cp.roam_list.data.data);
    assert_eq!(reloaded.roam_list.channels.data, cp.roam_list.channels.data);
    assert_eq!(reloaded.radio_type(), DeviceType::Mobile);
    assert_eq!(reloaded.verify(), Ok(()));
    let mut again = buffer.clone();
    assert_eq!(reloaded.write_codeplug(&mut again), Ok(3));
    assert_eq!(again, buffer);
}

#[test]
fn written_section_layout() {
    let image = empty_image("p");
    let mut cp = Codeplug::read_codeplug(&image).unwrap();
    cp.contacts.insert(Contact::new("A".to_string(), CallType::Private, 1));
    cp.contacts.insert(Contact::new("B".to_string(), CallType::Ignore, 2));
    let mut buffer = image.clone();
    assert_eq!(cp.contacts.write(&mut buffer), Ok(0));
    let start = 0x392;
    assert_eq!(&buffer[start..start + 6], &[0x2a, 0, 8, 0, 2, 0]);
    assert_eq!(&buffer[start + 14..start + 22], &[0x80, 1, 0, 0, 0x96, 1, 0, 0]);
    let mut a = Vec::new();
    cp.contacts.data[0].store(&mut a).unwrap();
    let mut b = Vec::new();
    cp.contacts.data[1].store(&mut b).unwrap();
    assert_eq!(&buffer[start + 22..start + 22 + 48], &a[..]);
    assert_eq!(&buffer[start + 22 + 48..start + 22 + 96], &b[..]);
    assert!(buffer[start + 22 + 96..start + 22 + 384].iter().all(|x| *x == 0));
    let table = start + 22 + 384;
    for i in 0..8usize {
        let entry = &buffer[table + 6 * i..table + 6 * i + 6];
        assert_eq!(entry[..2], (i as u16).to_le_bytes());
        assert_eq!(entry[2..], (48 * i as u32).to_le_bytes());
    }
    assert_eq!(&buffer[..start], &image[..start]);
    assert_eq!(&buffer[table + 48..], &image[table + 48..]);
}

#[test]
fn table_is_made_anew_on_write() {
    let mut image = empty_image("p");
    let table = 0x392 + 22 + 384;
    let mut first = Vec::new();
    Contact::new("first".to_string(), CallType::Group, 1).store(&mut first).unwrap();
    let mut second = Vec::new();
    Contact::new("second".to_string(), CallType::Group, 2).store(&mut second).unwrap();
    image[0x392 + 4] = 2;
    image[0x392 + 22 + 5 * 48..0x392 + 22 + 6 * 48].copy_from_slice(&first);
    image[0x392 + 22 + 2 * 48..0x392 + 22 + 3 * 48].copy_from_slice(&second);
    image[table..table + 2].copy_from_slice(&5u16.to_le_bytes());
    image[table + 2..table + 6].copy_from_slice(&(5u32 * 48).to_le_bytes());
    image[table + 6..table + 8].copy_from_slice(&2u16.to_le_bytes());
    image[table + 8..table + 12].copy_from_slice(&(2u32 * 48).to_le_bytes());
    let cp = Codeplug::read_codeplug(&image).unwrap();
    assert_eq!(cp.contacts.data[0].name, "first");
    assert_eq!(cp.contacts.data[1].name, "second");
    assert_eq!(cp.contacts.sec.rev_map(2), Some(1));
    let mut buffer = image.clone();
    cp.write_codeplug(&mut buffer).unwrap();
    assert_eq!(&buffer[table..table + 6], &[0, 0, 0, 0, 0, 0]);
    assert_eq!(&buffer[table + 6..table + 12], &[1, 0, 48, 0, 0, 0]);
    assert_eq!(&buffer[0x392 + 22..0x392 + 22 + 48], &first[..]);
    assert_eq!(&buffer[0x392 + 22 + 48..0x392 + 22 + 96], &second[..]);
    let reloaded = Codeplug::read_codeplug(&buffer).unwrap();
    assert_eq!(reloaded.contacts.data, cp.contacts.data);
}

#[test]
fn records_shorter_than_a_slot_are_filled() {
    let mut image = vec![0u8; 0x392];
    image.extend_from_slice(&empty_section(0x2a, 4, 50));
    let mut cp = empty_codeplug();
    cp.contacts.sec = Section::load_sections(&{
        let end = image.len() as u32;
        image[0x38e..0x392].copy_from_slice(&end.to_le_bytes());
        image.clone()
    })
    .unwrap()
    .remove(&0x2a)
    .unwrap();
    cp.contacts.insert(Contact::new("A".to_string(), CallType::Group, 1));
    cp.contacts.insert(Contact::new("B".to_string(), CallType::Group, 2));
    let mut buffer = image.clone();
    assert_eq!(cp.contacts.write(&mut buffer), Ok(2));
    assert_eq!(buffer[0x392 + 22 + 4], b'A');
    assert_eq!(&buffer[0x392 + 22 + 48..0x392 + 22 + 50], &[0, 0]);
    assert_eq!(buffer[0x392 + 22 + 50 + 4], b'B');
}

#[test]
fn records_longer_than_a_slot_are_cut() {
    let mut image = vec![0u8; 0x392];
    image.extend_from_slice(&empty_section(0x6d, 4, 38));
    let end = image.len() as u32;
    image[0x38e..0x392].copy_from_slice(&end.to_le_bytes());
    let mut cp = empty_codeplug();
    cp.scan_list.data.sec = Section::load_sections(&image).unwrap().remove(&0x6d).unwrap();
    cp.scan_list.data.insert(Scan::new("one".to_string()));
    cp.scan_list.data.insert(Scan::new("two".to_string()));
    let mut buffer = image.clone();
    assert_eq!(cp.scan_list.data.write(&mut buffer), Ok(2));
    assert_eq!(buffer[0x392 + 22], b'o');
    assert_eq!(buffer[0x392 + 22 + 38], b't');
    assert_eq!(buffer.len(), image.len());
}

#[test]
fn capacity_is_kept() {
    let mut cp = empty_codeplug();
    for i in 0..7u32 {
        assert!(cp.contacts.has_room());
        let c = Contact::new(format!("c{}", i), CallType::Group, i);
        assert_eq!(cp.contacts.try_insert(c), Ok(i as usize));
    }
    assert_eq!(cp.contacts.sec.header.elements_in_use, 7);
    assert!(!cp.contacts.has_room());
    let extra = Contact::new("extra".to_string(), CallType::Group, 99);
    assert_eq!(cp.contacts.try_insert(extra.clone()), Err(extra));
    assert_eq!(cp.contacts.data.len(), 7);
    assert_eq!(cp.contacts.sec.header.elements_in_use, 7);
    assert_eq!(cp.verify(), Ok(()));
    let mut buffer = empty_image("portable radio DMR 400-470");
    assert_eq!(cp.write_codeplug(&mut buffer), Ok(0));
    assert_eq!(Codeplug::read_codeplug(&buffer).unwrap().contacts.data, cp.contacts.data);
}

#[test]
fn paired_collection_capacity() {
    let mut cp = empty_codeplug();
    let channels = vec![ChannelPointer::Selected, ChannelPointer::Selected];
    for i in 0..3usize {
        assert!(cp.zones.has_room());
        let zone = Zone::new(format!("z{}", i), &channels);
        assert_eq!(cp.zones.insert(zone, ZoneList { channels: channels.clone() }), i);
    }
    assert!(!cp.zones.has_room());
    assert_eq!(cp.zones.data.data.len(), 3);
    assert_eq!(cp.zones.channels.data.len(), 3);
}

#[test]
fn a_full_section_is_not_written() {
    let mut cp = empty_codeplug();
    for i in 0..7u32 {
        cp.contacts.insert(Contact::new("c".to_string(), CallType::Group, i));
    }
    cp.contacts.data.push(Contact::new("c".to_string(), CallType::Group, 7));
    cp.contacts.sec.header.elements_in_use = 8;
    let image = empty_image("p");
    let mut buffer = image.clone();
    assert_eq!(cp.contacts.write(&mut buffer), Err(CodeplugError::SectionOverflow(0x2a)));
    assert_eq!(buffer, image);
}

#[test]
fn dangling_digital_pointer_fails_verify_and_write() {
    let image = empty_image("p");
    let mut cp = Codeplug::read_codeplug(&image).unwrap();
    cp.digi_chans.insert(digital("only"));
    let channels = vec![ChannelPointer::Digital(0), ChannelPointer::Digital(1)];
    cp.zones.insert(Zone::new("z".to_string(), &channels), ZoneList { channels });
    let expected = reference(0x23, 0, ReferenceError::Digital(1));
    assert_eq!(cp.verify(), Err(expected));
    let mut buffer = image.clone();
    assert_eq!(cp.write_codeplug(&mut buffer), Err(expected));
    assert_eq!(buffer, image);
    cp.digi_chans.insert(digital("second"));
    assert_eq!(cp.verify(), Ok(()));
    assert!(cp.write_codeplug(&mut buffer).is_ok());
    assert_ne!(buffer, image);
}

#[test]
fn dangling_pointers_in_every_list() {
    let mut cp = empty_codeplug();
    cp.ana_chans.insert(analog("a"));
    cp.scan_list.insert(
        Scan::new("s".to_string()),
        ScanList::new(&[ChannelPointer::Analog(0), ChannelPointer::Analog(1)]),
    );
    assert_eq!(cp.verify(), Err(reference(0x4d, 0, ReferenceError::Analog(1))));
    cp.ana_chans.insert(analog("b"));
    assert_eq!(cp.verify(), Ok(()));
    cp.scan_list.insert(
        Scan::new("t".to_string()),
        ScanList::new(&[ChannelPointer::Digital(0)]),
    );
    assert_eq!(cp.verify(), Err(reference(0x4d, 1, ReferenceError::Digital(0))));
    cp.digi_chans.insert(digital("d"));
    assert_eq!(cp.verify(), Ok(()));
    cp.roam_list.insert(
        Roam::new("r".to_string()),
        RoamList::new(&[DigiChannelPointer::Digital(0), DigiChannelPointer::Digital(5)]),
    );
    assert_eq!(cp.verify(), Err(reference(0x79, 0, ReferenceError::Digital(5))));
    let mut buffer = empty_image("p");
    let before = buffer.clone();
    assert!(cp.write_codeplug(&mut buffer).is_err());
    assert_eq!(buffer, before);
}

#[test]
fn pointer_verify() {
    let mut cp = empty_codeplug();
    cp.digi_chans.insert(digital("d0"));
    cp.digi_chans.insert(digital("d1"));
    cp.ana_chans.insert(analog("a0"));
    assert_eq!(ChannelPointer::Selected.verify(&cp), Ok(()));
    assert_eq!(ChannelPointer::Digital(1).verify(&cp), Ok(()));
    assert_eq!(ChannelPointer::Digital(2).verify(&cp), Err(ReferenceError::Digital(2)));
    assert_eq!(ChannelPointer::Analog(0).verify(&cp), Ok(()));
    assert_eq!(ChannelPointer::Analog(1).verify(&cp), Err(ReferenceError::Analog(1)));
    assert_eq!(DigiChannelPointer::Selected.verify(&cp), Ok(()));
    assert_eq!(DigiChannelPointer::Digital(1).verify(&cp), Ok(()));
    assert_eq!(DigiChannelPointer::Digital(2).verify(&cp), Err(ReferenceError::Digital(2)));
    assert_eq!(ChannelPointer::Selected.get_chan_name(&cp), "<Selected>");
    assert_eq!(ChannelPointer::Digital(1).get_chan_name(&cp), "d1");
    assert_eq!(ChannelPointer::Analog(0).get_chan_name(&cp), "a0");
    assert_eq!(DigiChannelPointer::Digital(0).get_chan_name(&cp), "d0");
    assert_eq!(DigiChannelPointer::Selected.get_chan_name(&cp), "<Selected>");
}

#[test]
fn paired_collection_parity() {
    let mut cp = empty_codeplug();
    let channels = vec![ChannelPointer::Selected, ChannelPointer::Selected];
    for name in ["a", "b"] {
        cp.zones.insert(Zone::new(name.to_string(), &channels), ZoneList { channels: channels.clone() });
    }
    assert_eq!(cp.verify(), Ok(()));
    cp.zones.data.insert(Zone::new("c".to_string(), &channels));
    assert_eq!(cp.zones.data.data.len(), 3);
    assert_eq!(cp.zones.channels.data.len(), 2);
    assert_eq!(cp.verify(), Err(CodeplugError::ParityMismatch(0x24)));
    let mut buffer = empty_image("p");
    let before = buffer.clone();
    assert_eq!(cp.write_codeplug(&mut buffer), Err(CodeplugError::ParityMismatch(0x24)));
    assert_eq!(buffer, before);
}

#[test]
fn header_count_must_match_records() {
    let mut cp = empty_codeplug();
    cp.contacts.data.push(Contact::new("x".to_string(), CallType::Group, 1));
    assert_eq!(cp.verify(), Err(CodeplugError::CountMismatch(0x2a)));
    cp.contacts.sec.header.elements_in_use = 1;
    assert_eq!(cp.verify(), Ok(()));
    cp.roam_list.channels.sec.header.elements_in_use = 1;
    assert_eq!(cp.verify(), Err(CodeplugError::ParityMismatch(0x7a)));
    cp.roam_list.data.sec.header.elements_in_use = 1;
    assert_eq!(cp.verify(), Err(CodeplugError::CountMismatch(0x7a)));
}

#[test]
fn scan_list_first_entry_must_be_selected() {
    let mut cp = empty_codeplug();
    cp.digi_chans.insert(digital("d"));
    cp.scan_list.insert(
        Scan::new("s".to_string()),
        ScanList { channels: vec![ChannelPointer::Digital(0), ChannelPointer::Selected] },
    );
    assert_eq!(cp.verify(), Err(reference(0x4d, 0, ReferenceError::FirstNotSelected)));
    let list = ScanList { channels: vec![] };
    assert_eq!(list.verify(&cp), Err(ReferenceError::FirstNotSelected));
    assert_eq!(ScanList::new(&[ChannelPointer::Digital(0)]).verify(&cp), Ok(()));
}

#[test]
fn roam_list_first_entry_must_be_selected() {
    let mut cp = empty_codeplug();
    cp.digi_chans.insert(digital("d"));
    cp.roam_list.insert(
        Roam::new("r".to_string()),
        RoamList { channels: vec![DigiChannelPointer::Digital(0)] },
    );
    assert_eq!(cp.verify(), Err(reference(0x79, 0, ReferenceError::FirstNotSelected)));
    let list = RoamList { channels: vec![] };
    assert_eq!(list.verify(&cp), Err(ReferenceError::FirstNotSelected));
    assert_eq!(RoamList::new(&[DigiChannelPointer::Digital(0)]).verify(&cp), Ok(()));
    let zone_list = ZoneList { channels: vec![ChannelPointer::Digital(0)] };
    assert_eq!(zone_list.verify(&cp), Ok(()));
}

#[test]
fn digital_channel_list_references() {
    let mut cp = empty_codeplug();
    let mut d = digital("d");
    d.slrl_pointer = SLRLPointer::ScanList(0);
    cp.digi_chans.insert(d);
    assert_eq!(cp.verify(), Err(reference(0x26, 0, ReferenceError::ScanList(0))));
    cp.scan_list.insert(Scan::new("s".to_string()), ScanList::new(&[]));
    assert_eq!(cp.verify(), Ok(()));
    cp.digi_chans.data[0].slrl_pointer = SLRLPointer::RoamList(1);
    assert_eq!(cp.verify(), Err(reference(0x26, 0, ReferenceError::RoamList(1))));
    cp.roam_list.insert(Roam::new("r".to_string()), RoamList::new(&[]));
    cp.roam_list.insert(Roam::new("q".to_string()), RoamList::new(&[]));
    assert_eq!(cp.verify(), Ok(()));
}

#[test]
fn verify_reports_the_first_failure() {
    let mut cp = empty_codeplug();
    cp.scan_list.insert(
        Scan::new("s".to_string()),
        ScanList::new(&[ChannelPointer::Digital(7), ChannelPointer::Analog(3)]),
    );
    cp.zones.insert(
        Zone::new("z".to_string(), &vec![ChannelPointer::Analog(9), ChannelPointer::Selected]),
        ZoneList { channels: vec![ChannelPointer::Analog(9), ChannelPointer::Selected] },
    );
    assert_eq!(cp.verify(), Err(reference(0x4d, 0, ReferenceError::Digital(7))));
    cp.scan_list.clear();
    assert_eq!(cp.verify(), Err(reference(0x23, 0, ReferenceError::Analog(9))));
}

#[test]
fn clear_empties_every_collection() {
    let mut cp = empty_codeplug();
    cp.contacts.insert(Contact::new("c".to_string(), CallType::Group, 1));
    cp.digi_chans.insert(digital("d"));
    cp.ana_chans.insert(analog("a"));
    let channels = vec![ChannelPointer::Digital(0), ChannelPointer::Analog(0)];
    cp.zones.insert(Zone::new("z".to_string(), &channels), ZoneList { channels: channels.clone() });
    cp.scan_list.insert(Scan::new("s".to_string()), ScanList::new(&channels));
    cp.roam_list.insert(Roam::new("r".to_string()), RoamList::new(&[]));
    cp.clear_codeplug();
    assert!(cp.contacts.data.is_empty());
    assert!(cp.digi_chans.data.is_empty());
    assert!(cp.ana_chans.data.is_empty());
    assert!(cp.zones.data.data.is_empty() && cp.zones.channels.data.is_empty());
    assert!(cp.scan_list.data.data.is_empty() && cp.scan_list.channels.data.is_empty());
    assert!(cp.roam_list.data.data.is_empty() && cp.roam_list.channels.data.is_empty());
    assert_eq!(cp.contacts.sec.header.elements_in_use, 0);
    assert_eq!(cp.zones.channels.sec.header.elements_in_use, 0);
    assert_eq!(cp.contacts.sec.header.capacity, 8);
    assert_eq!(cp.verify(), Ok(()));
    let image = empty_image("portable radio DMR 400-470");
    let mut buffer = image.clone();
    cp.write_codeplug(&mut buffer).unwrap();
    assert_eq!(buffer, image);
}

#[test]
fn radio_model() {
    assert_eq!(Codeplug::get_radio_model(&empty_image("mobile X")).unwrap()[..8], *"mobile X");
    assert_eq!(Codeplug::get_radio_model(&[0u8; 0x3c]).unwrap(), "");
    let mut short = vec![0u8; 0x3c];
    short.extend_from_slice(b"abc");
    assert_eq!(Codeplug::get_radio_model(&short).unwrap(), "abc");
    let mut long = vec![b'x'; 0x3c];
    long.extend_from_slice(b"abcdefghijklmnopqrstuvwxyz0123456789");
    assert_eq!(Codeplug::get_radio_model(&long).unwrap(), "abcdefghijklmnopqrstuvwxyz0");
    let mut text = vec![0u8; 0x3c];
    text.extend_from_slice("m\u{e9}\u{20ac}".as_bytes());
    assert_eq!(Codeplug::get_radio_model(&text).unwrap(), "m\u{e9}\u{20ac}");
    let mut bad = vec![0u8; 0x3c];
    bad.extend_from_slice(&[b'm', 0xff, b'x']);
    assert_eq!(Codeplug::get_radio_model(&bad), Err(CodeplugError::Model));
    assert!(matches!(Codeplug::read_codeplug(&bad), Err(CodeplugError::Model)));
}

#[test]
fn radio_class() {
    assert_eq!(Codeplug::read_codeplug(&empty_image("mobile")).unwrap().radio_type(), DeviceType::Mobile);
    assert_eq!(
        Codeplug::read_codeplug(&empty_image("portable")).unwrap().radio_type(),
        DeviceType::Portable
    );
    assert_eq!(Codeplug::read_codeplug(&empty_image("Mobile")).unwrap().radio_type(), DeviceType::Portable);
    assert_eq!(Codeplug::read_codeplug(&empty_image("")).unwrap().radio_type(), DeviceType::Portable);
}

#[test]
fn read_errors() {
    assert!(matches!(
        Codeplug::read_codeplug(&[0u8; 0x100]),
        Err(CodeplugError::Directory { at: 0x38e, cause: CodecError::UnexpectedEof })
    ));
    assert!(matches!(
        Codeplug::read_codeplug(&[0u8; 0x392]),
        Err(CodeplugError::MissingSection(0x24))
    ));
    let mut image = empty_image("p");
    image[0x392 + 6] = 0;
    assert!(matches!(
        Codeplug::read_codeplug(&image),
        Err(CodeplugError::Directory {
            at: 0x392,
            cause: CodecError::ReservedMismatch(Field::SectionMagic)
        })
    ));
    let mut image = empty_image("p");
    image[0x392 + 4] = 1;
    image[0x392 + 22 + 36] = 9;
    assert!(matches!(
        Codeplug::read_codeplug(&image),
        Err(CodeplugError::Decode {
            section: 0x2a,
            position: 0,
            cause: CodecError::InvalidTag(Field::CallType)
        })
    ));
    let mut image = empty_image("p");
    image[0x392 + 4] = 9;
    assert!(matches!(
        Codeplug::read_codeplug(&image),
        Err(CodeplugError::MissingMapping { section: 0x2a, position: 8 })
    ));
    let mut image = empty_image("p");
    image[0x392 + 4] = 1;
    let table = 0x392 + 22 + 384;
    image[table] = 8;
    image[table + 2..table + 6].copy_from_slice(&(8u32 * 48).to_le_bytes());
    assert!(matches!(
        Codeplug::read_codeplug(&image),
        Err(CodeplugError::MissingChunk { section: 0x2a, position: 0 })
    ));
}

#[test]
fn fetching_records() {
    let image = empty_image("p");
    let sections = Section::load_sections(&image).unwrap();
    assert_eq!(Contact::get_section(&sections).unwrap().header.section_type, 0x2a);
    assert_eq!(ZoneList::get_section(&sections).unwrap().header.section_type, 0x23);
    let blank = Contact::fetch_elm(&sections, 3).unwrap();
    assert_eq!(blank, Contact { unk1: 0, unk2: 0, name: String::new(), call_type: CallType::Private, is_ref: false, id: 0 });
    assert!(matches!(
        DigitalChannel::fetch_elm(&sections, 0),
        Err(CodeplugError::Decode {
            section: 0x26,
            position: 0,
            cause: CodecError::ReservedMismatch(Field::DigitalMarker)
        })
    ));
    assert!(Contact::fetch_section(&sections).unwrap().data.is_empty());
    let none = std::collections::HashMap::new();
    assert!(matches!(Contact::get_section(&none), Err(CodeplugError::MissingSection(0x2a))));
    assert!(matches!(Roam::fetch_elm(&none, 0), Err(CodeplugError::MissingSection(0x7a))));
    assert!(matches!(Scan::fetch_section(&none), Err(CodeplugError::MissingSection(0x6d))));
}

#[test]
fn encode_failure_names_the_record() {
    let mut cp = empty_codeplug();
    cp.contacts.insert(Contact::new("fine".to_string(), CallType::Group, 1));
    cp.contacts.insert(Contact::new("much too long a name".to_string(), CallType::Group, 2));
    let image = empty_image("p");
    let mut buffer = image.clone();
    assert_eq!(
        cp.write_codeplug(&mut buffer),
        Err(CodeplugError::Encode { section: 0x2a, index: 1, cause: CodecError::NameTooLong })
    );
    assert_eq!(buffer, image);
}

#[test]
fn transmit_contact_is_resolved_through_the_table() {
    let mut cp = empty_codeplug();
    cp.contacts.insert(Contact::new("zero".to_string(), CallType::Group, 10));
    cp.contacts.insert(Contact::new("one".to_string(), CallType::Group, 11));
    let mut d = digital("d");
    assert_eq!(d.tx_contact_idx, 1);
    assert_eq!(d.resolve_tx_contact(&cp.contacts).unwrap().name, "zero");
    d.tx_contact_idx = 2;
    assert_eq!(d.resolve_tx_contact(&cp.contacts).unwrap().name, "one");
    d.tx_contact_idx = 0;
    assert!(d.resolve_tx_contact(&cp.contacts).is_none());
    d.tx_contact_idx = 3;
    assert!(d.resolve_tx_contact(&cp.contacts).is_none());
    d.tx_contact_idx = 100;
    assert!(d.resolve_tx_contact(&cp.contacts).is_none());
}

#[test]
fn write_refuses_sections_that_cannot_be_laid_out() {
    let image = empty_image("p");
    let mut cp = empty_codeplug();
    cp.contacts.sec.header.byte_size = 100;
    let mut buffer = image.clone();
    assert_eq!(cp.contacts.write(&mut buffer), Err(CodeplugError::UnevenSection(0x2a)));
    assert_eq!(cp.write_codeplug(&mut buffer), Err(CodeplugError::UnevenSection(0x2a)));
    cp.contacts.sec.header.capacity = 0;
    assert_eq!(cp.contacts.write(&mut buffer), Err(CodeplugError::UnevenSection(0x2a)));
    let mut cp = empty_codeplug();
    cp.contacts.sec.header.capacity = 16;
    cp.contacts.sec.header.byte_size = 0xffff_fff0;
    assert_eq!(
        cp.contacts.write(&mut buffer),
        Err(CodeplugError::Header {
            section: 0x2a,
            cause: CodecError::IndexOutOfRange(Field::SectionByteSize)
        })
    );
    let mut cp = empty_codeplug();
    cp.contacts.sec.addr = u64::MAX - 10;
    assert_eq!(cp.contacts.write(&mut buffer), Err(CodeplugError::Address(0x2a)));
    assert_eq!(buffer, image);
    let mut cp = empty_codeplug();
    cp.contacts.sec.header.byte_size = 0;
    assert_eq!(cp.contacts.write(&mut buffer), Err(CodeplugError::SectionOverflow(0x2a)));
    assert_eq!(buffer, image);
}

#[test]
fn write_grows_a_short_image() {
    let image = empty_image("p");
    let cp = Codeplug::read_codeplug(&image).unwrap();
    let mut short = image[..0x392 + 100].to_vec();
    cp.contacts.write(&mut short).unwrap();
    assert_eq!(short.len(), 0x392 + 22 + 384 + 48);
    assert_eq!(short[..], image[..short.len()]);
    let mut nothing = Vec::new();
    cp.write_codeplug(&mut nothing).unwrap();
    assert_eq!(nothing.len(), image.len());
    assert_eq!(nothing[0x392..], image[0x392..]);
    assert!(nothing[..0x392].iter().all(|b| *b == 0));
}

#[test]
fn verify_after_write_failure_in_a_later_section() {
    let image = empty_image("p");
    let mut cp = Codeplug::read_codeplug(&image).unwrap();
    cp.contacts.insert(Contact::new("kept".to_string(), CallType::Group, 1));
    cp.ana_chans.insert(analog("this name is too long"));
    let mut buffer = image.clone();
    assert_eq!(
        cp.write_codeplug(&mut buffer),
        Err(CodeplugError::Encode { section: 0x27, index: 0, cause: CodecError::NameTooLong })
    );
    assert_ne!(buffer, image);
    let reloaded = Codeplug::read_codeplug(&buffer).unwrap();
    assert_eq!(reloaded.contacts.data.len(), 1);
    assert!(reloaded.ana_chans.data.is_empty());
}
