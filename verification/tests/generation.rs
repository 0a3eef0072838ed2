use codeplug::aggregate::Codeplug;
use codeplug::analog_channel::ctcss::{CTCSSType, Ctcss};
use codeplug::channel_common::PowerLevel;
use codeplug::channel_pointer::digi_chan_pointer::DigiChannelPointer;
use codeplug::channel_pointer::pointer::ChannelPointer;
use codeplug::contact::{CallType, Contact};
use codeplug::digital_channel::modes::{SLRLPointer, Timeslot};
use codeplug::error::CodeplugError;
use codeplug::zone::Zone;
use codeplug::zone_list::ZoneList;

fn section(section_type: u16, capacity: u16, slot: u32) -> Vec<u8> {
    let byte_size = capacity as u32 * slot;
    let mut b = Vec::new();
    b.extend_from_slice(&section_type.to_le_bytes());
    b.extend_from_slice(&capacity.to_le_bytes());
    b.extend_from_slice(&0u16.to_le_bytes());
    b.extend_from_slice(&0x20u32.to_le_bytes());
    b.extend_from_slice(&0u32.to_le_bytes());
    b.extend_from_slice(&byte_size.to_le_bytes());
    b.extend_from_slice(&(byte_size + 0x16).to_le_bytes());
    b.resize(22 + byte_size as usize, 0);
    for i in 0..capacity {
        b.extend_from_slice(&i.to_le_bytes());
        b.extend_from_slice(&(i as u32 * slot).to_le_bytes());
    }
    b
}

fn image(model: &str, contacts: u16, digital: u16) -> Vec<u8> {
    let mut image = vec![0u8; 0x392];
    image[0x3c..0x3c + model.len()].copy_from_slice(model.as_bytes());
    for (section_type, capacity, slot) in [
        (0x2au16, contacts, 48u32),
        (0x26, digital, 74),
        (0x27, 16, 68),
        (0x24, 8, 40),
        (0x23, 8, 14 + 0x800 + 6 * 16),
        (0x6d, 8, 49),
        (0x4d, 8, 14 + 0x80 + 6 * 32),
        (0x7a, 4, 40),
        (0x79, 4, 14 + 0x40 + 6 * 32),
    ] {
        image.extend_from_slice(&section(section_type, capacity, slot));
    }
    let end = image.len() as u32;
    image[0x38e..0x392].copy_from_slice(&end.to_le_bytes());
    image
}

fn roomy(model: &str) -> Codeplug {
    Codeplug::read_codeplug(&image(model, 16, 64)).unwrap()
}

#[test]
fn slot_names() {
    assert_eq!(Codeplug::slot_name(Timeslot::Slot1), "S1");
    assert_eq!(Codeplug::slot_name(Timeslot::Slot2), "S2");
    assert_eq!(Codeplug::slot_name(Timeslot::PseudoTrunk), "PS");
}

#[test]
fn contact_is_created_once() {
    let mut cp = roomy("portable");
    assert_eq!(cp.create_or_add_contact("WW", 1), Ok(0));
    assert_eq!(cp.create_or_add_contact("Europe", 2), Ok(1));
    assert_eq!(cp.create_or_add_contact("again", 1), Ok(0));
    assert_eq!(cp.create_or_add_contact("CQ-UK UA", 2351), Ok(2));
    assert_eq!(cp.contacts.data.len(), 3);
    assert_eq!(cp.contacts.data[0], Contact::new("1 WW".to_string(), CallType::Group, 1));
    assert_eq!(cp.contacts.data[1].name, "2 Europe");
    assert_eq!(cp.contacts.data[2].name, "2351 CQ-UK UA");
    assert_eq!(cp.create_or_add_contact("zero", 0), Ok(3));
    assert_eq!(cp.contacts.data[3].name, "0 zero");
    assert_eq!(cp.create_or_add_contact("max", u32::MAX), Ok(4));
    assert_eq!(cp.contacts.data[4].name, "4294967295 max");
    assert_eq!(cp.contacts.sec.header.elements_in_use, 5);
}

#[test]
fn contact_section_full() {
    let mut cp = Codeplug::read_codeplug(&image("p", 3, 64)).unwrap();
    assert_eq!(cp.create_or_add_contact("a", 1), Ok(0));
    assert_eq!(cp.create_or_add_contact("b", 2), Ok(1));
    assert_eq!(cp.create_or_add_contact("c", 3), Err(CodeplugError::SectionFull(0x2a)));
    assert_eq!(cp.create_or_add_contact("b", 2), Ok(1));
    assert_eq!(cp.contacts.data.len(), 2);
    assert_eq!(cp.verify(), Ok(()));
}

#[test]
fn checked_insertions() {
    let mut cp = roomy("p");
    let digital = |name: &str| {
        codeplug::digital_channel::DigitalChannel::new(
            name.to_string(),
            1,
            2,
            false,
            PowerLevel::High,
            1,
            0,
            Timeslot::Slot1,
        )
    };
    let mut dangling = digital("x");
    dangling.slrl_pointer = SLRLPointer::ScanList(0);
    assert!(matches!(cp.add_digital_channel(dangling), Err(CodeplugError::Reference { .. })));
    assert!(cp.digi_chans.data.is_empty());
    assert_eq!(cp.add_digital_channel(digital("d0")), Ok(0));
    let list = vec![ChannelPointer::Digital(0), ChannelPointer::Digital(1)];
    let zone = Zone::new("z".to_string(), &list);
    assert!(matches!(
        cp.add_zone(zone, ZoneList { channels: list.clone() }),
        Err(CodeplugError::Reference { section: 0x23, index: 0, .. })
    ));
    assert!(cp.zones.data.data.is_empty() && cp.zones.channels.data.is_empty());
    assert_eq!(cp.add_digital_channel(digital("d1")), Ok(1));
    assert_eq!(cp.add_zone(Zone::new("z".to_string(), &list), ZoneList { channels: list.clone() }), Ok(0));
    let bad = codeplug::scan_list::ScanList { channels: list.clone() };
    assert!(matches!(
        cp.add_scan_list(codeplug::scan::Scan::new("s".to_string()), bad),
        Err(CodeplugError::Reference { section: 0x4d, .. })
    ));
    assert_eq!(
        cp.add_scan_list(
            codeplug::scan::Scan::new("s".to_string()),
            codeplug::scan_list::ScanList::new(&list)
        ),
        Ok(0)
    );
    let roam = codeplug::roam::list::RoamList::new(&[DigiChannelPointer::Digital(2)]);
    assert!(matches!(
        cp.add_roam_list(codeplug::roam::Roam::new("r".to_string()), roam),
        Err(CodeplugError::Reference { section: 0x79, .. })
    ));
    let roam = codeplug::roam::list::RoamList::new(&[DigiChannelPointer::Digital(1)]);
    assert_eq!(cp.add_roam_list(codeplug::roam::Roam::new("r".to_string()), roam), Ok(0));
    let off = Ctcss { kind: CTCSSType::Off, freq: 0 };
    let analog = codeplug::analog_channel::AnalogChannel::new(
        "a".to_string(),
        1,
        1,
        false,
        PowerLevel::High,
        off,
        off,
    );
    assert_eq!(cp.add_analog_channel(analog), Ok(0));
    assert_eq!(cp.add_contact(Contact::new("c".to_string(), CallType::Private, 5)), Ok(0));
    assert_eq!(cp.verify(), Ok(()));
}

#[test]
fn zone_channels_are_set_to_scan() {
    let mut cp = roomy("p");
    let chans = vec![
        ("a0".to_string(), 1u32, 1u32),
        ("a1".to_string(), 2, 2),
        ("a2".to_string(), 3, 3),
    ];
    let zone = cp.add_analog_zone("simplex".to_string(), PowerLevel::Low, &chans).unwrap();
    assert_eq!(zone, 0);
    assert_eq!(cp.ana_chans.data.len(), 3);
    for (i, ch) in cp.ana_chans.data.iter().enumerate() {
        assert_eq!(ch.common.name, format!("a{}", i));
        assert_eq!(ch.common.power_level, PowerLevel::Low);
        assert_eq!(ch.scan_list_idx, 1);
        assert!(ch.auto_start_scan);
        assert_eq!(ch.rx_ctcss, Ctcss { kind: CTCSSType::Off, freq: 0 });
    }
    assert_eq!(cp.zones.data.data[0].name, "simplex");
    assert_eq!(cp.zones.data.data[0].no_channels, 3);
    assert_eq!(
        cp.zones.channels.data[0].channels,
        vec![ChannelPointer::Analog(0), ChannelPointer::Analog(1), ChannelPointer::Analog(2)]
    );
    assert_eq!(cp.scan_list.data.data[0].name, "simplex");
    assert_eq!(
        cp.scan_list.channels.data[0].channels,
        vec![
            ChannelPointer::Selected,
            ChannelPointer::Analog(0),
            ChannelPointer::Analog(1),
            ChannelPointer::Analog(2),
        ]
    );
    assert_eq!(cp.verify(), Ok(()));
    assert_eq!(cp.set_zone_scanlist(1, 0), Err(CodeplugError::NoSuchZone(1)));
    assert_eq!(cp.set_zone_scanlist(0, 1), Err(CodeplugError::NoSuchScanList(1)));
    cp.zones.channels.data[0].channels.push(ChannelPointer::Selected);
    cp.ana_chans.data[0].scan_list_idx = 77;
    assert_eq!(cp.set_zone_scanlist(0, 0), Err(CodeplugError::SelectedInZone(0)));
    assert_eq!(cp.ana_chans.data[0].scan_list_idx, 77);
    assert_eq!(
        cp.add_analog_zone("one".to_string(), PowerLevel::Low, &chans[..1].to_vec()),
        Err(CodeplugError::ZoneTooSmall)
    );
}

#[test]
fn dmr_repeater() {
    let mut cp = roomy("portable");
    let mut roam = vec![DigiChannelPointer::Digital(99)];
    let zone = cp.add_dmr_repeater("LE", "Leeds", 430_662_500, 439_662_500, 2, true, &mut roam);
    assert_eq!(zone, Ok(0));
    assert_eq!(roam, vec![DigiChannelPointer::Digital(99), DigiChannelPointer::Digital(12)]);
    assert_eq!(cp.digi_chans.data.len(), 13);
    assert_eq!(cp.contacts.data.len(), 12);
    let names: Vec<&str> = cp.digi_chans.data.iter().map(|c| c.common.name.as_str()).collect();
    assert_eq!(
        names,
        vec![
            "LE 1 WW",
            "LE 2 Europe",
            "LE 235 UK Call",
            "LE 80 UK UA",
            "LE 81 UK UA",
            "LE 82 UK UA",
            "LE 83 UK UA",
            "LE 2351 CQ-UK UA",
            "LE 820 NW",
            "LE 9990 Echo",
            "LE 9 S1 Local",
            "LE 9 S2 Local",
            "LE 862 M62 Roam",
        ]
    );
    let contacts: Vec<&str> = cp.contacts.data.iter().map(|c| c.name.as_str()).collect();
    assert_eq!(
        contacts,
        vec![
            "1 WW",
            "2 Europe",
            "235 UK Call",
            "80 UK UA",
            "81 UK UA",
            "82 UK UA",
            "83 UK UA",
            "2351 CQ-UK UA",
            "820 NW",
            "9990 Echo",
            "9 Local",
            "862 M62 Roam",
        ]
    );
    let tx_contacts: Vec<u16> = cp.digi_chans.data.iter().map(|c| c.tx_contact_idx).collect();
    assert_eq!(tx_contacts, vec![1, 2, 3, 4, 5, 6, 7, 8, 9, 10, 11, 11, 12]);
    for (i, ch) in cp.digi_chans.data.iter().enumerate() {
        assert_eq!(ch.common.tx_freq, 430_662_500);
        assert_eq!(ch.common.rx_freq, 439_662_500);
        assert_eq!(ch.common.power_level, PowerLevel::High);
        assert_eq!(ch.colour_code, 2);
        assert_eq!(ch.slrl_pointer, SLRLPointer::ScanList(0));
        assert!(ch.auto_start_scan);
        assert_eq!(ch.timeslot, if i >= 11 { Timeslot::Slot2 } else { Timeslot::Slot1 });
    }
    assert_eq!(cp.zones.data.data[0].name, "GB7LE Leeds");
    assert_eq!(cp.scan_list.data.data[0].name, "GB7LE Leeds");
    assert_eq!(cp.zones.data.data[0].no_channels, 13);
    assert_eq!(cp.zones.data.data[0].pointer_data, [1, 0, 0, 0, 2, 0]);
    let expected: Vec<ChannelPointer> = (0..13).map(ChannelPointer::Digital).collect();
    assert_eq!(cp.zones.channels.data[0].channels, expected);
    assert_eq!(cp.scan_list.channels.data[0].channels[0], ChannelPointer::Selected);
    assert_eq!(cp.scan_list.channels.data[0].channels[1..], expected[..]);
    assert_eq!(cp.verify(), Ok(()));
    let mut none = Vec::new();
    let mut mobile = roomy("mobile");
    assert_eq!(
        mobile.add_dmr_repeater("MP", "Heysham", 430_750_000, 439_750_000, 3, false, &mut none),
        Ok(0)
    );
    assert!(none.is_empty());
    assert_eq!(mobile.digi_chans.data.len(), 12);
    assert_eq!(mobile.contacts.data.len(), 11);
    assert_eq!(mobile.digi_chans.data[0].common.power_level, PowerLevel::Low);
    assert_eq!(mobile.digi_chans.data[11].common.name, "MP 9 S2 Local");
}

#[test]
fn dmr_repeater_without_room() {
    let mut cp = Codeplug::read_codeplug(&image("p", 16, 10)).unwrap();
    let mut roam = Vec::new();
    assert_eq!(
        cp.add_dmr_repeater("LE", "Leeds", 1, 2, 1, true, &mut roam),
        Err(CodeplugError::SectionFull(0x26))
    );
    assert_eq!(cp.digi_chans.data.len(), 9);
    assert!(cp.zones.data.data.is_empty());
    assert!(roam.is_empty());
    assert_eq!(cp.verify(), Ok(()));
}

#[test]
fn whole_configuration() {
    let empty = image("portable", 16, 64);
    let mut cp = Codeplug::read_codeplug(&empty).unwrap();
    cp.contacts.insert(Contact::new("old".to_string(), CallType::Private, 7));
    assert_eq!(cp.mutate_cp(), Ok(()));
    assert_eq!(cp.contacts.data.len(), 12);
    assert_eq!(cp.digi_chans.data.len(), 51);
    assert_eq!(cp.ana_chans.data.len(), 8);
    assert_eq!(cp.zones.data.data.len(), 5);
    assert_eq!(cp.scan_list.data.data.len(), 6);
    assert_eq!(cp.roam_list.data.data.len(), 1);
    let zones: Vec<&str> = cp.zones.data.data.iter().map(|z| z.name.as_str()).collect();
    assert_eq!(
        zones,
        vec!["GB7LE Leeds", "GB7TD Wakefield", "GB7RV Ribble Val", "GB7MP Heysham", "70cm Simplex"]
    );
    let scans: Vec<&str> = cp.scan_list.data.data.iter().map(|z| z.name.as_str()).collect();
    assert_eq!(
        scans,
        vec![
            "GB7LE Leeds",
            "GB7TD Wakefield",
            "GB7RV Ribble Val",
            "GB7MP Heysham",
            "70cm Simplex",
            "Home",
        ]
    );
    assert_eq!(cp.roam_list.data.data[0].name, "M62 Corridor");
    assert_eq!(
        cp.roam_list.channels.data[0].channels,
        vec![
            DigiChannelPointer::Selected,
            DigiChannelPointer::Digital(12),
            DigiChannelPointer::Digital(25),
            DigiChannelPointer::Digital(38),
        ]
    );
    let simplex: Vec<&str> = cp.ana_chans.data.iter().map(|c| c.common.name.as_str()).collect();
    assert_eq!(
        simplex,
        vec![
            "U272 (443.400)",
            "U274 (443.425)",
            "U276 (443.450)",
            "U278 (443.475)",
            "U280 (443.500)",
            "U282 (443.525)",
            "U284 (443.550)",
            "U286 (443.575)",
        ]
    );
    for (i, ch) in cp.ana_chans.data.iter().enumerate() {
        assert_eq!(ch.common.tx_freq, 443_400_000 + 25_000 * i as u32);
        assert_eq!(ch.common.rx_freq, ch.common.tx_freq);
        assert_eq!(ch.common.power_level, PowerLevel::High);
        assert_eq!(ch.scan_list_idx, 5);
        assert!(ch.auto_start_scan);
    }
    for (i, ch) in cp.digi_chans.data.iter().enumerate() {
        let expected = if i == 12 || i == 25 || i == 38 {
            SLRLPointer::RoamList(0)
        } else if i < 13 {
            SLRLPointer::ScanList(5)
        } else if i < 26 {
            SLRLPointer::ScanList(1)
        } else if i < 39 {
            SLRLPointer::ScanList(2)
        } else {
            SLRLPointer::ScanList(3)
        };
        assert_eq!(ch.slrl_pointer, expected);
        assert_eq!(ch.ip_multi_site_connect, i == 12 || i == 25 || i == 38);
        assert_eq!(ch.auto_start_roam, i == 12 || i == 25 || i == 38);
        assert!(ch.auto_start_scan);
    }
    assert_eq!(cp.digi_chans.data[13].common.name, "TD 1 WW");
    assert_eq!(cp.digi_chans.data[13].colour_code, 1);
    assert_eq!(cp.digi_chans.data[50].common.name, "MP 9 S2 Local");
    assert_eq!(cp.digi_chans.data[50].colour_code, 3);
    let home = &cp.scan_list.channels.data[5].channels;
    assert_eq!(home.len(), 1 + 8 + 13);
    assert_eq!(home[0], ChannelPointer::Selected);
    assert_eq!(home[1], ChannelPointer::Analog(0));
    assert_eq!(home[8], ChannelPointer::Analog(7));
    assert_eq!(home[9], ChannelPointer::Digital(0));
    assert_eq!(home[21], ChannelPointer::Digital(12));
    assert_eq!(cp.verify(), Ok(()));
    let mut buffer = empty.clone();
    assert!(cp.write_codeplug(&mut buffer).is_ok());
    let reloaded = Codeplug::read_codeplug(&buffer).unwrap();
    assert_eq!(reloaded.contacts.data, cp.contacts.data);
    assert_eq!(reloaded.digi_chans.data, cp.digi_chans.data);
    assert_eq!(reloaded.ana_chans.data, cp.ana_chans.data);
    assert_eq!(reloaded.zones.data.data, cp.zones.data.data);
    assert_eq!(reloaded.zones.channels.data, cp.zones.channels.data);
    assert_eq!(reloaded.scan_list.data.data, cp.scan_list.data.data);
    assert_eq!(reloaded.scan_list.channels.data, cp.scan_list.channels.data);
    assert_eq!(reloaded.roam_list.data.data, cp.roam_list.data.data);
    assert_eq!(reloaded.roam_list.channels.data, cp.roam_list.channels.data);
    assert_eq!(reloaded.verify(), Ok(()));
}

#[test]
fn whole_configuration_without_room() {
    let mut cp = Codeplug::read_codeplug(&image("portable", 16, 40)).unwrap();
    assert_eq!(cp.mutate_cp(), Err(CodeplugError::SectionFull(0x26)));
    assert_eq!(cp.verify(), Ok(()));
}

fn three_channels() -> Vec<(String, u32, u32)> {
    vec![("a0".to_string(), 1u32, 10u32), ("a1".to_string(), 2, 20), ("a2".to_string(), 3, 30)]
}

#[test]
fn analog_zone_keeps_the_steps_before_a_failure() {
    let chans = three_channels();
    let mut cp = roomy("p");
    cp.ana_chans.sec.header.capacity = 3;
    assert_eq!(
        cp.add_analog_zone("z".to_string(), PowerLevel::High, &chans),
        Err(CodeplugError::SectionFull(0x27))
    );
    assert_eq!(cp.ana_chans.data.len(), 2);
    assert_eq!(cp.ana_chans.sec.header.elements_in_use, 2);
    assert_eq!(cp.ana_chans.data[1].common.name, "a1");
    assert_eq!(cp.ana_chans.data[1].common.tx_freq, 2);
    assert_eq!(cp.ana_chans.data[1].common.rx_freq, 20);
    assert!(!cp.ana_chans.data[1].auto_start_scan);
    assert_eq!(cp.ana_chans.data[1].scan_list_idx, 0);
    assert!(cp.scan_list.data.data.is_empty() && cp.zones.data.data.is_empty());

    let mut cp = roomy("p");
    cp.scan_list.channels.sec.header.capacity = 1;
    assert_eq!(
        cp.add_analog_zone("z".to_string(), PowerLevel::High, &chans),
        Err(CodeplugError::SectionFull(0x6d))
    );
    assert_eq!(cp.ana_chans.data.len(), 3);
    assert!(cp.scan_list.data.data.is_empty() && cp.scan_list.channels.data.is_empty());
    assert!(cp.zones.data.data.is_empty());
    assert!(!cp.ana_chans.data[0].auto_start_scan);

    let mut cp = roomy("p");
    cp.zones.data.sec.header.capacity = 1;
    assert_eq!(
        cp.add_analog_zone("z".to_string(), PowerLevel::High, &chans),
        Err(CodeplugError::SectionFull(0x24))
    );
    assert_eq!(cp.ana_chans.data.len(), 3);
    assert_eq!(cp.scan_list.data.data.len(), 1);
    assert_eq!(cp.scan_list.data.data[0].name, "z");
    assert_eq!(cp.scan_list.channels.data[0].channels.len(), 4);
    assert!(cp.zones.data.data.is_empty() && cp.zones.channels.data.is_empty());
    assert!(!cp.ana_chans.data[0].auto_start_scan);
    assert_eq!(cp.verify(), Ok(()));

    let mut cp = roomy("p");
    let before_contacts = cp.contacts.data.len();
    assert_eq!(
        cp.add_analog_zone("z".to_string(), PowerLevel::High, &chans[..1].to_vec()),
        Err(CodeplugError::ZoneTooSmall)
    );
    assert!(cp.ana_chans.data.is_empty());
    assert_eq!(cp.ana_chans.sec.header.elements_in_use, 0);
    assert_eq!(cp.contacts.data.len(), before_contacts);
}

#[test]
fn analog_zone_behind_what_is_there() {
    let chans = three_channels();
    let mut cp = roomy("p");
    assert_eq!(cp.add_analog_zone("first".to_string(), PowerLevel::High, &chans), Ok(0));
    assert_eq!(cp.add_analog_zone("second".to_string(), PowerLevel::Low, &chans[1..].to_vec()), Ok(1));
    assert_eq!(cp.ana_chans.data.len(), 5);
    assert_eq!(cp.ana_chans.sec.header.elements_in_use, 5);
    for ch in &cp.ana_chans.data[..3] {
        assert_eq!(ch.scan_list_idx, 1);
        assert_eq!(ch.common.power_level, PowerLevel::High);
    }
    for (i, ch) in cp.ana_chans.data[3..].iter().enumerate() {
        assert_eq!(ch.scan_list_idx, 2);
        assert!(ch.auto_start_scan);
        assert_eq!(ch.common.power_level, PowerLevel::Low);
        assert_eq!(ch.common.name, chans[i + 1].0);
        assert_eq!(ch.common.tx_freq, chans[i + 1].1);
        assert_eq!(ch.common.rx_freq, chans[i + 1].2);
        assert!(!ch.common.rx_only);
    }
    assert_eq!(
        cp.zones.channels.data[1].channels,
        vec![ChannelPointer::Analog(3), ChannelPointer::Analog(4)]
    );
    assert_eq!(
        cp.scan_list.channels.data[1].channels,
        vec![ChannelPointer::Selected, ChannelPointer::Analog(3), ChannelPointer::Analog(4)]
    );
    assert_eq!(cp.zones.data.data[1].name, "second");
    assert_eq!(cp.scan_list.data.data[1].name, "second");
    assert!(cp.digi_chans.data.is_empty() && cp.contacts.data.is_empty());
    assert_eq!(cp.verify(), Ok(()));
}

#[test]
fn dmr_repeater_keeps_the_steps_before_a_failure() {
    let mut cp = Codeplug::read_codeplug(&image("p", 4, 64)).unwrap();
    let mut roam = vec![DigiChannelPointer::Digital(7)];
    assert_eq!(
        cp.add_dmr_repeater("LE", "Leeds", 1, 2, 1, true, &mut roam),
        Err(CodeplugError::SectionFull(0x2a))
    );
    assert_eq!(cp.contacts.data.len(), 3);
    assert_eq!(cp.contacts.sec.header.elements_in_use, 3);
    assert_eq!(cp.contacts.data[2].name, "235 UK Call");
    assert_eq!(cp.contacts.data[2].call_type, CallType::Group);
    assert_eq!(cp.digi_chans.data.len(), 3);
    assert_eq!(cp.digi_chans.data[2].common.name, "LE 235 UK Call");
    assert_eq!(cp.digi_chans.data[2].tx_contact_idx, 3);
    assert_eq!(cp.digi_chans.data[2].slrl_pointer, SLRLPointer::Unset);
    assert!(!cp.digi_chans.data[2].auto_start_scan);
    assert_eq!(roam, vec![DigiChannelPointer::Digital(7)]);
    assert!(cp.scan_list.data.data.is_empty() && cp.zones.data.data.is_empty());
    assert_eq!(cp.verify(), Ok(()));

    let mut cp = roomy("p");
    cp.scan_list.data.sec.header.capacity = 1;
    let mut roam = Vec::new();
    assert_eq!(
        cp.add_dmr_repeater("LE", "Leeds", 1, 2, 1, true, &mut roam),
        Err(CodeplugError::SectionFull(0x6d))
    );
    assert_eq!(cp.digi_chans.data.len(), 13);
    assert_eq!(cp.contacts.data.len(), 12);
    assert_eq!(roam, vec![DigiChannelPointer::Digital(12)]);
    assert!(cp.scan_list.data.data.is_empty() && cp.zones.data.data.is_empty());
    assert!(!cp.digi_chans.data[0].auto_start_scan);

    let mut cp = roomy("p");
    cp.zones.channels.sec.header.capacity = 1;
    let mut roam = Vec::new();
    assert_eq!(
        cp.add_dmr_repeater("MP", "Heysham", 1, 2, 1, false, &mut roam),
        Err(CodeplugError::SectionFull(0x24))
    );
    assert_eq!(cp.digi_chans.data.len(), 12);
    assert_eq!(cp.scan_list.data.data.len(), 1);
    assert_eq!(cp.scan_list.data.data[0].name, "GB7MP Heysham");
    assert!(cp.zones.data.data.is_empty());
    assert!(roam.is_empty());
    assert_eq!(cp.digi_chans.data[0].slrl_pointer, SLRLPointer::Unset);
}

#[test]
fn dmr_repeater_uses_the_contacts_that_are_there() {
    let mut cp = roomy("p");
    assert_eq!(cp.add_contact(Contact::new("mine".to_string(), CallType::Private, 9)), Ok(0));
    assert_eq!(cp.add_contact(Contact::new("other".to_string(), CallType::Private, 77)), Ok(1));
    let mut roam = Vec::new();
    assert_eq!(cp.add_dmr_repeater("TD", "Wakefield", 5, 6, 1, false, &mut roam), Ok(0));
    assert_eq!(cp.contacts.data.len(), 12);
    assert_eq!(cp.contacts.data[0].name, "mine");
    assert_eq!(cp.contacts.data[2].name, "1 WW");
    let tx_contacts: Vec<u16> = cp.digi_chans.data.iter().map(|c| c.tx_contact_idx).collect();
    assert_eq!(tx_contacts, vec![3, 4, 5, 6, 7, 8, 9, 10, 11, 12, 1, 1]);
    assert_eq!(cp.digi_chans.data[10].common.name, "TD 9 S1 Local");
    assert_eq!(cp.digi_chans.data[11].timeslot, Timeslot::Slot2);
    assert_eq!(cp.verify(), Ok(()));
}

#[test]
fn insertions_without_room_name_the_section() {
    let list = vec![ChannelPointer::Selected, ChannelPointer::Selected];
    let mut cp = roomy("p");
    cp.zones.data.sec.header.capacity = 1;
    cp.scan_list.data.sec.header.capacity = 1;
    cp.roam_list.channels.sec.header.capacity = 1;
    cp.digi_chans.sec.header.capacity = 1;
    assert_eq!(
        cp.add_zone(Zone::new("z".to_string(), &list), ZoneList { channels: list.clone() }),
        Err(CodeplugError::SectionFull(0x24))
    );
    assert_eq!(
        cp.add_scan_list(
            codeplug::scan::Scan::new("s".to_string()),
            codeplug::scan_list::ScanList::new(&[])
        ),
        Err(CodeplugError::SectionFull(0x6d))
    );
    assert_eq!(
        cp.add_roam_list(
            codeplug::roam::Roam::new("r".to_string()),
            codeplug::roam::list::RoamList::new(&[])
        ),
        Err(CodeplugError::SectionFull(0x7a))
    );
    let channel = codeplug::digital_channel::DigitalChannel::new(
        "d".to_string(),
        1,
        2,
        false,
        PowerLevel::High,
        1,
        0,
        Timeslot::Slot1,
    );
    assert_eq!(cp.add_digital_channel(channel), Err(CodeplugError::SectionFull(0x26)));
    let mut dangling = codeplug::digital_channel::DigitalChannel::new(
        "d".to_string(),
        1,
        2,
        false,
        PowerLevel::High,
        1,
        0,
        Timeslot::Slot1,
    );
    dangling.slrl_pointer = SLRLPointer::RoamList(3);
    assert_eq!(
        cp.add_digital_channel(dangling),
        Err(CodeplugError::Reference {
            section: 0x26,
            index: 0,
            reason: codeplug::error::ReferenceError::RoamList(3)
        })
    );
}
