use codeplug::analog_channel::ctcss::{CTCSSType, Ctcss};
use codeplug::analog_channel::emergency::EmergencySystem;
use codeplug::analog_channel::modes::{
    AutoResetMode, CTCSSTailRevertPhase, CarrierSqlLevel, ChannelChangeSqlMode, SignallingType,
    SqlMode, TxAdmit,
};
use codeplug::analog_channel::AnalogChannel;
use codeplug::channel_common::{ChannelCommon, ChannelType, PowerLevel};
use codeplug::cp_data::RawCPData;
use codeplug::digital_channel::modes::{RrsRevertCh, SLRLPointer, Timeslot};
use codeplug::digital_channel::DigitalChannel;
use codeplug::error::{CodecError, Field};

fn name_field(name: &str) -> Vec<u8> {
    let mut b = Vec::new();
    for u in name.encode_utf16() {
        b.push((u & 0xff) as u8);
        b.push((u >> 8) as u8);
    }
    b.resize(32, 0);
    b
}

fn no_tone() -> Ctcss {
    Ctcss { kind: CTCSSType::Off, freq: 0 }
}

fn sample_analog() -> AnalogChannel {
    AnalogChannel::new(
        "U272".to_string(),
        443_400_000,
        433_000_000,
        false,
        PowerLevel::High,
        no_tone(),
        no_tone(),
    )
}

fn sample_analog_bytes() -> Vec<u8> {
    let mut b = name_field("U272");
    b.extend_from_slice(&[1, 0, 0, 0]);
    b.extend_from_slice(&433_000_000u32.to_le_bytes());
    b.extend_from_slice(&443_400_000u32.to_le_bytes());
    b.extend_from_slice(&[0, 0, 0, 0]);
    b.extend_from_slice(&[0, 0, 0, 0, 1, 1, 0, 0, 0, 0, 0, 0, 10, 0, 0]);
    b.extend_from_slice(&[0, 0]);
    b.extend_from_slice(&[0, 0x10, 0]);
    b
}

fn sample_digital() -> DigitalChannel {
    DigitalChannel::new(
        "LE 9 S2 Local".to_string(),
        430_662_500,
        439_662_500,
        false,
        PowerLevel::Low,
        2,
        0,
        Timeslot::Slot2,
    )
}

fn sample_digital_bytes() -> Vec<u8> {
    let mut b = name_field("LE 9 S2 Local");
    b.extend_from_slice(&[0, 4, 0, 0]);
    b.extend_from_slice(&439_662_500u32.to_le_bytes());
    b.extend_from_slice(&430_662_500u32.to_le_bytes());
    b.extend_from_slice(&[1, 0, 0, 0, 0, 2]);
    b.extend_from_slice(&[1, 0, 0, 0, 0, 0]);
    b.extend_from_slice(&[0, 0xc0, 1, 1, 0, 0, 0]);
    b.extend_from_slice(&[0, 0, 1, 0, 0, 0]);
    b.extend_from_slice(&[0, 0, 0]);
    b.extend_from_slice(&[0xff, 0xff]);
    b
}

#[test]
fn channel_common_known_bytes() {
    let c = ChannelCommon {
        name: "CH".to_string(),
        chan_type: ChannelType::Analog,
        rx_only: true,
        power_level: PowerLevel::Low,
        rx_freq: 0x0102_0304,
        tx_freq: 0x0a0b_0c0d,
    };
    let mut out = Vec::new();
    c.store(&mut out).unwrap();
    let mut expected = name_field("CH");
    expected.extend_from_slice(&[1, 5, 0, 0, 4, 3, 2, 1, 0x0d, 0x0c, 0x0b, 0x0a]);
    assert_eq!(out, expected);
    assert_eq!(ChannelCommon::load(&out).unwrap(), c);
}

#[test]
fn channel_common_ignores_other_bits_of_power_byte() {
    let mut b = name_field("X");
    b.extend_from_slice(&[0, 0xfa, 0, 0, 0, 0, 0, 0, 0, 0, 0, 0]);
    let c = ChannelCommon::load(&b).unwrap();
    assert!(!c.rx_only);
    assert_eq!(c.power_level, PowerLevel::High);
    assert_eq!(c.chan_type, ChannelType::Digial);
    b[33] = 0x05;
    let c = ChannelCommon::load(&b).unwrap();
    assert!(c.rx_only);
    assert_eq!(c.power_level, PowerLevel::Low);
}

#[test]
fn channel_common_errors() {
    let mut b = name_field("X");
    b.extend_from_slice(&[2, 0, 0, 0, 0, 0, 0, 0, 0, 0, 0, 0]);
    assert_eq!(ChannelCommon::load(&b), Err(CodecError::InvalidTag(Field::ChannelType)));
    b[32] = 1;
    b[35] = 1;
    assert_eq!(ChannelCommon::load(&b), Err(CodecError::ReservedMismatch(Field::ChannelReserved)));
    b[35] = 0;
    assert_eq!(ChannelCommon::load(&b[..43]), Err(CodecError::UnexpectedEof));
    b[0] = 0x00;
    b[1] = 0xd8;
    assert_eq!(ChannelCommon::load(&b), Err(CodecError::InvalidName));
}

#[test]
fn channel_type_and_power_level_conversions() {
    assert_eq!(ChannelType::try_from(0), Ok(ChannelType::Digial));
    assert_eq!(ChannelType::try_from(1), Ok(ChannelType::Analog));
    assert_eq!(ChannelType::try_from(2), Err(CodecError::InvalidTag(Field::ChannelType)));
    assert_eq!(ChannelType::default(), ChannelType::Analog);
    assert_eq!(ChannelType::Digial.tag(), 0);
    assert_eq!(ChannelType::Analog.tag(), 1);
    assert_eq!(PowerLevel::from(0), PowerLevel::High);
    assert_eq!(PowerLevel::from(4), PowerLevel::Low);
    assert_eq!(PowerLevel::from(0xfb), PowerLevel::High);
    assert_eq!(PowerLevel::from(0xff), PowerLevel::Low);
}

#[test]
fn ctcss_known_bytes() {
    let c = Ctcss { kind: CTCSSType::Cdcss, freq: 0x0abc };
    let mut out = Vec::new();
    c.store(&mut out).unwrap();
    assert_eq!(out, vec![0xbc, 0x8a]);
    assert_eq!(Ctcss::load(&out).unwrap(), c);
    assert_eq!(Ctcss::load(&[0xff, 0xff]).unwrap(), Ctcss { kind: CTCSSType::CdcssInvert, freq: 0xfff });
    assert_eq!(Ctcss::load(&[0x67, 0x40]).unwrap(), Ctcss { kind: CTCSSType::Ctcss, freq: 0x67 });
    assert_eq!(Ctcss::load(&[0x67, 0x30]).unwrap(), Ctcss { kind: CTCSSType::Off, freq: 0x67 });
    assert_eq!(Ctcss::load(&[0x67]), Err(CodecError::UnexpectedEof));
}

#[test]
fn ctcss_round_trip_over_all_frequencies() {
    for kind in [CTCSSType::Off, CTCSSType::Ctcss, CTCSSType::Cdcss, CTCSSType::CdcssInvert] {
        for freq in 0..4096u16 {
            let c = Ctcss { kind, freq };
            let mut out = Vec::new();
            c.store(&mut out).unwrap();
            assert_eq!(out.len(), 2);
            assert_eq!(Ctcss::load(&out).unwrap(), c);
        }
    }
}

#[test]
fn emergency_round_trip_over_all_flags() {
    for bits in 0..8u8 {
        let e = EmergencySystem {
            idx: 0x5a,
            alarm_indication: bits & 1 != 0,
            alarm_ack: bits & 2 != 0,
            call_indication: bits & 4 != 0,
        };
        let mut out = Vec::new();
        e.store(&mut out).unwrap();
        assert_eq!(out, vec![0x5a, bits]);
        assert_eq!(EmergencySystem::load(&out).unwrap(), e);
    }
    assert_eq!(EmergencySystem::load(&[1]), Err(CodecError::UnexpectedEof));
}

#[test]
fn analog_mode_tags() {
    assert_eq!(SqlMode::try_from(4), Ok(SqlMode::CtcssCdcssOrOptSig));
    assert_eq!(SqlMode::try_from(5), Err(CodecError::InvalidTag(Field::SqlMode)));
    assert_eq!(ChannelChangeSqlMode::try_from(1), Ok(ChannelChangeSqlMode::MonitorSqlMode));
    assert_eq!(
        ChannelChangeSqlMode::try_from(2),
        Err(CodecError::InvalidTag(Field::ChannelChangeSqlMode))
    );
    assert_eq!(CarrierSqlLevel::try_from(2), Ok(CarrierSqlLevel::Tight));
    assert_eq!(CarrierSqlLevel::try_from(3), Err(CodecError::InvalidTag(Field::CarrierSqlLevel)));
    assert_eq!(TxAdmit::try_from(3), Ok(TxAdmit::CTCSSIncorrect));
    assert_eq!(TxAdmit::try_from(4), Err(CodecError::InvalidTag(Field::TxAdmit)));
    assert_eq!(AutoResetMode::try_from(3), Ok(AutoResetMode::ManualOverride));
    assert_eq!(AutoResetMode::try_from(4), Err(CodecError::InvalidTag(Field::AutoResetMode)));
    assert_eq!(SignallingType::try_from(1), Ok(SignallingType::TwoTone));
    assert_eq!(SignallingType::try_from(2), Err(CodecError::InvalidTag(Field::SignallingType)));
    assert_eq!(SqlMode::OptSignaling.tag(), 2);
    assert_eq!(AutoResetMode::CarrierIndependent.tag(), 2);
    assert_eq!(CTCSSTailRevertPhase::from(0x00), CTCSSTailRevertPhase::Rad120);
    assert_eq!(CTCSSTailRevertPhase::from(0x20), CTCSSTailRevertPhase::Rad180);
    assert_eq!(CTCSSTailRevertPhase::from(0xdf), CTCSSTailRevertPhase::Rad120);
}

#[test]
fn analog_channel_known_bytes() {
    let mut out = Vec::new();
    sample_analog().store(&mut out).unwrap();
    assert_eq!(out.len(), 68);
    assert_eq!(out, sample_analog_bytes());
    assert_eq!(AnalogChannel::load(&sample_analog_bytes()).unwrap(), sample_analog());
}

#[test]
fn analog_channel_new_sets_usual_values() {
    let a = sample_analog();
    assert_eq!(a.common.chan_type, ChannelType::Analog);
    assert_eq!(a.common.tx_freq, 443_400_000);
    assert_eq!(a.common.rx_freq, 433_000_000);
    assert_eq!(a.rx_sql_mode, SqlMode::Carrier);
    assert_eq!(a.carrier_sql_level, CarrierSqlLevel::Normal);
    assert_eq!(a.tx_admit, TxAdmit::ChannelFree);
    assert!(a.emph_de_emph);
    assert!(!a.vox && !a.scrambler && !a.compandor && !a.auto_start_scan);
}

#[test]
fn analog_channel_round_trip_with_every_field_set() {
    let mut a = sample_analog();
    a.common.rx_only = true;
    a.common.power_level = PowerLevel::Low;
    a.rx_ctcss = Ctcss { kind: CTCSSType::Ctcss, freq: 885 };
    a.tx_ctcss = Ctcss { kind: CTCSSType::CdcssInvert, freq: 4095 };
    a.rx_sql_mode = SqlMode::CtcssCdcssAndOptSig;
    a.mon_sql_mode = SqlMode::CtcssCdcss;
    a.channel_change_sql_mode = ChannelChangeSqlMode::MonitorSqlMode;
    a.carrier_sql_level = CarrierSqlLevel::Open;
    a.tx_admit = TxAdmit::CTCSSCorrect;
    a.tx_timeout = 1;
    a.tot_prealert = 2;
    a.tot_rekey = 3;
    a.tot_reset = 4;
    a.auto_reset_mode = AutoResetMode::CarrierOverride;
    a.auto_reset_time = 5;
    a.signalling_type = SignallingType::TwoTone;
    a.emergency = EmergencySystem {
        idx: 6,
        alarm_indication: true,
        alarm_ack: false,
        call_indication: true,
    };
    a.scan_list_idx = 7;
    a.auto_start_scan = true;
    a.emph_de_emph = false;
    a.scrambler = true;
    a.compandor = true;
    a.vox = true;
    let mut out = Vec::new();
    a.store(&mut out).unwrap();
    assert_eq!(out[66], 0x61);
    assert_eq!(out[67], 0x80);
    assert_eq!(AnalogChannel::load(&out).unwrap(), a);
}

#[test]
fn analog_channel_errors() {
    let good = sample_analog_bytes();
    assert_eq!(AnalogChannel::load(&good[..67]), Err(CodecError::UnexpectedEof));
    let cases: Vec<(usize, u8, CodecError)> = vec![
        (32, 0, CodecError::ReservedMismatch(Field::ChannelType)),
        (32, 9, CodecError::InvalidTag(Field::ChannelType)),
        (48, 5, CodecError::InvalidTag(Field::RxSqlMode)),
        (49, 5, CodecError::InvalidTag(Field::MonSqlMode)),
        (50, 2, CodecError::InvalidTag(Field::ChannelChangeSqlMode)),
        (51, 1, CodecError::ReservedMismatch(Field::AnalogReserved1)),
        (52, 3, CodecError::InvalidTag(Field::CarrierSqlLevel)),
        (53, 4, CodecError::InvalidTag(Field::TxAdmit)),
        (58, 4, CodecError::InvalidTag(Field::AutoResetMode)),
        (60, 11, CodecError::ReservedMismatch(Field::AnalogReserved2)),
        (61, 2, CodecError::InvalidTag(Field::SignallingType)),
        (62, 1, CodecError::ReservedMismatch(Field::AnalogReserved3)),
    ];
    for (at, value, error) in cases {
        let mut b = good.clone();
        b[at] = value;
        assert_eq!(AnalogChannel::load(&b), Err(error));
    }
}

#[test]
fn analog_channel_name_overflow_leaves_output_alone() {
    let mut a = sample_analog();
    a.common.name = "12345678901234567".to_string();
    let mut out = vec![1u8, 2];
    assert_eq!(a.store(&mut out), Err(CodecError::NameTooLong));
    assert_eq!(out, vec![1u8, 2]);
}

#[test]
fn digital_channel_known_bytes() {
    let mut out = Vec::new();
    sample_digital().store(&mut out).unwrap();
    assert_eq!(out.len(), 74);
    assert_eq!(out, sample_digital_bytes());
    assert_eq!(DigitalChannel::load(&sample_digital_bytes()).unwrap(), sample_digital());
}

#[test]
fn digital_channel_new_stores_contact_index_plus_one() {
    let d = sample_digital();
    assert_eq!(d.tx_contact_idx, 1);
    assert_eq!(d.common.chan_type, ChannelType::Digial);
    assert_eq!(d.colour_code, 2);
    assert_eq!(d.timeslot, Timeslot::Slot2);
    assert_eq!(d.slrl_pointer, SLRLPointer::Unset);
    assert_eq!(d.rrs_revert_ch, RrsRevertCh::Unset);
    assert_eq!(d.unk1, 0);
}

#[test]
fn digital_channel_round_trip_with_every_field_set() {
    let mut d = sample_digital();
    d.common.rx_freq = d.common.tx_freq;
    d.tx_admit = codeplug::digital_channel::modes::TxAdmit::ColourCode;
    d.tx_timeout = 1;
    d.tx_timeout_prealert = 2;
    d.tx_timeout_rekey = 3;
    d.tx_timeout_reset = 4;
    d.colour_code = 15;
    d.priority_interrupt_encode = true;
    d.priority_interrupt_decode = true;
    d.tx_contact_idx = 0x1234;
    d.rx_group_list_idx = 0x2345;
    d.emergency_system_idx = 0x3456;
    d.timeslot = Timeslot::PseudoTrunk;
    d.slrl_pointer = SLRLPointer::RoamList(253);
    d.vox = true;
    d.has_option_board = true;
    d.unk1 = 75;
    d.loc_rev_channel_idx = 0x4567;
    d.phone_system_idx = 0x5678;
    d.pseudo_trunk_tx = 9;
    d.rrs_revert_ch = RrsRevertCh::Idx(0x6789);
    d.auto_start_scan = true;
    d.auto_start_roam = true;
    d.ip_multi_site_connect = true;
    let mut out = Vec::new();
    d.store(&mut out).unwrap();
    assert_eq!(out[49], 0x6f);
    assert_eq!(out[56], 254);
    assert_eq!(out[57], 0xa1);
    assert_eq!(out[58], 0xe7);
    assert_eq!(out[59], 0);
    assert_eq!(out[62], 75);
    assert_eq!(DigitalChannel::load(&out).unwrap(), d);
    d.slrl_pointer = SLRLPointer::ScanList(0);
    d.rrs_revert_ch = RrsRevertCh::ChSelf;
    let mut out = Vec::new();
    d.store(&mut out).unwrap();
    assert_eq!(out[56], 1);
    assert_eq!(out[58] & 0x30, 0x10);
    assert_eq!(&out[72..74], &[0, 0]);
    assert_eq!(DigitalChannel::load(&out).unwrap(), d);
}

#[test]
fn digital_channel_keeps_unknown_byte() {
    let mut b = sample_digital_bytes();
    b[62] = 0xff;
    let d = DigitalChannel::load(&b).unwrap();
    assert_eq!(d.unk1, 0xff);
    let mut out = Vec::new();
    d.store(&mut out).unwrap();
    assert_eq!(out, b);
}

#[test]
fn digital_channel_errors() {
    let good = sample_digital_bytes();
    assert_eq!(DigitalChannel::load(&good[..73]), Err(CodecError::UnexpectedEof));
    let cases: Vec<(usize, u8, CodecError)> = vec![
        (32, 1, CodecError::ReservedMismatch(Field::ChannelType)),
        (44, 3, CodecError::InvalidTag(Field::TxAdmit)),
        (57, 0x40, CodecError::ReservedMismatch(Field::DigitalMarker)),
        (57, 0x80, CodecError::ReservedMismatch(Field::DigitalModeBit)),
        (58, 2, CodecError::InvalidTag(Field::Timeslot)),
        (58, 0x31, CodecError::InvalidTag(Field::SlrlType)),
        (58, 0x11, CodecError::IndexOutOfRange(Field::SlrlIndex)),
        (59, 0, CodecError::ReservedMismatch(Field::DigitalModeByte)),
        (60, 1, CodecError::ReservedMismatch(Field::DigitalReserved1)),
        (65, 2, CodecError::ReservedMismatch(Field::DigitalReserved2)),
        (71, 1, CodecError::ReservedMismatch(Field::DigitalReserved3)),
    ];
    for (at, value, error) in cases {
        let mut b = good.clone();
        b[at] = value;
        assert_eq!(DigitalChannel::load(&b), Err(error));
    }
}

#[test]
fn digital_channel_list_reference_that_cannot_be_stored() {
    let mut d = sample_digital();
    d.slrl_pointer = SLRLPointer::ScanList(255);
    let mut out = vec![3u8];
    assert_eq!(d.store(&mut out), Err(CodecError::IndexOutOfRange(Field::SlrlIndex)));
    assert_eq!(out, vec![3u8]);
    d.slrl_pointer = SLRLPointer::ScanList(254);
    assert!(d.store(&mut out).is_ok());
    assert_eq!(out[1 + 56], 255);
}

#[test]
fn digital_mode_tags() {
    assert_eq!(codeplug::digital_channel::modes::TxAdmit::try_from(0), Ok(codeplug::digital_channel::modes::TxAdmit::Always));
    assert_eq!(codeplug::digital_channel::modes::TxAdmit::try_from(1), Ok(codeplug::digital_channel::modes::TxAdmit::Channel));
    assert_eq!(codeplug::digital_channel::modes::TxAdmit::try_from(2), Ok(codeplug::digital_channel::modes::TxAdmit::ColourCode));
    assert_eq!(codeplug::digital_channel::modes::TxAdmit::try_from(3), Err(CodecError::InvalidTag(Field::TxAdmit)));
    assert_eq!(codeplug::digital_channel::modes::TxAdmit::try_from(0xfd), Ok(codeplug::digital_channel::modes::TxAdmit::Channel));
    assert_eq!(Timeslot::try_from(0), Ok(Timeslot::Slot1));
    assert_eq!(Timeslot::try_from(1), Ok(Timeslot::Slot2));
    assert_eq!(Timeslot::try_from(3), Ok(Timeslot::PseudoTrunk));
    assert_eq!(Timeslot::try_from(2), Err(CodecError::InvalidTag(Field::Timeslot)));
    assert_eq!(Timeslot::PseudoTrunk.tag(), 3);
    assert_eq!(RrsRevertCh::from(0), RrsRevertCh::ChSelf);
    assert_eq!(RrsRevertCh::from(0xffff), RrsRevertCh::Unset);
    assert_eq!(RrsRevertCh::from(7), RrsRevertCh::Idx(7));
    assert_eq!(RrsRevertCh::Idx(7).to_u16(), 7);
    assert_eq!(RrsRevertCh::ChSelf.to_u16(), 0);
    assert_eq!(RrsRevertCh::Unset.to_u16(), 0xffff);
    assert_eq!(SLRLPointer::Unset.get_idx(), 0);
    assert_eq!(SLRLPointer::ScanList(4).get_idx(), 5);
    assert_eq!(SLRLPointer::RoamList(0).get_idx(), 1);
    assert_eq!(SLRLPointer::Unset.get_type(), 0);
    assert_eq!(SLRLPointer::ScanList(4).get_type(), 0x10);
    assert_eq!(SLRLPointer::RoamList(4).get_type(), 0x20);
    assert_eq!(SLRLPointer::from_parts(0, 99), Ok(SLRLPointer::Unset));
    assert_eq!(SLRLPointer::from_parts(0x20, 1), Ok(SLRLPointer::RoamList(0)));
    assert!(SLRLPointer::ScanList(254).is_storable());
    assert!(!SLRLPointer::RoamList(255).is_storable());
}
