use codeplug::bytes::{get_u16_be, put_u16_be};
use codeplug::radio::common::{L2Payload, PacketError, L2};
use codeplug::radio::cps_packet::{Command, Entity, Flags, PacketL1, HDR_LEN};
use codeplug::radio::cps_payload::{
    pack_enter_prog_mode_request, pack_enter_prog_mode_response, pack_get_string_request,
    pack_get_string_response, pack_leave_prog_mode_request, pack_leave_prog_mode_response,
    pack_read_codeplug_request, pack_read_codeplug_response, pack_write_codeplug_request,
    pack_write_codeplug_response, unpack_enter_prog_mode_request, unpack_enter_prog_mode_response,
    unpack_get_string_request, unpack_get_string_response, unpack_leave_prog_mode_request,
    unpack_leave_prog_mode_response, unpack_read_codeplug_request, unpack_read_codeplug_response,
    unpack_write_codeplug_request, unpack_write_codeplug_response, CPSPacketL2, OpenMode,
    StringReqType,
};
use codeplug::radio::firmware::{
    FwMemAccess, FwMemAccessStatus, FwMemory, FwPacketL1, FwPacketL2,
};

fn cps_samples() -> Vec<CPSPacketL2> {
    vec![
        CPSPacketL2::ReadCodeplugRequest { addr: 0x0012_3456, len: 0x100 },
        CPSPacketL2::ReadCodeplugResponse { addr: 7, payload: vec![1, 2, 3, 4, 5] },
        CPSPacketL2::ReadCodeplugResponse { addr: 7, payload: vec![] },
        CPSPacketL2::WriteCodeplugRequest { addr: 0xffff_ffff, payload: vec![0xaa; 256] },
        CPSPacketL2::WriteCodeplugResponse { addr: 0x100, len: 0x100 },
        CPSPacketL2::GetStringRequest { what: StringReqType::RadioID },
        CPSPacketL2::GetStringRequest { what: StringReqType::Unknown1 },
        CPSPacketL2::GetStringRequest { what: StringReqType::Unknown2 },
        CPSPacketL2::GetStringResponse { what: StringReqType::Unknown2, str: "PD785G \u{1F4FB}".to_string() },
        CPSPacketL2::GetStringResponse { what: StringReqType::RadioID, str: String::new() },
        CPSPacketL2::EnterProogModeRequest { mode: OpenMode::Read },
        CPSPacketL2::EnterProogModeRequest { mode: OpenMode::Write },
        CPSPacketL2::EnterProogModeResponse { status: 0, mode: OpenMode::Write, head_data: vec![9, 8, 7] },
        CPSPacketL2::LeaveProgModeRequest,
        CPSPacketL2::LeaveProgModeResponse,
    ]
}

fn fw_samples() -> Vec<FwPacketL2> {
    vec![
        FwPacketL2::AccessMemoryRequest { access: FwMemAccess::EnableAccess },
        FwPacketL2::AccessMemoryRequest { access: FwMemAccess::DisableAcess },
        FwPacketL2::ReadMemoryRequest { addr: 0x1234, len: 128, mem: FwMemory::Codeplug },
        FwPacketL2::ReadMemoryResponse {
            addr: 0x1234,
            status: 0,
            mem: FwMemory::Codeplug,
            payload: vec![1, 2, 3],
        },
        FwPacketL2::WriteMemoryRequest { mem: FwMemory::CPU, addr: 0x10, payload: vec![0x55; 128] },
        FwPacketL2::WriteMemoryResponse { status: 1, mem: FwMemory::Codeplug, addr: 0x10, len: 128 },
    ]
}

#[test]
fn packet_l1_known_crc() {
    let mut buf = Vec::new();
    let data = vec![
        (PacketL1::new(Command::Connect, Flags::Connnect, None), 0xe560u16),
        (
            PacketL1::new(
                Command::Req,
                Flags::Default,
                Some(L2::new(CPSPacketL2::ReadCodeplugRequest { addr: 0, len: 0x100 })),
            ),
            0xa058u16,
        ),
    ];

    for (pkt, crc) in data.iter() {
        pkt.pack_hdr(0, &mut buf).unwrap();

        let tst_crc = PacketL1::crc(&buf);

        assert_eq!(tst_crc, *crc);
    }
}

#[test]
fn packet_l1_payload() {
    let payload = L2::new(CPSPacketL2::LeaveProgModeRequest);
    let pkt = PacketL1::new(Command::Connect, Flags::Connnect, Some(payload.clone()));

    assert_eq!(pkt.pack().unwrap()[HDR_LEN as usize..], payload.pack().unwrap());
}

#[test]
fn known_crc() {
    let tests = vec![
        (vec![], 65531_u16),
        (vec![0xde, 0xad, 0xbe, 0xef], 25177_u16),
        (vec![0xde, 0xad, 0xbe, 0xef, 0xad], 46423_u16),
        (vec![0x02, 0x18, 0x02, 0x02, 0x00, 0xfb, 0x10, 0x0b, 0x03], 56537_u16),
    ];

    for (test, res) in tests.iter() {
        assert_eq!(FwPacketL1::crc(test), *res);
    }
}

#[test]
fn big_endian_words() {
    let mut out = Vec::new();
    put_u16_be(&mut out, 0x1234);
    assert_eq!(out, vec![0x12, 0x34]);
    assert_eq!(get_u16_be(&[0xab, 0x12, 0x34], 1), 0x1234);
    assert_eq!(get_u16_be(&out, 0), 0x1234);
}

#[test]
fn inner_frame_known_bytes() {
    let frame = L2::new(FwPacketL2::AccessMemoryRequest { access: FwMemAccess::EnableAccess });
    assert_eq!(frame.pack().unwrap(), vec![0x02, 0x18, 0x02, 0x02, 0x00, 0xfb, 0x10, 0x0b, 0x03]);
    let frame = L2::new(CPSPacketL2::LeaveProgModeRequest);
    assert_eq!(frame.pack().unwrap(), vec![0x02, 0xc6, 0x01, 0x01, 0x00, 0x00, 0x6a, 0x03]);
    let frame = L2::new(CPSPacketL2::ReadCodeplugRequest { addr: 0, len: 0x100 });
    let b = frame.pack().unwrap();
    assert_eq!(b.len(), 1 + 2 + 2 + 12 + 1 + 1);
    assert_eq!(&b[..5], &[0x02, 0xc7, 0x01, 12, 0]);
    assert_eq!(&b[5..17], &[0, 0, 0, 1, 0, 0, 0, 0, 0, 0, 0, 1]);
    assert_eq!(b[17], ((!(0xc7u32 + 1 + 12 + 1 + 1)).wrapping_add(0x33) & 0xff) as u8);
    assert_eq!(b[18], 3);
}

#[test]
fn inner_frame_round_trip() {
    for p in cps_samples() {
        let frame = L2::new(p.clone());
        let b = frame.pack().unwrap();
        assert_eq!(L2::<CPSPacketL2>::unpack(&b).unwrap(), frame);
        let mut longer = b.clone();
        longer.extend_from_slice(&[1, 2, 3]);
        assert_eq!(L2::<CPSPacketL2>::unpack(&longer).unwrap().payload, p);
    }
    for p in fw_samples() {
        let frame = L2::new(p);
        let b = frame.pack().unwrap();
        assert_eq!(L2::<FwPacketL2>::unpack(&b).unwrap(), frame);
    }
}

#[test]
fn inner_frame_errors() {
    let good = L2::new(CPSPacketL2::LeaveProgModeRequest).pack().unwrap();
    assert_eq!(L2::<CPSPacketL2>::unpack(&[]), Err(PacketError::Truncated));
    let mut b = good.clone();
    b[0] = 3;
    assert_eq!(L2::<CPSPacketL2>::unpack(&b), Err(PacketError::BadStart));
    for cut in 1..good.len() {
        assert_eq!(L2::<CPSPacketL2>::unpack(&good[..cut]), Err(PacketError::Truncated));
    }
    let mut b = good.clone();
    b[7] = 4;
    assert_eq!(L2::<CPSPacketL2>::unpack(&b), Err(PacketError::BadEnd));
    let mut b = good.clone();
    b[6] = 0;
    assert!(L2::<CPSPacketL2>::unpack(&b).is_ok());
    let mut b = good.clone();
    b[1] = 0x77;
    assert_eq!(L2::<CPSPacketL2>::unpack(&b), Err(PacketError::UnknownKind(0x0177)));
    assert_eq!(L2::<FwPacketL2>::unpack(&good), Err(PacketError::UnknownKind(0x01c6)));
    let big = L2::new(CPSPacketL2::WriteCodeplugRequest { addr: 0, payload: vec![0; 0xffff - 11] });
    assert_eq!(big.pack(), Err(PacketError::PayloadTooLong));
    let fits = L2::new(CPSPacketL2::WriteCodeplugRequest { addr: 0, payload: vec![0; 0xffff - 12] });
    assert_eq!(fits.pack().unwrap().len(), 0xffff + 7);
    let long = L2::new(CPSPacketL2::WriteCodeplugRequest { addr: 0, payload: vec![0; 0x10000] });
    assert_eq!(long.pack(), Err(PacketError::PayloadTooLong));
}

#[test]
fn cps_payload_known_bytes() {
    assert_eq!(
        pack_read_codeplug_request(0x0102_0304, 0x0506).unwrap(),
        vec![0, 0, 0, 1, 0, 0, 4, 3, 2, 1, 6, 5]
    );
    assert_eq!(
        pack_read_codeplug_response(0x0102_0304, &[9, 8]).unwrap(),
        vec![0, 0, 0, 0, 1, 0, 0, 4, 3, 2, 1, 2, 0, 9, 8]
    );
    assert_eq!(
        pack_write_codeplug_request(1, &[9, 8, 7]).unwrap(),
        vec![0, 0, 0, 1, 0, 0, 1, 0, 0, 0, 3, 0, 9, 8, 7]
    );
    assert_eq!(
        pack_write_codeplug_response(1, 3).unwrap(),
        vec![0, 0, 0, 0, 1, 0, 0, 1, 0, 0, 0, 3, 0]
    );
    let mut enter = vec![2u8];
    enter.extend_from_slice(&[0; 16]);
    assert_eq!(pack_enter_prog_mode_request(OpenMode::Write).unwrap(), enter);
    assert_eq!(
        pack_enter_prog_mode_response(5, OpenMode::Read, &[1, 2, 3]).unwrap(),
        vec![5, 0, 3, 0, 1, 2, 3]
    );
    assert_eq!(pack_leave_prog_mode_request().unwrap(), vec![0]);
    assert_eq!(pack_leave_prog_mode_response().unwrap(), vec![0]);
    assert_eq!(pack_get_string_request(StringReqType::Unknown1).unwrap(), vec![0x12]);
    assert_eq!(
        pack_get_string_response(StringReqType::Unknown2, "Hi").unwrap(),
        vec![0, 0, 0, 0, 9, 0, 0, 0, 0x48, 0, 0x69, 0]
    );
}

#[test]
fn cps_payload_round_trip() {
    for p in cps_samples() {
        let id = p.get_id();
        let b = p.ser_payload().unwrap();
        assert_eq!(CPSPacketL2::deser_payload(id, &b).unwrap(), p);
    }
}

#[test]
fn cps_payload_ids() {
    let ids: Vec<u16> = cps_samples().iter().map(|p| p.get_id()).collect();
    assert_eq!(
        ids,
        vec![
            0x01c7, 0x81c7, 0x81c7, 0x01c8, 0x81c8, 0x0203, 0x0203, 0x0203, 0x8203, 0x8203, 0x01c5,
            0x01c5, 0x81c5, 0x01c6, 0x81c6,
        ]
    );
    assert_eq!(CPSPacketL2::deser_payload(0x1234, &[0]), Err(PacketError::UnknownKind(0x1234)));
}

#[test]
fn cps_payload_errors() {
    let req = pack_read_codeplug_request(1, 2).unwrap();
    assert_eq!(unpack_read_codeplug_request(&req[..11]), Err(PacketError::Truncated));
    let mut b = req.clone();
    b[3] = 0;
    assert_eq!(unpack_read_codeplug_request(&b), Err(PacketError::ReservedMismatch));
    assert_eq!(unpack_write_codeplug_request(&b), Err(PacketError::ReservedMismatch));
    let res = pack_read_codeplug_response(1, &[1, 2, 3]).unwrap();
    assert_eq!(unpack_read_codeplug_response(&res[..15]), Err(PacketError::Truncated));
    assert_eq!(unpack_read_codeplug_response(&res[..12]), Err(PacketError::Truncated));
    let mut b = res.clone();
    b[0] = 1;
    assert_eq!(unpack_read_codeplug_response(&b), Err(PacketError::ReservedMismatch));
    assert_eq!(unpack_write_codeplug_response(&b), Err(PacketError::ReservedMismatch));
    let mut b = res.clone();
    b[4] = 0;
    assert_eq!(unpack_read_codeplug_response(&b), Err(PacketError::ReservedMismatch));
    let wreq = pack_write_codeplug_request(1, &[1, 2, 3]).unwrap();
    assert_eq!(unpack_write_codeplug_request(&wreq[..14]), Err(PacketError::Truncated));
    let wres = pack_write_codeplug_response(1, 3).unwrap();
    assert_eq!(unpack_write_codeplug_response(&wres[..12]), Err(PacketError::Truncated));
    let enter = pack_enter_prog_mode_request(OpenMode::Read).unwrap();
    assert_eq!(unpack_enter_prog_mode_request(&enter[..16]), Err(PacketError::BadLength));
    let mut b = enter.clone();
    b[0] = 1;
    assert_eq!(unpack_enter_prog_mode_request(&b), Err(PacketError::InvalidTag));
    let mut b = enter.clone();
    b[16] = 1;
    assert_eq!(unpack_enter_prog_mode_request(&b), Err(PacketError::ReservedMismatch));
    assert_eq!(unpack_enter_prog_mode_response(&[0]), Err(PacketError::Truncated));
    assert_eq!(unpack_enter_prog_mode_response(&[0, 1, 0, 0]), Err(PacketError::InvalidTag));
    assert_eq!(unpack_enter_prog_mode_response(&[0, 2, 1, 0]), Err(PacketError::Truncated));
    assert_eq!(unpack_enter_prog_mode_response(&[0, 2, 1]), Err(PacketError::Truncated));
    assert_eq!(unpack_leave_prog_mode_request(&[]), Err(PacketError::BadLength));
    assert_eq!(unpack_leave_prog_mode_response(&[0, 0]), Err(PacketError::BadLength));
    assert_eq!(unpack_leave_prog_mode_request(&[9]), Ok(CPSPacketL2::LeaveProgModeRequest));
    assert_eq!(unpack_leave_prog_mode_response(&[9]), Ok(CPSPacketL2::LeaveProgModeResponse));
    assert_eq!(unpack_get_string_request(&[]), Err(PacketError::BadLength));
    assert_eq!(unpack_get_string_request(&[1]), Err(PacketError::InvalidTag));
    assert_eq!(unpack_get_string_response(&[0; 7]), Err(PacketError::Truncated));
    assert_eq!(unpack_get_string_response(&[0, 0, 1, 0, 0, 0, 0, 0]), Err(PacketError::ReservedMismatch));
    assert_eq!(unpack_get_string_response(&[0, 0, 0, 0, 0, 0, 1, 0]), Err(PacketError::ReservedMismatch));
    assert_eq!(unpack_get_string_response(&[0, 0, 0, 0, 3, 0, 0, 0]), Err(PacketError::InvalidTag));
    assert_eq!(
        unpack_get_string_response(&[0, 0, 0, 0, 0, 0, 0, 0, 0x00, 0xd8]),
        Err(PacketError::InvalidText)
    );
    assert_eq!(
        unpack_get_string_response(&[7, 0, 0, 0, 0, 0, 0, 0, 0x41, 0, 0x42]),
        Ok(CPSPacketL2::GetStringResponse { what: StringReqType::RadioID, str: "A".to_string() })
    );
    assert_eq!(
        pack_read_codeplug_response(0, &vec![0u8; 0x10000]),
        Err(PacketError::PayloadTooLong)
    );
    assert_eq!(
        pack_write_codeplug_request(0, &vec![0u8; 0x10000]),
        Err(PacketError::PayloadTooLong)
    );
    assert_eq!(
        pack_enter_prog_mode_response(0, OpenMode::Read, &vec![0u8; 0x10000]),
        Err(PacketError::PayloadTooLong)
    );
}

#[test]
fn cps_tags() {
    assert_eq!(OpenMode::try_from(0), Ok(OpenMode::Read));
    assert_eq!(OpenMode::try_from(2), Ok(OpenMode::Write));
    assert_eq!(OpenMode::try_from(1), Err(PacketError::InvalidTag));
    assert_eq!(OpenMode::Write.tag(), 2);
    assert_eq!(StringReqType::try_from(0x12), Ok(StringReqType::Unknown1));
    assert_eq!(StringReqType::try_from(0x09), Ok(StringReqType::Unknown2));
    assert_eq!(StringReqType::try_from(0x13), Err(PacketError::InvalidTag));
    assert_eq!(Command::try_from(4), Ok(Command::Res));
    assert_eq!(Command::try_from(2), Err(PacketError::InvalidTag));
    assert_eq!(Command::Req.tag(), 1);
    assert_eq!(Flags::try_from(0xfe), Ok(Flags::Connnect));
    assert_eq!(Flags::try_from(0xfd), Ok(Flags::ResConnect));
    assert_eq!(Flags::try_from(0xff), Err(PacketError::InvalidTag));
    assert_eq!(Entity::try_from(0x20), Ok(Entity::Host));
    assert_eq!(Entity::try_from(0x10), Ok(Entity::Radio));
    assert_eq!(Entity::try_from(0x30), Err(PacketError::InvalidTag));
    assert_eq!(Entity::Radio.tag(), 0x10);
}

#[test]
fn packet_l1_known_bytes() {
    let pkt = PacketL1::new(Command::Connect, Flags::Connnect, None);
    assert_eq!(pkt.src, Entity::Host);
    assert_eq!(pkt.dst, Entity::Radio);
    assert_eq!(pkt.seq, 0);
    assert_eq!(
        pkt.pack().unwrap(),
        vec![0x7e, 0x00, 0x00, 0xfe, 0x20, 0x10, 0x00, 0x00, 0x00, 0x0c, 0x60, 0xe5]
    );
    let pkt = PacketL1 { seq: 0x1234, ..pkt };
    let b = pkt.pack().unwrap();
    assert_eq!(&b[6..10], &[0x12, 0x34, 0x00, 0x0c]);
    let mut zeroed = b.clone();
    zeroed[10] = 0;
    zeroed[11] = 0;
    assert_eq!(PacketL1::crc(&zeroed), u16::from_le_bytes([b[10], b[11]]));
}

#[test]
fn packet_l1_checksum_folds_and_handles_odd_lengths() {
    assert_eq!(PacketL1::crc(&vec![]), 0xffff);
    assert_eq!(PacketL1::crc(&vec![1]), 0xfffe);
    assert_eq!(PacketL1::crc(&vec![0x34, 0x12]), 0xffff - 0x1234);
    assert_eq!(PacketL1::crc(&vec![0x34, 0x12, 0x05]), 0xffff - 0x1239);
    assert_eq!(PacketL1::crc(&vec![0xff, 0xff, 0x02, 0x00]), 0xffff - 2);
    assert_eq!(PacketL1::crc(&vec![0xff; 8]), 0);
    assert_eq!(PacketL1::crc(&vec![0xff; 0xffff]), 0xffff - 0xff);
}

#[test]
fn packet_l1_serial_deserialise() {
    for p in cps_samples() {
        for (command, flags) in [(Command::Req, Flags::Default), (Command::Res, Flags::ResConnect)] {
            let pkt = PacketL1 {
                command,
                flags,
                src: Entity::Radio,
                dst: Entity::Host,
                seq: 0xbeef,
                payload: Some(L2::new(p.clone())),
            };
            let data = pkt.pack().unwrap();
            assert_eq!(PacketL1::unpack(&data).unwrap(), pkt);
            let mut padded = data.clone();
            padded.resize(1024, 0);
            assert_eq!(PacketL1::unpack(&padded).unwrap(), pkt);
        }
    }
    let bare = PacketL1::new(Command::Connect, Flags::Connnect, None);
    assert_eq!(PacketL1::unpack(&bare.pack().unwrap()).unwrap(), bare);
}

#[test]
fn packet_l1_pack_hdr_writes_over_the_start() {
    let mut buf = vec![0xeeu8; 20];
    let pkt = PacketL1::new(Command::Connect, Flags::Connnect, None);
    pkt.pack_hdr(0xabcd, &mut buf).unwrap();
    assert_eq!(buf.len(), 20);
    assert_eq!(&buf[..12], &[0x7e, 0, 0, 0xfe, 0x20, 0x10, 0, 0, 0, 12, 0xcd, 0xab]);
    assert_eq!(&buf[12..], &[0xee; 8]);
}

#[test]
fn packet_l1_errors() {
    let good = PacketL1::new(
        Command::Req,
        Flags::Default,
        Some(L2::new(CPSPacketL2::LeaveProgModeRequest)),
    )
    .pack()
    .unwrap();
    assert_eq!(PacketL1::unpack(&good[..11]), Err(PacketError::Truncated));
    let cases: Vec<(usize, u8, PacketError)> = vec![
        (0, 0x7f, PacketError::BadStart),
        (1, 2, PacketError::InvalidTag),
        (2, 1, PacketError::ReservedMismatch),
        (3, 1, PacketError::InvalidTag),
        (4, 0, PacketError::InvalidTag),
        (5, 0, PacketError::InvalidTag),
        (9, 11, PacketError::BadTotalLength),
        (12, 3, PacketError::BadStart),
        (19, 4, PacketError::BadEnd),
    ];
    for (at, value, error) in cases {
        let mut b = good.clone();
        b[at] = value;
        assert_eq!(PacketL1::unpack(&b), Err(error));
    }
    let mut b = good.clone();
    b[9] = 12;
    assert_eq!(PacketL1::unpack(&b).unwrap().payload, None);
    assert_eq!(PacketL1::unpack(&good[..19]), Err(PacketError::Truncated));
    let mut b = good.clone();
    b[10] ^= 0xff;
    assert!(PacketL1::unpack(&b).is_ok());
}

#[test]
fn fw_payload_known_bytes() {
    let samples = fw_samples();
    assert_eq!(samples[0].ser_payload().unwrap(), vec![0xfb, 0x10]);
    assert_eq!(samples[1].ser_payload().unwrap(), vec![0, 0]);
    assert_eq!(samples[2].ser_payload().unwrap(), vec![3, 0x34, 0x12, 0, 0, 128, 0]);
    assert_eq!(samples[3].ser_payload().unwrap(), vec![0, 3, 0x34, 0x12, 0, 0, 3, 0, 1, 2, 3]);
    assert_eq!(samples[4].ser_payload().unwrap()[..7], [0, 0x10, 0, 0, 0, 128, 0]);
    assert_eq!(samples[5].ser_payload().unwrap(), vec![1, 3, 0x10, 0, 0, 0, 128, 0]);
    let ids: Vec<u16> = samples.iter().map(|p| p.get_id()).collect();
    assert_eq!(ids, vec![0x0218, 0x0218, 0x01c2, 0x81c2, 0x01c3, 0x81c3]);
    let received = FwPacketL2::AccessMemoryResponse { status: FwMemAccessStatus::Success };
    assert_eq!(received.get_id(), 0x8218);
    assert_eq!(received.ser_payload(), Err(PacketError::Unsupported));
}

#[test]
fn fw_payload_round_trip() {
    for p in fw_samples() {
        let b = p.ser_payload().unwrap();
        assert_eq!(FwPacketL2::deser_payload(p.get_id(), &b).unwrap(), p);
    }
    assert_eq!(
        FwPacketL2::deser_payload(0x8218, &[0x5e]),
        Ok(FwPacketL2::AccessMemoryResponse { status: FwMemAccessStatus::Success })
    );
    assert_eq!(
        FwPacketL2::deser_payload(0x8218, &[0x5f, 1]),
        Ok(FwPacketL2::AccessMemoryResponse { status: FwMemAccessStatus::Fail })
    );
}

#[test]
fn fw_payload_errors() {
    assert_eq!(FwPacketL2::deser_payload(0x8218, &[]), Err(PacketError::Truncated));
    assert_eq!(FwPacketL2::deser_payload(0x0218, &[0xfb]), Err(PacketError::Truncated));
    assert_eq!(FwPacketL2::deser_payload(0x0218, &[0xfb, 0x11]), Err(PacketError::InvalidTag));
    assert_eq!(FwPacketL2::deser_payload(0x01c2, &[]), Err(PacketError::Truncated));
    assert_eq!(FwPacketL2::deser_payload(0x01c2, &[1, 0, 0, 0, 0, 0, 0]), Err(PacketError::InvalidTag));
    assert_eq!(FwPacketL2::deser_payload(0x01c2, &[3, 0, 0, 0, 0, 0]), Err(PacketError::Truncated));
    assert_eq!(FwPacketL2::deser_payload(0x81c2, &[0]), Err(PacketError::Truncated));
    assert_eq!(FwPacketL2::deser_payload(0x81c2, &[0, 3, 0, 0, 0, 0, 1, 0]), Err(PacketError::Truncated));
    assert_eq!(FwPacketL2::deser_payload(0x81c2, &[0, 9, 0, 0, 0, 0, 0, 0]), Err(PacketError::InvalidTag));
    assert_eq!(FwPacketL2::deser_payload(0x01c3, &[3, 0, 0, 0, 0, 2, 0, 1]), Err(PacketError::Truncated));
    assert_eq!(FwPacketL2::deser_payload(0x81c3, &[0, 3, 0, 0, 0, 0, 0]), Err(PacketError::Truncated));
    assert_eq!(FwPacketL2::deser_payload(0x9999, &[0]), Err(PacketError::UnknownKind(0x9999)));
    assert_eq!(FwMemory::try_from(0), Ok(FwMemory::CPU));
    assert_eq!(FwMemory::try_from(3), Ok(FwMemory::Codeplug));
    assert_eq!(FwMemory::try_from(1), Err(PacketError::InvalidTag));
    assert_eq!(FwMemAccess::try_from(0x10fb), Ok(FwMemAccess::EnableAccess));
    assert_eq!(FwMemAccess::try_from(0), Ok(FwMemAccess::DisableAcess));
    assert_eq!(FwMemAccess::try_from(1), Err(PacketError::InvalidTag));
    assert_eq!(FwMemAccessStatus::from(0x5e), FwMemAccessStatus::Success);
    assert_eq!(FwMemAccessStatus::from(0), FwMemAccessStatus::Fail);
}

#[test]
fn fw_packet_known_bytes() {
    let pkt = FwPacketL1::new(FwPacketL2::AccessMemoryRequest { access: FwMemAccess::EnableAccess });
    assert_eq!(
        pkt.pack().unwrap(),
        vec![13, 0, 0xd9, 0xdc, 0x02, 0x18, 0x02, 0x02, 0x00, 0xfb, 0x10, 0x0b, 0x03]
    );
    let mut buf = vec![0xeeu8; 15];
    pkt.pack_hdr(0x1234, &mut buf).unwrap();
    assert_eq!(&buf[..4], &[13, 0, 0x34, 0x12]);
    assert_eq!(&buf[13..], &[0xee, 0xee]);
}

#[test]
fn fw_packet_round_trip() {
    for p in fw_samples() {
        let pkt = FwPacketL1::new(p);
        let b = pkt.pack().unwrap();
        assert_eq!(u16::from_le_bytes([b[0], b[1]]) as usize, b.len());
        assert_eq!(FwPacketL1::unpack(&b).unwrap(), pkt);
    }
}

#[test]
fn fw_packet_errors() {
    assert_eq!(FwPacketL1::unpack(&[4, 0, 0]), Err(PacketError::Truncated));
    assert_eq!(FwPacketL1::unpack(&[3, 0, 0, 0]), Err(PacketError::BadTotalLength));
    assert_eq!(FwPacketL1::unpack(&[4, 0, 0, 0]), Err(PacketError::EmptyPayload));
    assert_eq!(FwPacketL1::unpack(&[5, 0, 0, 0]), Err(PacketError::Truncated));
    assert_eq!(FwPacketL1::unpack(&[5, 0, 0, 0, 9]), Err(PacketError::BadStart));
    let received = FwPacketL1::new(FwPacketL2::AccessMemoryResponse { status: FwMemAccessStatus::Fail });
    assert_eq!(received.pack(), Err(PacketError::Unsupported));
    let mut buf = vec![1u8, 2];
    assert_eq!(received.pack_hdr(0, &mut buf), Err(PacketError::Unsupported));
    assert_eq!(buf, vec![1u8, 2]);
}
