use codeplug::radio::common::L2;
use codeplug::radio::cps_packet::{Command, Entity, Flags, PacketL1};
use codeplug::radio::cps_payload::{CPSPacketL2, OpenMode};
use codeplug::radio::firmware::{FwMemAccess, FwMemAccessStatus, FwMemory, FwPacketL2};
use codeplug::radio::session::{
    bytes_left, calc_bytes_to_copy, cps_request, cps_response, seek_position, CPSMode,
    FirmwareMode, SeekTarget, SessionError, CPS_MEM_MAX_SZ,
};

fn from_radio(payload: Option<CPSPacketL2>) -> PacketL1 {
    PacketL1 {
        command: Command::Res,
        flags: Flags::Default,
        src: Entity::Radio,
        dst: Entity::Host,
        seq: 0,
        payload: payload.map(L2::new),
    }
}

#[test]
fn transfer_window() {
    assert_eq!(CPS_MEM_MAX_SZ, 0x1A5B00);
    assert_eq!(bytes_left(0), 0x1A5B00);
    assert_eq!(bytes_left(0x1A5B00), 0);
    assert_eq!(bytes_left(0x1A5B01), 0);
    assert_eq!(calc_bytes_to_copy(0, 0x100, 1000), 0x100);
    assert_eq!(calc_bytes_to_copy(0, 0x100, 10), 10);
    assert_eq!(calc_bytes_to_copy(0x1A5B00 - 5, 0x100, 10), 5);
    assert_eq!(calc_bytes_to_copy(0x1A5B00, 0x100, 10), 0);
    assert_eq!(calc_bytes_to_copy(7, 128, 128), 128);
}

#[test]
fn seeking() {
    assert_eq!(seek_position(5, SeekTarget::Start(100)), Some(100));
    assert_eq!(seek_position(5, SeekTarget::Current(10)), Some(15));
    assert_eq!(seek_position(5, SeekTarget::Current(-5)), Some(0));
    assert_eq!(seek_position(5, SeekTarget::Current(-6)), None);
    assert_eq!(seek_position(5, SeekTarget::Current(i64::MIN)), None);
    assert_eq!(seek_position(usize::MAX, SeekTarget::Current(1)), None);
    assert_eq!(seek_position(5, SeekTarget::End(0)), Some(0x1A5B00));
    assert_eq!(seek_position(5, SeekTarget::End(0x1A5B00)), Some(0));
    assert_eq!(seek_position(5, SeekTarget::End(0x1A5B01)), None);
}

#[test]
fn cps_session_opens() {
    let mut mode = CPSMode::new(OpenMode::Write);
    assert!(!mode.entered_prog_mode);
    assert_eq!(mode.leave_request(), None);
    assert_eq!(CPSMode::get_chunk_sz(), 0x100);
    assert_eq!(
        CPSMode::get_vid_pid_eps(),
        vec![(0x238b, 0x0a11, 0x04), (0x238b, 0x0a12, 0x02), (0x238b, 0x0a21, 0x04)]
    );
    let connect = CPSMode::connect_request();
    assert_eq!(connect, PacketL1::new(Command::Connect, Flags::Connnect, None));
    let mut answer = from_radio(None);
    assert_eq!(CPSMode::connected(&answer), Err(SessionError::UnexpectedResponse));
    answer.flags = Flags::ResConnect;
    assert_eq!(CPSMode::connected(&answer), Ok(()));
    answer.command = Command::Req;
    assert_eq!(CPSMode::connected(&answer), Err(SessionError::UnexpectedResponse));
    assert_eq!(mode.enter_request(), CPSPacketL2::EnterProogModeRequest { mode: OpenMode::Write });
    let refused =
        Some(CPSPacketL2::EnterProogModeResponse { status: 3, mode: OpenMode::Write, head_data: vec![] });
    assert_eq!(mode.entered(&refused), Err(SessionError::Refused(3)));
    let other =
        Some(CPSPacketL2::EnterProogModeResponse { status: 0, mode: OpenMode::Read, head_data: vec![] });
    assert_eq!(mode.entered(&other), Err(SessionError::ModeMismatch));
    assert_eq!(mode.entered(&None), Err(SessionError::UnexpectedResponse));
    assert_eq!(
        mode.entered(&Some(CPSPacketL2::LeaveProgModeResponse)),
        Err(SessionError::UnexpectedResponse)
    );
    assert!(!mode.entered_prog_mode);
    let fine =
        Some(CPSPacketL2::EnterProogModeResponse { status: 0, mode: OpenMode::Write, head_data: vec![1] });
    assert_eq!(mode.entered(&fine), Ok(()));
    assert!(mode.entered_prog_mode);
    assert_eq!(mode.leave_request(), Some(CPSPacketL2::LeaveProgModeRequest));
    assert_eq!(CPSMode::left(&Some(CPSPacketL2::LeaveProgModeResponse)), Ok(()));
    assert_eq!(CPSMode::left(&None), Err(SessionError::UnexpectedResponse));
}

#[test]
fn cps_requests_and_responses() {
    let request = cps_request(CPSPacketL2::LeaveProgModeRequest);
    assert_eq!(request.command, Command::Req);
    assert_eq!(request.flags, Flags::Default);
    assert_eq!(request.src, Entity::Host);
    assert_eq!(request.dst, Entity::Radio);
    assert_eq!(request.payload, Some(L2::new(CPSPacketL2::LeaveProgModeRequest)));
    assert_eq!(cps_response(from_radio(None)), Ok(None));
    assert_eq!(
        cps_response(from_radio(Some(CPSPacketL2::LeaveProgModeResponse))),
        Ok(Some(CPSPacketL2::LeaveProgModeResponse))
    );
    assert_eq!(cps_response(request), Err(SessionError::UnexpectedResponse));
    let mut wrong = from_radio(None);
    wrong.flags = Flags::ResConnect;
    assert_eq!(cps_response(wrong), Err(SessionError::UnexpectedResponse));
    assert_eq!(
        CPSMode::read_request(0x1234, 0x100),
        Ok(CPSPacketL2::ReadCodeplugRequest { addr: 0x1234, len: 0x100 })
    );
    assert_eq!(CPSMode::read_request(0, 0x10000), Err(SessionError::BlockTooLong));
    assert_eq!(CPSMode::read_request(u32::MAX as usize, 1).unwrap(), CPSPacketL2::ReadCodeplugRequest { addr: u32::MAX, len: 1 });
    if usize::BITS > 32 {
        let beyond = (u32::MAX as u64 + 1) as usize;
        assert_eq!(CPSMode::read_request(beyond, 1), Err(SessionError::AddressTooLarge));
        assert_eq!(CPSMode::write_request(beyond, vec![]), Err(SessionError::AddressTooLarge));
        assert_eq!(FirmwareMode::read_request(beyond, 1), Err(SessionError::AddressTooLarge));
        assert_eq!(FirmwareMode::write_request(beyond, vec![]), Err(SessionError::AddressTooLarge));
    }
    let data = Some(CPSPacketL2::ReadCodeplugResponse { addr: 8, payload: vec![1, 2, 3] });
    assert_eq!(CPSMode::read_response(data.clone(), 8, 3), Ok(vec![1, 2, 3]));
    assert_eq!(CPSMode::read_response(data.clone(), 9, 3), Err(SessionError::AddressMismatch));
    assert_eq!(CPSMode::read_response(data, 8, 4), Err(SessionError::LengthMismatch));
    assert_eq!(CPSMode::read_response(None, 8, 4), Err(SessionError::UnexpectedResponse));
    assert_eq!(
        CPSMode::write_request(16, vec![7, 7]),
        Ok(CPSPacketL2::WriteCodeplugRequest { addr: 16, payload: vec![7, 7] })
    );
    let done = Some(CPSPacketL2::WriteCodeplugResponse { addr: 16, len: 2 });
    assert_eq!(CPSMode::write_response(&done, 16, 2), Ok(()));
    assert_eq!(CPSMode::write_response(&done, 17, 2), Err(SessionError::AddressMismatch));
    assert_eq!(CPSMode::write_response(&done, 16, 3), Err(SessionError::LengthMismatch));
    assert_eq!(CPSMode::write_response(&None, 16, 2), Err(SessionError::UnexpectedResponse));
}

#[test]
fn firmware_session() {
    let _ = FirmwareMode::new();
    assert_eq!(FirmwareMode::get_chunk_sz(), 128);
    assert_eq!(FirmwareMode::get_vid_pid_eps(), vec![(0x8765, 0x1234, 0x01)]);
    assert_eq!(
        FirmwareMode::access_request(true),
        FwPacketL2::AccessMemoryRequest { access: FwMemAccess::EnableAccess }
    );
    assert_eq!(
        FirmwareMode::access_request(false),
        FwPacketL2::AccessMemoryRequest { access: FwMemAccess::DisableAcess }
    );
    let granted = FwPacketL2::AccessMemoryResponse { status: FwMemAccessStatus::Success };
    let denied = FwPacketL2::AccessMemoryResponse { status: FwMemAccessStatus::Fail };
    assert_eq!(FirmwareMode::access_response(&granted), Ok(()));
    assert_eq!(FirmwareMode::access_response(&denied), Err(SessionError::AccessDenied));
    assert_eq!(
        FirmwareMode::access_response(&FirmwareMode::access_request(true)),
        Err(SessionError::UnexpectedResponse)
    );
    assert_eq!(
        FirmwareMode::read_request(0x20, 128),
        Ok(FwPacketL2::ReadMemoryRequest { addr: 0x20, len: 128, mem: FwMemory::Codeplug })
    );
    assert_eq!(FirmwareMode::read_request(0, 0x10000), Err(SessionError::BlockTooLong));
    let data = |addr: u32, status: u8, mem: FwMemory| FwPacketL2::ReadMemoryResponse {
        addr,
        status,
        mem,
        payload: vec![1, 2],
    };
    assert_eq!(FirmwareMode::read_response(data(4, 0, FwMemory::Codeplug), 4, 2), Ok(vec![1, 2]));
    assert_eq!(
        FirmwareMode::read_response(data(5, 0, FwMemory::Codeplug), 4, 2),
        Err(SessionError::AddressMismatch)
    );
    assert_eq!(
        FirmwareMode::read_response(data(4, 0, FwMemory::Codeplug), 4, 3),
        Err(SessionError::LengthMismatch)
    );
    assert_eq!(
        FirmwareMode::read_response(data(4, 0, FwMemory::CPU), 4, 2),
        Err(SessionError::MemoryMismatch)
    );
    assert_eq!(
        FirmwareMode::read_response(data(4, 9, FwMemory::Codeplug), 4, 2),
        Err(SessionError::Failed(9))
    );
    assert_eq!(FirmwareMode::read_response(granted, 4, 2), Err(SessionError::UnexpectedResponse));
    assert_eq!(
        FirmwareMode::write_request(4, vec![1]),
        Ok(FwPacketL2::WriteMemoryRequest { mem: FwMemory::Codeplug, addr: 4, payload: vec![1] })
    );
    let done = |status: u8, mem: FwMemory| FwPacketL2::WriteMemoryResponse {
        status,
        mem,
        addr: 4,
        len: 1,
    };
    assert_eq!(FirmwareMode::write_response(&done(0, FwMemory::Codeplug), 4, 1), Ok(()));
    assert_eq!(
        FirmwareMode::write_response(&done(0, FwMemory::Codeplug), 5, 1),
        Err(SessionError::AddressMismatch)
    );
    assert_eq!(
        FirmwareMode::write_response(&done(0, FwMemory::Codeplug), 4, 2),
        Err(SessionError::LengthMismatch)
    );
    assert_eq!(
        FirmwareMode::write_response(&done(2, FwMemory::Codeplug), 4, 1),
        Err(SessionError::Failed(2))
    );
    assert_eq!(
        FirmwareMode::write_response(&done(0, FwMemory::CPU), 4, 1),
        Err(SessionError::MemoryMismatch)
    );
    assert_eq!(
        FirmwareMode::write_response(&denied, 4, 1),
        Err(SessionError::UnexpectedResponse)
    );
}
