//! What a programming session decides: which packet to send next, whether
//! the answer of the radio is the expected one, and how far a transfer may
//! go. Sending and receiving is left to the caller.

use crate::radio::common::L2;
use crate::radio::cps_packet::{Command, Entity, Flags, PacketL1};
use crate::radio::cps_payload::{CPSPacketL2, OpenMode};
use crate::radio::firmware::{FwMemAccess, FwMemAccessStatus, FwMemory, FwPacketL2};
use vstd::prelude::*;

verus! {

/// Size in bytes of the codeplug memory of a radio.
pub const CPS_MEM_MAX_SZ: usize = 0x1A5B00;

/// Why a session cannot go on.
#[derive(Clone, Copy, Debug, PartialEq, Eq, Structural)]
pub enum SessionError {
    /// The radio answered with a packet of another kind than expected.
    UnexpectedResponse,
    /// The radio refused to enter programming mode, with this status.
    Refused(u8),
    /// The radio entered another mode than it was asked to.
    ModeMismatch,
    /// The radio answered for another address than it was asked for.
    AddressMismatch,
    /// The radio answered with another number of bytes than it was asked
    /// for.
    LengthMismatch,
    /// The radio answered for another memory than it was asked for.
    MemoryMismatch,
    /// The radio did not grant or give up access to its memory.
    AccessDenied,
    /// The radio reported a failure, with this status.
    Failed(u8),
    /// The address is beyond what a packet can say.
    AddressTooLarge,
    /// The block is longer than a packet can carry.
    BlockTooLong,
}

/// Where to move the place of a transfer to.
#[derive(Clone, Copy, Debug, PartialEq, Eq, Structural)]
pub enum SeekTarget {
    /// So many bytes from the start of the memory.
    Start(u64),
    /// So many bytes from the present place, back where negative.
    Current(i64),
    /// So many bytes before the end of the memory.
    End(u64),
}

/// The place that a seek leads to from the place `pos`, if it lies in what
/// this machine can index.
pub open spec fn seek_spec(pos: usize, target: SeekTarget) -> Option<usize> {
    match target {
        SeekTarget::Start(n) => if n <= usize::MAX {
            Some(n as usize)
        } else {
            None
        },
        SeekTarget::Current(n) => if 0 <= pos + n <= usize::MAX {
            Some((pos + n) as usize)
        } else {
            None
        },
        SeekTarget::End(n) => if n <= 0x1A5B00 {
            Some((0x1A5B00 - n) as usize)
        } else {
            None
        },
    }
}

/// The place that a seek leads to from the place `pos`.
pub fn seek_position(pos: usize, target: SeekTarget) -> (r: Option<usize>)
    ensures
        r == seek_spec(pos, target),
{
    match target {
        SeekTarget::Start(n) => if n <= usize::MAX as u64 {
            Some(n as usize)
        } else {
            None
        },
        SeekTarget::Current(n) => {
            if n >= 0 {
                if n as u64 <= (usize::MAX - pos) as u64 {
                    Some(pos + n as usize)
                } else {
                    None
                }
            } else {
                let back: u64 = if n == i64::MIN {
                    0x8000_0000_0000_0000
                } else {
                    (-n) as u64
                };
                if back <= pos as u64 {
                    Some(pos - back as usize)
                } else {
                    None
                }
            }
        },
        SeekTarget::End(n) => if n <= CPS_MEM_MAX_SZ as u64 {
            Some(CPS_MEM_MAX_SZ - n as usize)
        } else {
            None
        },
    }
}

/// Number of bytes of the memory that lie behind the place `pos`.
pub open spec fn spec_bytes_left(pos: usize) -> usize {
    if pos <= 0x1A5B00 {
        (0x1A5B00 - pos) as usize
    } else {
        0
    }
}

/// Number of bytes of the memory that lie behind the place `pos`.
pub fn bytes_left(pos: usize) -> (r: usize)
    ensures
        r == spec_bytes_left(pos),
{
    if pos <= CPS_MEM_MAX_SZ {
        CPS_MEM_MAX_SZ - pos
    } else {
        0
    }
}

/// How many bytes one exchange moves: the least of the chunk size of the
/// protocol, the bytes left in the memory, and the length of the buffer.
pub fn calc_bytes_to_copy(pos: usize, chunk_sz: usize, buf_len: usize) -> (r: usize)
    ensures
        r <= chunk_sz,
        r <= spec_bytes_left(pos),
        r <= buf_len,
        r == chunk_sz || r == spec_bytes_left(pos) || r == buf_len,
{
    let left = bytes_left(pos);
    let room = if left < buf_len {
        left
    } else {
        buf_len
    };
    if chunk_sz < room {
        chunk_sz
    } else {
        room
    }
}

/// The packet that carries a request of the programming protocol: from the
/// host to the radio, with the default flags.
pub fn cps_request(pkt: CPSPacketL2) -> (r: PacketL1)
    ensures
        r == (PacketL1 {
            command: Command::Req,
            flags: Flags::Default,
            src: Entity::Host,
            dst: Entity::Radio,
            seq: 0,
            payload: Some(L2 { payload: pkt }),
        }),
{
    PacketL1::new(Command::Req, Flags::Default, Some(L2::new(pkt)))
}

/// Whether a packet is a response from the radio to the host with the
/// default flags.
pub open spec fn is_response(p: PacketL1) -> bool {
    p.command == Command::Res && p.flags == Flags::Default && p.src == Entity::Radio && p.dst
        == Entity::Host
}

/// The payload of the answer to a request: the answer is a response from the
/// radio to the host with the default flags, else it is refused.
pub fn cps_response(response: PacketL1) -> (r: Result<Option<CPSPacketL2>, SessionError>)
    ensures
        r == if is_response(response) {
            Ok::<Option<CPSPacketL2>, SessionError>(
                match response.payload {
                    Some(l2) => Some(l2.payload),
                    None => None,
                },
            )
        } else {
            Err::<Option<CPSPacketL2>, SessionError>(SessionError::UnexpectedResponse)
        },
{
    match (response.command, response.flags, response.src, response.dst) {
        (Command::Res, Flags::Default, Entity::Radio, Entity::Host) => {},
        _ => {
            return Err(SessionError::UnexpectedResponse);
        },
    }
    match response.payload {
        Some(l2) => Ok(Some(l2.payload)),
        None => Ok(None),
    }
}

/// What the answer to a request to enter programming mode in the mode `mode`
/// says: `Ok` where the radio answers with status zero and that mode.
pub open spec fn entered_spec(mode: OpenMode, response: Option<CPSPacketL2>) -> Result<
    (),
    SessionError,
> {
    match response {
        Some(CPSPacketL2::EnterProogModeResponse { status, mode: m, .. }) => if status != 0 {
            Err(SessionError::Refused(status))
        } else if m != mode {
            Err(SessionError::ModeMismatch)
        } else {
            Ok(())
        },
        _ => Err(SessionError::UnexpectedResponse),
    }
}

/// What the answer to a request to read `len` bytes at the place `pos`
/// carries: the bytes, where the answer is for that place and has that many.
pub open spec fn cps_read_spec(response: Option<CPSPacketL2>, pos: usize, len: usize) -> Result<
    Seq<u8>,
    SessionError,
> {
    match response {
        Some(CPSPacketL2::ReadCodeplugResponse { addr, payload }) => if addr != pos {
            Err(SessionError::AddressMismatch)
        } else if payload@.len() != len {
            Err(SessionError::LengthMismatch)
        } else {
            Ok(payload@)
        },
        _ => Err(SessionError::UnexpectedResponse),
    }
}

/// What the answer to a request to write `len` bytes at the place `pos`
/// says: `Ok` where the answer is for that place and that many bytes.
pub open spec fn cps_write_spec(response: Option<CPSPacketL2>, pos: usize, len: usize) -> Result<
    (),
    SessionError,
> {
    match response {
        Some(CPSPacketL2::WriteCodeplugResponse { addr, len: n }) => if addr != pos {
            Err(SessionError::AddressMismatch)
        } else if n != len {
            Err(SessionError::LengthMismatch)
        } else {
            Ok(())
        },
        _ => Err(SessionError::UnexpectedResponse),
    }
}

/// What the answer to a request for access says.
pub open spec fn fw_access_spec(response: FwPacketL2) -> Result<(), SessionError> {
    match response {
        FwPacketL2::AccessMemoryResponse { status } => if status == FwMemAccessStatus::Success {
            Ok(())
        } else {
            Err(SessionError::AccessDenied)
        },
        _ => Err(SessionError::UnexpectedResponse),
    }
}

/// What the answer to a request to read `len` bytes of the codeplug memory
/// at the place `pos` carries.
pub open spec fn fw_read_spec(response: FwPacketL2, pos: usize, len: usize) -> Result<
    Seq<u8>,
    SessionError,
> {
    match response {
        FwPacketL2::ReadMemoryResponse { addr, status, mem, payload } => if addr != pos {
            Err(SessionError::AddressMismatch)
        } else if payload@.len() != len {
            Err(SessionError::LengthMismatch)
        } else if mem != FwMemory::Codeplug {
            Err(SessionError::MemoryMismatch)
        } else if status != 0 {
            Err(SessionError::Failed(status))
        } else {
            Ok(payload@)
        },
        _ => Err(SessionError::UnexpectedResponse),
    }
}

/// What the answer to a request to write `len` bytes to the codeplug memory
/// at the place `pos` says.
pub open spec fn fw_write_spec(response: FwPacketL2, pos: usize, len: usize) -> Result<
    (),
    SessionError,
> {
    match response {
        FwPacketL2::WriteMemoryResponse { status, mem, addr, len: n } => if addr != pos {
            Err(SessionError::AddressMismatch)
        } else if n != len {
            Err(SessionError::LengthMismatch)
        } else if status != 0 {
            Err(SessionError::Failed(status))
        } else if mem != FwMemory::Codeplug {
            Err(SessionError::MemoryMismatch)
        } else {
            Ok(())
        },
        _ => Err(SessionError::UnexpectedResponse),
    }
}

/// The state of a session of the programming protocol.
#[derive(Clone, Copy, Debug, PartialEq, Eq, Structural)]
pub struct CPSMode {
    pub mode: OpenMode,
    pub entered_prog_mode: bool,
}

/// Number of bytes that one exchange of the programming protocol moves.
pub const CPS_CHUNK_SZ: usize = 0x100;

impl CPSMode {
    /// A session that has not entered programming mode yet.
    pub fn new(mode: OpenMode) -> (r: CPSMode)
        ensures
            r == (CPSMode { mode, entered_prog_mode: false }),
    {
        CPSMode { mode, entered_prog_mode: false }
    }

    /// Vendor number, product number and endpoint of the radios that speak
    /// the programming protocol.
    pub fn get_vid_pid_eps() -> (r: Vec<(u16, u16, u8)>)
        ensures
            r@ == seq![(0x238bu16, 0x0a11u16, 0x04u8), (0x238bu16, 0x0a12u16, 0x02u8), (
                0x238bu16,
                0x0a21u16,
                0x04u8,
            )],
    {
        let mut r: Vec<(u16, u16, u8)> = Vec::new();
        r.push((0x238b, 0x0a11, 0x04));
        r.push((0x238b, 0x0a12, 0x02));
        r.push((0x238b, 0x0a21, 0x04));
        r
    }

    /// Number of bytes that one exchange moves.
    pub fn get_chunk_sz() -> (r: usize)
        ensures
            r == 0x100,
    {
        CPS_CHUNK_SZ
    }

    /// The packet that opens the connection.
    pub fn connect_request() -> (r: PacketL1)
        ensures
            r == (PacketL1 {
                command: Command::Connect,
                flags: Flags::Connnect,
                src: Entity::Host,
                dst: Entity::Radio,
                seq: 0,
                payload: None,
            }),
    {
        PacketL1::new(Command::Connect, Flags::Connnect, None)
    }

    /// Whether a packet is the answer that accepts the connection: a
    /// response with the flags of an accepted connection.
    pub fn connected(response: &PacketL1) -> (r: Result<(), SessionError>)
        ensures
            r == if response.command == Command::Res && response.flags == Flags::ResConnect {
                Ok::<(), SessionError>(())
            } else {
                Err::<(), SessionError>(SessionError::UnexpectedResponse)
            },
    {
        match (response.command, response.flags) {
            (Command::Res, Flags::ResConnect) => Ok(()),
            _ => Err(SessionError::UnexpectedResponse),
        }
    }

    /// The request to enter programming mode in the mode of the session.
    pub fn enter_request(&self) -> (r: CPSPacketL2)
        ensures
            r == (CPSPacketL2::EnterProogModeRequest { mode: self.mode }),
    {
        CPSPacketL2::EnterProogModeRequest { mode: self.mode }
    }

    /// Takes the answer to the request to enter programming mode. The
    /// session has entered programming mode where the radio answers with
    /// status zero and the mode of the session.
    pub fn entered(&mut self, response: &Option<CPSPacketL2>) -> (r: Result<(), SessionError>)
        ensures
            final(self).mode == old(self).mode,
            r == entered_spec(old(self).mode, *response),
            final(self).entered_prog_mode == (old(self).entered_prog_mode || r is Ok),
    {
        match response {
            Some(CPSPacketL2::EnterProogModeResponse { status, mode, .. }) => {
                if *status != 0 {
                    return Err(SessionError::Refused(*status));
                }
                let same = match (*mode, self.mode) {
                    (OpenMode::Read, OpenMode::Read) => true,
                    (OpenMode::Write, OpenMode::Write) => true,
                    _ => false,
                };
                if !same {
                    return Err(SessionError::ModeMismatch);
                }
                self.entered_prog_mode = true;
                Ok(())
            },
            _ => Err(SessionError::UnexpectedResponse),
        }
    }

    /// The request to read `len` bytes at the place `pos`.
    pub fn read_request(pos: usize, len: usize) -> (r: Result<CPSPacketL2, SessionError>)
        ensures
            match r {
                Ok(p) => pos <= u32::MAX && len <= u16::MAX && p
                    == (CPSPacketL2::ReadCodeplugRequest { addr: pos as u32, len: len as u16 }),
                Err(e) => if pos > u32::MAX {
                    e == SessionError::AddressTooLarge
                } else {
                    e == SessionError::BlockTooLong && len > u16::MAX
                },
            },
    {
        if pos > u32::MAX as usize {
            return Err(SessionError::AddressTooLarge);
        }
        if len > u16::MAX as usize {
            return Err(SessionError::BlockTooLong);
        }
        Ok(CPSPacketL2::ReadCodeplugRequest { addr: pos as u32, len: len as u16 })
    }

    /// The bytes that the radio sent in answer to a request to read `len`
    /// bytes at the place `pos`.
    pub fn read_response(response: Option<CPSPacketL2>, pos: usize, len: usize) -> (r: Result<
        Vec<u8>,
        SessionError,
    >)
        ensures
            match r {
                Ok(bytes) => cps_read_spec(response, pos, len) == Ok::<Seq<u8>, SessionError>(
                    bytes@,
                ),
                Err(e) => cps_read_spec(response, pos, len) == Err::<Seq<u8>, SessionError>(e),
            },
    {
        match response {
            Some(CPSPacketL2::ReadCodeplugResponse { addr, payload }) => {
                if addr as usize != pos {
                    return Err(SessionError::AddressMismatch);
                }
                if payload.len() != len {
                    return Err(SessionError::LengthMismatch);
                }
                Ok(payload)
            },
            _ => Err(SessionError::UnexpectedResponse),
        }
    }

    /// The request to write `payload` at the place `pos`.
    pub fn write_request(pos: usize, payload: Vec<u8>) -> (r: Result<CPSPacketL2, SessionError>)
        ensures
            match r {
                Ok(p) => pos <= u32::MAX && p == (CPSPacketL2::WriteCodeplugRequest {
                    addr: pos as u32,
                    payload,
                }),
                Err(e) => e == SessionError::AddressTooLarge && pos > u32::MAX,
            },
    {
        if pos > u32::MAX as usize {
            return Err(SessionError::AddressTooLarge);
        }
        Ok(CPSPacketL2::WriteCodeplugRequest { addr: pos as u32, payload })
    }

    /// Whether the radio confirmed a request to write `len` bytes at the
    /// place `pos`.
    pub fn write_response(response: &Option<CPSPacketL2>, pos: usize, len: usize) -> (r: Result<
        (),
        SessionError,
    >)
        ensures
            r == cps_write_spec(*response, pos, len),
    {
        match response {
            Some(CPSPacketL2::WriteCodeplugResponse { addr, len: n }) => {
                if *addr as usize != pos {
                    return Err(SessionError::AddressMismatch);
                }
                if *n as usize != len {
                    return Err(SessionError::LengthMismatch);
                }
                Ok(())
            },
            _ => Err(SessionError::UnexpectedResponse),
        }
    }

    /// The request that ends the session, where the session has entered
    /// programming mode.
    pub fn leave_request(&self) -> (r: Option<CPSPacketL2>)
        ensures
            r == if self.entered_prog_mode {
                Some(CPSPacketL2::LeaveProgModeRequest)
            } else {
                None
            },
    {
        if self.entered_prog_mode {
            Some(CPSPacketL2::LeaveProgModeRequest)
        } else {
            None
        }
    }

    /// Whether the radio confirmed that it left programming mode.
    pub fn left(response: &Option<CPSPacketL2>) -> (r: Result<(), SessionError>)
        ensures
            r == match response {
                Some(CPSPacketL2::LeaveProgModeResponse) => Ok::<(), SessionError>(()),
                _ => Err::<(), SessionError>(SessionError::UnexpectedResponse),
            },
    {
        match response {
            Some(CPSPacketL2::LeaveProgModeResponse) => Ok(()),
            _ => Err(SessionError::UnexpectedResponse),
        }
    }
}

/// The state of a session of the firmware update protocol, which has none.
#[derive(Clone, Copy, Debug, PartialEq, Eq, Structural)]
pub struct FirmwareMode {
}

/// Number of bytes that one exchange of the firmware update protocol moves.
pub const FW_CHUNK_SZ: usize = 128;

impl FirmwareMode {
    /// A session.
    pub fn new() -> (r: FirmwareMode) {
        FirmwareMode {  }
    }

    /// Vendor number, product number and endpoint of the radios that speak
    /// the firmware update protocol.
    pub fn get_vid_pid_eps() -> (r: Vec<(u16, u16, u8)>)
        ensures
            r@ == seq![(0x8765u16, 0x1234u16, 0x01u8)],
    {
        let mut r: Vec<(u16, u16, u8)> = Vec::new();
        r.push((0x8765, 0x1234, 0x01));
        r
    }

    /// Number of bytes that one exchange moves.
    pub fn get_chunk_sz() -> (r: usize)
        ensures
            r == 128,
    {
        FW_CHUNK_SZ
    }

    /// The request for access to the memory, or to give it up.
    pub fn access_request(enable: bool) -> (r: FwPacketL2)
        ensures
            r == (FwPacketL2::AccessMemoryRequest {
                access: if enable {
                    FwMemAccess::EnableAccess
                } else {
                    FwMemAccess::DisableAcess
                },
            }),
    {
        if enable {
            FwPacketL2::AccessMemoryRequest { access: FwMemAccess::EnableAccess }
        } else {
            FwPacketL2::AccessMemoryRequest { access: FwMemAccess::DisableAcess }
        }
    }

    /// Whether the radio did what a request for access asked for.
    pub fn access_response(response: &FwPacketL2) -> (r: Result<(), SessionError>)
        ensures
            r == fw_access_spec(*response),
    {
        match response {
            FwPacketL2::AccessMemoryResponse { status } => match status {
                FwMemAccessStatus::Success => Ok(()),
                FwMemAccessStatus::Fail => Err(SessionError::AccessDenied),
            },
            _ => Err(SessionError::UnexpectedResponse),
        }
    }

    /// The request to read `len` bytes of the codeplug memory at the place
    /// `pos`.
    pub fn read_request(pos: usize, len: usize) -> (r: Result<FwPacketL2, SessionError>)
        ensures
            match r {
                Ok(p) => pos <= u32::MAX && len <= u16::MAX && p == (FwPacketL2::ReadMemoryRequest {
                    addr: pos as u32,
                    len: len as u16,
                    mem: FwMemory::Codeplug,
                }),
                Err(e) => if pos > u32::MAX {
                    e == SessionError::AddressTooLarge
                } else {
                    e == SessionError::BlockTooLong && len > u16::MAX
                },
            },
    {
        if pos > u32::MAX as usize {
            return Err(SessionError::AddressTooLarge);
        }
        if len > u16::MAX as usize {
            return Err(SessionError::BlockTooLong);
        }
        Ok(FwPacketL2::ReadMemoryRequest { addr: pos as u32, len: len as u16, mem: FwMemory::Codeplug })
    }

    /// The bytes that the radio sent in answer to a request to read `len`
    /// bytes of the codeplug memory at the place `pos`.
    pub fn read_response(response: FwPacketL2, pos: usize, len: usize) -> (r: Result<
        Vec<u8>,
        SessionError,
    >)
        ensures
            match r {
                Ok(bytes) => fw_read_spec(response, pos, len) == Ok::<Seq<u8>, SessionError>(
                    bytes@,
                ),
                Err(e) => fw_read_spec(response, pos, len) == Err::<Seq<u8>, SessionError>(e),
            },
    {
        match response {
            FwPacketL2::ReadMemoryResponse { addr, status, mem, payload } => {
                if addr as usize != pos {
                    return Err(SessionError::AddressMismatch);
                }
                if payload.len() != len {
                    return Err(SessionError::LengthMismatch);
                }
                match mem {
                    FwMemory::Codeplug => {},
                    FwMemory::CPU => {
                        return Err(SessionError::MemoryMismatch);
                    },
                }
                if status != 0 {
                    return Err(SessionError::Failed(status));
                }
                Ok(payload)
            },
            _ => Err(SessionError::UnexpectedResponse),
        }
    }

    /// The request to write `payload` to the codeplug memory at the place
    /// `pos`.
    pub fn write_request(pos: usize, payload: Vec<u8>) -> (r: Result<FwPacketL2, SessionError>)
        ensures
            match r {
                Ok(p) => pos <= u32::MAX && p == (FwPacketL2::WriteMemoryRequest {
                    mem: FwMemory::Codeplug,
                    addr: pos as u32,
                    payload,
                }),
                Err(e) => e == SessionError::AddressTooLarge && pos > u32::MAX,
            },
    {
        if pos > u32::MAX as usize {
            return Err(SessionError::AddressTooLarge);
        }
        Ok(FwPacketL2::WriteMemoryRequest { mem: FwMemory::Codeplug, addr: pos as u32, payload })
    }

    /// Whether the radio confirmed a request to write `len` bytes to the
    /// codeplug memory at the place `pos`.
    pub fn write_response(response: &FwPacketL2, pos: usize, len: usize) -> (r: Result<
        (),
        SessionError,
    >)
        ensures
            r == fw_write_spec(*response, pos, len),
    {
        match response {
            FwPacketL2::WriteMemoryResponse { status, mem, addr, len: n } => {
                if *addr as usize != pos {
                    return Err(SessionError::AddressMismatch);
                }
                if *n as usize != len {
                    return Err(SessionError::LengthMismatch);
                }
                if *status != 0 {
                    return Err(SessionError::Failed(*status));
                }
                match mem {
                    FwMemory::Codeplug => Ok(()),
                    FwMemory::CPU => Err(SessionError::MemoryMismatch),
                }
            },
            _ => Err(SessionError::UnexpectedResponse),
        }
    }
}

} // verus!
