//! The payloads of the programming protocol: entering and leaving
//! programming mode, reading and writing codeplug memory, and asking the
//! radio for a text.

use crate::bytes::{
    get_u16, get_u32, lemma_prefix_kept, lemma_u16_le_roundtrip, put_bytes, put_u16, put_u32,
    u16_at, u16_le_bytes, u32_at, u32_le_bytes, zeros,
};
use crate::radio::common::{lemma_block_layout, L2Payload, PacketError};
use crate::utf16::{
    decode_utf16, encode_utf16, lemma_utf16_roundtrip, utf16_decode, utf16_encode,
};
use vstd::prelude::*;

verus! {

/// Which text a request asks the radio for.
#[derive(Debug, PartialEq, Eq, Clone, Copy, Structural)]
pub enum StringReqType {
    RadioID,
    Unknown1,
    Unknown2,
}

impl StringReqType {
    /// The number that stands for a kind of text in a packet.
    pub open spec fn spec_tag(self) -> u8 {
        match self {
            StringReqType::RadioID => 0x00,
            StringReqType::Unknown1 => 0x12,
            StringReqType::Unknown2 => 0x09,
        }
    }

    /// The kind of text that a number stands for, if any.
    pub open spec fn spec_try_from(v: u8) -> Option<StringReqType> {
        if v == 0x00 {
            Some(StringReqType::RadioID)
        } else if v == 0x12 {
            Some(StringReqType::Unknown1)
        } else if v == 0x09 {
            Some(StringReqType::Unknown2)
        } else {
            None
        }
    }

    /// The number that stands for a kind of text in a packet.
    pub fn tag(self) -> (v: u8)
        ensures
            v == self.spec_tag(),
    {
        match self {
            StringReqType::RadioID => 0x00,
            StringReqType::Unknown1 => 0x12,
            StringReqType::Unknown2 => 0x09,
        }
    }

    /// The kind of text that a number stands for; a number that stands for
    /// none is refused.
    pub fn try_from(v: u8) -> (r: Result<StringReqType, PacketError>)
        ensures
            match Self::spec_try_from(v) {
                Some(m) => r == Ok::<StringReqType, PacketError>(m),
                None => r == Err::<StringReqType, PacketError>(PacketError::InvalidTag),
            },
    {
        if v == 0x00 {
            Ok(StringReqType::RadioID)
        } else if v == 0x12 {
            Ok(StringReqType::Unknown1)
        } else if v == 0x09 {
            Ok(StringReqType::Unknown2)
        } else {
            Err(PacketError::InvalidTag)
        }
    }
}

/// What programming mode is entered for.
#[derive(Debug, PartialEq, Eq, Clone, Copy, Structural)]
pub enum OpenMode {
    Read,
    Write,
}

impl OpenMode {
    /// The number that stands for a mode in a packet.
    pub open spec fn spec_tag(self) -> u8 {
        match self {
            OpenMode::Read => 0x00,
            OpenMode::Write => 0x02,
        }
    }

    /// The mode that a number stands for, if any.
    pub open spec fn spec_try_from(v: u8) -> Option<OpenMode> {
        if v == 0x00 {
            Some(OpenMode::Read)
        } else if v == 0x02 {
            Some(OpenMode::Write)
        } else {
            None
        }
    }

    /// The number that stands for a mode in a packet.
    pub fn tag(self) -> (v: u8)
        ensures
            v == self.spec_tag(),
    {
        match self {
            OpenMode::Read => 0x00,
            OpenMode::Write => 0x02,
        }
    }

    /// The mode that a number stands for; a number that stands for none is
    /// refused.
    pub fn try_from(v: u8) -> (r: Result<OpenMode, PacketError>)
        ensures
            match Self::spec_try_from(v) {
                Some(m) => r == Ok::<OpenMode, PacketError>(m),
                None => r == Err::<OpenMode, PacketError>(PacketError::InvalidTag),
            },
    {
        if v == 0x00 {
            Ok(OpenMode::Read)
        } else if v == 0x02 {
            Ok(OpenMode::Write)
        } else {
            Err(PacketError::InvalidTag)
        }
    }
}

/// A payload of the programming protocol.
#[derive(Debug, PartialEq, Eq, Clone)]
pub enum CPSPacketL2 {
    ReadCodeplugRequest { addr: u32, len: u16 },
    ReadCodeplugResponse { addr: u32, payload: Vec<u8> },
    WriteCodeplugRequest { addr: u32, payload: Vec<u8> },
    WriteCodeplugResponse { addr: u32, len: u16 },
    GetStringRequest { what: StringReqType },
    GetStringResponse { what: StringReqType, str: String },
    EnterProogModeRequest { mode: OpenMode },
    EnterProogModeResponse { status: u8, mode: OpenMode, head_data: Vec<u8> },
    LeaveProgModeRequest,
    LeaveProgModeResponse,
}

/// A `CPSPacketL2` with its bytes and its text as sequences.
pub enum CPSPacketL2View {
    ReadCodeplugRequest { addr: u32, len: u16 },
    ReadCodeplugResponse { addr: u32, payload: Seq<u8> },
    WriteCodeplugRequest { addr: u32, payload: Seq<u8> },
    WriteCodeplugResponse { addr: u32, len: u16 },
    GetStringRequest { what: StringReqType },
    GetStringResponse { what: StringReqType, str: Seq<char> },
    EnterProogModeRequest { mode: OpenMode },
    EnterProogModeResponse { status: u8, mode: OpenMode, head_data: Seq<u8> },
    LeaveProgModeRequest,
    LeaveProgModeResponse,
}

impl View for CPSPacketL2 {
    type V = CPSPacketL2View;

    open spec fn view(&self) -> CPSPacketL2View {
        match self {
            CPSPacketL2::ReadCodeplugRequest { addr, len } => CPSPacketL2View::ReadCodeplugRequest {
                addr: *addr,
                len: *len,
            },
            CPSPacketL2::ReadCodeplugResponse {
                addr,
                payload,
            } => CPSPacketL2View::ReadCodeplugResponse { addr: *addr, payload: payload@ },
            CPSPacketL2::WriteCodeplugRequest {
                addr,
                payload,
            } => CPSPacketL2View::WriteCodeplugRequest { addr: *addr, payload: payload@ },
            CPSPacketL2::WriteCodeplugResponse {
                addr,
                len,
            } => CPSPacketL2View::WriteCodeplugResponse { addr: *addr, len: *len },
            CPSPacketL2::GetStringRequest { what } => CPSPacketL2View::GetStringRequest {
                what: *what,
            },
            CPSPacketL2::GetStringResponse { what, str } => CPSPacketL2View::GetStringResponse {
                what: *what,
                str: str@,
            },
            CPSPacketL2::EnterProogModeRequest { mode } => CPSPacketL2View::EnterProogModeRequest {
                mode: *mode,
            },
            CPSPacketL2::EnterProogModeResponse {
                status,
                mode,
                head_data,
            } => CPSPacketL2View::EnterProogModeResponse {
                status: *status,
                mode: *mode,
                head_data: head_data@,
            },
            CPSPacketL2::LeaveProgModeRequest => CPSPacketL2View::LeaveProgModeRequest,
            CPSPacketL2::LeaveProgModeResponse => CPSPacketL2View::LeaveProgModeResponse,
        }
    }
}

/// The six bytes that every request and response for codeplug memory holds
/// before its address.
pub open spec fn memory_header() -> Seq<u8> {
    seq![0u8, 0u8, 0u8, 1u8, 0u8, 0u8]
}

/// Whether the six bytes at offset `at` are the memory header.
pub open spec fn has_memory_header(b: Seq<u8>, at: int) -> bool {
    b.subrange(at, at + 6) == memory_header()
}

/// The bytes of a sequence of code units, each as a little-endian word.
pub open spec fn units_bytes(u: Seq<u16>) -> Seq<u8>
    decreases u.len(),
{
    if u.len() == 0 {
        Seq::empty()
    } else {
        units_bytes(u.drop_last()) + u16_le_bytes(u.last())
    }
}

/// The `n` little-endian words that stand in `b` from offset `at` on.
pub open spec fn units_at(b: Seq<u8>, at: int, n: nat) -> Seq<u16> {
    Seq::new(n, |i: int| u16_at(b, at + 2 * i))
}

/// The bytes of a request to read codeplug memory.
pub open spec fn read_request_bytes(addr: u32, len: u16) -> Seq<u8> {
    memory_header() + u32_le_bytes(addr) + u16_le_bytes(len)
}

/// The bytes of a response that carries codeplug memory, of at most 0xffff
/// bytes.
pub open spec fn read_response_bytes(addr: u32, payload: Seq<u8>) -> Seq<u8> {
    seq![0u8] + memory_header() + u32_le_bytes(addr) + u16_le_bytes(payload.len() as u16)
        + payload
}

/// The bytes of a request to write codeplug memory, of at most 0xffff bytes.
pub open spec fn write_request_bytes(addr: u32, payload: Seq<u8>) -> Seq<u8> {
    memory_header() + u32_le_bytes(addr) + u16_le_bytes(payload.len() as u16) + payload
}

/// The bytes of a response to a request to write codeplug memory.
pub open spec fn write_response_bytes(addr: u32, len: u16) -> Seq<u8> {
    seq![0u8] + memory_header() + u32_le_bytes(addr) + u16_le_bytes(len)
}

/// The bytes of a response that carries a text.
pub open spec fn string_response_bytes(what: StringReqType, s: Seq<char>) -> Seq<u8> {
    seq![0u8, 0u8, 0u8, 0u8, what.spec_tag(), 0u8, 0u8, 0u8] + units_bytes(utf16_encode(s))
}

/// The bytes of a request to enter programming mode.
pub open spec fn enter_request_bytes(mode: OpenMode) -> Seq<u8> {
    seq![mode.spec_tag()] + zeros(16)
}

/// The bytes of a response to a request to enter programming mode, with at
/// most 0xffff bytes of data.
pub open spec fn enter_response_bytes(status: u8, mode: OpenMode, head_data: Seq<u8>) -> Seq<u8> {
    seq![status, mode.spec_tag()] + u16_le_bytes(head_data.len() as u16) + head_data
}

/// The request to read codeplug memory that the bytes hold.
pub open spec fn read_request_of(b: Seq<u8>) -> Result<CPSPacketL2View, PacketError> {
    if b.len() < 12 {
        Err(PacketError::Truncated)
    } else if !has_memory_header(b, 0) {
        Err(PacketError::ReservedMismatch)
    } else {
        Ok(CPSPacketL2View::ReadCodeplugRequest { addr: u32_at(b, 6), len: u16_at(b, 10) })
    }
}

/// The response with codeplug memory that the bytes hold.
pub open spec fn read_response_of(b: Seq<u8>) -> Result<CPSPacketL2View, PacketError> {
    if b.len() < 13 {
        Err(PacketError::Truncated)
    } else if b[0] != 0 || !has_memory_header(b, 1) {
        Err(PacketError::ReservedMismatch)
    } else if b.len() < 13 + u16_at(b, 11) {
        Err(PacketError::Truncated)
    } else {
        Ok(
            CPSPacketL2View::ReadCodeplugResponse {
                addr: u32_at(b, 7),
                payload: b.subrange(13, 13 + u16_at(b, 11)),
            },
        )
    }
}

/// The request to write codeplug memory that the bytes hold.
pub open spec fn write_request_of(b: Seq<u8>) -> Result<CPSPacketL2View, PacketError> {
    if b.len() < 12 {
        Err(PacketError::Truncated)
    } else if !has_memory_header(b, 0) {
        Err(PacketError::ReservedMismatch)
    } else if b.len() < 12 + u16_at(b, 10) {
        Err(PacketError::Truncated)
    } else {
        Ok(
            CPSPacketL2View::WriteCodeplugRequest {
                addr: u32_at(b, 6),
                payload: b.subrange(12, 12 + u16_at(b, 10)),
            },
        )
    }
}

/// The response to a request to write codeplug memory that the bytes hold.
pub open spec fn write_response_of(b: Seq<u8>) -> Result<CPSPacketL2View, PacketError> {
    if b.len() < 13 {
        Err(PacketError::Truncated)
    } else if b[0] != 0 || !has_memory_header(b, 1) {
        Err(PacketError::ReservedMismatch)
    } else {
        Ok(CPSPacketL2View::WriteCodeplugResponse { addr: u32_at(b, 7), len: u16_at(b, 11) })
    }
}

/// The request for a text that the bytes hold.
pub open spec fn string_request_of(b: Seq<u8>) -> Result<CPSPacketL2View, PacketError> {
    if b.len() != 1 {
        Err(PacketError::BadLength)
    } else {
        match StringReqType::spec_try_from(b[0]) {
            Some(what) => Ok(CPSPacketL2View::GetStringRequest { what }),
            None => Err(PacketError::InvalidTag),
        }
    }
}

/// The response with a text that the bytes hold. The first byte is not
/// looked at, nor a last byte without a partner.
pub open spec fn string_response_of(b: Seq<u8>) -> Result<CPSPacketL2View, PacketError> {
    if b.len() < 8 {
        Err(PacketError::Truncated)
    } else if b[1] != 0 || b[2] != 0 || b[3] != 0 {
        Err(PacketError::ReservedMismatch)
    } else if StringReqType::spec_try_from(b[4]) is None {
        Err(PacketError::InvalidTag)
    } else if b[5] != 0 || b[6] != 0 || b[7] != 0 {
        Err(PacketError::ReservedMismatch)
    } else {
        match utf16_decode(units_at(b, 8, ((b.len() - 8) / 2) as nat)) {
            Some(str) => Ok(
                CPSPacketL2View::GetStringResponse {
                    what: StringReqType::spec_try_from(b[4]).unwrap(),
                    str,
                },
            ),
            None => Err(PacketError::InvalidText),
        }
    }
}

/// The request to enter programming mode that the bytes hold.
pub open spec fn enter_request_of(b: Seq<u8>) -> Result<CPSPacketL2View, PacketError> {
    if b.len() != 17 {
        Err(PacketError::BadLength)
    } else if OpenMode::spec_try_from(b[0]) is None {
        Err(PacketError::InvalidTag)
    } else if b.subrange(1, 17) != zeros(16) {
        Err(PacketError::ReservedMismatch)
    } else {
        Ok(CPSPacketL2View::EnterProogModeRequest { mode: OpenMode::spec_try_from(b[0]).unwrap() })
    }
}

/// The response to a request to enter programming mode that the bytes hold.
pub open spec fn enter_response_of(b: Seq<u8>) -> Result<CPSPacketL2View, PacketError> {
    if b.len() < 2 {
        Err(PacketError::Truncated)
    } else if OpenMode::spec_try_from(b[1]) is None {
        Err(PacketError::InvalidTag)
    } else if b.len() < 4 || b.len() < 4 + u16_at(b, 2) {
        Err(PacketError::Truncated)
    } else {
        Ok(
            CPSPacketL2View::EnterProogModeResponse {
                status: b[0],
                mode: OpenMode::spec_try_from(b[1]).unwrap(),
                head_data: b.subrange(4, 4 + u16_at(b, 2)),
            },
        )
    }
}

/// The number that names the kind of a payload.
pub open spec fn cps_id(v: CPSPacketL2View) -> u16 {
    match v {
        CPSPacketL2View::EnterProogModeRequest { .. } => 0x01c5,
        CPSPacketL2View::EnterProogModeResponse { .. } => 0x81c5,
        CPSPacketL2View::LeaveProgModeRequest => 0x01c6,
        CPSPacketL2View::LeaveProgModeResponse => 0x81c6,
        CPSPacketL2View::ReadCodeplugRequest { .. } => 0x01c7,
        CPSPacketL2View::ReadCodeplugResponse { .. } => 0x81c7,
        CPSPacketL2View::WriteCodeplugRequest { .. } => 0x01c8,
        CPSPacketL2View::WriteCodeplugResponse { .. } => 0x81c8,
        CPSPacketL2View::GetStringRequest { .. } => 0x0203,
        CPSPacketL2View::GetStringResponse { .. } => 0x8203,
    }
}

/// The bytes of a payload; a block of more than 0xffff bytes is refused.
pub open spec fn cps_ser(v: CPSPacketL2View) -> Result<Seq<u8>, PacketError> {
    match v {
        CPSPacketL2View::ReadCodeplugRequest { addr, len } => Ok(read_request_bytes(addr, len)),
        CPSPacketL2View::ReadCodeplugResponse { addr, payload } => if payload.len() > 0xffff {
            Err(PacketError::PayloadTooLong)
        } else {
            Ok(read_response_bytes(addr, payload))
        },
        CPSPacketL2View::WriteCodeplugRequest { addr, payload } => if payload.len() > 0xffff {
            Err(PacketError::PayloadTooLong)
        } else {
            Ok(write_request_bytes(addr, payload))
        },
        CPSPacketL2View::WriteCodeplugResponse { addr, len } => Ok(write_response_bytes(addr, len)),
        CPSPacketL2View::EnterProogModeRequest { mode } => Ok(enter_request_bytes(mode)),
        CPSPacketL2View::EnterProogModeResponse { status, mode, head_data } => if head_data.len()
            > 0xffff {
            Err(PacketError::PayloadTooLong)
        } else {
            Ok(enter_response_bytes(status, mode, head_data))
        },
        CPSPacketL2View::LeaveProgModeRequest => Ok(seq![0u8]),
        CPSPacketL2View::LeaveProgModeResponse => Ok(seq![0u8]),
        CPSPacketL2View::GetStringRequest { what } => Ok(seq![what.spec_tag()]),
        CPSPacketL2View::GetStringResponse { what, str } => Ok(string_response_bytes(what, str)),
    }
}

/// The payload of kind `id` that the bytes hold.
pub open spec fn cps_deser(id: u16, b: Seq<u8>) -> Result<CPSPacketL2View, PacketError> {
    if id == 0x01c5 {
        enter_request_of(b)
    } else if id == 0x81c5 {
        enter_response_of(b)
    } else if id == 0x01c6 {
        if b.len() == 1 {
            Ok(CPSPacketL2View::LeaveProgModeRequest)
        } else {
            Err(PacketError::BadLength)
        }
    } else if id == 0x81c6 {
        if b.len() == 1 {
            Ok(CPSPacketL2View::LeaveProgModeResponse)
        } else {
            Err(PacketError::BadLength)
        }
    } else if id == 0x01c7 {
        read_request_of(b)
    } else if id == 0x81c7 {
        read_response_of(b)
    } else if id == 0x01c8 {
        write_request_of(b)
    } else if id == 0x81c8 {
        write_response_of(b)
    } else if id == 0x0203 {
        string_request_of(b)
    } else if id == 0x8203 {
        string_response_of(b)
    } else {
        Err(PacketError::UnknownKind(id))
    }
}

/// The code units that follow a head are read back from their bytes.
pub proof fn lemma_units_roundtrip(head: Seq<u8>, u: Seq<u16>)
    ensures
        (head + units_bytes(u)).len() == head.len() + 2 * u.len(),
        (head + units_bytes(u)).subrange(0, head.len() as int) == head,
        units_at(head + units_bytes(u), head.len() as int, u.len()) == u,
    decreases u.len(),
{
    let b = head + units_bytes(u);
    let n = head.len() as int;
    if u.len() == 0 {
        assert(b.subrange(0, n) =~= head);
        assert(units_at(b, n, 0) =~= u);
    } else {
        let front = u.drop_last();
        let fb = head + units_bytes(front);
        let last = u16_le_bytes(u.last());
        lemma_units_roundtrip(head, front);
        lemma_u16_le_roundtrip(u.last());
        assert(b =~= fb + last);
        lemma_prefix_kept(fb, last);
        assert(b.subrange(0, n) =~= head) by {
            assert forall|i: int| 0 <= i < n implies b[i] == head[i] by {
                assert(fb.subrange(0, n)[i] == fb[i]);
            }
        }
        let read = units_at(b, n, u.len());
        assert forall|i: int| 0 <= i < u.len() implies read[i] == u[i] by {
            if i < front.len() {
                assert(units_at(fb, n, front.len())[i] == front[i]);
                assert(b[n + 2 * i] == fb[n + 2 * i] && b[n + 2 * i + 1] == fb[n + 2 * i + 1]);
            } else {
                let m = fb.len() as int;
                assert(b[m + 0] == last[0] && b[m + 1] == last[1]);
            }
        }
        assert(read =~= u);
    }
}

/// A number of a mode stands for that mode.
pub proof fn lemma_open_mode_tag(mode: OpenMode)
    ensures
        OpenMode::spec_try_from(mode.spec_tag()) == Some(mode),
{
}

/// A number of a kind of text stands for that kind.
pub proof fn lemma_string_req_tag(what: StringReqType)
    ensures
        StringReqType::spec_try_from(what.spec_tag()) == Some(what),
{
}

/// The bytes of a payload of the programming protocol decode, under its
/// kind, to the payload.
pub proof fn lemma_cps_payload_roundtrip(v: CPSPacketL2View)
    requires
        cps_ser(v) is Ok,
    ensures
        cps_deser(cps_id(v), cps_ser(v)->Ok_0) == Ok::<CPSPacketL2View, PacketError>(v),
{
    let b = cps_ser(v)->Ok_0;
    match v {
        CPSPacketL2View::ReadCodeplugRequest { addr, len } => {
            lemma_block_layout(memory_header(), addr, len, Seq::empty());
            assert(b =~= memory_header() + u32_le_bytes(addr) + u16_le_bytes(len)
                + Seq::<u8>::empty());
        },
        CPSPacketL2View::ReadCodeplugResponse { addr, payload } => {
            let head = seq![0u8] + memory_header();
            lemma_block_layout(head, addr, payload.len() as u16, payload);
            assert(b =~= head + u32_le_bytes(addr) + u16_le_bytes(payload.len() as u16) + payload);
            assert(b[0] == b.subrange(0, 7)[0]);
            assert(b.subrange(1, 7) =~= memory_header());
        },
        CPSPacketL2View::WriteCodeplugRequest { addr, payload } => {
            lemma_block_layout(memory_header(), addr, payload.len() as u16, payload);
        },
        CPSPacketL2View::WriteCodeplugResponse { addr, len } => {
            let head = seq![0u8] + memory_header();
            lemma_block_layout(head, addr, len, Seq::empty());
            assert(b =~= head + u32_le_bytes(addr) + u16_le_bytes(len) + Seq::<u8>::empty());
            assert(b[0] == b.subrange(0, 7)[0]);
            assert(b.subrange(1, 7) =~= memory_header());
        },
        CPSPacketL2View::EnterProogModeRequest { mode } => {
            lemma_open_mode_tag(mode);
            assert(b.subrange(1, 17) =~= zeros(16));
        },
        CPSPacketL2View::EnterProogModeResponse { status, mode, head_data } => {
            let len = head_data.len() as u16;
            let head = seq![status, mode.spec_tag()];
            lemma_open_mode_tag(mode);
            lemma_u16_le_roundtrip(len);
            lemma_prefix_kept(head, u16_le_bytes(len));
            lemma_prefix_kept(head + u16_le_bytes(len), head_data);
            assert(b[0] == status && b[1] == mode.spec_tag());
            assert(b[2] == u16_le_bytes(len)[0] && b[3] == u16_le_bytes(len)[1]) by {
                let two = head.len() as int;
                assert((head + u16_le_bytes(len))[two + 0] == u16_le_bytes(len)[0]);
                assert((head + u16_le_bytes(len))[two + 1] == u16_le_bytes(len)[1]);
            }
            assert(b.subrange(4, 4 + len) =~= head_data) by {
                assert forall|i: int| 0 <= i < len implies b[4 + i] == head_data[i] by {
                    assert(b[(head + u16_le_bytes(len)).len() + i] == head_data[i]);
                }
            }
        },
        CPSPacketL2View::LeaveProgModeRequest => {},
        CPSPacketL2View::LeaveProgModeResponse => {},
        CPSPacketL2View::GetStringRequest { what } => {
            lemma_string_req_tag(what);
        },
        CPSPacketL2View::GetStringResponse { what, str } => {
            let head = seq![0u8, 0u8, 0u8, 0u8, what.spec_tag(), 0u8, 0u8, 0u8];
            let u = utf16_encode(str);
            lemma_string_req_tag(what);
            lemma_units_roundtrip(head, u);
            lemma_utf16_roundtrip(str);
            assert forall|i: int| 0 <= i < 8 implies b[i] == head[i] by {
                assert(b.subrange(0, 8)[i] == b[i]);
            }
            assert((b.len() - 8) / 2 == u.len());
        },
    }
}

/// Appends the memory header.
fn put_memory_header(out: &mut Vec<u8>)
    ensures
        final(out)@ == old(out)@ + memory_header(),
{
    let header: [u8; 6] = [0, 0, 0, 1, 0, 0];
    assert(header@ =~= memory_header());
    put_bytes(out, header.as_slice());
}

/// Whether the six bytes at offset `at` of `b` are the memory header.
fn check_memory_header(b: &[u8], at: usize) -> (r: bool)
    requires
        at + 6 <= b.len(),
    ensures
        r == has_memory_header(b@, at as int),
{
    let r = b[at] == 0 && b[at + 1] == 0 && b[at + 2] == 0 && b[at + 3] == 1 && b[at + 4] == 0 && b[at
        + 5] == 0;
    proof {
        let s = b@.subrange(at as int, at + 6);
        let h = memory_header();
        if r {
            assert(s =~= h);
        } else {
            assert(s[0] == b@[at as int] && s[1] == b@[at + 1] && s[2] == b@[at + 2] && s[3]
                == b@[at + 3] && s[4] == b@[at + 4] && s[5] == b@[at + 5]);
        }
    }
    r
}

/// A copy of the bytes of `b` from `from` up to `to`.
fn copy_range(b: &[u8], from: usize, to: usize) -> (r: Vec<u8>)
    requires
        from <= to <= b.len(),
    ensures
        r@ == b@.subrange(from as int, to as int),
{
    let mut r: Vec<u8> = Vec::new();
    put_bytes(&mut r, &b[from..to]);
    r
}

/// The bytes of a request to read `len` bytes of codeplug memory at `addr`.
pub fn pack_read_codeplug_request(addr: u32, len: u16) -> (r: Result<Vec<u8>, PacketError>)
    ensures
        r is Ok,
        r->Ok_0@ == read_request_bytes(addr, len),
{
    let mut ret: Vec<u8> = Vec::new();
    put_memory_header(&mut ret);
    put_u32(&mut ret, addr);
    put_u16(&mut ret, len);
    Ok(ret)
}

/// Decodes a request to read codeplug memory.
pub fn unpack_read_codeplug_request(data: &[u8]) -> (r: Result<CPSPacketL2, PacketError>)
    ensures
        match r {
            Ok(p) => read_request_of(data@) == Ok::<CPSPacketL2View, PacketError>(p@),
            Err(e) => read_request_of(data@) == Err::<CPSPacketL2View, PacketError>(e),
        },
{
    if data.len() < 12 {
        return Err(PacketError::Truncated);
    }
    if !check_memory_header(data, 0) {
        return Err(PacketError::ReservedMismatch);
    }
    Ok(CPSPacketL2::ReadCodeplugRequest { addr: get_u32(data, 6), len: get_u16(data, 10) })
}

/// The bytes of a response that carries the codeplug memory at `addr`.
pub fn pack_read_codeplug_response(addr: u32, payload: &[u8]) -> (r: Result<Vec<u8>, PacketError>)
    ensures
        match r {
            Ok(b) => payload@.len() <= 0xffff && b@ == read_response_bytes(addr, payload@),
            Err(e) => payload@.len() > 0xffff && e == PacketError::PayloadTooLong,
        },
{
    if payload.len() > 0xffff {
        return Err(PacketError::PayloadTooLong);
    }
    let mut ret: Vec<u8> = Vec::new();
    ret.push(0);
    put_memory_header(&mut ret);
    put_u32(&mut ret, addr);
    put_u16(&mut ret, payload.len() as u16);
    put_bytes(&mut ret, payload);
    assert(ret@ =~= read_response_bytes(addr, payload@));
    Ok(ret)
}

/// Decodes a response that carries codeplug memory.
pub fn unpack_read_codeplug_response(data: &[u8]) -> (r: Result<CPSPacketL2, PacketError>)
    ensures
        match r {
            Ok(p) => read_response_of(data@) == Ok::<CPSPacketL2View, PacketError>(p@),
            Err(e) => read_response_of(data@) == Err::<CPSPacketL2View, PacketError>(e),
        },
{
    if data.len() < 13 {
        return Err(PacketError::Truncated);
    }
    if data[0] != 0 || !check_memory_header(data, 1) {
        return Err(PacketError::ReservedMismatch);
    }
    let addr = get_u32(data, 7);
    let len = get_u16(data, 11) as usize;
    if data.len() - 13 < len {
        return Err(PacketError::Truncated);
    }
    Ok(CPSPacketL2::ReadCodeplugResponse { addr, payload: copy_range(data, 13, 13 + len) })
}

/// The bytes of a request to write `payload` to codeplug memory at `addr`.
pub fn pack_write_codeplug_request(addr: u32, payload: &[u8]) -> (r: Result<Vec<u8>, PacketError>)
    ensures
        match r {
            Ok(b) => payload@.len() <= 0xffff && b@ == write_request_bytes(addr, payload@),
            Err(e) => payload@.len() > 0xffff && e == PacketError::PayloadTooLong,
        },
{
    if payload.len() > 0xffff {
        return Err(PacketError::PayloadTooLong);
    }
    let mut ret: Vec<u8> = Vec::new();
    put_memory_header(&mut ret);
    put_u32(&mut ret, addr);
    put_u16(&mut ret, payload.len() as u16);
    put_bytes(&mut ret, payload);
    assert(ret@ =~= write_request_bytes(addr, payload@));
    Ok(ret)
}

/// Decodes a request to write codeplug memory.
pub fn unpack_write_codeplug_request(data: &[u8]) -> (r: Result<CPSPacketL2, PacketError>)
    ensures
        match r {
            Ok(p) => write_request_of(data@) == Ok::<CPSPacketL2View, PacketError>(p@),
            Err(e) => write_request_of(data@) == Err::<CPSPacketL2View, PacketError>(e),
        },
{
    if data.len() < 12 {
        return Err(PacketError::Truncated);
    }
    if !check_memory_header(data, 0) {
        return Err(PacketError::ReservedMismatch);
    }
    let addr = get_u32(data, 6);
    let len = get_u16(data, 10) as usize;
    if data.len() - 12 < len {
        return Err(PacketError::Truncated);
    }
    Ok(CPSPacketL2::WriteCodeplugRequest { addr, payload: copy_range(data, 12, 12 + len) })
}

/// The bytes of a response to a request to write `len` bytes at `addr`.
pub fn pack_write_codeplug_response(addr: u32, len: u16) -> (r: Result<Vec<u8>, PacketError>)
    ensures
        r is Ok,
        r->Ok_0@ == write_response_bytes(addr, len),
{
    let mut ret: Vec<u8> = Vec::new();
    ret.push(0);
    put_memory_header(&mut ret);
    put_u32(&mut ret, addr);
    put_u16(&mut ret, len);
    assert(ret@ =~= write_response_bytes(addr, len));
    Ok(ret)
}

/// Decodes a response to a request to write codeplug memory.
pub fn unpack_write_codeplug_response(data: &[u8]) -> (r: Result<CPSPacketL2, PacketError>)
    ensures
        match r {
            Ok(p) => write_response_of(data@) == Ok::<CPSPacketL2View, PacketError>(p@),
            Err(e) => write_response_of(data@) == Err::<CPSPacketL2View, PacketError>(e),
        },
{
    if data.len() < 13 {
        return Err(PacketError::Truncated);
    }
    if data[0] != 0 || !check_memory_header(data, 1) {
        return Err(PacketError::ReservedMismatch);
    }
    Ok(CPSPacketL2::WriteCodeplugResponse { addr: get_u32(data, 7), len: get_u16(data, 11) })
}

/// The bytes of a request to enter programming mode.
pub fn pack_enter_prog_mode_request(what: OpenMode) -> (r: Result<Vec<u8>, PacketError>)
    ensures
        r is Ok,
        r->Ok_0@ == enter_request_bytes(what),
{
    let mut ret: Vec<u8> = Vec::new();
    ret.push(what.tag());
    crate::bytes::pad_to(&mut ret, 17);
    assert(ret@ =~= enter_request_bytes(what));
    Ok(ret)
}

/// Decodes a request to enter programming mode.
pub fn unpack_enter_prog_mode_request(data: &[u8]) -> (r: Result<CPSPacketL2, PacketError>)
    ensures
        match r {
            Ok(p) => enter_request_of(data@) == Ok::<CPSPacketL2View, PacketError>(p@),
            Err(e) => enter_request_of(data@) == Err::<CPSPacketL2View, PacketError>(e),
        },
{
    if data.len() != 17 {
        return Err(PacketError::BadLength);
    }
    let mode = OpenMode::try_from(data[0])?;
    let mut i: usize = 1;
    while i < 17
        invariant
            1 <= i <= 17,
            data@.len() == 17,
            OpenMode::spec_try_from(data@[0]) == Some(mode),
            forall|j: int| 1 <= j < i ==> data@[j] == 0,
        decreases 17 - i,
    {
        if data[i] != 0 {
            assert(data@.subrange(1, 17)[i - 1] == data@[i as int]);
            return Err(PacketError::ReservedMismatch);
        }
        i += 1;
    }
    assert(data@.subrange(1, 17) =~= zeros(16));
    Ok(CPSPacketL2::EnterProogModeRequest { mode })
}

/// The bytes of a response to a request to enter programming mode.
pub fn pack_enter_prog_mode_response(status: u8, mode: OpenMode, head_data: &[u8]) -> (r: Result<
    Vec<u8>,
    PacketError,
>)
    ensures
        match r {
            Ok(b) => head_data@.len() <= 0xffff && b@ == enter_response_bytes(
                status,
                mode,
                head_data@,
            ),
            Err(e) => head_data@.len() > 0xffff && e == PacketError::PayloadTooLong,
        },
{
    if head_data.len() > 0xffff {
        return Err(PacketError::PayloadTooLong);
    }
    let mut ret: Vec<u8> = Vec::new();
    ret.push(status);
    ret.push(mode.tag());
    put_u16(&mut ret, head_data.len() as u16);
    put_bytes(&mut ret, head_data);
    assert(ret@ =~= enter_response_bytes(status, mode, head_data@));
    Ok(ret)
}

/// Decodes a response to a request to enter programming mode.
pub fn unpack_enter_prog_mode_response(data: &[u8]) -> (r: Result<CPSPacketL2, PacketError>)
    ensures
        match r {
            Ok(p) => enter_response_of(data@) == Ok::<CPSPacketL2View, PacketError>(p@),
            Err(e) => enter_response_of(data@) == Err::<CPSPacketL2View, PacketError>(e),
        },
{
    if data.len() < 2 {
        return Err(PacketError::Truncated);
    }
    let status = data[0];
    let mode = OpenMode::try_from(data[1])?;
    if data.len() < 4 {
        return Err(PacketError::Truncated);
    }
    let len = get_u16(data, 2) as usize;
    if data.len() - 4 < len {
        return Err(PacketError::Truncated);
    }
    Ok(CPSPacketL2::EnterProogModeResponse { status, mode, head_data: copy_range(data, 4, 4 + len) })
}

/// The bytes of a request to leave programming mode.
pub fn pack_leave_prog_mode_request() -> (r: Result<Vec<u8>, PacketError>)
    ensures
        r is Ok,
        r->Ok_0@ == seq![0u8],
{
    let mut ret: Vec<u8> = Vec::new();
    ret.push(0);
    Ok(ret)
}

/// Decodes a request to leave programming mode: one byte, which is not
/// looked at.
pub fn unpack_leave_prog_mode_request(data: &[u8]) -> (r: Result<CPSPacketL2, PacketError>)
    ensures
        data@.len() == 1 ==> r is Ok && r->Ok_0@ == CPSPacketL2View::LeaveProgModeRequest,
        data@.len() != 1 ==> r == Err::<CPSPacketL2, PacketError>(PacketError::BadLength),
{
    if data.len() != 1 {
        return Err(PacketError::BadLength);
    }
    Ok(CPSPacketL2::LeaveProgModeRequest)
}

/// The bytes of a response to a request to leave programming mode.
pub fn pack_leave_prog_mode_response() -> (r: Result<Vec<u8>, PacketError>)
    ensures
        r is Ok,
        r->Ok_0@ == seq![0u8],
{
    let mut ret: Vec<u8> = Vec::new();
    ret.push(0);
    Ok(ret)
}

/// Decodes a response to a request to leave programming mode: one byte,
/// which is not looked at.
pub fn unpack_leave_prog_mode_response(data: &[u8]) -> (r: Result<CPSPacketL2, PacketError>)
    ensures
        data@.len() == 1 ==> r is Ok && r->Ok_0@ == CPSPacketL2View::LeaveProgModeResponse,
        data@.len() != 1 ==> r == Err::<CPSPacketL2, PacketError>(PacketError::BadLength),
{
    if data.len() != 1 {
        return Err(PacketError::BadLength);
    }
    Ok(CPSPacketL2::LeaveProgModeResponse)
}

/// The bytes of a request for a text.
pub fn pack_get_string_request(what: StringReqType) -> (r: Result<Vec<u8>, PacketError>)
    ensures
        r is Ok,
        r->Ok_0@ == seq![what.spec_tag()],
{
    let mut ret: Vec<u8> = Vec::new();
    ret.push(what.tag());
    Ok(ret)
}

/// Decodes a request for a text.
pub fn unpack_get_string_request(data: &[u8]) -> (r: Result<CPSPacketL2, PacketError>)
    ensures
        match r {
            Ok(p) => string_request_of(data@) == Ok::<CPSPacketL2View, PacketError>(p@),
            Err(e) => string_request_of(data@) == Err::<CPSPacketL2View, PacketError>(e),
        },
{
    if data.len() != 1 {
        return Err(PacketError::BadLength);
    }
    let what = StringReqType::try_from(data[0])?;
    Ok(CPSPacketL2::GetStringRequest { what })
}

/// The bytes of a response that carries a text.
pub fn pack_get_string_response(what: StringReqType, s: &str) -> (r: Result<Vec<u8>, PacketError>)
    ensures
        r is Ok,
        r->Ok_0@ == string_response_bytes(what, s@),
{
    let head: [u8; 8] = [0, 0, 0, 0, what.tag(), 0, 0, 0];
    assert(head@ =~= seq![0u8, 0u8, 0u8, 0u8, what.spec_tag(), 0u8, 0u8, 0u8]);
    let mut ret: Vec<u8> = Vec::new();
    put_bytes(&mut ret, head.as_slice());
    let units = encode_utf16(s);
    let ghost start = ret@;
    let mut i: usize = 0;
    assert(units@.subrange(0, 0) =~= Seq::<u16>::empty());
    while i < units.len()
        invariant
            i <= units@.len(),
            ret@ == start + units_bytes(units@.subrange(0, i as int)),
        decreases units@.len() - i,
    {
        assert(units@.subrange(0, i + 1).drop_last() =~= units@.subrange(0, i as int));
        put_u16(&mut ret, units[i]);
        i += 1;
    }
    assert(units@.subrange(0, i as int) =~= units@);
    Ok(ret)
}

/// Decodes a response that carries a text.
pub fn unpack_get_string_response(data: &[u8]) -> (r: Result<CPSPacketL2, PacketError>)
    ensures
        match r {
            Ok(p) => string_response_of(data@) == Ok::<CPSPacketL2View, PacketError>(p@),
            Err(e) => string_response_of(data@) == Err::<CPSPacketL2View, PacketError>(e),
        },
{
    if data.len() < 8 {
        return Err(PacketError::Truncated);
    }
    if data[1] != 0 || data[2] != 0 || data[3] != 0 {
        return Err(PacketError::ReservedMismatch);
    }
    let what = StringReqType::try_from(data[4])?;
    if data[5] != 0 || data[6] != 0 || data[7] != 0 {
        return Err(PacketError::ReservedMismatch);
    }
    let count = (data.len() - 8) / 2;
    let mut units: Vec<u16> = Vec::new();
    let mut i: usize = 0;
    while i < count
        invariant
            i <= count,
            data.len() >= 8,
            count == (data.len() - 8) / 2,
            units@ == units_at(data@, 8, i as nat),
        decreases count - i,
    {
        units.push(get_u16(data, 8 + 2 * i));
        i += 1;
        assert(units@ =~= units_at(data@, 8, i as nat));
    }
    match decode_utf16(units.as_slice()) {
        Some(str) => Ok(CPSPacketL2::GetStringResponse { what, str }),
        None => Err(PacketError::InvalidText),
    }
}

impl L2Payload for CPSPacketL2 {
    open spec fn spec_get_id(v: CPSPacketL2View) -> u16 {
        cps_id(v)
    }

    open spec fn spec_ser_payload(v: CPSPacketL2View) -> Result<Seq<u8>, PacketError> {
        cps_ser(v)
    }

    open spec fn spec_deser_payload(id: u16, data: Seq<u8>) -> Result<CPSPacketL2View, PacketError> {
        cps_deser(id, data)
    }

    proof fn lemma_payload_roundtrip(v: CPSPacketL2View) {
        lemma_cps_payload_roundtrip(v);
    }

    fn ser_payload(&self) -> (r: Result<Vec<u8>, PacketError>) {
        match self {
            CPSPacketL2::ReadCodeplugRequest { addr, len } => pack_read_codeplug_request(
                *addr,
                *len,
            ),
            CPSPacketL2::ReadCodeplugResponse { addr, payload } => pack_read_codeplug_response(
                *addr,
                payload.as_slice(),
            ),
            CPSPacketL2::WriteCodeplugRequest { addr, payload } => pack_write_codeplug_request(
                *addr,
                payload.as_slice(),
            ),
            CPSPacketL2::WriteCodeplugResponse { addr, len } => pack_write_codeplug_response(
                *addr,
                *len,
            ),
            CPSPacketL2::EnterProogModeRequest { mode } => pack_enter_prog_mode_request(*mode),
            CPSPacketL2::EnterProogModeResponse {
                status,
                mode,
                head_data,
            } => pack_enter_prog_mode_response(*status, *mode, head_data.as_slice()),
            CPSPacketL2::LeaveProgModeRequest => pack_leave_prog_mode_request(),
            CPSPacketL2::LeaveProgModeResponse => pack_leave_prog_mode_response(),
            CPSPacketL2::GetStringRequest { what } => pack_get_string_request(*what),
            CPSPacketL2::GetStringResponse { what, str } => pack_get_string_response(
                *what,
                str.as_str(),
            ),
        }
    }

    fn get_id(&self) -> (id: u16) {
        match self {
            CPSPacketL2::EnterProogModeRequest { .. } => 0x01c5,
            CPSPacketL2::EnterProogModeResponse { .. } => 0x81c5,
            CPSPacketL2::LeaveProgModeRequest => 0x01c6,
            CPSPacketL2::LeaveProgModeResponse => 0x81c6,
            CPSPacketL2::ReadCodeplugRequest { .. } => 0x01c7,
            CPSPacketL2::ReadCodeplugResponse { .. } => 0x81c7,
            CPSPacketL2::WriteCodeplugRequest { .. } => 0x01c8,
            CPSPacketL2::WriteCodeplugResponse { .. } => 0x81c8,
            CPSPacketL2::GetStringRequest { .. } => 0x0203,
            CPSPacketL2::GetStringResponse { .. } => 0x8203,
        }
    }

    fn deser_payload(id: u16, data: &[u8]) -> (r: Result<Self, PacketError>) {
        match id {
            0x01c5 => unpack_enter_prog_mode_request(data),
            0x81c5 => unpack_enter_prog_mode_response(data),
            0x01c6 => unpack_leave_prog_mode_request(data),
            0x81c6 => unpack_leave_prog_mode_response(data),
            0x01c7 => unpack_read_codeplug_request(data),
            0x81c7 => unpack_read_codeplug_response(data),
            0x01c8 => unpack_write_codeplug_request(data),
            0x81c8 => unpack_write_codeplug_response(data),
            0x0203 => unpack_get_string_request(data),
            0x8203 => unpack_get_string_response(data),
            _ => Err(PacketError::UnknownKind(id)),
        }
    }
}

} // verus!
