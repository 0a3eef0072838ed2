//! The packets of the firmware update protocol: an outer packet with a
//! length and a checksum around an inner frame, and the payloads that read
//! and write memory.

use crate::bytes::{
    get_u16, get_u32, lemma_u16_le_roundtrip, put_bytes, put_u16, put_u32, u16_at, u16_le_bytes,
    u32_at, u32_le_bytes,
};
use crate::radio::common::{
    l2_pack_spec, l2_unpack_spec, lemma_block_layout, lemma_l2_roundtrip, L2Payload, PacketError,
    L2,
};
use crate::section::{patched, write_at};
use vstd::prelude::*;

verus! {

/// A memory of the radio.
#[derive(Debug, PartialEq, Eq, Clone, Copy, Structural)]
pub enum FwMemory {
    CPU,
    Codeplug,
}

impl FwMemory {
    /// The number that stands for a memory in a packet.
    pub open spec fn spec_tag(self) -> u8 {
        match self {
            FwMemory::CPU => 0x00,
            FwMemory::Codeplug => 0x03,
        }
    }

    /// The memory that a number stands for, if any.
    pub open spec fn spec_try_from(v: u8) -> Option<FwMemory> {
        if v == 0x00 {
            Some(FwMemory::CPU)
        } else if v == 0x03 {
            Some(FwMemory::Codeplug)
        } else {
            None
        }
    }

    /// The number that stands for a memory in a packet.
    pub fn tag(self) -> (v: u8)
        ensures
            v == self.spec_tag(),
    {
        match self {
            FwMemory::CPU => 0x00,
            FwMemory::Codeplug => 0x03,
        }
    }

    /// The memory that a number stands for; a number that stands for none is
    /// refused.
    pub fn try_from(v: u8) -> (r: Result<FwMemory, PacketError>)
        ensures
            match Self::spec_try_from(v) {
                Some(m) => r == Ok::<FwMemory, PacketError>(m),
                None => r == Err::<FwMemory, PacketError>(PacketError::InvalidTag),
            },
    {
        if v == 0x00 {
            Ok(FwMemory::CPU)
        } else if v == 0x03 {
            Ok(FwMemory::Codeplug)
        } else {
            Err(PacketError::InvalidTag)
        }
    }
}

/// Whether the radio granted access to its memory.
#[derive(Debug, PartialEq, Eq, Clone, Copy, Structural)]
pub enum FwMemAccessStatus {
    Success,
    Fail,
}

impl FwMemAccessStatus {
    /// The status that a byte stands for: success for 0x5e, else failure.
    pub open spec fn spec_from(v: u8) -> FwMemAccessStatus {
        if v == 0x5e {
            FwMemAccessStatus::Success
        } else {
            FwMemAccessStatus::Fail
        }
    }

    /// The status that a byte stands for.
    pub fn from(v: u8) -> (r: FwMemAccessStatus)
        ensures
            r == Self::spec_from(v),
    {
        if v == 0x5e {
            FwMemAccessStatus::Success
        } else {
            FwMemAccessStatus::Fail
        }
    }
}

/// What a request for access to the memory asks for.
#[derive(Debug, PartialEq, Eq, Clone, Copy, Structural)]
pub enum FwMemAccess {
    EnableAccess,
    DisableAcess,
}

impl FwMemAccess {
    /// The number that stands for a request in a packet.
    pub open spec fn spec_tag(self) -> u16 {
        match self {
            FwMemAccess::EnableAccess => 0x10fb,
            FwMemAccess::DisableAcess => 0x0000,
        }
    }

    /// The request that a number stands for, if any.
    pub open spec fn spec_try_from(v: u16) -> Option<FwMemAccess> {
        if v == 0x10fb {
            Some(FwMemAccess::EnableAccess)
        } else if v == 0x0000 {
            Some(FwMemAccess::DisableAcess)
        } else {
            None
        }
    }

    /// The number that stands for a request in a packet.
    pub fn tag(self) -> (v: u16)
        ensures
            v == self.spec_tag(),
    {
        match self {
            FwMemAccess::EnableAccess => 0x10fb,
            FwMemAccess::DisableAcess => 0x0000,
        }
    }

    /// The request that a number stands for; a number that stands for none
    /// is refused.
    pub fn try_from(v: u16) -> (r: Result<FwMemAccess, PacketError>)
        ensures
            match Self::spec_try_from(v) {
                Some(m) => r == Ok::<FwMemAccess, PacketError>(m),
                None => r == Err::<FwMemAccess, PacketError>(PacketError::InvalidTag),
            },
    {
        if v == 0x10fb {
            Ok(FwMemAccess::EnableAccess)
        } else if v == 0x0000 {
            Ok(FwMemAccess::DisableAcess)
        } else {
            Err(PacketError::InvalidTag)
        }
    }
}

/// A payload of the firmware update protocol.
#[allow(inconsistent_fields)]
#[derive(Debug, PartialEq, Eq, Clone)]
pub enum FwPacketL2 {
    AccessMemoryRequest { access: FwMemAccess },
    AccessMemoryResponse { status: FwMemAccessStatus },
    ReadMemoryRequest { addr: u32, len: u16, mem: FwMemory },
    ReadMemoryResponse { addr: u32, status: u8, mem: FwMemory, payload: Vec<u8> },
    WriteMemoryRequest { mem: FwMemory, addr: u32, payload: Vec<u8> },
    WriteMemoryResponse { status: u8, mem: FwMemory, addr: u32, len: u16 },
}

/// A `FwPacketL2` with its bytes as sequences.
#[allow(inconsistent_fields)]
pub enum FwPacketL2View {
    AccessMemoryRequest { access: FwMemAccess },
    AccessMemoryResponse { status: FwMemAccessStatus },
    ReadMemoryRequest { addr: u32, len: u16, mem: FwMemory },
    ReadMemoryResponse { addr: u32, status: u8, mem: FwMemory, payload: Seq<u8> },
    WriteMemoryRequest { mem: FwMemory, addr: u32, payload: Seq<u8> },
    WriteMemoryResponse { status: u8, mem: FwMemory, addr: u32, len: u16 },
}

impl View for FwPacketL2 {
    type V = FwPacketL2View;

    open spec fn view(&self) -> FwPacketL2View {
        match self {
            FwPacketL2::AccessMemoryRequest { access } => FwPacketL2View::AccessMemoryRequest {
                access: *access,
            },
            FwPacketL2::AccessMemoryResponse { status } => FwPacketL2View::AccessMemoryResponse {
                status: *status,
            },
            FwPacketL2::ReadMemoryRequest { addr, len, mem } => FwPacketL2View::ReadMemoryRequest {
                addr: *addr,
                len: *len,
                mem: *mem,
            },
            FwPacketL2::ReadMemoryResponse {
                addr,
                status,
                mem,
                payload,
            } => FwPacketL2View::ReadMemoryResponse {
                addr: *addr,
                status: *status,
                mem: *mem,
                payload: payload@,
            },
            FwPacketL2::WriteMemoryRequest {
                mem,
                addr,
                payload,
            } => FwPacketL2View::WriteMemoryRequest { mem: *mem, addr: *addr, payload: payload@ },
            FwPacketL2::WriteMemoryResponse {
                status,
                mem,
                addr,
                len,
            } => FwPacketL2View::WriteMemoryResponse {
                status: *status,
                mem: *mem,
                addr: *addr,
                len: *len,
            },
        }
    }
}

/// A number of a memory stands for that memory.
pub proof fn lemma_memory_tag(mem: FwMemory)
    ensures
        FwMemory::spec_try_from(mem.spec_tag()) == Some(mem),
{
}

/// The bytes of a payload of the firmware update protocol decode, under its
/// kind, to the payload.
pub proof fn lemma_fw_payload_roundtrip(v: FwPacketL2View)
    requires
        fw_ser(v) is Ok,
    ensures
        fw_deser(fw_id(v), fw_ser(v)->Ok_0) == Ok::<FwPacketL2View, PacketError>(v),
{
    match v {
        FwPacketL2View::ReadMemoryRequest { addr, len, mem } => {
            let head = seq![mem.spec_tag()];
            let b = fw_ser(v)->Ok_0;
            lemma_memory_tag(mem);
            lemma_block_layout(head, addr, len, Seq::empty());
            assert(b =~= head + u32_le_bytes(addr) + u16_le_bytes(len) + Seq::<u8>::empty());
            assert(b[0] == b.subrange(0, 1)[0]);
        },
        FwPacketL2View::ReadMemoryResponse { addr, status, mem, payload } => {
            let head = seq![status, mem.spec_tag()];
            let b = fw_ser(v)->Ok_0;
            lemma_memory_tag(mem);
            lemma_block_layout(head, addr, payload.len() as u16, payload);
            assert(b[0] == b.subrange(0, 2)[0] && b[1] == b.subrange(0, 2)[1]);
        },
        FwPacketL2View::WriteMemoryRequest { mem, addr, payload } => {
            let head = seq![mem.spec_tag()];
            let b = fw_ser(v)->Ok_0;
            lemma_memory_tag(mem);
            lemma_block_layout(head, addr, payload.len() as u16, payload);
            assert(b[0] == b.subrange(0, 1)[0]);
        },
        FwPacketL2View::WriteMemoryResponse { status, mem, addr, len } => {
            let head = seq![status, mem.spec_tag()];
            let b = fw_ser(v)->Ok_0;
            lemma_memory_tag(mem);
            lemma_block_layout(head, addr, len, Seq::empty());
            assert(b =~= head + u32_le_bytes(addr) + u16_le_bytes(len) + Seq::<u8>::empty());
            assert(b[0] == b.subrange(0, 2)[0] && b[1] == b.subrange(0, 2)[1]);
        },
        FwPacketL2View::AccessMemoryRequest { access } => {
            lemma_u16_le_roundtrip(access.spec_tag());
        },
        FwPacketL2View::AccessMemoryResponse { .. } => {},
    }
}

/// The number that names the kind of a payload.
pub open spec fn fw_id(v: FwPacketL2View) -> u16 {
    match v {
        FwPacketL2View::ReadMemoryRequest { .. } => 0x01c2,
        FwPacketL2View::ReadMemoryResponse { .. } => 0x81c2,
        FwPacketL2View::WriteMemoryRequest { .. } => 0x01c3,
        FwPacketL2View::WriteMemoryResponse { .. } => 0x81c3,
        FwPacketL2View::AccessMemoryRequest { .. } => 0x0218,
        FwPacketL2View::AccessMemoryResponse { .. } => 0x8218,
    }
}

/// The bytes of a payload. A response to a request for access is only ever
/// received; a block of more than 0xffff bytes is refused.
pub open spec fn fw_ser(v: FwPacketL2View) -> Result<Seq<u8>, PacketError> {
    match v {
        FwPacketL2View::ReadMemoryRequest { addr, len, mem } => Ok(
            seq![mem.spec_tag()] + u32_le_bytes(addr) + u16_le_bytes(len),
        ),
        FwPacketL2View::ReadMemoryResponse { addr, status, mem, payload } => if payload.len()
            > 0xffff {
            Err(PacketError::PayloadTooLong)
        } else {
            Ok(
                seq![status, mem.spec_tag()] + u32_le_bytes(addr) + u16_le_bytes(
                    payload.len() as u16,
                ) + payload,
            )
        },
        FwPacketL2View::WriteMemoryRequest { mem, addr, payload } => if payload.len() > 0xffff {
            Err(PacketError::PayloadTooLong)
        } else {
            Ok(
                seq![mem.spec_tag()] + u32_le_bytes(addr) + u16_le_bytes(payload.len() as u16)
                    + payload,
            )
        },
        FwPacketL2View::WriteMemoryResponse { status, mem, addr, len } => Ok(
            seq![status, mem.spec_tag()] + u32_le_bytes(addr) + u16_le_bytes(len),
        ),
        FwPacketL2View::AccessMemoryRequest { access } => Ok(u16_le_bytes(access.spec_tag())),
        FwPacketL2View::AccessMemoryResponse { .. } => Err(PacketError::Unsupported),
    }
}

/// The request to read memory that the bytes hold.
pub open spec fn fw_read_req(b: Seq<u8>) -> Result<FwPacketL2View, PacketError> {
    if b.len() < 1 {
        Err(PacketError::Truncated)
    } else if FwMemory::spec_try_from(b[0]) is None {
        Err(PacketError::InvalidTag)
    } else if b.len() < 7 {
        Err(PacketError::Truncated)
    } else {
        Ok(
            FwPacketL2View::ReadMemoryRequest {
                addr: u32_at(b, 1),
                len: u16_at(b, 5),
                mem: FwMemory::spec_try_from(b[0]).unwrap(),
            },
        )
    }
}

/// The response to a request to read memory that the bytes hold.
pub open spec fn fw_read_res(b: Seq<u8>) -> Result<FwPacketL2View, PacketError> {
    if b.len() < 2 {
        Err(PacketError::Truncated)
    } else if FwMemory::spec_try_from(b[1]) is None {
        Err(PacketError::InvalidTag)
    } else if b.len() < 8 || b.len() < 8 + u16_at(b, 6) {
        Err(PacketError::Truncated)
    } else {
        Ok(
            FwPacketL2View::ReadMemoryResponse {
                addr: u32_at(b, 2),
                status: b[0],
                mem: FwMemory::spec_try_from(b[1]).unwrap(),
                payload: b.subrange(8, 8 + u16_at(b, 6)),
            },
        )
    }
}

/// The request to write memory that the bytes hold.
pub open spec fn fw_write_req(b: Seq<u8>) -> Result<FwPacketL2View, PacketError> {
    if b.len() < 1 {
        Err(PacketError::Truncated)
    } else if FwMemory::spec_try_from(b[0]) is None {
        Err(PacketError::InvalidTag)
    } else if b.len() < 7 || b.len() < 7 + u16_at(b, 5) {
        Err(PacketError::Truncated)
    } else {
        Ok(
            FwPacketL2View::WriteMemoryRequest {
                mem: FwMemory::spec_try_from(b[0]).unwrap(),
                addr: u32_at(b, 1),
                payload: b.subrange(7, 7 + u16_at(b, 5)),
            },
        )
    }
}

/// The response to a request to write memory that the bytes hold.
pub open spec fn fw_write_res(b: Seq<u8>) -> Result<FwPacketL2View, PacketError> {
    if b.len() < 2 {
        Err(PacketError::Truncated)
    } else if FwMemory::spec_try_from(b[1]) is None {
        Err(PacketError::InvalidTag)
    } else if b.len() < 8 {
        Err(PacketError::Truncated)
    } else {
        Ok(
            FwPacketL2View::WriteMemoryResponse {
                status: b[0],
                mem: FwMemory::spec_try_from(b[1]).unwrap(),
                addr: u32_at(b, 2),
                len: u16_at(b, 6),
            },
        )
    }
}

/// The request for access to the memory that the bytes hold.
pub open spec fn fw_access_req(b: Seq<u8>) -> Result<FwPacketL2View, PacketError> {
    if b.len() < 2 {
        Err(PacketError::Truncated)
    } else if FwMemAccess::spec_try_from(u16_at(b, 0)) is None {
        Err(PacketError::InvalidTag)
    } else {
        Ok(
            FwPacketL2View::AccessMemoryRequest {
                access: FwMemAccess::spec_try_from(u16_at(b, 0)).unwrap(),
            },
        )
    }
}

/// The response to a request for access that the bytes hold.
pub open spec fn fw_access_res(b: Seq<u8>) -> Result<FwPacketL2View, PacketError> {
    if b.len() < 1 {
        Err(PacketError::Truncated)
    } else {
        Ok(FwPacketL2View::AccessMemoryResponse { status: FwMemAccessStatus::spec_from(b[0]) })
    }
}

/// The payload of kind `id` that the bytes hold.
pub open spec fn fw_deser(id: u16, b: Seq<u8>) -> Result<FwPacketL2View, PacketError> {
    if id == 0x01c2 {
        fw_read_req(b)
    } else if id == 0x81c2 {
        fw_read_res(b)
    } else if id == 0x01c3 {
        fw_write_req(b)
    } else if id == 0x81c3 {
        fw_write_res(b)
    } else if id == 0x0218 {
        fw_access_req(b)
    } else if id == 0x8218 {
        fw_access_res(b)
    } else {
        Err(PacketError::UnknownKind(id))
    }
}

impl FwPacketL2 {
    fn unpack_access_mem(data: &[u8]) -> (r: Result<FwPacketL2, PacketError>)
        ensures
            match r {
                Ok(p) => fw_access_req(data@) == Ok::<FwPacketL2View, PacketError>(p@),
                Err(e) => fw_access_req(data@) == Err::<FwPacketL2View, PacketError>(e),
            },
    {
        if data.len() < 2 {
            return Err(PacketError::Truncated);
        }
        let access = FwMemAccess::try_from(get_u16(data, 0))?;
        Ok(FwPacketL2::AccessMemoryRequest { access })
    }

    fn pack_access_mem(access: FwMemAccess) -> (r: Vec<u8>)
        ensures
            r@ == u16_le_bytes(access.spec_tag()),
    {
        let mut ret: Vec<u8> = Vec::new();
        put_u16(&mut ret, access.tag());
        ret
    }

    fn unpack_fw_access_mem_res(data: &[u8]) -> (r: Result<FwPacketL2, PacketError>)
        ensures
            match r {
                Ok(p) => fw_access_res(data@) == Ok::<FwPacketL2View, PacketError>(p@),
                Err(e) => fw_access_res(data@) == Err::<FwPacketL2View, PacketError>(e),
            },
    {
        if data.len() < 1 {
            return Err(PacketError::Truncated);
        }
        Ok(FwPacketL2::AccessMemoryResponse { status: FwMemAccessStatus::from(data[0]) })
    }

    fn unpack_fw_read_mem_req(data: &[u8]) -> (r: Result<FwPacketL2, PacketError>)
        ensures
            match r {
                Ok(p) => fw_read_req(data@) == Ok::<FwPacketL2View, PacketError>(p@),
                Err(e) => fw_read_req(data@) == Err::<FwPacketL2View, PacketError>(e),
            },
    {
        if data.len() < 1 {
            return Err(PacketError::Truncated);
        }
        let mem = FwMemory::try_from(data[0])?;
        if data.len() < 7 {
            return Err(PacketError::Truncated);
        }
        Ok(FwPacketL2::ReadMemoryRequest { addr: get_u32(data, 1), len: get_u16(data, 5), mem })
    }

    fn pack_fw_read_mem_req(addr: u32, len: u16, mem: FwMemory) -> (r: Vec<u8>)
        ensures
            r@ == seq![mem.spec_tag()] + u32_le_bytes(addr) + u16_le_bytes(len),
    {
        let mut ret: Vec<u8> = Vec::new();
        ret.push(mem.tag());
        put_u32(&mut ret, addr);
        put_u16(&mut ret, len);
        assert(ret@ =~= seq![mem.spec_tag()] + u32_le_bytes(addr) + u16_le_bytes(len));
        ret
    }

    fn unpack_fw_read_mem_res(data: &[u8]) -> (r: Result<FwPacketL2, PacketError>)
        ensures
            match r {
                Ok(p) => fw_read_res(data@) == Ok::<FwPacketL2View, PacketError>(p@),
                Err(e) => fw_read_res(data@) == Err::<FwPacketL2View, PacketError>(e),
            },
    {
        if data.len() < 2 {
            return Err(PacketError::Truncated);
        }
        let status = data[0];
        let mem = FwMemory::try_from(data[1])?;
        if data.len() < 8 {
            return Err(PacketError::Truncated);
        }
        let addr = get_u32(data, 2);
        let len = get_u16(data, 6) as usize;
        if data.len() - 8 < len {
            return Err(PacketError::Truncated);
        }
        let mut payload: Vec<u8> = Vec::new();
        put_bytes(&mut payload, &data[8..8 + len]);
        assert(payload@ =~= data@.subrange(8, 8 + len));
        Ok(FwPacketL2::ReadMemoryResponse { addr, status, mem, payload })
    }

    fn pack_fw_read_mem_res(status: u8, mem: FwMemory, addr: u32, payload: &[u8]) -> (r: Result<
        Vec<u8>,
        PacketError,
    >)
        ensures
            match r {
                Ok(b) => payload@.len() <= 0xffff && b@ == seq![status, mem.spec_tag()]
                    + u32_le_bytes(addr) + u16_le_bytes(payload@.len() as u16) + payload@,
                Err(e) => payload@.len() > 0xffff && e == PacketError::PayloadTooLong,
            },
    {
        if payload.len() > 0xffff {
            return Err(PacketError::PayloadTooLong);
        }
        let mut ret: Vec<u8> = Vec::new();
        ret.push(status);
        ret.push(mem.tag());
        put_u32(&mut ret, addr);
        put_u16(&mut ret, payload.len() as u16);
        put_bytes(&mut ret, payload);
        assert(ret@ =~= seq![status, mem.spec_tag()] + u32_le_bytes(addr) + u16_le_bytes(
            payload@.len() as u16,
        ) + payload@);
        Ok(ret)
    }

    fn unpack_fw_write_mem_req(data: &[u8]) -> (r: Result<FwPacketL2, PacketError>)
        ensures
            match r {
                Ok(p) => fw_write_req(data@) == Ok::<FwPacketL2View, PacketError>(p@),
                Err(e) => fw_write_req(data@) == Err::<FwPacketL2View, PacketError>(e),
            },
    {
        if data.len() < 1 {
            return Err(PacketError::Truncated);
        }
        let mem = FwMemory::try_from(data[0])?;
        if data.len() < 7 {
            return Err(PacketError::Truncated);
        }
        let addr = get_u32(data, 1);
        let len = get_u16(data, 5) as usize;
        if data.len() - 7 < len {
            return Err(PacketError::Truncated);
        }
        let mut payload: Vec<u8> = Vec::new();
        put_bytes(&mut payload, &data[7..7 + len]);
        assert(payload@ =~= data@.subrange(7, 7 + len));
        Ok(FwPacketL2::WriteMemoryRequest { mem, addr, payload })
    }

    fn pack_fw_write_mem_req(mem: FwMemory, addr: u32, payload: &[u8]) -> (r: Result<
        Vec<u8>,
        PacketError,
    >)
        ensures
            match r {
                Ok(b) => payload@.len() <= 0xffff && b@ == seq![mem.spec_tag()] + u32_le_bytes(
                    addr,
                ) + u16_le_bytes(payload@.len() as u16) + payload@,
                Err(e) => payload@.len() > 0xffff && e == PacketError::PayloadTooLong,
            },
    {
        if payload.len() > 0xffff {
            return Err(PacketError::PayloadTooLong);
        }
        let mut ret: Vec<u8> = Vec::new();
        ret.push(mem.tag());
        put_u32(&mut ret, addr);
        put_u16(&mut ret, payload.len() as u16);
        put_bytes(&mut ret, payload);
        assert(ret@ =~= seq![mem.spec_tag()] + u32_le_bytes(addr) + u16_le_bytes(
            payload@.len() as u16,
        ) + payload@);
        Ok(ret)
    }

    fn unpack_fw_write_mem_res(data: &[u8]) -> (r: Result<FwPacketL2, PacketError>)
        ensures
            match r {
                Ok(p) => fw_write_res(data@) == Ok::<FwPacketL2View, PacketError>(p@),
                Err(e) => fw_write_res(data@) == Err::<FwPacketL2View, PacketError>(e),
            },
    {
        if data.len() < 2 {
            return Err(PacketError::Truncated);
        }
        let status = data[0];
        let mem = FwMemory::try_from(data[1])?;
        if data.len() < 8 {
            return Err(PacketError::Truncated);
        }
        Ok(
            FwPacketL2::WriteMemoryResponse {
                status,
                mem,
                addr: get_u32(data, 2),
                len: get_u16(data, 6),
            },
        )
    }

    fn pack_fw_write_mem_res(status: u8, mem: FwMemory, addr: u32, len: u16) -> (r: Vec<u8>)
        ensures
            r@ == seq![status, mem.spec_tag()] + u32_le_bytes(addr) + u16_le_bytes(len),
    {
        let mut ret: Vec<u8> = Vec::new();
        ret.push(status);
        ret.push(mem.tag());
        put_u32(&mut ret, addr);
        put_u16(&mut ret, len);
        assert(ret@ =~= seq![status, mem.spec_tag()] + u32_le_bytes(addr) + u16_le_bytes(len));
        ret
    }
}

impl L2Payload for FwPacketL2 {
    open spec fn spec_get_id(v: FwPacketL2View) -> u16 {
        fw_id(v)
    }

    open spec fn spec_ser_payload(v: FwPacketL2View) -> Result<Seq<u8>, PacketError> {
        fw_ser(v)
    }

    open spec fn spec_deser_payload(id: u16, data: Seq<u8>) -> Result<FwPacketL2View, PacketError> {
        fw_deser(id, data)
    }

    proof fn lemma_payload_roundtrip(v: FwPacketL2View) {
        lemma_fw_payload_roundtrip(v);
    }

    fn deser_payload(id: u16, data: &[u8]) -> (r: Result<Self, PacketError>) {
        match id {
            0x01c2 => Self::unpack_fw_read_mem_req(data),
            0x81c2 => Self::unpack_fw_read_mem_res(data),
            0x01c3 => Self::unpack_fw_write_mem_req(data),
            0x81c3 => Self::unpack_fw_write_mem_res(data),
            0x0218 => Self::unpack_access_mem(data),
            0x8218 => Self::unpack_fw_access_mem_res(data),
            _ => Err(PacketError::UnknownKind(id)),
        }
    }

    fn get_id(&self) -> (id: u16) {
        match self {
            FwPacketL2::ReadMemoryRequest { .. } => 0x01c2,
            FwPacketL2::ReadMemoryResponse { .. } => 0x81c2,
            FwPacketL2::WriteMemoryRequest { .. } => 0x01c3,
            FwPacketL2::WriteMemoryResponse { .. } => 0x81c3,
            FwPacketL2::AccessMemoryRequest { .. } => 0x0218,
            FwPacketL2::AccessMemoryResponse { .. } => 0x8218,
        }
    }

    fn ser_payload(&self) -> (r: Result<Vec<u8>, PacketError>) {
        match self {
            FwPacketL2::ReadMemoryRequest { addr, len, mem } => Ok(
                Self::pack_fw_read_mem_req(*addr, *len, *mem),
            ),
            FwPacketL2::ReadMemoryResponse {
                addr,
                status,
                mem,
                payload,
            } => Self::pack_fw_read_mem_res(*status, *mem, *addr, payload.as_slice()),
            FwPacketL2::WriteMemoryRequest {
                mem,
                addr,
                payload,
            } => Self::pack_fw_write_mem_req(*mem, *addr, payload.as_slice()),
            FwPacketL2::WriteMemoryResponse { status, mem, addr, len } => Ok(
                Self::pack_fw_write_mem_res(*status, *mem, *addr, *len),
            ),
            FwPacketL2::AccessMemoryRequest { access } => Ok(Self::pack_access_mem(*access)),
            FwPacketL2::AccessMemoryResponse { .. } => Err(PacketError::Unsupported),
        }
    }
}

/// The outer packet of the firmware update protocol.
#[derive(Debug, PartialEq, Eq, Clone)]
pub struct FwPacketL1 {
    pub payload: L2<FwPacketL2>,
}

impl View for FwPacketL1 {
    type V = FwPacketL2View;

    open spec fn view(&self) -> FwPacketL2View {
        self.payload@
    }
}

/// Length in bytes of the header of the outer packet.
pub const FW_HDR_LEN: u16 = 4;

/// The sum that the checksum of an outer packet is the low sixteen bits of:
/// the complements, in sixteen bits, of the little-endian words of the
/// frame. A last byte without a partner counts as the high byte of a word.
pub open spec fn fw_word_sum(b: Seq<u8>) -> nat
    decreases b.len(),
{
    if b.len() == 0 {
        0
    } else if b.len() % 2 == 1 {
        fw_word_sum(b.drop_last()) + (0xffff - 256 * b.last()) as nat
    } else {
        fw_word_sum(b.subrange(0, b.len() - 2)) + (0xffff - (b[b.len() - 2] + 256 * b.last())) as nat
    }
}

/// The checksum of an outer packet around the frame `b`: the low sixteen
/// bits of the complement of the length of the packet plus the complements
/// of the words of the frame.
pub open spec fn fw_crc(b: Seq<u8>) -> u16 {
    (((0xffff - (b.len() + 4) % 0x10000) + fw_word_sum(b)) % 0x10000) as u16
}

/// The bytes of an outer packet around a frame of at most 0xfffb bytes, with
/// the given checksum.
pub open spec fn fw_packet_bytes(frame: Seq<u8>, crc: u16) -> Seq<u8> {
    u16_le_bytes((frame.len() + 4) as u16) + u16_le_bytes(crc) + frame
}

/// The bytes of an outer packet around a payload.
pub open spec fn fw_pack_spec(v: FwPacketL2View) -> Result<Seq<u8>, PacketError> {
    match l2_pack_spec::<FwPacketL2>(v) {
        Err(e) => Err(e),
        Ok(frame) => if frame.len() + 4 > 0xffff {
            Err(PacketError::PayloadTooLong)
        } else {
            Ok(fw_packet_bytes(frame, fw_crc(frame)))
        },
    }
}

/// The payload of the outer packet at the start of `data`. The checksum is
/// not looked at.
pub open spec fn fw_unpack_spec(data: Seq<u8>) -> Result<FwPacketL2View, PacketError> {
    if data.len() < 4 {
        Err(PacketError::Truncated)
    } else if u16_at(data, 0) < 4 {
        Err(PacketError::BadTotalLength)
    } else if u16_at(data, 0) == 4 {
        Err(PacketError::EmptyPayload)
    } else {
        l2_unpack_spec::<FwPacketL2>(data.subrange(4, data.len() as int))
    }
}

impl FwPacketL1 {
    /// The outer packet around a payload.
    pub fn new(payload: FwPacketL2) -> (r: FwPacketL1)
        ensures
            r.payload.payload == payload,
    {
        FwPacketL1 { payload: L2::new(payload) }
    }

    /// The checksum of an outer packet around a frame.
    pub fn crc(payload: &Vec<u8>) -> (r: u16)
        requires
            payload@.len() <= 0xffff,
        ensures
            r == fw_crc(payload@),
    {
        let len = payload.len();
        let mut n: u32 = 0xffff - ((len as u32 + FW_HDR_LEN as u32) % 0x10000);
        let words = len / 2;
        let mut i: usize = 0;
        assert(payload@.subrange(0, 0) =~= Seq::<u8>::empty());
        while i < words
            invariant
                i <= words,
                words == len / 2,
                len == payload@.len(),
                len <= 0xffff,
                n == (0xffff - (len + 4) % 0x10000) + fw_word_sum(payload@.subrange(0, 2 * i)),
                n <= 0xffff + 0xffff * i,
            decreases words - i,
        {
            let ghost next = payload@.subrange(0, 2 * i + 2);
            assert(next.subrange(0, next.len() - 2) =~= payload@.subrange(0, 2 * i));
            let w: u32 = payload[2 * i] as u32 + 256 * (payload[2 * i + 1] as u32);
            n = n + (0xffff - w);
            i += 1;
        }
        if len % 2 == 1 {
            assert(payload@.drop_last() =~= payload@.subrange(0, 2 * i));
            let last: u32 = payload[len - 1] as u32;
            n = n + (0xffff - 256 * last);
        } else {
            assert(payload@.subrange(0, 2 * i) =~= payload@);
        }
        (n % 0x10000) as u16
    }

    /// Writes the bytes of the packet with the given checksum over the start
    /// of `v`. Where the packet cannot be packed `v` stays as it is.
    pub fn pack_hdr(&self, crc: u16, v: &mut Vec<u8>) -> (r: Result<(), PacketError>)
        ensures
            match l2_pack_spec::<FwPacketL2>(self@) {
                Err(e) => r == Err::<(), PacketError>(e) && final(v)@ == old(v)@,
                Ok(frame) => if frame.len() + 4 > 0xffff {
                    r == Err::<(), PacketError>(PacketError::PayloadTooLong) && final(v)@ == old(v)@
                } else {
                    r is Ok && final(v)@ == patched(old(v)@, 0, fw_packet_bytes(frame, crc))
                },
            },
    {
        let frame = self.payload.pack()?;
        if frame.len() > 0xffff - 4 {
            return Err(PacketError::PayloadTooLong);
        }
        let mut b: Vec<u8> = Vec::new();
        put_u16(&mut b, frame.len() as u16 + FW_HDR_LEN);
        put_u16(&mut b, crc);
        put_bytes(&mut b, frame.as_slice());
        write_at(v, 0, b.as_slice());
        Ok(())
    }

    /// The bytes of the packet.
    pub fn pack(&self) -> (r: Result<Vec<u8>, PacketError>)
        ensures
            match r {
                Ok(b) => fw_pack_spec(self@) == Ok::<Seq<u8>, PacketError>(b@),
                Err(e) => fw_pack_spec(self@) == Err::<Seq<u8>, PacketError>(e),
            },
    {
        let frame = self.payload.pack()?;
        if frame.len() > 0xffff - 4 {
            return Err(PacketError::PayloadTooLong);
        }
        let crc = Self::crc(&frame);
        let mut v: Vec<u8> = Vec::new();
        put_u16(&mut v, frame.len() as u16 + FW_HDR_LEN);
        put_u16(&mut v, crc);
        put_bytes(&mut v, frame.as_slice());
        Ok(v)
    }

    /// Unpacks the packet at the start of `data`.
    pub fn unpack(data: &[u8]) -> (r: Result<FwPacketL1, PacketError>)
        ensures
            match r {
                Ok(p) => fw_unpack_spec(data@) == Ok::<FwPacketL2View, PacketError>(p@),
                Err(e) => fw_unpack_spec(data@) == Err::<FwPacketL2View, PacketError>(e),
            },
    {
        if data.len() < 4 {
            return Err(PacketError::Truncated);
        }
        let total_len = get_u16(data, 0);
        if total_len < FW_HDR_LEN {
            return Err(PacketError::BadTotalLength);
        }
        if total_len == FW_HDR_LEN {
            return Err(PacketError::EmptyPayload);
        }
        let payload = L2::unpack(&data[4..data.len()])?;
        Ok(FwPacketL1 { payload })
    }
}

/// Unpacking the bytes of an outer packet gives its payload.
pub proof fn lemma_fw_packet_roundtrip(v: FwPacketL2View)
    requires
        fw_pack_spec(v) is Ok,
    ensures
        fw_unpack_spec(fw_pack_spec(v)->Ok_0) == Ok::<FwPacketL2View, PacketError>(v),
{
    let frame = l2_pack_spec::<FwPacketL2>(v)->Ok_0;
    let total = (frame.len() + 4) as u16;
    let head = u16_le_bytes(total) + u16_le_bytes(fw_crc(frame));
    let b = fw_pack_spec(v)->Ok_0;
    lemma_l2_roundtrip::<FwPacketL2>(v, Seq::empty());
    lemma_u16_le_roundtrip(total);
    assert(b == head + frame);
    assert(b[0] == u16_le_bytes(total)[0] && b[1] == u16_le_bytes(total)[1]);
    assert(b.subrange(4, b.len() as int) =~= frame);
    assert(frame + Seq::<u8>::empty() =~= frame);
}

} // verus!
