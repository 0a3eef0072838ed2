//! The outer packet of the programming protocol: a header of twelve bytes
//! with a checksum, around an inner frame or around nothing.

use crate::bytes::{
    get_u16_be, put_bytes, put_u16, put_u16_be, u16_be_at, u16_be_bytes, u16_le_bytes,
};
use crate::bytes::lemma_prefix_kept;
use crate::radio::common::{l2_pack_spec, l2_unpack_spec, lemma_l2_roundtrip, PacketError, L2};
use crate::radio::cps_payload::{CPSPacketL2, CPSPacketL2View};
use crate::section::{patched, write_at};
use vstd::prelude::*;

verus! {

/// What a packet is for.
#[derive(Debug, PartialEq, Eq, Clone, Copy, Structural)]
pub enum Command {
    Connect,
    Req,
    Res,
}

impl Command {
    /// The number that stands for a command in a packet.
    pub open spec fn spec_tag(self) -> u8 {
        match self {
            Command::Connect => 0x00,
            Command::Req => 0x01,
            Command::Res => 0x04,
        }
    }

    /// The command that a number stands for, if any.
    pub open spec fn spec_try_from(v: u8) -> Option<Command> {
        if v == 0x00 {
            Some(Command::Connect)
        } else if v == 0x01 {
            Some(Command::Req)
        } else if v == 0x04 {
            Some(Command::Res)
        } else {
            None
        }
    }

    /// The number that stands for a command in a packet.
    pub fn tag(self) -> (v: u8)
        ensures
            v == self.spec_tag(),
    {
        match self {
            Command::Connect => 0x00,
            Command::Req => 0x01,
            Command::Res => 0x04,
        }
    }

    /// The command that a number stands for; a number that stands for none is
    /// refused.
    pub fn try_from(v: u8) -> (r: Result<Command, PacketError>)
        ensures
            match Self::spec_try_from(v) {
                Some(m) => r == Ok::<Command, PacketError>(m),
                None => r == Err::<Command, PacketError>(PacketError::InvalidTag),
            },
    {
        if v == 0x00 {
            Ok(Command::Connect)
        } else if v == 0x01 {
            Ok(Command::Req)
        } else if v == 0x04 {
            Ok(Command::Res)
        } else {
            Err(PacketError::InvalidTag)
        }
    }
}

/// The flags byte of a packet.
#[derive(Debug, PartialEq, Eq, Clone, Copy, Structural)]
pub enum Flags {
    Default,
    Connnect,
    ResConnect,
}

impl Flags {
    /// The number that stands for the flags in a packet.
    pub open spec fn spec_tag(self) -> u8 {
        match self {
            Flags::Default => 0x00,
            Flags::Connnect => 0xfe,
            Flags::ResConnect => 0xfd,
        }
    }

    /// The flags that a number stands for, if any.
    pub open spec fn spec_try_from(v: u8) -> Option<Flags> {
        if v == 0x00 {
            Some(Flags::Default)
        } else if v == 0xfe {
            Some(Flags::Connnect)
        } else if v == 0xfd {
            Some(Flags::ResConnect)
        } else {
            None
        }
    }

    /// The number that stands for the flags in a packet.
    pub fn tag(self) -> (v: u8)
        ensures
            v == self.spec_tag(),
    {
        match self {
            Flags::Default => 0x00,
            Flags::Connnect => 0xfe,
            Flags::ResConnect => 0xfd,
        }
    }

    /// The flags that a number stands for; a number that stands for none is
    /// refused.
    pub fn try_from(v: u8) -> (r: Result<Flags, PacketError>)
        ensures
            match Self::spec_try_from(v) {
                Some(m) => r == Ok::<Flags, PacketError>(m),
                None => r == Err::<Flags, PacketError>(PacketError::InvalidTag),
            },
    {
        if v == 0x00 {
            Ok(Flags::Default)
        } else if v == 0xfe {
            Ok(Flags::Connnect)
        } else if v == 0xfd {
            Ok(Flags::ResConnect)
        } else {
            Err(PacketError::InvalidTag)
        }
    }
}

/// An end of the connection.
#[derive(Debug, PartialEq, Eq, Clone, Copy, Structural)]
pub enum Entity {
    Host,
    Radio,
}

impl Entity {
    /// The number that stands for an end in a packet.
    pub open spec fn spec_tag(self) -> u8 {
        match self {
            Entity::Host => 0x20,
            Entity::Radio => 0x10,
        }
    }

    /// The end that a number stands for, if any.
    pub open spec fn spec_try_from(v: u8) -> Option<Entity> {
        if v == 0x20 {
            Some(Entity::Host)
        } else if v == 0x10 {
            Some(Entity::Radio)
        } else {
            None
        }
    }

    /// The number that stands for an end in a packet.
    pub fn tag(self) -> (v: u8)
        ensures
            v == self.spec_tag(),
    {
        match self {
            Entity::Host => 0x20,
            Entity::Radio => 0x10,
        }
    }

    /// The end that a number stands for; a number that stands for none is
    /// refused.
    pub fn try_from(v: u8) -> (r: Result<Entity, PacketError>)
        ensures
            match Self::spec_try_from(v) {
                Some(m) => r == Ok::<Entity, PacketError>(m),
                None => r == Err::<Entity, PacketError>(PacketError::InvalidTag),
            },
    {
        if v == 0x20 {
            Ok(Entity::Host)
        } else if v == 0x10 {
            Ok(Entity::Radio)
        } else {
            Err(PacketError::InvalidTag)
        }
    }
}

/// An outer packet of the programming protocol.
#[derive(Debug, PartialEq, Eq, Clone)]
pub struct PacketL1 {
    pub command: Command,
    pub flags: Flags,
    pub src: Entity,
    pub dst: Entity,
    pub seq: u16,
    pub payload: Option<L2<CPSPacketL2>>,
}

/// A `PacketL1` with its payload as a view.
pub struct PacketL1View {
    pub command: Command,
    pub flags: Flags,
    pub src: Entity,
    pub dst: Entity,
    pub seq: u16,
    pub payload: Option<CPSPacketL2View>,
}

impl View for PacketL1 {
    type V = PacketL1View;

    open spec fn view(&self) -> PacketL1View {
        PacketL1View {
            command: self.command,
            flags: self.flags,
            src: self.src,
            dst: self.dst,
            seq: self.seq,
            payload: match self.payload {
                Some(p) => Some(p@),
                None => None,
            },
        }
    }
}

/// Length in bytes of the header of an outer packet.
pub const HDR_LEN: u16 = 12;

/// The byte that every outer packet starts with.
pub const PACKET_START: u8 = 0x7e;

/// The sum of the little-endian words of a sequence of bytes. A last byte
/// without a partner counts as it is.
pub open spec fn word_sum(b: Seq<u8>) -> nat
    decreases b.len(),
{
    if b.len() == 0 {
        0
    } else if b.len() % 2 == 1 {
        word_sum(b.drop_last()) + b.last() as nat
    } else {
        word_sum(b.subrange(0, b.len() - 2)) + (b[b.len() - 2] + 256 * b.last()) as nat
    }
}

/// A sum brought down to sixteen bits by adding what goes beyond them back
/// in, over and over.
pub open spec fn fold16(n: nat) -> nat
    decreases n,
{
    if n > 0xffff {
        fold16(n / 0x10000 + n % 0x10000)
    } else {
        n
    }
}

/// The checksum of an outer packet: the complement of the folded sum of the
/// words of the packet as it is with a checksum of zero.
pub open spec fn cps_crc(b: Seq<u8>) -> u16 {
    (0xffff - fold16(word_sum(b))) as u16
}

impl PacketL1View {
    /// The twelve bytes of the header for the given total length and
    /// checksum.
    pub open spec fn header_bytes(self, total_len: u16, crc: u16) -> Seq<u8> {
        seq![
            0x7eu8,
            self.command.spec_tag(),
            0u8,
            self.flags.spec_tag(),
            self.src.spec_tag(),
            self.dst.spec_tag(),
        ] + u16_be_bytes(self.seq) + u16_be_bytes(total_len) + u16_le_bytes(crc)
    }

    /// The inner frame of the packet; no bytes where the packet has no
    /// payload.
    pub open spec fn frame(self) -> Result<Seq<u8>, PacketError> {
        match self.payload {
            None => Ok(Seq::empty()),
            Some(p) => l2_pack_spec::<CPSPacketL2>(p),
        }
    }

    /// The bytes of the packet with the given checksum; a packet of more than
    /// 0xffff bytes is refused.
    pub open spec fn bytes_with(self, crc: u16) -> Result<Seq<u8>, PacketError> {
        match self.frame() {
            Err(e) => Err(e),
            Ok(frame) => if 12 + frame.len() > 0xffff {
                Err(PacketError::PayloadTooLong)
            } else {
                Ok(self.header_bytes((12 + frame.len()) as u16, crc) + frame)
            },
        }
    }

    /// The bytes of the packet, with the checksum of its bytes as they are
    /// with a checksum of zero.
    pub open spec fn pack(self) -> Result<Seq<u8>, PacketError> {
        match self.bytes_with(0) {
            Err(e) => Err(e),
            Ok(plain) => self.bytes_with(cps_crc(plain)),
        }
    }

    /// The packet at the start of `data`. The checksum is not looked at. A
    /// total length of twelve says that there is no payload; else the inner
    /// frame is what follows the header.
    pub open spec fn unpack(data: Seq<u8>) -> Result<PacketL1View, PacketError> {
        if data.len() < 12 {
            Err(PacketError::Truncated)
        } else if data[0] != 0x7e {
            Err(PacketError::BadStart)
        } else if Command::spec_try_from(data[1]) is None {
            Err(PacketError::InvalidTag)
        } else if data[2] != 0 {
            Err(PacketError::ReservedMismatch)
        } else if Flags::spec_try_from(data[3]) is None || Entity::spec_try_from(data[4]) is None
            || Entity::spec_try_from(data[5]) is None {
            Err(PacketError::InvalidTag)
        } else if u16_be_at(data, 8) < 12 {
            Err(PacketError::BadTotalLength)
        } else {
            let head = PacketL1View {
                command: Command::spec_try_from(data[1]).unwrap(),
                flags: Flags::spec_try_from(data[3]).unwrap(),
                src: Entity::spec_try_from(data[4]).unwrap(),
                dst: Entity::spec_try_from(data[5]).unwrap(),
                seq: u16_be_at(data, 6),
                payload: None,
            };
            if u16_be_at(data, 8) == 12 {
                Ok(head)
            } else {
                match l2_unpack_spec::<CPSPacketL2>(data.subrange(12, data.len() as int)) {
                    Err(e) => Err(e),
                    Ok(p) => Ok(PacketL1View { payload: Some(p), ..head }),
                }
            }
        }
    }
}

impl PacketL1 {
    /// A packet from the host to the radio, with sequence number zero.
    pub fn new(command: Command, flags: Flags, payload: Option<L2<CPSPacketL2>>) -> (r: PacketL1)
        ensures
            r == (PacketL1 {
                command,
                flags,
                src: Entity::Host,
                dst: Entity::Radio,
                seq: 0,
                payload,
            }),
    {
        PacketL1 { command, flags, src: Entity::Host, dst: Entity::Radio, seq: 0, payload }
    }

    /// The bytes of the packet with the given checksum.
    fn bytes_with(&self, crc: u16) -> (r: Result<Vec<u8>, PacketError>)
        ensures
            match r {
                Ok(b) => self@.bytes_with(crc) == Ok::<Seq<u8>, PacketError>(b@) && b@.len()
                    <= 0xffff,
                Err(e) => self@.bytes_with(crc) == Err::<Seq<u8>, PacketError>(e),
            },
    {
        let frame: Vec<u8> = match &self.payload {
            Some(p) => p.pack()?,
            None => Vec::new(),
        };
        if frame.len() > 0xffff - 12 {
            return Err(PacketError::PayloadTooLong);
        }
        let head: [u8; 6] = [
            PACKET_START,
            self.command.tag(),
            0,
            self.flags.tag(),
            self.src.tag(),
            self.dst.tag(),
        ];
        assert(head@ =~= seq![
            0x7eu8,
            self.command.spec_tag(),
            0u8,
            self.flags.spec_tag(),
            self.src.spec_tag(),
            self.dst.spec_tag(),
        ]);
        let mut v: Vec<u8> = Vec::new();
        put_bytes(&mut v, head.as_slice());
        put_u16_be(&mut v, self.seq);
        put_u16_be(&mut v, HDR_LEN + frame.len() as u16);
        put_u16(&mut v, crc);
        put_bytes(&mut v, frame.as_slice());
        Ok(v)
    }

    /// Writes the bytes of the packet with the given checksum over the start
    /// of `v`. Where the packet cannot be packed `v` stays as it is.
    pub fn pack_hdr(&self, crc: u16, v: &mut Vec<u8>) -> (r: Result<(), PacketError>)
        ensures
            match self@.bytes_with(crc) {
                Ok(b) => r is Ok && final(v)@ == patched(old(v)@, 0, b),
                Err(e) => r == Err::<(), PacketError>(e) && final(v)@ == old(v)@,
            },
    {
        let b = self.bytes_with(crc)?;
        write_at(v, 0, b.as_slice());
        Ok(())
    }

    /// The checksum of the bytes of a packet.
    pub fn crc(data: &Vec<u8>) -> (r: u16)
        requires
            data@.len() <= 0xffff,
        ensures
            r == cps_crc(data@),
    {
        let len = data.len();
        let words = len / 2;
        let mut n: u32 = 0;
        let mut i: usize = 0;
        assert(data@.subrange(0, 0) =~= Seq::<u8>::empty());
        while i < words
            invariant
                i <= words,
                words == len / 2,
                len == data@.len(),
                len <= 0xffff,
                n == word_sum(data@.subrange(0, 2 * i)),
                n <= 0xffff * i,
            decreases words - i,
        {
            let ghost next = data@.subrange(0, 2 * i + 2);
            assert(next.subrange(0, next.len() - 2) =~= data@.subrange(0, 2 * i));
            n = n + (data[2 * i] as u32 + 256 * (data[2 * i + 1] as u32));
            i += 1;
        }
        if len % 2 == 1 {
            assert(data@.drop_last() =~= data@.subrange(0, 2 * i));
            n = n + data[len - 1] as u32;
        } else {
            assert(data@.subrange(0, 2 * i) =~= data@);
        }
        let ghost sum = n as nat;
        while n > 0xffff
            invariant
                fold16(n as nat) == fold16(sum),
            decreases n,
        {
            n = n / 0x10000 + n % 0x10000;
        }
        0xffff - n as u16
    }

    /// The bytes of the packet.
    pub fn pack(&self) -> (r: Result<Vec<u8>, PacketError>)
        ensures
            match r {
                Ok(b) => self@.pack() == Ok::<Seq<u8>, PacketError>(b@),
                Err(e) => self@.pack() == Err::<Seq<u8>, PacketError>(e),
            },
    {
        let plain = self.bytes_with(0)?;
        let crc = Self::crc(&plain);
        self.bytes_with(crc)
    }

    /// Unpacks the packet at the start of `data`.
    pub fn unpack(data: &[u8]) -> (r: Result<PacketL1, PacketError>)
        ensures
            match r {
                Ok(p) => PacketL1View::unpack(data@) == Ok::<PacketL1View, PacketError>(p@),
                Err(e) => PacketL1View::unpack(data@) == Err::<PacketL1View, PacketError>(e),
            },
    {
        if data.len() < 12 {
            return Err(PacketError::Truncated);
        }
        if data[0] != PACKET_START {
            return Err(PacketError::BadStart);
        }
        let command = Command::try_from(data[1])?;
        if data[2] != 0 {
            return Err(PacketError::ReservedMismatch);
        }
        let flags = Flags::try_from(data[3])?;
        let src = Entity::try_from(data[4])?;
        let dst = Entity::try_from(data[5])?;
        let seq = get_u16_be(data, 6);
        let total_len = get_u16_be(data, 8);
        if total_len < HDR_LEN {
            return Err(PacketError::BadTotalLength);
        }
        let payload = if total_len == HDR_LEN {
            None
        } else {
            Some(L2::unpack(&data[12..data.len()])?)
        };
        Ok(PacketL1 { command, flags, src, dst, seq, payload })
    }
}

/// Where the fields of the header of an outer packet lie in its bytes,
/// whatever follows the header.
pub proof fn lemma_header_layout(v: PacketL1View, total_len: u16, crc: u16, rest: Seq<u8>)
    ensures
        ({
            let b = v.header_bytes(total_len, crc) + rest;
            &&& b.len() == 12 + rest.len()
            &&& b[0] == 0x7e
            &&& b[1] == v.command.spec_tag()
            &&& b[2] == 0
            &&& b[3] == v.flags.spec_tag()
            &&& b[4] == v.src.spec_tag()
            &&& b[5] == v.dst.spec_tag()
            &&& u16_be_at(b, 6) == v.seq
            &&& u16_be_at(b, 8) == total_len
            &&& b.subrange(12, b.len() as int) == rest
        }),
{
    let head = seq![
        0x7eu8,
        v.command.spec_tag(),
        0u8,
        v.flags.spec_tag(),
        v.src.spec_tag(),
        v.dst.spec_tag(),
    ];
    let s = u16_be_bytes(v.seq);
    let t = u16_be_bytes(total_len);
    let c = u16_le_bytes(crc);
    let pre1 = head + s;
    let pre2 = pre1 + t;
    let pre3 = pre2 + c;
    let b = pre3 + rest;
    lemma_prefix_kept(head, s);
    lemma_prefix_kept(pre1, t);
    lemma_prefix_kept(pre2, c);
    lemma_prefix_kept(pre3, rest);
    assert forall|i: int| 0 <= i < 6 implies b[i] == head[i] by {
        assert(pre1[i] == head[i]);
        assert(pre2[i] == pre1[i]);
        assert(pre3[i] == pre2[i]);
    }
    assert(b[6] == s[0] && b[7] == s[1]) by {
        let six = head.len() as int;
        assert(pre1[six + 0] == s[0] && pre1[six + 1] == s[1]);
        assert(pre2[6] == pre1[6] && pre2[7] == pre1[7]);
        assert(pre3[6] == pre2[6] && pre3[7] == pre2[7]);
    }
    assert(b[8] == t[0] && b[9] == t[1]) by {
        let eight = pre1.len() as int;
        assert(pre2[eight + 0] == t[0] && pre2[eight + 1] == t[1]);
        assert(pre3[8] == pre2[8] && pre3[9] == pre2[9]);
    }
    assert(b.subrange(12, b.len() as int) =~= rest) by {
        assert forall|i: int| 0 <= i < rest.len() implies b[12 + i] == rest[i] by {
            assert(b[pre3.len() + i] == rest[i]);
        }
    }
}

/// Unpacking the bytes of an outer packet gives the packet.
pub proof fn lemma_packet_roundtrip(v: PacketL1View)
    requires
        v.pack() is Ok,
    ensures
        PacketL1View::unpack(v.pack()->Ok_0) == Ok::<PacketL1View, PacketError>(v),
{
    let frame = v.frame()->Ok_0;
    let total = (12 + frame.len()) as u16;
    let crc = cps_crc(v.bytes_with(0)->Ok_0);
    let b = v.pack()->Ok_0;
    lemma_header_layout(v, total, crc, frame);
    assert(Command::spec_try_from(v.command.spec_tag()) == Some(v.command));
    assert(Flags::spec_try_from(v.flags.spec_tag()) == Some(v.flags));
    assert(Entity::spec_try_from(v.src.spec_tag()) == Some(v.src));
    assert(Entity::spec_try_from(v.dst.spec_tag()) == Some(v.dst));
    match v.payload {
        None => {},
        Some(p) => {
            lemma_l2_roundtrip::<CPSPacketL2>(p, Seq::empty());
            assert(frame + Seq::<u8>::empty() =~= frame);
        },
    }
}

} // verus!
