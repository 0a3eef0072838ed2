//! The inner frame that both programming protocols share: a start byte, the
//! kind and length of a payload, the payload, a checksum and an end byte.

use crate::bytes::{
    get_u16, lemma_prefix_kept, lemma_u16_le_roundtrip, lemma_u32_le_roundtrip, put_bytes, put_u16,
    u16_at, u16_le_bytes, u32_at, u32_le_bytes,
};
use vstd::prelude::*;

verus! {

/// Why a packet could not be packed or unpacked.
#[derive(Clone, Copy, Debug, PartialEq, Eq, Structural)]
pub enum PacketError {
    /// The bytes end before the packet does.
    Truncated,
    /// The packet does not begin with its start byte.
    BadStart,
    /// The packet does not end with its end byte.
    BadEnd,
    /// A byte that names a value of an enumeration names none.
    InvalidTag,
    /// A reserved field does not hold its required constant.
    ReservedMismatch,
    /// The payload has a length that its kind does not allow.
    BadLength,
    /// The length field of a packet is smaller than the header.
    BadTotalLength,
    /// A payload is longer than its length field can say.
    PayloadTooLong,
    /// The kind of the payload is not known.
    UnknownKind(u16),
    /// A text field is not UTF-16.
    InvalidText,
    /// A packet that must carry a payload carries none.
    EmptyPayload,
    /// The payload is of a kind that is only ever received.
    Unsupported,
}

/// A payload of the inner frame.
pub trait L2Payload: Sized + View {
    /// The number that names the kind of a payload.
    spec fn spec_get_id(v: Self::V) -> u16;

    /// The bytes of a payload.
    spec fn spec_ser_payload(v: Self::V) -> Result<Seq<u8>, PacketError>;

    /// The payload of kind `id` that the bytes hold.
    spec fn spec_deser_payload(id: u16, data: Seq<u8>) -> Result<Self::V, PacketError>;

    /// The bytes of the payload.
    fn ser_payload(&self) -> (r: Result<Vec<u8>, PacketError>)
        ensures
            match r {
                Ok(b) => Self::spec_ser_payload(self@) == Ok::<Seq<u8>, PacketError>(b@),
                Err(e) => Self::spec_ser_payload(self@) == Err::<Seq<u8>, PacketError>(e),
            },
    ;

    /// The number that names the kind of the payload.
    fn get_id(&self) -> (id: u16)
        ensures
            id == Self::spec_get_id(self@),
    ;

    /// Decodes the payload of kind `id` from its bytes.
    fn deser_payload(id: u16, data: &[u8]) -> (r: Result<Self, PacketError>)
        ensures
            match r {
                Ok(p) => Self::spec_deser_payload(id, data@) == Ok::<Self::V, PacketError>(p@),
                Err(e) => Self::spec_deser_payload(id, data@) == Err::<Self::V, PacketError>(e),
            },
    ;

    /// The bytes of a payload decode, under its kind, to the payload.
    proof fn lemma_payload_roundtrip(v: Self::V)
        requires
            Self::spec_ser_payload(v) is Ok,
        ensures
            Self::spec_deser_payload(Self::spec_get_id(v), Self::spec_ser_payload(v)->Ok_0)
                == Ok::<Self::V, PacketError>(v),
    ;
}

/// The sum of the bytes of a sequence.
pub open spec fn byte_sum(b: Seq<u8>) -> nat
    decreases b.len(),
{
    if b.len() == 0 {
        0
    } else {
        byte_sum(b.drop_last()) + b.last() as nat
    }
}

/// The checksum of an inner frame whose kind, length and payload add up to
/// `sum`: the low byte of the complement of the sum, plus 0x33.
pub open spec fn frame_check(sum: nat) -> u8 {
    ((255 - sum % 256 + 0x33) % 256) as u8
}

/// What stands between the start byte and the checksum of an inner frame.
pub open spec fn frame_body(id: u16, payload: Seq<u8>) -> Seq<u8> {
    u16_le_bytes(id) + u16_le_bytes(payload.len() as u16) + payload
}

/// The bytes of an inner frame for a payload of at most 0xffff bytes.
pub open spec fn frame_bytes(id: u16, payload: Seq<u8>) -> Seq<u8> {
    seq![2u8] + frame_body(id, payload) + seq![frame_check(byte_sum(frame_body(id, payload))), 3u8]
}

/// The kind and the payload of the inner frame at the start of `data`. The
/// checksum is not looked at, nor what follows the end byte.
pub open spec fn frame_parts(data: Seq<u8>) -> Result<(u16, Seq<u8>), PacketError> {
    if data.len() < 1 {
        Err(PacketError::Truncated)
    } else if data[0] != 2 {
        Err(PacketError::BadStart)
    } else if data.len() < 5 || data.len() < 7 + u16_at(data, 3) {
        Err(PacketError::Truncated)
    } else if data[6 + u16_at(data, 3)] != 3 {
        Err(PacketError::BadEnd)
    } else {
        Ok((u16_at(data, 1), data.subrange(5, 5 + u16_at(data, 3))))
    }
}

/// The inner frame around a payload.
#[derive(Debug, PartialEq, Eq, Clone)]
pub struct L2<T: L2Payload> {
    pub payload: T,
}

impl<T: L2Payload> View for L2<T> {
    type V = T::V;

    open spec fn view(&self) -> T::V {
        self.payload@
    }
}

/// The bytes of the inner frame around a payload.
pub open spec fn l2_pack_spec<T: L2Payload>(v: T::V) -> Result<Seq<u8>, PacketError> {
    match T::spec_ser_payload(v) {
        Err(e) => Err(e),
        Ok(payload) => if payload.len() > 0xffff {
            Err(PacketError::PayloadTooLong)
        } else {
            Ok(frame_bytes(T::spec_get_id(v), payload))
        },
    }
}

/// The payload of the inner frame at the start of `data`.
pub open spec fn l2_unpack_spec<T: L2Payload>(data: Seq<u8>) -> Result<T::V, PacketError> {
    match frame_parts(data) {
        Err(e) => Err(e),
        Ok(parts) => T::spec_deser_payload(parts.0, parts.1),
    }
}

/// A head, an address, a length and a block lie in that order in their
/// bytes.
pub proof fn lemma_block_layout(head: Seq<u8>, addr: u32, len: u16, block: Seq<u8>)
    ensures
        ({
            let b = head + u32_le_bytes(addr) + u16_le_bytes(len) + block;
            let n = head.len() as int;
            &&& b.len() == n + 6 + block.len()
            &&& b.subrange(0, n) == head
            &&& u32_at(b, n) == addr
            &&& u16_at(b, n + 4) == len
            &&& b.subrange(n + 6, n + 6 + block.len()) == block
        }),
{
    let n = head.len() as int;
    let a = u32_le_bytes(addr);
    let l = u16_le_bytes(len);
    let pre1 = head + a;
    let pre2 = pre1 + l;
    let b = pre2 + block;
    lemma_u32_le_roundtrip(addr);
    lemma_u16_le_roundtrip(len);
    lemma_prefix_kept(head, a);
    lemma_prefix_kept(pre1, l);
    lemma_prefix_kept(pre2, block);
    assert(b[n] == a[0] && b[n + 1] == a[1] && b[n + 2] == a[2] && b[n + 3] == a[3]) by {
        assert(pre1[n + 0] == a[0] && pre1[n + 1] == a[1] && pre1[n + 2] == a[2] && pre1[n + 3] == a[3]);
        assert(pre2[n] == pre1[n] && pre2[n + 1] == pre1[n + 1] && pre2[n + 2] == pre1[n + 2] && pre2[n + 3]
            == pre1[n + 3]);
    }
    assert(b[n + 4] == l[0] && b[n + 5] == l[1]) by {
        assert(pre2[n + 4 + 0] == l[0] && pre2[n + 4 + 1] == l[1]);
    }
    assert(b.subrange(0, n) =~= head) by {
        assert forall|i: int| 0 <= i < n implies b[i] == head[i] by {
            assert(pre1[i] == head[i]);
            assert(pre2[i] == pre1[i]);
        }
    }
    assert(b.subrange(n + 6, n + 6 + block.len()) =~= block) by {
        assert forall|i: int| 0 <= i < block.len() implies b[n + 6 + i] == block[i] by {
            assert(b[pre2.len() + i] == block[i]);
        }
    }
}

/// The parts of the frame around a payload are its kind and the payload,
/// whatever follows the frame.
pub proof fn lemma_frame_roundtrip(id: u16, payload: Seq<u8>, rest: Seq<u8>)
    requires
        payload.len() <= 0xffff,
    ensures
        frame_bytes(id, payload).len() == payload.len() + 7,
        frame_parts(frame_bytes(id, payload) + rest) == Ok::<(u16, Seq<u8>), PacketError>(
            (id, payload),
        ),
{
    let len = payload.len() as u16;
    let body = frame_body(id, payload);
    let head = u16_le_bytes(id) + u16_le_bytes(len);
    let tail = seq![frame_check(byte_sum(body)), 3u8];
    let frame = frame_bytes(id, payload);
    let b = frame + rest;
    lemma_u16_le_roundtrip(id);
    lemma_u16_le_roundtrip(len);
    assert(body == head + payload);
    assert(head.len() == 4);
    assert(frame == seq![2u8] + body + tail);
    assert(b[0] == 2);
    assert(b[1] == head[0] && b[2] == head[1] && b[3] == head[2] && b[4] == head[3]) by {
        assert(body[0] == head[0] && body[1] == head[1] && body[2] == head[2] && body[3]
            == head[3]);
        assert(frame[1] == body[0] && frame[2] == body[1] && frame[3] == body[2] && frame[4]
            == body[3]);
    }
    assert(head[0] == u16_le_bytes(id)[0] && head[1] == u16_le_bytes(id)[1]);
    assert(head[2] == u16_le_bytes(len)[0] && head[3] == u16_le_bytes(len)[1]);
    assert(u16_at(b, 1) == id);
    assert(u16_at(b, 3) == len);
    assert(b[6 + len] == 3) by {
        assert(frame[6 + len] == tail[1]);
    }
    assert(b.subrange(5, 5 + len) =~= payload) by {
        assert forall|i: int| 0 <= i < len implies b[5 + i] == payload[i] by {
            assert(body[4 + i] == payload[i]);
            assert(frame[5 + i] == body[4 + i]);
        }
    }
}

/// Unpacking the bytes of a frame gives its payload, whatever follows the
/// frame.
pub proof fn lemma_l2_roundtrip<T: L2Payload>(v: T::V, rest: Seq<u8>)
    requires
        l2_pack_spec::<T>(v) is Ok,
    ensures
        l2_pack_spec::<T>(v)->Ok_0.len() >= 7,
        l2_unpack_spec::<T>(l2_pack_spec::<T>(v)->Ok_0 + rest) == Ok::<T::V, PacketError>(v),
{
    let payload = T::spec_ser_payload(v)->Ok_0;
    lemma_frame_roundtrip(T::spec_get_id(v), payload, rest);
    T::lemma_payload_roundtrip(v);
}

/// Adds up the bytes of a slice of at most 0x10003 bytes.
fn sum_bytes(b: &[u8]) -> (sum: u32)
    requires
        b@.len() <= 0x10003,
    ensures
        sum == byte_sum(b@),
{
    let mut sum: u32 = 0;
    let mut i: usize = 0;
    assert(b@.subrange(0, 0) =~= Seq::<u8>::empty());
    while i < b.len()
        invariant
            i <= b@.len(),
            b@.len() <= 0x10003,
            sum == byte_sum(b@.subrange(0, i as int)),
            sum <= 255 * i,
        decreases b@.len() - i,
    {
        assert(b@.subrange(0, i + 1).drop_last() =~= b@.subrange(0, i as int));
        sum = sum + b[i] as u32;
        i += 1;
    }
    assert(b@.subrange(0, i as int) =~= b@);
    sum
}

impl<T: L2Payload> L2<T> {
    /// The inner frame around a payload.
    pub fn new(payload: T) -> (r: L2<T>)
        ensures
            r.payload == payload,
    {
        L2 { payload }
    }

    /// The bytes of the frame; a payload of more than 0xffff bytes is
    /// refused.
    pub fn pack(&self) -> (r: Result<Vec<u8>, PacketError>)
        ensures
            match r {
                Ok(b) => l2_pack_spec::<T>(self@) == Ok::<Seq<u8>, PacketError>(b@),
                Err(e) => l2_pack_spec::<T>(self@) == Err::<Seq<u8>, PacketError>(e),
            },
    {
        let payload = self.payload.ser_payload()?;
        let id = self.payload.get_id();
        if payload.len() > 0xffff {
            return Err(PacketError::PayloadTooLong);
        }
        let mut body: Vec<u8> = Vec::new();
        put_u16(&mut body, id);
        put_u16(&mut body, payload.len() as u16);
        put_bytes(&mut body, payload.as_slice());
        assert(body@ =~= frame_body(id, payload@));
        let sum = sum_bytes(body.as_slice());
        let low: u32 = sum % 256;
        let check: u8 = ((255 - low + 0x33) % 256) as u8;
        let mut ret: Vec<u8> = Vec::new();
        ret.push(2);
        put_bytes(&mut ret, body.as_slice());
        ret.push(check);
        ret.push(3);
        assert(ret@ =~= frame_bytes(id, payload@));
        Ok(ret)
    }

    /// Unpacks the frame at the start of `data`.
    pub fn unpack(data: &[u8]) -> (r: Result<L2<T>, PacketError>)
        ensures
            match r {
                Ok(p) => l2_unpack_spec::<T>(data@) == Ok::<T::V, PacketError>(p@),
                Err(e) => l2_unpack_spec::<T>(data@) == Err::<T::V, PacketError>(e),
            },
    {
        if data.len() < 1 {
            return Err(PacketError::Truncated);
        }
        if data[0] != 2 {
            return Err(PacketError::BadStart);
        }
        if data.len() < 5 {
            return Err(PacketError::Truncated);
        }
        let kind = get_u16(data, 1);
        let len = get_u16(data, 3) as usize;
        if data.len() < 7 || data.len() - 7 < len {
            return Err(PacketError::Truncated);
        }
        if data[6 + len] != 3 {
            return Err(PacketError::BadEnd);
        }
        let payload = T::deser_payload(kind, &data[5..5 + len])?;
        Ok(L2 { payload })
    }
}

} // verus!
