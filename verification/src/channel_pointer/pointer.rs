//! The wide pointer: four bytes that name the selected channel, a digital
//! channel or an analog channel.

use crate::aggregate::Codeplug;
use crate::bytes::{get_u16, lemma_u16_le_roundtrip, put_u16, u16_at, u16_le_bytes};
use crate::channel_pointer::digi_chan_pointer::DigiChannelPointer;
use crate::channel_pointer::raw_pointer::RawPointer;
use crate::cp_data::RawCPData;
use crate::error::{CodecError, Field, ReferenceError};
use vstd::prelude::*;

verus! {

/// A reference to a channel. A digital or analog channel is given by its
/// place in its collection.
#[derive(Debug, PartialEq, Eq, Clone, Copy, Structural)]
pub enum ChannelPointer {
    Selected,
    Digital(u16),
    Analog(u16),
}

impl View for ChannelPointer {
    type V = ChannelPointer;

    open spec fn view(&self) -> ChannelPointer {
        *self
    }
}

/// Length in bytes of a wide pointer.
pub const CHANNEL_POINTER_SZ: usize = 4;

/// The stored index that stands for the selected channel.
pub const SELECTED_INDEX: u16 = 0xffff;

impl ChannelPointer {
    /// A pointer that can be stored: its index plus one fits in sixteen bits.
    pub open spec fn storable(self) -> bool {
        match self {
            ChannelPointer::Selected => true,
            ChannelPointer::Digital(i) => i < 0xffff,
            ChannelPointer::Analog(i) => i < 0xffff,
        }
    }

    /// A pointer that decoding gives back after encoding: its index plus one
    /// is not the number that stands for the selected channel.
    pub open spec fn valid(self) -> bool {
        match self {
            ChannelPointer::Selected => true,
            ChannelPointer::Digital(i) => i < 0xfffe,
            ChannelPointer::Analog(i) => i < 0xfffe,
        }
    }

    /// The stored index: 0xffff for the selected channel, else the place plus
    /// one.
    pub open spec fn stored_index(self) -> u16
        recommends
            self.storable(),
    {
        match self {
            ChannelPointer::Selected => 0xffff,
            ChannelPointer::Digital(i) => (i + 1) as u16,
            ChannelPointer::Analog(i) => (i + 1) as u16,
        }
    }

    /// The stored target tag: one for an analog channel, else zero.
    pub open spec fn target(self) -> u8 {
        match self {
            ChannelPointer::Selected => 0,
            ChannelPointer::Digital(_) => 0,
            ChannelPointer::Analog(_) => 1,
        }
    }

    /// The four bytes of a storable pointer: stored index, target tag, and a
    /// flags byte of zero.
    pub open spec fn bytes(self) -> Seq<u8> {
        u16_le_bytes(self.stored_index()) + seq![self.target(), 0u8]
    }

    /// The bytes of the pointer, if it can be stored.
    pub open spec fn encode(self) -> Result<Seq<u8>, CodecError> {
        if self.storable() {
            Ok(self.bytes())
        } else {
            Err(CodecError::IndexOutOfRange(Field::PointerIndex))
        }
    }

    /// The pointer that a stored index and a target tag stand for. The index
    /// 0xffff stands for the selected channel whatever the tag is.
    pub open spec fn from_parts(idx: u16, target: u8) -> Result<ChannelPointer, CodecError> {
        if idx == 0xffff {
            Ok(ChannelPointer::Selected)
        } else if target != 0 && target != 1 {
            Err(CodecError::InvalidTag(Field::PointerTarget))
        } else if idx == 0 {
            Err(CodecError::IndexOutOfRange(Field::PointerIndex))
        } else if target == 0 {
            Ok(ChannelPointer::Digital((idx - 1) as u16))
        } else {
            Ok(ChannelPointer::Analog((idx - 1) as u16))
        }
    }

    /// What the four bytes at the start of a chunk decode to. The fourth
    /// byte, the flags, is not looked at.
    pub open spec fn decode(b: Seq<u8>) -> Result<ChannelPointer, CodecError> {
        if b.len() < 4 {
            Err(CodecError::UnexpectedEof)
        } else {
            Self::from_parts(u16_at(b, 0), b[2])
        }
    }

    /// The wide form of a narrow pointer.
    pub open spec fn spec_from(value: DigiChannelPointer) -> ChannelPointer {
        match value {
            DigiChannelPointer::Selected => ChannelPointer::Selected,
            DigiChannelPointer::Digital(i) => ChannelPointer::Digital(i),
        }
    }

    /// Whether the pointer names a channel, where there are `digital`
    /// digital channels and `analog` analog channels: `Ok`, or the dangling
    /// reference. The selected channel is always there.
    pub open spec fn resolves(self, digital: nat, analog: nat) -> Result<(), ReferenceError> {
        match self {
            ChannelPointer::Selected => Ok(()),
            ChannelPointer::Digital(i) => if i < digital {
                Ok(())
            } else {
                Err(ReferenceError::Digital(i))
            },
            ChannelPointer::Analog(i) => if i < analog {
                Ok(())
            } else {
                Err(ReferenceError::Analog(i))
            },
        }
    }

    /// The name of the channel that the pointer names in a codeplug.
    pub open spec fn chan_name(self, cp: &Codeplug) -> Seq<char>
        recommends
            self.resolves(cp.digital_count(), cp.analog_count()) is Ok,
    {
        match self {
            ChannelPointer::Selected => "<Selected>"@,
            ChannelPointer::Digital(i) => cp.digi_chans.data@[i as int].common.name@,
            ChannelPointer::Analog(i) => cp.ana_chans.data@[i as int].common.name@,
        }
    }

    /// The name of the channel that the pointer names in a codeplug, or
    /// `<Selected>` for the selected channel.
    pub fn get_chan_name(&self, codeplug: &Codeplug) -> (r: String)
        requires
            self.resolves(codeplug.digital_count(), codeplug.analog_count()) is Ok,
        ensures
            r@ == self.chan_name(codeplug),
    {
        match self {
            ChannelPointer::Selected => "<Selected>".to_owned(),
            ChannelPointer::Digital(i) => codeplug.digi_chans.data[*i as usize].common.name.clone(),
            ChannelPointer::Analog(i) => codeplug.ana_chans.data[*i as usize].common.name.clone(),
        }
    }

    /// Whether the pointer can be stored.
    pub fn is_storable(&self) -> (r: bool)
        ensures
            r == self.storable(),
    {
        match self {
            ChannelPointer::Selected => true,
            ChannelPointer::Digital(i) => *i < 0xffff,
            ChannelPointer::Analog(i) => *i < 0xffff,
        }
    }

    /// The wide form of a narrow pointer.
    pub fn from(value: &DigiChannelPointer) -> (r: ChannelPointer)
        ensures
            r == Self::spec_from(*value),
    {
        match value {
            DigiChannelPointer::Selected => ChannelPointer::Selected,
            DigiChannelPointer::Digital(i) => ChannelPointer::Digital(*i),
        }
    }
}

impl RawCPData for ChannelPointer {
    open spec fn spec_load(b: Seq<u8>) -> Result<ChannelPointer, CodecError> {
        ChannelPointer::decode(b)
    }

    open spec fn spec_store(v: ChannelPointer) -> Result<Seq<u8>, CodecError> {
        v.encode()
    }

    fn load(bytes: &[u8]) -> (r: Result<Self, CodecError>) {
        if bytes.len() < CHANNEL_POINTER_SZ {
            return Err(CodecError::UnexpectedEof);
        }
        let idx = get_u16(bytes, 0);
        let target = bytes[2];
        if idx == SELECTED_INDEX {
            return Ok(ChannelPointer::Selected);
        }
        if target != 0 && target != 1 {
            return Err(CodecError::InvalidTag(Field::PointerTarget));
        }
        if idx == 0 {
            return Err(CodecError::IndexOutOfRange(Field::PointerIndex));
        }
        if target == 0 {
            Ok(ChannelPointer::Digital(idx - 1))
        } else {
            Ok(ChannelPointer::Analog(idx - 1))
        }
    }

    fn store(&self, out: &mut Vec<u8>) -> (r: Result<(), CodecError>) {
        if !self.is_storable() {
            return Err(CodecError::IndexOutOfRange(Field::PointerIndex));
        }
        let idx: u16 = match self {
            ChannelPointer::Selected => SELECTED_INDEX,
            ChannelPointer::Digital(i) => *i + 1,
            ChannelPointer::Analog(i) => *i + 1,
        };
        let target: u8 = match self {
            ChannelPointer::Selected => 0,
            ChannelPointer::Digital(_) => 0,
            ChannelPointer::Analog(_) => 1,
        };
        put_u16(out, idx);
        out.push(target);
        out.push(0);
        assert(out@ =~= old(out)@ + self.bytes());
        Ok(())
    }
}

impl RawPointer for ChannelPointer {
    open spec fn spec_sz() -> nat {
        4
    }

    open spec fn spec_verify(v: ChannelPointer, cp: &Codeplug) -> Result<(), ReferenceError> {
        v.resolves(cp.digital_count(), cp.analog_count())
    }

    fn sz() -> (r: usize) {
        CHANNEL_POINTER_SZ
    }

    open spec fn spec_valid(v: ChannelPointer) -> bool {
        v.valid()
    }

    proof fn lemma_store_len(v: ChannelPointer) {
    }

    proof fn lemma_load_stored(v: ChannelPointer, rest: Seq<u8>) {
        lemma_u16_le_roundtrip(v.stored_index());
        let b = v.bytes() + rest;
        assert(b[0] == u16_le_bytes(v.stored_index())[0]);
        assert(b[1] == u16_le_bytes(v.stored_index())[1]);
        assert(b[2] == v.target());
    }

    fn verify(&self, cp: &Codeplug) -> (r: Result<(), ReferenceError>) {
        match self {
            ChannelPointer::Selected => Ok(()),
            ChannelPointer::Digital(i) => if (*i as usize) < cp.digi_chans.data.len() {
                Ok(())
            } else {
                Err(ReferenceError::Digital(*i))
            },
            ChannelPointer::Analog(i) => if (*i as usize) < cp.ana_chans.data.len() {
                Ok(())
            } else {
                Err(ReferenceError::Analog(*i))
            },
        }
    }
}

/// Decoding the bytes of a valid wide pointer gives it back.
pub proof fn lemma_channel_pointer_roundtrip(v: ChannelPointer)
    requires
        v.valid(),
    ensures
        v.encode() == Ok::<Seq<u8>, CodecError>(v.bytes()),
        v.bytes().len() == 4,
        ChannelPointer::decode(v.bytes()) == Ok::<ChannelPointer, CodecError>(v),
{
    lemma_u16_le_roundtrip(v.stored_index());
}

/// The selected channel is stored as the index 0xffff with target tag zero,
/// and the stored index 0xffff is read as the selected channel whatever the
/// target tag and the flags byte hold.
pub proof fn lemma_selected_sentinel(target: u8, flags: u8)
    ensures
        ChannelPointer::Selected.encode() == Ok::<Seq<u8>, CodecError>(
            seq![0xffu8, 0xffu8, 0u8, 0u8],
        ),
        ChannelPointer::Selected.stored_index() == 0xffff,
        ChannelPointer::Selected.target() == 0,
        ChannelPointer::decode(seq![0xffu8, 0xffu8, target, flags]) == Ok::<
            ChannelPointer,
            CodecError,
        >(ChannelPointer::Selected),
{
    assert(ChannelPointer::Selected.bytes() =~= seq![0xffu8, 0xffu8, 0u8, 0u8]);
}

} // verus!
