//! The narrow pointer: two bytes that name the selected channel or a digital
//! channel.

use crate::aggregate::Codeplug;
use crate::bytes::{get_u16, lemma_u16_le_roundtrip, put_u16, u16_at, u16_le_bytes};
use crate::channel_pointer::pointer::{ChannelPointer, SELECTED_INDEX};
use crate::channel_pointer::raw_pointer::RawPointer;
use crate::cp_data::RawCPData;
use crate::error::{CodecError, Field, ReferenceError};
use vstd::prelude::*;

verus! {

/// A reference to the selected channel or to a digital channel, given by its
/// place in the collection of digital channels.
#[derive(Debug, PartialEq, Eq, Clone, Copy, Structural)]
pub enum DigiChannelPointer {
    Selected,
    Digital(u16),
}

impl View for DigiChannelPointer {
    type V = DigiChannelPointer;

    open spec fn view(&self) -> DigiChannelPointer {
        *self
    }
}

/// Length in bytes of a narrow pointer.
pub const DIGI_CHANNEL_POINTER_SZ: usize = 2;

impl DigiChannelPointer {
    /// A pointer that can be stored: its index plus one fits in sixteen bits.
    pub open spec fn storable(self) -> bool {
        match self {
            DigiChannelPointer::Selected => true,
            DigiChannelPointer::Digital(i) => i < 0xffff,
        }
    }

    /// A pointer that decoding gives back after encoding: its index plus one
    /// is not the number that stands for the selected channel.
    pub open spec fn valid(self) -> bool {
        match self {
            DigiChannelPointer::Selected => true,
            DigiChannelPointer::Digital(i) => i < 0xfffe,
        }
    }

    /// The stored index: 0xffff for the selected channel, else the place plus
    /// one.
    pub open spec fn stored_index(self) -> u16
        recommends
            self.storable(),
    {
        match self {
            DigiChannelPointer::Selected => 0xffff,
            DigiChannelPointer::Digital(i) => (i + 1) as u16,
        }
    }

    /// The two bytes of a storable pointer.
    pub open spec fn bytes(self) -> Seq<u8> {
        u16_le_bytes(self.stored_index())
    }

    /// The bytes of the pointer, if it can be stored.
    pub open spec fn encode(self) -> Result<Seq<u8>, CodecError> {
        if self.storable() {
            Ok(self.bytes())
        } else {
            Err(CodecError::IndexOutOfRange(Field::PointerIndex))
        }
    }

    /// The pointer that a stored index stands for.
    pub open spec fn from_index(idx: u16) -> Result<DigiChannelPointer, CodecError> {
        if idx == 0xffff {
            Ok(DigiChannelPointer::Selected)
        } else if idx == 0 {
            Err(CodecError::IndexOutOfRange(Field::PointerIndex))
        } else {
            Ok(DigiChannelPointer::Digital((idx - 1) as u16))
        }
    }

    /// What the two bytes at the start of a chunk decode to.
    pub open spec fn decode(b: Seq<u8>) -> Result<DigiChannelPointer, CodecError> {
        if b.len() < 2 {
            Err(CodecError::UnexpectedEof)
        } else {
            Self::from_index(u16_at(b, 0))
        }
    }

    /// The narrow form of a wide pointer, which a pointer to an analog
    /// channel does not have.
    pub open spec fn spec_try_from(value: ChannelPointer) -> Result<
        DigiChannelPointer,
        CodecError,
    > {
        match value {
            ChannelPointer::Selected => Ok(DigiChannelPointer::Selected),
            ChannelPointer::Digital(i) => Ok(DigiChannelPointer::Digital(i)),
            ChannelPointer::Analog(_) => Err(CodecError::AnalogPointer),
        }
    }

    /// Whether the pointer names a channel, where there are `digital`
    /// digital channels: `Ok`, or the dangling reference.
    pub open spec fn resolves(self, digital: nat) -> Result<(), ReferenceError> {
        match self {
            DigiChannelPointer::Selected => Ok(()),
            DigiChannelPointer::Digital(i) => if i < digital {
                Ok(())
            } else {
                Err(ReferenceError::Digital(i))
            },
        }
    }

    /// The name of the channel that the pointer names in a codeplug, or
    /// `<Selected>` for the selected channel.
    pub fn get_chan_name(&self, codeplug: &Codeplug) -> (r: String)
        requires
            self.resolves(codeplug.digital_count()) is Ok,
        ensures
            r@ == ChannelPointer::spec_from(*self).chan_name(codeplug),
    {
        ChannelPointer::from(self).get_chan_name(codeplug)
    }

    /// Whether the pointer can be stored.
    pub fn is_storable(&self) -> (r: bool)
        ensures
            r == self.storable(),
    {
        match self {
            DigiChannelPointer::Selected => true,
            DigiChannelPointer::Digital(i) => *i < 0xffff,
        }
    }

    /// The narrow form of a wide pointer; a pointer to an analog channel is
    /// refused.
    pub fn try_from(value: &ChannelPointer) -> (r: Result<DigiChannelPointer, CodecError>)
        ensures
            r == Self::spec_try_from(*value),
    {
        match value {
            ChannelPointer::Selected => Ok(DigiChannelPointer::Selected),
            ChannelPointer::Digital(i) => Ok(DigiChannelPointer::Digital(*i)),
            ChannelPointer::Analog(_) => Err(CodecError::AnalogPointer),
        }
    }
}

impl RawCPData for DigiChannelPointer {
    open spec fn spec_load(b: Seq<u8>) -> Result<DigiChannelPointer, CodecError> {
        DigiChannelPointer::decode(b)
    }

    open spec fn spec_store(v: DigiChannelPointer) -> Result<Seq<u8>, CodecError> {
        v.encode()
    }

    fn load(bytes: &[u8]) -> (r: Result<Self, CodecError>) {
        if bytes.len() < DIGI_CHANNEL_POINTER_SZ {
            return Err(CodecError::UnexpectedEof);
        }
        let idx = get_u16(bytes, 0);
        if idx == SELECTED_INDEX {
            return Ok(DigiChannelPointer::Selected);
        }
        if idx == 0 {
            return Err(CodecError::IndexOutOfRange(Field::PointerIndex));
        }
        Ok(DigiChannelPointer::Digital(idx - 1))
    }

    fn store(&self, out: &mut Vec<u8>) -> (r: Result<(), CodecError>) {
        if !self.is_storable() {
            return Err(CodecError::IndexOutOfRange(Field::PointerIndex));
        }
        let idx: u16 = match self {
            DigiChannelPointer::Selected => SELECTED_INDEX,
            DigiChannelPointer::Digital(i) => *i + 1,
        };
        put_u16(out, idx);
        Ok(())
    }
}

impl RawPointer for DigiChannelPointer {
    open spec fn spec_sz() -> nat {
        2
    }

    open spec fn spec_verify(v: DigiChannelPointer, cp: &Codeplug) -> Result<(), ReferenceError> {
        v.resolves(cp.digital_count())
    }

    fn sz() -> (r: usize) {
        DIGI_CHANNEL_POINTER_SZ
    }

    open spec fn spec_valid(v: DigiChannelPointer) -> bool {
        v.valid()
    }

    proof fn lemma_store_len(v: DigiChannelPointer) {
    }

    proof fn lemma_load_stored(v: DigiChannelPointer, rest: Seq<u8>) {
        lemma_u16_le_roundtrip(v.stored_index());
        let b = v.bytes() + rest;
        assert(b[0] == u16_le_bytes(v.stored_index())[0]);
        assert(b[1] == u16_le_bytes(v.stored_index())[1]);
    }

    fn verify(&self, cp: &Codeplug) -> (r: Result<(), ReferenceError>) {
        match self {
            DigiChannelPointer::Selected => Ok(()),
            DigiChannelPointer::Digital(i) => if (*i as usize) < cp.digi_chans.data.len() {
                Ok(())
            } else {
                Err(ReferenceError::Digital(*i))
            },
        }
    }
}

/// Decoding the bytes of a narrow pointer to a digital channel gives the
/// pointer back for every index up to 0xfffd. The index 0xfffe is stored as
/// 0xffff, which reads as the selected channel.
pub proof fn lemma_digi_pointer_index(i: u16)
    requires
        i <= 0xfffe,
    ensures
        DigiChannelPointer::Digital(i).encode() == Ok::<Seq<u8>, CodecError>(
            u16_le_bytes((i + 1) as u16),
        ),
        i <= 0xfffd ==> DigiChannelPointer::decode(DigiChannelPointer::Digital(i).bytes()) == Ok::<
            DigiChannelPointer,
            CodecError,
        >(DigiChannelPointer::Digital(i)),
        i == 0xfffe ==> DigiChannelPointer::decode(DigiChannelPointer::Digital(i).bytes()) == Ok::<
            DigiChannelPointer,
            CodecError,
        >(DigiChannelPointer::Selected),
{
    lemma_u16_le_roundtrip((i + 1) as u16);
}

/// Decoding the bytes of a valid narrow pointer gives it back.
pub proof fn lemma_digi_pointer_roundtrip(v: DigiChannelPointer)
    requires
        v.valid(),
    ensures
        v.encode() == Ok::<Seq<u8>, CodecError>(v.bytes()),
        v.bytes().len() == 2,
        DigiChannelPointer::decode(v.bytes()) == Ok::<DigiChannelPointer, CodecError>(v),
{
    lemma_u16_le_roundtrip(v.stored_index());
}

/// Widening a narrow pointer and narrowing it again gives it back.
pub proof fn lemma_widen_narrow(v: DigiChannelPointer)
    ensures
        DigiChannelPointer::spec_try_from(ChannelPointer::spec_from(v)) == Ok::<
            DigiChannelPointer,
            CodecError,
        >(v),
{
}

} // verus!
