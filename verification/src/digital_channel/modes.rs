//! The small enumerations of a digital channel record.

use crate::error::{CodecError, Field};
use vstd::prelude::*;

verus! {

/// When a digital channel may transmit.
#[derive(Debug, PartialEq, Eq, Clone, Copy, Structural)]
pub enum TxAdmit {
    Always,
    Channel,
    ColourCode,
}

impl TxAdmit {
    /// The number that stands for a value in a record.
    pub open spec fn spec_tag(self) -> u8 {
        match self {
            TxAdmit::Always => 0,
            TxAdmit::Channel => 1,
            TxAdmit::ColourCode => 2,
        }
    }

    /// The value that the low two bits of a byte stand for, if any.
    pub open spec fn spec_try_from(v: u8) -> Option<TxAdmit> {
        let x = v & 0x3;
        if x == 0 {
            Some(TxAdmit::Always)
        } else if x == 1 {
            Some(TxAdmit::Channel)
        } else if x == 2 {
            Some(TxAdmit::ColourCode)
        } else {
            None
        }
    }

    /// The number of a value stands for that value.
    pub proof fn lemma_tag_roundtrip(self)
        ensures
            Self::spec_try_from(self.spec_tag()) == Some(self),
    {
        let t = self.spec_tag();
        assert(t <= 2 ==> t & 0x3 == t) by (bit_vector);
    }

    /// The number that stands for a value in a record.
    pub fn tag(self) -> (v: u8)
        ensures
            v == self.spec_tag(),
    {
        match self {
            TxAdmit::Always => 0,
            TxAdmit::Channel => 1,
            TxAdmit::ColourCode => 2,
        }
    }

    /// The value that the low two bits of a byte stand for; the other bits are
    /// not looked at, and the number three is refused.
    pub fn try_from(v: u8) -> (r: Result<TxAdmit, CodecError>)
        ensures
            match Self::spec_try_from(v) {
                Some(t) => r == Ok::<TxAdmit, CodecError>(t),
                None => r == Err::<TxAdmit, CodecError>(CodecError::InvalidTag(Field::TxAdmit)),
            },
    {
        let x: u8 = v & 0x3;
        if x == 0 {
            Ok(TxAdmit::Always)
        } else if x == 1 {
            Ok(TxAdmit::Channel)
        } else if x == 2 {
            Ok(TxAdmit::ColourCode)
        } else {
            Err(CodecError::InvalidTag(Field::TxAdmit))
        }
    }
}

/// The timeslot that a digital channel uses.
#[derive(Debug, PartialEq, Eq, Clone, Copy, Structural)]
pub enum Timeslot {
    Slot1,
    Slot2,
    PseudoTrunk,
}

impl Timeslot {
    /// The number that stands for a timeslot in a record.
    pub open spec fn spec_tag(self) -> u8 {
        match self {
            Timeslot::Slot1 => 0,
            Timeslot::Slot2 => 1,
            Timeslot::PseudoTrunk => 3,
        }
    }

    /// The timeslot that a number stands for, if any.
    pub open spec fn spec_try_from(v: u8) -> Option<Timeslot> {
        if v == 0 {
            Some(Timeslot::Slot1)
        } else if v == 1 {
            Some(Timeslot::Slot2)
        } else if v == 3 {
            Some(Timeslot::PseudoTrunk)
        } else {
            None
        }
    }

    /// The number of a timeslot stands for that timeslot.
    pub proof fn lemma_tag_roundtrip(self)
        ensures
            Self::spec_try_from(self.spec_tag()) == Some(self),
    {
    }

    /// The number that stands for a timeslot in a record.
    pub fn tag(self) -> (v: u8)
        ensures
            v == self.spec_tag(),
    {
        match self {
            Timeslot::Slot1 => 0,
            Timeslot::Slot2 => 1,
            Timeslot::PseudoTrunk => 3,
        }
    }

    /// The timeslot that a number stands for; a number that stands for none is
    /// refused.
    pub fn try_from(v: u8) -> (r: Result<Timeslot, CodecError>)
        ensures
            match Self::spec_try_from(v) {
                Some(t) => r == Ok::<Timeslot, CodecError>(t),
                None => r == Err::<Timeslot, CodecError>(CodecError::InvalidTag(Field::Timeslot)),
            },
    {
        if v == 0 {
            Ok(Timeslot::Slot1)
        } else if v == 1 {
            Ok(Timeslot::Slot2)
        } else if v == 3 {
            Ok(Timeslot::PseudoTrunk)
        } else {
            Err(CodecError::InvalidTag(Field::Timeslot))
        }
    }
}

/// The channel that a registration service reverts to.
#[derive(Debug, PartialEq, Eq, Clone, Copy, Structural)]
pub enum RrsRevertCh {
    /// The channel itself, stored as zero.
    ChSelf,
    /// No channel, stored as 0xffff.
    Unset,
    /// The channel with this stored number, which is neither zero nor 0xffff.
    Idx(u16),
}

impl RrsRevertCh {
    /// The revert channel that a stored number stands for.
    pub open spec fn spec_from(v: u16) -> RrsRevertCh {
        if v == 0 {
            RrsRevertCh::ChSelf
        } else if v == 0xffff {
            RrsRevertCh::Unset
        } else {
            RrsRevertCh::Idx(v)
        }
    }

    /// The number that a revert channel is stored as.
    pub open spec fn spec_to_u16(self) -> u16 {
        match self {
            RrsRevertCh::ChSelf => 0,
            RrsRevertCh::Unset => 0xffff,
            RrsRevertCh::Idx(v) => v,
        }
    }

    /// A value that decoding gives back after encoding: an index is neither
    /// zero nor 0xffff.
    pub open spec fn valid(self) -> bool {
        self matches RrsRevertCh::Idx(v) ==> v != 0 && v != 0xffff
    }

    /// The revert channel that a stored number stands for.
    pub fn from(v: u16) -> (r: RrsRevertCh)
        ensures
            r == Self::spec_from(v),
    {
        if v == 0 {
            RrsRevertCh::ChSelf
        } else if v == 0xffff {
            RrsRevertCh::Unset
        } else {
            RrsRevertCh::Idx(v)
        }
    }

    /// The number that a revert channel is stored as.
    pub fn to_u16(self) -> (v: u16)
        ensures
            v == self.spec_to_u16(),
    {
        match self {
            RrsRevertCh::ChSelf => 0,
            RrsRevertCh::Unset => 0xffff,
            RrsRevertCh::Idx(v) => v,
        }
    }
}

/// What a digital channel record says of a scan list or roam list.
#[derive(Debug, PartialEq, Eq, Clone, Copy, Structural)]
pub enum SLRLPointer {
    /// Neither a scan list nor a roam list.
    Unset,
    /// The scan list at this place of the scan list collection.
    ScanList(u8),
    /// The roam list at this place of the roam list collection.
    RoamList(u8),
}

impl SLRLPointer {
    /// A reference whose index can be stored: the stored number is the index
    /// plus one, in one byte.
    pub open spec fn storable(self) -> bool {
        match self {
            SLRLPointer::Unset => true,
            SLRLPointer::ScanList(i) => i < 255,
            SLRLPointer::RoamList(i) => i < 255,
        }
    }

    /// The stored index byte: zero for no reference, else the index plus one.
    pub open spec fn spec_get_idx(self) -> u8
        recommends
            self.storable(),
    {
        match self {
            SLRLPointer::Unset => 0,
            SLRLPointer::ScanList(i) => (i + 1) as u8,
            SLRLPointer::RoamList(i) => (i + 1) as u8,
        }
    }

    /// The kind of the reference, in bits 4 and 5 of a byte.
    pub open spec fn spec_get_type(self) -> u8 {
        match self {
            SLRLPointer::Unset => 0,
            SLRLPointer::ScanList(_) => 0x10,
            SLRLPointer::RoamList(_) => 0x20,
        }
    }

    /// The reference that a kind and a stored index byte stand for. Without a
    /// reference the index byte is not looked at.
    pub open spec fn spec_from_parts(kind: u8, idx: u8) -> Result<SLRLPointer, CodecError> {
        if kind == 0 {
            Ok(SLRLPointer::Unset)
        } else if kind != 0x10 && kind != 0x20 {
            Err(CodecError::InvalidTag(Field::SlrlType))
        } else if idx == 0 {
            Err(CodecError::IndexOutOfRange(Field::SlrlIndex))
        } else if kind == 0x10 {
            Ok(SLRLPointer::ScanList((idx - 1) as u8))
        } else {
            Ok(SLRLPointer::RoamList((idx - 1) as u8))
        }
    }

    /// Whether the index can be stored.
    pub fn is_storable(&self) -> (r: bool)
        ensures
            r == self.storable(),
    {
        match self {
            SLRLPointer::Unset => true,
            SLRLPointer::ScanList(i) => *i < 255,
            SLRLPointer::RoamList(i) => *i < 255,
        }
    }

    /// The stored index byte: zero for no reference, else the index plus one.
    pub fn get_idx(&self) -> (r: u8)
        requires
            self.storable(),
        ensures
            r == self.spec_get_idx(),
    {
        match self {
            SLRLPointer::Unset => 0,
            SLRLPointer::ScanList(i) => *i + 1,
            SLRLPointer::RoamList(i) => *i + 1,
        }
    }

    /// The kind of the reference, in bits 4 and 5 of a byte.
    pub fn get_type(&self) -> (r: u8)
        ensures
            r == self.spec_get_type(),
    {
        match self {
            SLRLPointer::Unset => 0,
            SLRLPointer::ScanList(_) => 0x10,
            SLRLPointer::RoamList(_) => 0x20,
        }
    }

    /// The reference that a kind and a stored index byte stand for.
    pub fn from_parts(kind: u8, idx: u8) -> (r: Result<SLRLPointer, CodecError>)
        ensures
            r == Self::spec_from_parts(kind, idx),
    {
        if kind == 0 {
            Ok(SLRLPointer::Unset)
        } else if kind != 0x10 && kind != 0x20 {
            Err(CodecError::InvalidTag(Field::SlrlType))
        } else if idx == 0 {
            Err(CodecError::IndexOutOfRange(Field::SlrlIndex))
        } else if kind == 0x10 {
            Ok(SLRLPointer::ScanList(idx - 1))
        } else {
            Ok(SLRLPointer::RoamList(idx - 1))
        }
    }

    /// A storable reference is what its kind and its stored index stand for.
    pub proof fn lemma_parts_roundtrip(self)
        requires
            self.storable(),
        ensures
            Self::spec_from_parts(self.spec_get_type(), self.spec_get_idx()) == Ok::<
                SLRLPointer,
                CodecError,
            >(self),
    {
    }
}

} // verus!
