//! The channel lists of the roam settings.

use crate::aggregate::Codeplug;
use crate::channel_pointer::digi_chan_pointer::DigiChannelPointer;
use crate::channel_pointer::raw_pointer::{verify_all, verify_pointers, RawPointer};
use crate::channel_pointer::section::{
    lemma_packed_roundtrip, ChannelPointerSection, ChannelPointerSectionView,
};
use crate::cp_data::{views, CPData, RawCPData};
use crate::error::{CodecError, Field, ReferenceError};
use crate::section::Reader;
use vstd::prelude::*;

verus! {

/// The channels of one roam list. The first is the selected channel.
#[derive(Debug, PartialEq, Eq)]
pub struct RoamList {
    pub channels: Vec<DigiChannelPointer>,
}

impl View for RoamList {
    type V = Seq<DigiChannelPointer>;

    open spec fn view(&self) -> Seq<DigiChannelPointer> {
        self.channels@
    }
}

/// Length in bytes of the pointer region of a roam list.
pub const ROAM_LIST_DATA_SZ: u32 = 0x40;

/// Type of the section that holds the roam lists.
pub const ROAM_LIST_SECTION: u16 = 0x79;

/// What the roam list at the start of a chunk decodes to. Its region has the
/// fixed size of a roam list region.
pub open spec fn roam_list_decode(b: Seq<u8>) -> Result<Seq<DigiChannelPointer>, CodecError> {
    match ChannelPointerSectionView::decode(b) {
        Err(e) => Err(e),
        Ok(s) => if s.header.data_sz != 0x40 {
            Err(CodecError::ReservedMismatch(Field::PointerRegionSize))
        } else {
            s.pointers::<DigiChannelPointer>(s.header.no_channels as nat)
        },
    }
}

/// The bytes of a roam list.
pub open spec fn roam_list_encode(v: Seq<DigiChannelPointer>) -> Result<Seq<u8>, CodecError> {
    match ChannelPointerSectionView::from_channels::<DigiChannelPointer>(v, 0x40) {
        Err(e) => Err(e),
        Ok(s) => Ok(s.bytes()),
    }
}

/// Whether a roam list fits a codeplug: it starts with the selected channel,
/// and every pointer names a digital channel.
pub open spec fn roam_list_verify(v: Seq<DigiChannelPointer>, cp: &Codeplug) -> Result<
    (),
    ReferenceError,
> {
    if v.len() == 0 || v[0] != DigiChannelPointer::Selected {
        Err(ReferenceError::FirstNotSelected)
    } else {
        verify_all::<DigiChannelPointer>(v, cp)
    }
}

impl RoamList {
    /// The roam list of the given channels: the selected channel, then the
    /// channels.
    pub fn new(channels: &[DigiChannelPointer]) -> (r: RoamList)
        ensures
            r@ == seq![DigiChannelPointer::Selected] + channels@,
    {
        let mut ret: Vec<DigiChannelPointer> = Vec::new();
        ret.push(DigiChannelPointer::Selected);
        let mut i: usize = 0;
        while i < channels.len()
            invariant
                i <= channels@.len(),
                ret@ == seq![DigiChannelPointer::Selected] + channels@.subrange(0, i as int),
            decreases channels@.len() - i,
        {
            ret.push(channels[i]);
            i += 1;
        }
        assert(channels@.subrange(0, i as int) =~= channels@);
        RoamList { channels: ret }
    }
}

impl RawCPData for RoamList {
    open spec fn spec_load(b: Seq<u8>) -> Result<Seq<DigiChannelPointer>, CodecError> {
        roam_list_decode(b)
    }

    open spec fn spec_store(v: Seq<DigiChannelPointer>) -> Result<Seq<u8>, CodecError> {
        roam_list_encode(v)
    }

    fn load(bytes: &[u8]) -> (r: Result<Self, CodecError>) {
        let mut reader = Reader::new(bytes);
        assert(reader.rest() =~= bytes@);
        let cps = ChannelPointerSection::load(&mut reader)?;
        if cps.header.data_sz != ROAM_LIST_DATA_SZ {
            return Err(CodecError::ReservedMismatch(Field::PointerRegionSize));
        }
        let channels = cps.deduce_channels::<DigiChannelPointer>()?;
        assert(views(channels@) =~= channels@);
        Ok(RoamList { channels })
    }

    fn store(&self, out: &mut Vec<u8>) -> (r: Result<(), CodecError>) {
        assert(views(self.channels@) =~= self.channels@);
        let cps = ChannelPointerSection::from_channels(&self.channels, ROAM_LIST_DATA_SZ)?;
        cps.store(out);
        Ok(())
    }
}

impl CPData for RoamList {
    open spec fn spec_cp_section() -> u16 {
        0x79
    }

    open spec fn spec_verify(v: Seq<DigiChannelPointer>, cp: &Codeplug) -> Result<
        (),
        ReferenceError,
    > {
        roam_list_verify(v, cp)
    }

    fn cp_section() -> (id: u16) {
        ROAM_LIST_SECTION
    }

    fn verify(&self, cp: &Codeplug) -> (r: Result<(), ReferenceError>) {
        if self.channels.len() == 0 {
            return Err(ReferenceError::FirstNotSelected);
        }
        match self.channels[0] {
            DigiChannelPointer::Selected => {},
            _ => {
                return Err(ReferenceError::FirstNotSelected);
            },
        }
        assert(views(self.channels@) =~= self.channels@);
        verify_pointers(&self.channels, cp)
    }
}

/// Decoding the bytes of a roam list of valid pointers, not longer than the
/// region has room for, gives the list back.
pub proof fn lemma_roam_list_roundtrip(v: Seq<DigiChannelPointer>)
    requires
        v.len() <= 32,
        forall|j: int| 0 <= j < v.len() ==> (#[trigger] v[j]).valid(),
    ensures
        roam_list_encode(v) is Ok,
        roam_list_decode(roam_list_encode(v)->Ok_0) == Ok::<Seq<DigiChannelPointer>, CodecError>(v),
{
    let cut = 0x40u32 as u16;
    assert(cut == 0x40) by (bit_vector)
        requires
            cut == 0x40u32 as u16,
    ;
    assert forall|j: int| 0 <= j < v.len() implies <DigiChannelPointer as RawPointer>::spec_valid(
        #[trigger] v[j],
    ) by {
        assert(v[j].valid());
    }
    lemma_packed_roundtrip::<DigiChannelPointer>(v, 0x40);
}

} // verus!
