//! The channel lists of the zones.

use crate::aggregate::Codeplug;
use crate::channel_pointer::pointer::ChannelPointer;
use crate::channel_pointer::raw_pointer::{verify_all, verify_pointers, RawPointer};
use crate::channel_pointer::section::{
    lemma_packed_roundtrip, ChannelPointerSection, ChannelPointerSectionView,
};
use crate::cp_data::{views, CPData, RawCPData};
use crate::error::{CodecError, ReferenceError};
use crate::section::Reader;
use vstd::prelude::*;

verus! {

/// The channels of one zone.
#[derive(Debug, PartialEq, Eq)]
pub struct ZoneList {
    pub channels: Vec<ChannelPointer>,
}

impl View for ZoneList {
    type V = Seq<ChannelPointer>;

    open spec fn view(&self) -> Seq<ChannelPointer> {
        self.channels@
    }
}

/// Length in bytes of the pointer region of a zone list.
pub const ZONE_LIST_DATA_SZ: u32 = 0x800;

/// Type of the section that holds the zone lists.
pub const ZONE_LIST_SECTION: u16 = 0x23;

/// What the zone list at the start of a chunk decodes to.
pub open spec fn zone_list_decode(b: Seq<u8>) -> Result<Seq<ChannelPointer>, CodecError> {
    match ChannelPointerSectionView::decode(b) {
        Err(e) => Err(e),
        Ok(s) => s.pointers::<ChannelPointer>(s.header.no_channels as nat),
    }
}

/// The bytes of a zone list; an empty list has none.
pub open spec fn zone_list_encode(v: Seq<ChannelPointer>) -> Result<Seq<u8>, CodecError> {
    if v.len() == 0 {
        Err(CodecError::EmptyChannelList)
    } else {
        match ChannelPointerSectionView::from_channels::<ChannelPointer>(v, 0x800) {
            Err(e) => Err(e),
            Ok(s) => Ok(s.bytes()),
        }
    }
}

impl RawCPData for ZoneList {
    open spec fn spec_load(b: Seq<u8>) -> Result<Seq<ChannelPointer>, CodecError> {
        zone_list_decode(b)
    }

    open spec fn spec_store(v: Seq<ChannelPointer>) -> Result<Seq<u8>, CodecError> {
        zone_list_encode(v)
    }

    fn load(bytes: &[u8]) -> (r: Result<Self, CodecError>) {
        let mut reader = Reader::new(bytes);
        assert(reader.rest() =~= bytes@);
        let cps = ChannelPointerSection::load(&mut reader)?;
        let channels = cps.deduce_channels::<ChannelPointer>()?;
        assert(views(channels@) =~= channels@);
        Ok(ZoneList { channels })
    }

    fn store(&self, out: &mut Vec<u8>) -> (r: Result<(), CodecError>) {
        if self.channels.len() == 0 {
            return Err(CodecError::EmptyChannelList);
        }
        assert(views(self.channels@) =~= self.channels@);
        let cps = ChannelPointerSection::from_channels(&self.channels, ZONE_LIST_DATA_SZ)?;
        cps.store(out);
        Ok(())
    }
}

impl CPData for ZoneList {
    open spec fn spec_cp_section() -> u16 {
        0x23
    }

    open spec fn spec_verify(v: Seq<ChannelPointer>, cp: &Codeplug) -> Result<(), ReferenceError> {
        verify_all::<ChannelPointer>(v, cp)
    }

    fn cp_section() -> (id: u16) {
        ZONE_LIST_SECTION
    }

    fn verify(&self, cp: &Codeplug) -> (r: Result<(), ReferenceError>) {
        assert(views(self.channels@) =~= self.channels@);
        verify_pointers(&self.channels, cp)
    }
}

/// Decoding the bytes of a zone list of valid pointers, not empty and not
/// longer than the region has room for, gives the list back.
pub proof fn lemma_zone_list_roundtrip(v: Seq<ChannelPointer>)
    requires
        0 < v.len(),
        v.len() <= 512,
        forall|j: int| 0 <= j < v.len() ==> (#[trigger] v[j]).valid(),
    ensures
        zone_list_encode(v) is Ok,
        zone_list_decode(zone_list_encode(v)->Ok_0) == Ok::<Seq<ChannelPointer>, CodecError>(v),
{
    let cut = 0x800u32 as u16;
    assert(cut == 0x800) by (bit_vector)
        requires
            cut == 0x800u32 as u16,
    ;
    assert forall|j: int| 0 <= j < v.len() implies <ChannelPointer as RawPointer>::spec_valid(
        #[trigger] v[j],
    ) by {
        assert(v[j].valid());
    }
    lemma_packed_roundtrip::<ChannelPointer>(v, 0x800);
}

} // verus!
