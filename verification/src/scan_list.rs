//! The channel lists of the scan settings.

use crate::aggregate::Codeplug;
use crate::channel_pointer::pointer::ChannelPointer;
use crate::channel_pointer::raw_pointer::{verify_all, verify_pointers, RawPointer};
use crate::channel_pointer::section::{
    lemma_packed_roundtrip, ChannelPointerSection, ChannelPointerSectionView,
};
use crate::cp_data::{views, CPData, RawCPData};
use crate::error::{CodecError, Field, ReferenceError};
use crate::section::Reader;
use vstd::prelude::*;

verus! {

/// The channels of one scan list. The first is the selected channel.
#[derive(Debug, PartialEq, Eq)]
pub struct ScanList {
    pub channels: Vec<ChannelPointer>,
}

impl View for ScanList {
    type V = Seq<ChannelPointer>;

    open spec fn view(&self) -> Seq<ChannelPointer> {
        self.channels@
    }
}

/// Length in bytes of the pointer region of a scan list.
pub const SCAN_LIST_DATA_SZ: u32 = 0x80;

/// Type of the section that holds the scan lists.
pub const SCAN_LIST_SECTION: u16 = 0x4d;

/// What the scan list at the start of a chunk decodes to. Its region has the
/// fixed size of a scan list region.
pub open spec fn scan_list_decode(b: Seq<u8>) -> Result<Seq<ChannelPointer>, CodecError> {
    match ChannelPointerSectionView::decode(b) {
        Err(e) => Err(e),
        Ok(s) => if s.header.data_sz != 0x80 {
            Err(CodecError::ReservedMismatch(Field::PointerRegionSize))
        } else {
            s.pointers::<ChannelPointer>(s.header.no_channels as nat)
        },
    }
}

/// The bytes of a scan list.
pub open spec fn scan_list_encode(v: Seq<ChannelPointer>) -> Result<Seq<u8>, CodecError> {
    match ChannelPointerSectionView::from_channels::<ChannelPointer>(v, 0x80) {
        Err(e) => Err(e),
        Ok(s) => Ok(s.bytes()),
    }
}

/// Whether a scan list fits a codeplug: it starts with the selected channel,
/// and every pointer names a channel.
pub open spec fn scan_list_verify(v: Seq<ChannelPointer>, cp: &Codeplug) -> Result<
    (),
    ReferenceError,
> {
    if v.len() == 0 || v[0] != ChannelPointer::Selected {
        Err(ReferenceError::FirstNotSelected)
    } else {
        verify_all::<ChannelPointer>(v, cp)
    }
}

impl ScanList {
    /// The scan list of the given channels: the selected channel, then the
    /// channels.
    pub fn new(channels: &[ChannelPointer]) -> (r: ScanList)
        ensures
            r@ == seq![ChannelPointer::Selected] + channels@,
    {
        let mut ret: Vec<ChannelPointer> = Vec::new();
        ret.push(ChannelPointer::Selected);
        let mut i: usize = 0;
        while i < channels.len()
            invariant
                i <= channels@.len(),
                ret@ == seq![ChannelPointer::Selected] + channels@.subrange(0, i as int),
            decreases channels@.len() - i,
        {
            ret.push(channels[i]);
            i += 1;
        }
        assert(channels@.subrange(0, i as int) =~= channels@);
        ScanList { channels: ret }
    }
}

impl RawCPData for ScanList {
    open spec fn spec_load(b: Seq<u8>) -> Result<Seq<ChannelPointer>, CodecError> {
        scan_list_decode(b)
    }

    open spec fn spec_store(v: Seq<ChannelPointer>) -> Result<Seq<u8>, CodecError> {
        scan_list_encode(v)
    }

    fn load(bytes: &[u8]) -> (r: Result<Self, CodecError>) {
        let mut reader = Reader::new(bytes);
        assert(reader.rest() =~= bytes@);
        let cps = ChannelPointerSection::load(&mut reader)?;
        if cps.header.data_sz != SCAN_LIST_DATA_SZ {
            return Err(CodecError::ReservedMismatch(Field::PointerRegionSize));
        }
        let channels = cps.deduce_channels::<ChannelPointer>()?;
        assert(views(channels@) =~= channels@);
        Ok(ScanList { channels })
    }

    fn store(&self, out: &mut Vec<u8>) -> (r: Result<(), CodecError>) {
        assert(views(self.channels@) =~= self.channels@);
        let cps = ChannelPointerSection::from_channels(&self.channels, SCAN_LIST_DATA_SZ)?;
        cps.store(out);
        Ok(())
    }
}

impl CPData for ScanList {
    open spec fn spec_cp_section() -> u16 {
        0x4d
    }

    open spec fn spec_verify(v: Seq<ChannelPointer>, cp: &Codeplug) -> Result<(), ReferenceError> {
        scan_list_verify(v, cp)
    }

    fn cp_section() -> (id: u16) {
        SCAN_LIST_SECTION
    }

    fn verify(&self, cp: &Codeplug) -> (r: Result<(), ReferenceError>) {
        if self.channels.len() == 0 {
            return Err(ReferenceError::FirstNotSelected);
        }
        match self.channels[0] {
            ChannelPointer::Selected => {},
            _ => {
                return Err(ReferenceError::FirstNotSelected);
            },
        }
        assert(views(self.channels@) =~= self.channels@);
        verify_pointers(&self.channels, cp)
    }
}

/// Decoding the bytes of a scan list of valid pointers, not longer than the
/// region has room for, gives the list back.
pub proof fn lemma_scan_list_roundtrip(v: Seq<ChannelPointer>)
    requires
        v.len() <= 32,
        forall|j: int| 0 <= j < v.len() ==> (#[trigger] v[j]).valid(),
    ensures
        scan_list_encode(v) is Ok,
        scan_list_decode(scan_list_encode(v)->Ok_0) == Ok::<Seq<ChannelPointer>, CodecError>(v),
{
    let cut = 0x80u32 as u16;
    assert(cut == 0x80) by (bit_vector)
        requires
            cut == 0x80u32 as u16,
    ;
    assert forall|j: int| 0 <= j < v.len() implies <ChannelPointer as RawPointer>::spec_valid(
        #[trigger] v[j],
    ) by {
        assert(v[j].valid());
    }
    lemma_packed_roundtrip::<ChannelPointer>(v, 0x80);
}

} // verus!
