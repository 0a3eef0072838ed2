//! What verification refuses: dangling references, lists that do not start
//! with the selected channel, and collections that differ in length from
//! their lists. A codeplug that verification refuses is never written.

use crate::aggregate::Codeplug;
use crate::analog_channel::AnalogChannel;
use crate::channel_pointer::digi_chan_pointer::DigiChannelPointer;
use crate::channel_pointer::pointer::ChannelPointer;
use crate::channel_pointer::raw_pointer::{verify_all, RawPointer};
use crate::collection::{lemma_verify_records_rejects, verify_records, CodeplugSection};
use crate::contact::Contact;
use crate::cp_data::{views, CPData};
use crate::digital_channel::{list_resolves, DigitalChannel};
use crate::error::{CodeplugError, ReferenceError};
use crate::roam::list::RoamList;
use crate::roam::Roam;
use crate::scan::Scan;
use crate::scan_list::ScanList;
use crate::zone::Zone;
use crate::zone_list::ZoneList;
use vstd::prelude::*;

verus! {

/// Whether the header of a collection counts the records that are there.
pub open spec fn counted<T: CPData>(c: &CodeplugSection<T>) -> bool {
    c.sec.header.elements_in_use == c.data@.len()
}

/// Whether every pointer of a list of wide pointers names a channel of the
/// codeplug.
pub open spec fn wide_resolve(cp: &Codeplug, ptrs: Seq<ChannelPointer>) -> bool {
    forall|j: int|
        0 <= j < ptrs.len() ==> (#[trigger] ptrs[j]).resolves(
            cp.digital_count(),
            cp.analog_count(),
        ) is Ok
}

/// Whether every pointer of a list of narrow pointers names a channel of the
/// codeplug.
pub open spec fn narrow_resolve(cp: &Codeplug, ptrs: Seq<DigiChannelPointer>) -> bool {
    forall|j: int| 0 <= j < ptrs.len() ==> (#[trigger] ptrs[j]).resolves(cp.digital_count()) is Ok
}

/// What a codeplug must hold to be written: every header counts the records
/// of its collection; zones, scan settings and roam settings are as many as
/// their lists; every digital channel names a scan list or roam list that
/// is there, or none; every pointer of every list names a channel that is
/// there; and every scan list and roam list starts with the selected
/// channel.
pub open spec fn valid(cp: &Codeplug) -> bool {
    &&& counted(&cp.contacts)
    &&& counted(&cp.ana_chans)
    &&& counted(&cp.digi_chans)
    &&& counted(&cp.scan_list.data)
    &&& counted(&cp.scan_list.channels)
    &&& counted(&cp.zones.data)
    &&& counted(&cp.zones.channels)
    &&& counted(&cp.roam_list.data)
    &&& counted(&cp.roam_list.channels)
    &&& cp.scan_list.data.data@.len() == cp.scan_list.channels.data@.len()
    &&& cp.zones.data.data@.len() == cp.zones.channels.data@.len()
    &&& cp.roam_list.data.data@.len() == cp.roam_list.channels.data@.len()
    &&& forall|i: int|
        0 <= i < cp.digi_chans.data@.len() ==> list_resolves(
            (#[trigger] cp.digi_chans.data@[i]).slrl_pointer,
            cp.scan_list_count(),
            cp.roam_list_count(),
        ) is Ok
    &&& forall|i: int|
        0 <= i < cp.zones.channels.data@.len() ==> wide_resolve(
            cp,
            (#[trigger] cp.zones.channels.data@[i]).channels@,
        )
    &&& forall|i: int|
        0 <= i < cp.scan_list.channels.data@.len() ==> {
            let list = (#[trigger] cp.scan_list.channels.data@[i]).channels@;
            &&& list.len() > 0
            &&& list[0] == ChannelPointer::Selected
            &&& wide_resolve(cp, list)
        }
    &&& forall|i: int|
        0 <= i < cp.roam_list.channels.data@.len() ==> {
            let list = (#[trigger] cp.roam_list.channels.data@[i]).channels@;
            &&& list.len() > 0
            &&& list[0] == DigiChannelPointer::Selected
            &&& narrow_resolve(cp, list)
        }
}

/// A list whose pointers all name a channel verifies.
pub proof fn lemma_verify_all_accepts<T: RawPointer>(ptrs: Seq<T::V>, cp: &Codeplug)
    requires
        forall|j: int| 0 <= j < ptrs.len() ==> T::spec_verify(#[trigger] ptrs[j], cp) is Ok,
    ensures
        verify_all::<T>(ptrs, cp) == Ok::<(), ReferenceError>(()),
    decreases ptrs.len(),
{
    if ptrs.len() > 0 {
        let front = ptrs.drop_last();
        assert forall|j: int| 0 <= j < front.len() implies T::spec_verify(
            #[trigger] front[j],
            cp,
        ) is Ok by {
            assert(front[j] == ptrs[j]);
        }
        lemma_verify_all_accepts::<T>(front, cp);
        assert(ptrs.last() == ptrs[ptrs.len() - 1]);
    }
}

/// A collection whose records all fit the codeplug verifies.
pub proof fn lemma_verify_records_accepts<T: CPData>(data: Seq<T::V>, cp: &Codeplug, section: u16)
    requires
        forall|i: int| 0 <= i < data.len() ==> T::spec_verify(#[trigger] data[i], cp) is Ok,
    ensures
        verify_records::<T>(data, cp, section) == Ok::<(), CodeplugError>(()),
    decreases data.len(),
{
    if data.len() > 0 {
        let front = data.drop_last();
        assert forall|i: int| 0 <= i < front.len() implies T::spec_verify(
            #[trigger] front[i],
            cp,
        ) is Ok by {
            assert(front[i] == data[i]);
        }
        lemma_verify_records_accepts::<T>(front, cp, section);
        assert(data.last() == data[data.len() - 1]);
    }
}

/// A collection verifies exactly if its header counts its records and every
/// record fits the codeplug.
pub proof fn lemma_collection_verify<T: CPData>(c: &CodeplugSection<T>, cp: &Codeplug)
    ensures
        c.spec_verify(cp) is Ok <==> counted(c) && forall|i: int|
            0 <= i < c.data@.len() ==> T::spec_verify((#[trigger] c.data@[i])@, cp) is Ok,
{
    let data = views(c.data@);
    if counted(c) {
        if forall|i: int| 0 <= i < c.data@.len() ==> T::spec_verify((#[trigger] c.data@[i])@, cp) is Ok {
            assert forall|i: int| 0 <= i < data.len() implies T::spec_verify(
                #[trigger] data[i],
                cp,
            ) is Ok by {
                assert(data[i] == c.data@[i]@);
            }
            lemma_verify_records_accepts::<T>(data, cp, T::spec_cp_section());
        } else {
            let i = choose|i: int|
                0 <= i < c.data@.len() && !(T::spec_verify((#[trigger] c.data@[i])@, cp) is Ok);
            assert(data[i] == c.data@[i]@);
            lemma_verify_records_rejects::<T>(data, cp, T::spec_cp_section(), i);
        }
    }
}

/// A list of wide pointers verifies exactly if every pointer names a
/// channel.
pub proof fn lemma_wide_list(cp: &Codeplug, ptrs: Seq<ChannelPointer>)
    ensures
        verify_all::<ChannelPointer>(ptrs, cp) is Ok <==> wide_resolve(cp, ptrs),
{
    if wide_resolve(cp, ptrs) {
        assert forall|j: int| 0 <= j < ptrs.len() implies <ChannelPointer as RawPointer>::spec_verify(
            #[trigger] ptrs[j],
            cp,
        ) is Ok by {
            assert(ptrs[j].resolves(cp.digital_count(), cp.analog_count()) is Ok);
        }
        lemma_verify_all_accepts::<ChannelPointer>(ptrs, cp);
    } else {
        let j = choose|j: int|
            0 <= j < ptrs.len() && !((#[trigger] ptrs[j]).resolves(
                cp.digital_count(),
                cp.analog_count(),
            ) is Ok);
        lemma_verify_all_rejects::<ChannelPointer>(ptrs, cp, j);
    }
}

/// A list of narrow pointers verifies exactly if every pointer names a
/// channel.
pub proof fn lemma_narrow_list(cp: &Codeplug, ptrs: Seq<DigiChannelPointer>)
    ensures
        verify_all::<DigiChannelPointer>(ptrs, cp) is Ok <==> narrow_resolve(cp, ptrs),
{
    if narrow_resolve(cp, ptrs) {
        assert forall|j: int|
            0 <= j < ptrs.len() implies <DigiChannelPointer as RawPointer>::spec_verify(
            #[trigger] ptrs[j],
            cp,
        ) is Ok by {
            assert(ptrs[j].resolves(cp.digital_count()) is Ok);
        }
        lemma_verify_all_accepts::<DigiChannelPointer>(ptrs, cp);
    } else {
        let j = choose|j: int|
            0 <= j < ptrs.len() && !((#[trigger] ptrs[j]).resolves(cp.digital_count()) is Ok);
        lemma_verify_all_rejects::<DigiChannelPointer>(ptrs, cp, j);
    }
}

/// Verification accepts exactly the codeplugs that are valid.
pub proof fn lemma_verify_iff_valid(cp: &Codeplug)
    ensures
        cp.spec_verify() is Ok <==> valid(cp),
{
    lemma_collection_verify::<Contact>(&cp.contacts, cp);
    lemma_collection_verify::<AnalogChannel>(&cp.ana_chans, cp);
    lemma_collection_verify::<DigitalChannel>(&cp.digi_chans, cp);
    lemma_collection_verify::<Scan>(&cp.scan_list.data, cp);
    lemma_collection_verify::<ScanList>(&cp.scan_list.channels, cp);
    lemma_collection_verify::<Zone>(&cp.zones.data, cp);
    lemma_collection_verify::<ZoneList>(&cp.zones.channels, cp);
    lemma_collection_verify::<Roam>(&cp.roam_list.data, cp);
    lemma_collection_verify::<RoamList>(&cp.roam_list.channels, cp);
    assert forall|i: int| 0 <= i < cp.zones.channels.data@.len() implies (ZoneList::spec_verify(
        (#[trigger] cp.zones.channels.data@[i])@,
        cp,
    ) is Ok <==> wide_resolve(cp, cp.zones.channels.data@[i].channels@)) by {
        lemma_wide_list(cp, cp.zones.channels.data@[i].channels@);
    }
    assert forall|i: int|
        0 <= i < cp.scan_list.channels.data@.len() implies (ScanList::spec_verify(
        (#[trigger] cp.scan_list.channels.data@[i])@,
        cp,
    ) is Ok <==> {
        let list = cp.scan_list.channels.data@[i].channels@;
        &&& list.len() > 0
        &&& list[0] == ChannelPointer::Selected
        &&& wide_resolve(cp, list)
    }) by {
        lemma_wide_list(cp, cp.scan_list.channels.data@[i].channels@);
    }
    assert forall|i: int|
        0 <= i < cp.roam_list.channels.data@.len() implies (RoamList::spec_verify(
        (#[trigger] cp.roam_list.channels.data@[i])@,
        cp,
    ) is Ok <==> {
        let list = cp.roam_list.channels.data@[i].channels@;
        &&& list.len() > 0
        &&& list[0] == DigiChannelPointer::Selected
        &&& narrow_resolve(cp, list)
    }) by {
        lemma_narrow_list(cp, cp.roam_list.channels.data@[i].channels@);
    }
}

/// A list with a pointer that names no channel does not verify.
pub proof fn lemma_verify_all_rejects<T: RawPointer>(ptrs: Seq<T::V>, cp: &Codeplug, k: int)
    requires
        0 <= k < ptrs.len(),
        T::spec_verify(ptrs[k], cp) is Err,
    ensures
        verify_all::<T>(ptrs, cp) is Err,
    decreases ptrs.len(),
{
    if k < ptrs.len() - 1 {
        lemma_verify_all_rejects::<T>(ptrs.drop_last(), cp, k);
    }
}

/// A codeplug that does not verify is refused by `write_codeplug`, which
/// then leaves every image as it is.
pub proof fn lemma_unverified_not_written(cp: &Codeplug, image: Seq<u8>)
    requires
        cp.spec_verify() is Err,
    ensures
        cp.spec_write(image).0 == image,
        cp.spec_write(image).1 is Err,
{
}

/// A codeplug with a zone list that holds a pointer to a digital channel
/// beyond the last digital channel does not verify, and is not written.
pub proof fn lemma_dangling_zone_pointer(cp: &Codeplug, list: int, at: int, image: Seq<u8>)
    requires
        0 <= list < cp.zones.channels.data@.len(),
        0 <= at < cp.zones.channels.data@[list]@.len(),
        cp.zones.channels.data@[list]@[at] matches ChannelPointer::Digital(i) && i
            >= cp.digital_count(),
    ensures
        cp.spec_verify() is Err,
        cp.spec_write(image).0 == image,
        cp.spec_write(image).1 is Err,
{
    let lists = views(cp.zones.channels.data@);
    assert(lists[list] == cp.zones.channels.data@[list]@);
    lemma_verify_all_rejects::<ChannelPointer>(lists[list], cp, at);
    lemma_verify_records_rejects::<ZoneList>(lists, cp, ZoneList::spec_cp_section(), list);
}

/// A codeplug with a scan list that holds a pointer to a digital channel
/// beyond the last digital channel does not verify, and is not written.
pub proof fn lemma_dangling_scan_pointer(cp: &Codeplug, list: int, at: int, image: Seq<u8>)
    requires
        0 <= list < cp.scan_list.channels.data@.len(),
        0 <= at < cp.scan_list.channels.data@[list]@.len(),
        cp.scan_list.channels.data@[list]@[at] matches ChannelPointer::Digital(i) && i
            >= cp.digital_count(),
    ensures
        cp.spec_verify() is Err,
        cp.spec_write(image).0 == image,
        cp.spec_write(image).1 is Err,
{
    let lists = views(cp.scan_list.channels.data@);
    assert(lists[list] == cp.scan_list.channels.data@[list]@);
    lemma_verify_all_rejects::<ChannelPointer>(lists[list], cp, at);
    lemma_verify_records_rejects::<ScanList>(lists, cp, ScanList::spec_cp_section(), list);
}

/// A codeplug with a roam list that holds a pointer to a digital channel
/// beyond the last digital channel does not verify, and is not written.
pub proof fn lemma_dangling_roam_pointer(cp: &Codeplug, list: int, at: int, image: Seq<u8>)
    requires
        0 <= list < cp.roam_list.channels.data@.len(),
        0 <= at < cp.roam_list.channels.data@[list]@.len(),
        cp.roam_list.channels.data@[list]@[at] matches DigiChannelPointer::Digital(i) && i
            >= cp.digital_count(),
    ensures
        cp.spec_verify() is Err,
        cp.spec_write(image).0 == image,
        cp.spec_write(image).1 is Err,
{
    let lists = views(cp.roam_list.channels.data@);
    assert(lists[list] == cp.roam_list.channels.data@[list]@);
    lemma_verify_all_rejects::<DigiChannelPointer>(lists[list], cp, at);
    lemma_verify_records_rejects::<RoamList>(lists, cp, RoamList::spec_cp_section(), list);
}

/// A codeplug with a scan list that does not start with the selected channel
/// does not verify.
pub proof fn lemma_scan_list_first_entry(cp: &Codeplug, list: int)
    requires
        0 <= list < cp.scan_list.channels.data@.len(),
        cp.scan_list.channels.data@[list]@.len() == 0 || cp.scan_list.channels.data@[list]@[0]
            != ChannelPointer::Selected,
    ensures
        cp.spec_verify() is Err,
{
    let lists = views(cp.scan_list.channels.data@);
    assert(lists[list] == cp.scan_list.channels.data@[list]@);
    lemma_verify_records_rejects::<ScanList>(lists, cp, ScanList::spec_cp_section(), list);
}

/// A codeplug with a roam list that does not start with the selected channel
/// does not verify.
pub proof fn lemma_roam_list_first_entry(cp: &Codeplug, list: int)
    requires
        0 <= list < cp.roam_list.channels.data@.len(),
        cp.roam_list.channels.data@[list]@.len() == 0 || cp.roam_list.channels.data@[list]@[0]
            != DigiChannelPointer::Selected,
    ensures
        cp.spec_verify() is Err,
{
    let lists = views(cp.roam_list.channels.data@);
    assert(lists[list] == cp.roam_list.channels.data@[list]@);
    lemma_verify_records_rejects::<RoamList>(lists, cp, RoamList::spec_cp_section(), list);
}

/// A codeplug whose zones, scan settings or roam settings are not as many
/// as their lists does not verify.
pub proof fn lemma_parity(cp: &Codeplug)
    requires
        cp.zones.data.data@.len() != cp.zones.channels.data@.len() || cp.scan_list.data.data@.len()
            != cp.scan_list.channels.data@.len() || cp.roam_list.data.data@.len()
            != cp.roam_list.channels.data@.len(),
    ensures
        cp.spec_verify() is Err,
{
}

} // verus!
