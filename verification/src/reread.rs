//! What is written is read again. The section directory of an image after
//! a collection was written into it is the directory as it was, with the
//! section of the collection in the place of the section that it was read
//! from; and a codeplug that is written into the image that it lies in is
//! read from that image with the records that it was written with.

use crate::aggregate::{model_bytes, model_text, read_spec, Codeplug, CodeplugView};
use crate::analog_channel::AnalogChannel;
use crate::bytes::u32_at;
use crate::collection::{section_block, section_written, then_written, CollectionView, PairedView};
use crate::contact::Contact;
use crate::cp_data::{fetch_section_spec, CPData};
use crate::digital_channel::DigitalChannel;
use crate::error::{CodecError, CodeplugError};
use crate::readback::{
    all_recoverable, lemma_block_parts, lemma_section_local, lemma_section_within, lemma_write_reads_back,
    lemma_written_fetches, recoverable, written_section,
};
use crate::roam::list::RoamList;
use crate::roam::Roam;
use crate::scan::Scan;
use crate::scan_list::ScanList;
use crate::section::{directory, lemma_sections_fail, lemma_sections_step, sections_from, SectionView};
use crate::zone::Zone;
use crate::zone_list::ZoneList;
use vstd::prelude::*;

verus! {

/// A section that decodes knows where it starts.
pub proof fn lemma_section_addr(image: Seq<u8>, pos: int)
    requires
        SectionView::decode(image, pos) is Ok,
    ensures
        SectionView::decode(image, pos)->Ok_0.addr == pos as u64,
{
    reveal(SectionView::decode);
}

/// Whether every section of a directory starts before `pos`.
pub open spec fn all_before(found: Map<u16, SectionView>, pos: int) -> bool {
    forall|k: u16| found.contains_key(k) ==> (#[trigger] found[k]).addr < pos
}

/// Where the sections of a directory lie: what the walk from `pos` adds to
/// the sections found before starts at `pos` or behind it, and before the
/// end address; what it does not replace stays.
pub proof fn lemma_sections_lie(
    image: Seq<u8>,
    pos: int,
    end: int,
    found: Map<u16, SectionView>,
    k: u16,
)
    requires
        0 <= pos <= image.len(),
        end <= 0x1_0000_0000,
        sections_from(image, pos, end, found) is Ok,
    ensures
        ({
            let m = sections_from(image, pos, end, found)->Ok_0;
            &&& found.contains_key(k) ==> m.contains_key(k)
            &&& m.contains_key(k) ==> (found.contains_key(k) && m[k] == found[k]) || {
                &&& pos <= m[k].addr < end
                &&& m[k].addr + m[k].image_len() <= image.len()
                &&& SectionView::decode(image, m[k].addr as int) == Ok::<SectionView, CodecError>(m[k])
            }
        }),
    decreases end - pos,
{
    if pos < end {
        match SectionView::decode(image, pos) {
            Err(e) => {
                lemma_sections_fail(image, pos, end, found, e);
            },
            Ok(s) => {
                lemma_sections_step(image, pos, end, found, s);
                lemma_section_addr(image, pos);
                lemma_section_within(image, pos);
                let next = pos + s.image_len();
                let grown = found.insert(s.header.section_type, s);
                if next < end {
                    lemma_sections_lie(image, next, end, grown, k);
                }
            },
        }
    }
}

/// The walk from `pos` reads the bytes from `pos` on alone: two images of
/// one length that agree from `pos` on have the same sections there.
pub proof fn lemma_walk_local(
    first: Seq<u8>,
    second: Seq<u8>,
    pos: int,
    end: int,
    found: Map<u16, SectionView>,
)
    requires
        0 <= pos <= first.len(),
        first.len() == second.len(),
        forall|i: int| pos <= i < first.len() ==> first[i] == second[i],
    ensures
        sections_from(first, pos, end, found) == sections_from(second, pos, end, found),
    decreases end - pos,
{
    if pos < end {
        assert(first.subrange(pos, first.len() as int) =~= second.subrange(pos, second.len() as int));
        assert(SectionView::decode(first, pos) == SectionView::decode(second, pos)) by {
            reveal(SectionView::decode);
        }
        match SectionView::decode(first, pos) {
            Err(e) => {
                lemma_sections_fail(first, pos, end, found, e);
                lemma_sections_fail(second, pos, end, found, e);
            },
            Ok(s) => {
                lemma_sections_step(first, pos, end, found, s);
                lemma_sections_step(second, pos, end, found, s);
                lemma_section_within(first, pos);
                let next = pos + s.image_len();
                if next < end {
                    lemma_walk_local(first, second, next, end, found.insert(s.header.section_type, s));
                }
            },
        }
    }
}

/// A section found before the walk that the walk does not replace can be
/// exchanged for another: the walk then gives the same directory with the
/// other section in its place.
pub proof fn lemma_walk_exchange(
    image: Seq<u8>,
    pos: int,
    end: int,
    found: Map<u16, SectionView>,
    k: u16,
    w: SectionView,
)
    requires
        0 <= pos <= image.len(),
        end <= 0x1_0000_0000,
        sections_from(image, pos, end, found) is Ok,
        found.contains_key(k),
        found[k].addr < pos,
        sections_from(image, pos, end, found)->Ok_0[k].addr < pos,
    ensures
        sections_from(image, pos, end, found.insert(k, w)) == Ok::<Map<u16, SectionView>, (usize, CodecError)>(
            sections_from(image, pos, end, found)->Ok_0.insert(k, w),
        ),
    decreases end - pos,
{
    let m = sections_from(image, pos, end, found)->Ok_0;
    if pos < end {
        match SectionView::decode(image, pos) {
            Err(e) => {
                lemma_sections_fail(image, pos, end, found, e);
            },
            Ok(s) => {
                let t = s.header.section_type;
                let next = pos + s.image_len();
                let grown = found.insert(t, s);
                lemma_sections_step(image, pos, end, found, s);
                lemma_sections_step(image, pos, end, found.insert(k, w), s);
                lemma_section_addr(image, pos);
                lemma_section_within(image, pos);
                if next < end {
                    lemma_sections_lie(image, next, end, grown, k);
                } else {
                    assert(m == grown);
                }
                assert(t != k);
                assert(found.insert(k, w).insert(t, s) =~= grown.insert(k, w));
                if next < end {
                    lemma_walk_exchange(image, next, end, grown, k, w);
                } else {
                    assert(m.insert(k, w) =~= grown.insert(k, w));
                }
            },
        }
    } else {
        assert(m == found);
    }
}

/// The walk over an image in which one section of the walk was written
/// over, by a section of its type and of its length: the directory as it
/// was, with the written section in the place of the other.
pub proof fn lemma_walk_rewritten(
    image: Seq<u8>,
    after: Seq<u8>,
    pos: int,
    end: int,
    found: Map<u16, SectionView>,
    k: u16,
    w: SectionView,
)
    requires
        0 <= pos <= image.len(),
        end <= 0x1_0000_0000,
        sections_from(image, pos, end, found) is Ok,
        all_before(found, pos),
        sections_from(image, pos, end, found)->Ok_0.contains_key(k),
        sections_from(image, pos, end, found)->Ok_0[k].addr == w.addr,
        sections_from(image, pos, end, found)->Ok_0[k].image_len() == w.image_len(),
        pos <= w.addr,
        w.header.section_type == k,
        after.len() == image.len(),
        forall|i: int|
            0 <= i < image.len() && !(w.addr <= i < w.addr + w.image_len()) ==> after[i] == image[i],
        SectionView::decode(after, w.addr as int) == Ok::<SectionView, CodecError>(w),
    ensures
        sections_from(after, pos, end, found) == Ok::<Map<u16, SectionView>, (usize, CodecError)>(
            sections_from(image, pos, end, found)->Ok_0.insert(k, w),
        ),
    decreases end - pos,
{
    let m = sections_from(image, pos, end, found)->Ok_0;
    let a = w.addr as int;
    if pos >= end {
        assert(m == found);
        assert(found[k].addr < pos);
    } else {
        match SectionView::decode(image, pos) {
            Err(e) => {
                lemma_sections_fail(image, pos, end, found, e);
            },
            Ok(s) => {
                let t = s.header.section_type;
                let next = pos + s.image_len();
                let grown = found.insert(t, s);
                lemma_sections_step(image, pos, end, found, s);
                lemma_section_addr(image, pos);
                lemma_section_within(image, pos);
                if next < end {
                    lemma_sections_lie(image, next, end, grown, k);
                } else {
                    assert(m == grown);
                }
                if t != k {
                    assert(grown.contains_key(k) ==> grown[k] == found[k] && found[k].addr < pos);
                }
                if pos == a {
                    assert(t == k && m[k] == s);
                    lemma_sections_step(after, pos, end, found, w);
                    assert(grown.insert(k, w) =~= found.insert(k, w));
                    if next < end {
                        lemma_walk_local(image, after, next, end, found.insert(k, w));
                        lemma_walk_exchange(image, next, end, grown, k, w);
                    } else {
                        assert(m.insert(k, w) =~= found.insert(k, w));
                    }
                } else {
                    assert(next <= a && next < end);
                    assert(image.subrange(pos, next) =~= after.subrange(pos, next));
                    lemma_section_local(image, after, pos, s);
                    lemma_sections_step(after, pos, end, found, s);
                    assert(all_before(grown, next)) by {
                        assert forall|j: u16| grown.contains_key(j) implies (#[trigger] grown[j]).addr
                            < next by {
                            if j != t {
                                assert(found.contains_key(j) && grown[j] == found[j]);
                            }
                        }
                    }
                    lemma_walk_rewritten(image, after, next, end, grown, k, w);
                }
            },
        }
    }
}

/// The sections of a directory stand under their types: what the walk adds
/// to the sections found before has the type that it is found under.
pub proof fn lemma_sections_typed(
    image: Seq<u8>,
    pos: int,
    end: int,
    found: Map<u16, SectionView>,
    k: u16,
)
    requires
        sections_from(image, pos, end, found) is Ok,
        sections_from(image, pos, end, found)->Ok_0.contains_key(k),
        found.contains_key(k) ==> found[k].header.section_type == k,
    ensures
        sections_from(image, pos, end, found)->Ok_0[k].header.section_type == k,
    decreases end - pos,
{
    if 0 <= pos < end {
        match SectionView::decode(image, pos) {
            Err(e) => {
                lemma_sections_fail(image, pos, end, found, e);
            },
            Ok(s) => {
                lemma_sections_step(image, pos, end, found, s);
                let next = pos + s.image_len();
                if next < end {
                    lemma_sections_typed(image, next, end, found.insert(s.header.section_type, s), k);
                }
            },
        }
    }
}

/// Whether a collection lies where a directory has the section of its
/// type: the section of the collection has the type, the address, the
/// capacity and the byte size of that section.
pub open spec fn placed<V>(dir: Map<u16, SectionView>, v: CollectionView<V>, section: u16) -> bool {
    &&& dir.contains_key(section)
    &&& v.sec.header.section_type == section
    &&& v.sec.addr == dir[section].addr
    &&& v.sec.header.capacity == dir[section].header.capacity
    &&& v.sec.header.byte_size == dir[section].header.byte_size
}

/// A collection written over a section within the image leaves the length
/// of the image and the bytes outside the section as they were.
pub proof fn lemma_write_in_place<T: CPData>(v: CollectionView<T::V>, section: u16, image: Seq<u8>)
    requires
        section_written::<T>(v, section, image).1 is Ok,
        v.sec.addr + v.sec.image_len() <= image.len(),
    ensures
        section_written::<T>(v, section, image).0.len() == image.len(),
        forall|i: int|
            0 <= i < image.len() && !(v.sec.addr <= i < v.sec.addr + v.sec.image_len())
                ==> section_written::<T>(v, section, image).0[i] == image[i],
{
    reveal(section_written);
    lemma_block_parts::<T>(v, section);
}

/// What a collection is written as has the header of the collection and the
/// address that it is read at.
pub proof fn lemma_written_section_shape<T: CPData>(v: CollectionView<T::V>, section: u16, at: int)
    ensures
        written_section::<T>(v, section, at).header == v.sec.header,
        written_section::<T>(v, section, at).addr == at as u64,
{
}

/// The directory of an image after a collection was written into it. Where
/// the collection lies where the directory has the section of its type and
/// can come back from what it is written as: the image keeps its length and
/// what it holds before the first section, and its directory is the
/// directory as it was, with the section that the collection was written as
/// in the place of the section of its type.
pub proof fn lemma_directory_rewritten<T: CPData>(v: CollectionView<T::V>, section: u16, image: Seq<u8>)
    requires
        directory(image) is Ok,
        placed(directory(image)->Ok_0, v, section),
        recoverable::<T>(v),
        section_written::<T>(v, section, image).1 is Ok,
    ensures
        section_written::<T>(v, section, image).0.len() == image.len(),
        section_written::<T>(v, section, image).0.subrange(0, 0x392) == image.subrange(0, 0x392),
        directory(section_written::<T>(v, section, image).0) == Ok::<
            Map<u16, SectionView>,
            (usize, CodecError),
        >(directory(image)->Ok_0.insert(section, written_section::<T>(v, section, v.sec.addr as int))),
{
    let dir = directory(image)->Ok_0;
    let after = section_written::<T>(v, section, image).0;
    let a = v.sec.addr as int;
    let w = written_section::<T>(v, section, a);
    let end = u32_at(image, 0x38e) as int;
    let none = Map::<u16, SectionView>::empty();
    lemma_sections_lie(image, 0x392, end, none, section);
    assert(dir[section].image_len() == v.sec.image_len());
    lemma_write_in_place::<T>(v, section, image);
    lemma_written_section_shape::<T>(v, section, a);
    assert(SectionView::decode(after, a) == Ok::<SectionView, CodecError>(w)) by {
        lemma_write_reads_back::<T>(v, section, image);
    }
    assert(after.subrange(0, 0x392) =~= image.subrange(0, 0x392));
    assert(after[0x38e] == image[0x38e] && after[0x38f] == image[0x38f] && after[0x390] == image[0x390]
        && after[0x391] == image[0x391]);
    lemma_walk_rewritten(image, after, 0x392, end, none, section, w);
}

/// What writing one more collection makes of the directory of an image,
/// where the collection lies where the directory has the section of its
/// type and can come back from what it is written as.
pub proof fn lemma_then_rewritten<T: CPData>(
    before: (Seq<u8>, Result<nat, CodeplugError>),
    v: CollectionView<T::V>,
    section: u16,
)
    requires
        directory(before.0) is Ok,
        placed(directory(before.0)->Ok_0, v, section),
        recoverable::<T>(v),
        then_written::<T>(before, v, section).1 is Ok,
    ensures
        before.1 is Ok,
        then_written::<T>(before, v, section).0.len() == before.0.len(),
        then_written::<T>(before, v, section).0.subrange(0, 0x392) == before.0.subrange(0, 0x392),
        directory(then_written::<T>(before, v, section).0) == Ok::<
            Map<u16, SectionView>,
            (usize, CodecError),
        >(directory(before.0)->Ok_0.insert(section, as_written::<T>(v, section).sec)),
        fetch_section_spec::<T>(
            directory(before.0)->Ok_0.insert(section, as_written::<T>(v, section).sec),
            section,
        ) == Ok::<CollectionView<T::V>, CodeplugError>(as_written::<T>(v, section)),
{
    lemma_directory_rewritten::<T>(v, section, before.0);
    lemma_write_reads_back::<T>(v, section, before.0);
    lemma_written_section_shape::<T>(v, section, v.sec.addr as int);
}

/// A collection as it is read from what it was written as: the records of
/// the collection, in the section that they were written as.
pub open spec fn as_written<T: CPData>(v: CollectionView<T::V>, section: u16) -> CollectionView<T::V> {
    CollectionView { sec: written_section::<T>(v, section, v.sec.addr as int), data: v.data }
}

/// Whether every collection of a codeplug lies where a directory has the
/// section of its type.
pub open spec fn all_placed(cp: &Codeplug, dir: Map<u16, SectionView>) -> bool {
    &&& placed(dir, cp.contacts@, 0x2a)
    &&& placed(dir, cp.digi_chans@, 0x26)
    &&& placed(dir, cp.ana_chans@, 0x27)
    &&& placed(dir, cp.zones.data@, 0x24)
    &&& placed(dir, cp.zones.channels@, 0x23)
    &&& placed(dir, cp.scan_list.data@, 0x6d)
    &&& placed(dir, cp.scan_list.channels@, 0x4d)
    &&& placed(dir, cp.roam_list.data@, 0x7a)
    &&& placed(dir, cp.roam_list.channels@, 0x79)
}

/// A directory with the sections that the collections of a codeplug are
/// written as in the place of the sections of their types.
pub open spec fn rewritten_directory(cp: &Codeplug, dir: Map<u16, SectionView>) -> Map<u16, SectionView> {
    dir.insert(
        0x2a,
        as_written::<Contact>(cp.contacts@, 0x2a).sec,
    ).insert(
        0x26,
        as_written::<DigitalChannel>(cp.digi_chans@, 0x26).sec,
    ).insert(
        0x27,
        as_written::<AnalogChannel>(cp.ana_chans@, 0x27).sec,
    ).insert(
        0x24,
        as_written::<Zone>(cp.zones.data@, 0x24).sec,
    ).insert(
        0x23,
        as_written::<ZoneList>(cp.zones.channels@, 0x23).sec,
    ).insert(
        0x6d,
        as_written::<Scan>(cp.scan_list.data@, 0x6d).sec,
    ).insert(
        0x4d,
        as_written::<ScanList>(cp.scan_list.channels@, 0x4d).sec,
    ).insert(
        0x7a,
        as_written::<Roam>(cp.roam_list.data@, 0x7a).sec,
    ).insert(
        0x79,
        as_written::<RoamList>(cp.roam_list.channels@, 0x79).sec,
    )
}

/// A codeplug lies where the image that it was read from has its sections:
/// the image has a directory and the radio model of the codeplug, and every
/// collection of the codeplug lies where the directory has the section of
/// its type.
pub proof fn lemma_read_is_placed(cp: &Codeplug, image: Seq<u8>)
    requires
        read_spec(image) == Ok::<CodeplugView, CodeplugError>(cp@),
    ensures
        directory(image) is Ok,
        model_text(image) == Ok::<Seq<char>, CodeplugError>(cp.model@),
        all_placed(cp, directory(image)->Ok_0),
{
    let end = u32_at(image, 0x38e) as int;
    let none = Map::<u16, SectionView>::empty();
    lemma_sections_typed(image, 0x392, end, none, 0x2a);
    lemma_sections_typed(image, 0x392, end, none, 0x26);
    lemma_sections_typed(image, 0x392, end, none, 0x27);
    lemma_sections_typed(image, 0x392, end, none, 0x24);
    lemma_sections_typed(image, 0x392, end, none, 0x23);
    lemma_sections_typed(image, 0x392, end, none, 0x6d);
    lemma_sections_typed(image, 0x392, end, none, 0x4d);
    lemma_sections_typed(image, 0x392, end, none, 0x7a);
    lemma_sections_typed(image, 0x392, end, none, 0x79);
}

/// The directory of an image after a codeplug was written into it. Where
/// every collection of the codeplug lies where the directory of the image
/// has the section of its type and can come back from what it is written
/// as, and the codeplug is written without a failure: the image keeps its
/// length and what it holds before the first section, and its directory is
/// the directory as it was with the sections that the collections were
/// written as.
pub proof fn lemma_directory_after_write(cp: &Codeplug, image: Seq<u8>, dir: Map<u16, SectionView>)
    requires
        directory(image) == Ok::<Map<u16, SectionView>, (usize, CodecError)>(dir),
        all_placed(cp, dir),
        all_recoverable(cp),
        cp.written(image).1 is Ok,
    ensures
        cp.written(image).0.len() == image.len(),
        cp.written(image).0.subrange(0, 0x392) == image.subrange(0, 0x392),
        directory(cp.written(image).0) == Ok::<Map<u16, SectionView>, (usize, CodecError)>(
            rewritten_directory(cp, dir),
        ),
{
    let s0 = (image, Ok::<nat, CodeplugError>(0nat));
    let d0 = dir;
    let s1 = then_written::<Contact>(s0, cp.contacts@, 0x2a);
    let d1 = d0.insert(0x2a, as_written::<Contact>(cp.contacts@, 0x2a).sec);
    let s2 = then_written::<DigitalChannel>(s1, cp.digi_chans@, 0x26);
    let d2 = d1.insert(0x26, as_written::<DigitalChannel>(cp.digi_chans@, 0x26).sec);
    let s3 = then_written::<AnalogChannel>(s2, cp.ana_chans@, 0x27);
    let d3 = d2.insert(0x27, as_written::<AnalogChannel>(cp.ana_chans@, 0x27).sec);
    let s4 = then_written::<Zone>(s3, cp.zones.data@, 0x24);
    let d4 = d3.insert(0x24, as_written::<Zone>(cp.zones.data@, 0x24).sec);
    let s5 = then_written::<ZoneList>(s4, cp.zones.channels@, 0x23);
    let d5 = d4.insert(0x23, as_written::<ZoneList>(cp.zones.channels@, 0x23).sec);
    let s6 = then_written::<Scan>(s5, cp.scan_list.data@, 0x6d);
    let d6 = d5.insert(0x6d, as_written::<Scan>(cp.scan_list.data@, 0x6d).sec);
    let s7 = then_written::<ScanList>(s6, cp.scan_list.channels@, 0x4d);
    let d7 = d6.insert(0x4d, as_written::<ScanList>(cp.scan_list.channels@, 0x4d).sec);
    let s8 = then_written::<Roam>(s7, cp.roam_list.data@, 0x7a);
    let d8 = d7.insert(0x7a, as_written::<Roam>(cp.roam_list.data@, 0x7a).sec);
    let s9 = then_written::<RoamList>(s8, cp.roam_list.channels@, 0x79);
    let d9 = d8.insert(0x79, as_written::<RoamList>(cp.roam_list.channels@, 0x79).sec);
    assert(cp.written(image) == s9);
    lemma_then_rewritten::<Contact>(s0, cp.contacts@, 0x2a);
    lemma_then_rewritten::<DigitalChannel>(s1, cp.digi_chans@, 0x26);
    lemma_then_rewritten::<AnalogChannel>(s2, cp.ana_chans@, 0x27);
    lemma_then_rewritten::<Zone>(s3, cp.zones.data@, 0x24);
    lemma_then_rewritten::<ZoneList>(s4, cp.zones.channels@, 0x23);
    lemma_then_rewritten::<Scan>(s5, cp.scan_list.data@, 0x6d);
    lemma_then_rewritten::<ScanList>(s6, cp.scan_list.channels@, 0x4d);
    lemma_then_rewritten::<Roam>(s7, cp.roam_list.data@, 0x7a);
    lemma_then_rewritten::<RoamList>(s8, cp.roam_list.channels@, 0x79);
}

/// A collection that is written without a failure has bytes.
pub proof fn lemma_written_block<T: CPData>(v: CollectionView<T::V>, section: u16, image: Seq<u8>)
    requires
        section_written::<T>(v, section, image).1 is Ok,
    ensures
        section_block::<T>(v, section) is Ok,
{
    reveal(section_written);
}

/// From a directory that has the section that a collection is written as,
/// the collection is fetched as it was written.
pub proof fn lemma_fetch_as_written<T: CPData>(
    v: CollectionView<T::V>,
    section: u16,
    dir: Map<u16, SectionView>,
)
    requires
        section_block::<T>(v, section) is Ok,
        recoverable::<T>(v),
        dir.contains_key(section),
        dir[section] == as_written::<T>(v, section).sec,
    ensures
        fetch_section_spec::<T>(dir, section) == Ok::<CollectionView<T::V>, CodeplugError>(
            as_written::<T>(v, section),
        ),
{
    lemma_written_fetches::<T>(v, section, v.sec.addr as int, v.data.len() as int);
    lemma_written_section_shape::<T>(v, section, v.sec.addr as int);
    assert(v.data.subrange(0, v.data.len() as int) =~= v.data);
}

/// A codeplug as it is read from the image that it was written into: the
/// records of every collection, in the sections that they were written as,
/// and the radio model.
pub open spec fn reread(cp: &Codeplug) -> CodeplugView {
    CodeplugView {
        contacts: as_written::<Contact>(cp.contacts@, 0x2a),
        zones: PairedView {
            data: as_written::<Zone>(cp.zones.data@, 0x24),
            channels: as_written::<ZoneList>(cp.zones.channels@, 0x23),
        },
        digi_chans: as_written::<DigitalChannel>(cp.digi_chans@, 0x26),
        ana_chans: as_written::<AnalogChannel>(cp.ana_chans@, 0x27),
        scan_list: PairedView {
            data: as_written::<Scan>(cp.scan_list.data@, 0x6d),
            channels: as_written::<ScanList>(cp.scan_list.channels@, 0x4d),
        },
        roam_list: PairedView {
            data: as_written::<Roam>(cp.roam_list.data@, 0x7a),
            channels: as_written::<RoamList>(cp.roam_list.channels@, 0x79),
        },
        model: cp.model@,
    }
}

/// Whether a directory has the section that a collection is written as.
pub open spec fn has_written<T: CPData>(dir: Map<u16, SectionView>, v: CollectionView<T::V>, section: u16) -> bool {
    dir.contains_key(section) && dir[section] == as_written::<T>(v, section).sec
}

/// Whether a directory has the sections that the collections of a codeplug
/// are written as.
pub open spec fn has_all_written(cp: &Codeplug, dir: Map<u16, SectionView>) -> bool {
    &&& has_written::<Contact>(dir, cp.contacts@, 0x2a)
    &&& has_written::<DigitalChannel>(dir, cp.digi_chans@, 0x26)
    &&& has_written::<AnalogChannel>(dir, cp.ana_chans@, 0x27)
    &&& has_written::<Zone>(dir, cp.zones.data@, 0x24)
    &&& has_written::<ZoneList>(dir, cp.zones.channels@, 0x23)
    &&& has_written::<Scan>(dir, cp.scan_list.data@, 0x6d)
    &&& has_written::<ScanList>(dir, cp.scan_list.channels@, 0x4d)
    &&& has_written::<Roam>(dir, cp.roam_list.data@, 0x7a)
    &&& has_written::<RoamList>(dir, cp.roam_list.channels@, 0x79)
}

/// Whether every collection of a codeplug has bytes.
pub open spec fn all_blocks(cp: &Codeplug) -> bool {
    &&& section_block::<Contact>(cp.contacts@, 0x2a) is Ok
    &&& section_block::<DigitalChannel>(cp.digi_chans@, 0x26) is Ok
    &&& section_block::<AnalogChannel>(cp.ana_chans@, 0x27) is Ok
    &&& section_block::<Zone>(cp.zones.data@, 0x24) is Ok
    &&& section_block::<ZoneList>(cp.zones.channels@, 0x23) is Ok
    &&& section_block::<Scan>(cp.scan_list.data@, 0x6d) is Ok
    &&& section_block::<ScanList>(cp.scan_list.channels@, 0x4d) is Ok
    &&& section_block::<Roam>(cp.roam_list.data@, 0x7a) is Ok
    &&& section_block::<RoamList>(cp.roam_list.channels@, 0x79) is Ok
}

/// Whether every collection of a codeplug is fetched from a directory as it
/// was written.
pub open spec fn all_fetched(cp: &Codeplug, dir: Map<u16, SectionView>) -> bool {
    &&& fetch_section_spec::<Contact>(dir, 0x2a) == Ok::<CollectionView<<Contact as View>::V>, CodeplugError>(
        as_written::<Contact>(cp.contacts@, 0x2a),
    )
    &&& fetch_section_spec::<DigitalChannel>(dir, 0x26) == Ok::<CollectionView<<DigitalChannel as View>::V>, CodeplugError>(
        as_written::<DigitalChannel>(cp.digi_chans@, 0x26),
    )
    &&& fetch_section_spec::<AnalogChannel>(dir, 0x27) == Ok::<CollectionView<<AnalogChannel as View>::V>, CodeplugError>(
        as_written::<AnalogChannel>(cp.ana_chans@, 0x27),
    )
    &&& fetch_section_spec::<Zone>(dir, 0x24) == Ok::<CollectionView<<Zone as View>::V>, CodeplugError>(
        as_written::<Zone>(cp.zones.data@, 0x24),
    )
    &&& fetch_section_spec::<ZoneList>(dir, 0x23) == Ok::<CollectionView<<ZoneList as View>::V>, CodeplugError>(
        as_written::<ZoneList>(cp.zones.channels@, 0x23),
    )
    &&& fetch_section_spec::<Scan>(dir, 0x6d) == Ok::<CollectionView<<Scan as View>::V>, CodeplugError>(
        as_written::<Scan>(cp.scan_list.data@, 0x6d),
    )
    &&& fetch_section_spec::<ScanList>(dir, 0x4d) == Ok::<CollectionView<<ScanList as View>::V>, CodeplugError>(
        as_written::<ScanList>(cp.scan_list.channels@, 0x4d),
    )
    &&& fetch_section_spec::<Roam>(dir, 0x7a) == Ok::<CollectionView<<Roam as View>::V>, CodeplugError>(
        as_written::<Roam>(cp.roam_list.data@, 0x7a),
    )
    &&& fetch_section_spec::<RoamList>(dir, 0x79) == Ok::<CollectionView<<RoamList as View>::V>, CodeplugError>(
        as_written::<RoamList>(cp.roam_list.channels@, 0x79),
    )
}

/// The directory that a codeplug is written into has the sections that its
/// collections are written as.
pub proof fn lemma_rewritten_directory(cp: &Codeplug, dir: Map<u16, SectionView>)
    ensures
        has_all_written(cp, rewritten_directory(cp, dir)),
{
}

/// Every collection of a codeplug that is written without a failure has
/// bytes.
pub proof fn lemma_written_blocks(cp: &Codeplug, image: Seq<u8>)
    requires
        cp.written(image).1 is Ok,
    ensures
        all_blocks(cp),
{
    let s0 = (image, Ok::<nat, CodeplugError>(0nat));
    let s1 = then_written::<Contact>(s0, cp.contacts@, 0x2a);
    let s2 = then_written::<DigitalChannel>(s1, cp.digi_chans@, 0x26);
    let s3 = then_written::<AnalogChannel>(s2, cp.ana_chans@, 0x27);
    let s4 = then_written::<Zone>(s3, cp.zones.data@, 0x24);
    let s5 = then_written::<ZoneList>(s4, cp.zones.channels@, 0x23);
    let s6 = then_written::<Scan>(s5, cp.scan_list.data@, 0x6d);
    let s7 = then_written::<ScanList>(s6, cp.scan_list.channels@, 0x4d);
    let s8 = then_written::<Roam>(s7, cp.roam_list.data@, 0x7a);
    let s9 = then_written::<RoamList>(s8, cp.roam_list.channels@, 0x79);
    assert(cp.written(image) == s9);
    lemma_written_block::<Contact>(cp.contacts@, 0x2a, s0.0);
    lemma_written_block::<DigitalChannel>(cp.digi_chans@, 0x26, s1.0);
    lemma_written_block::<AnalogChannel>(cp.ana_chans@, 0x27, s2.0);
    lemma_written_block::<Zone>(cp.zones.data@, 0x24, s3.0);
    lemma_written_block::<ZoneList>(cp.zones.channels@, 0x23, s4.0);
    lemma_written_block::<Scan>(cp.scan_list.data@, 0x6d, s5.0);
    lemma_written_block::<ScanList>(cp.scan_list.channels@, 0x4d, s6.0);
    lemma_written_block::<Roam>(cp.roam_list.data@, 0x7a, s7.0);
    lemma_written_block::<RoamList>(cp.roam_list.channels@, 0x79, s8.0);
}

/// From a directory that has the sections that the collections of a codeplug
/// are written as, every collection is fetched as it was written.
pub proof fn lemma_all_fetched(cp: &Codeplug, dir: Map<u16, SectionView>)
    requires
        all_blocks(cp),
        all_recoverable(cp),
        has_all_written(cp, dir),
    ensures
        all_fetched(cp, dir),
{
    lemma_fetch_as_written::<Contact>(cp.contacts@, 0x2a, dir);
    lemma_fetch_as_written::<DigitalChannel>(cp.digi_chans@, 0x26, dir);
    lemma_fetch_as_written::<AnalogChannel>(cp.ana_chans@, 0x27, dir);
    lemma_fetch_as_written::<Zone>(cp.zones.data@, 0x24, dir);
    lemma_fetch_as_written::<ZoneList>(cp.zones.channels@, 0x23, dir);
    lemma_fetch_as_written::<Scan>(cp.scan_list.data@, 0x6d, dir);
    lemma_fetch_as_written::<ScanList>(cp.scan_list.channels@, 0x4d, dir);
    lemma_fetch_as_written::<Roam>(cp.roam_list.data@, 0x7a, dir);
    lemma_fetch_as_written::<RoamList>(cp.roam_list.channels@, 0x79, dir);
}

/// Reading an image whose directory gives every collection of a codeplug as
/// it was written, and which has the radio model of the codeplug, gives the
/// codeplug as it was written.
pub proof fn lemma_read_fetched(cp: &Codeplug, image: Seq<u8>, dir: Map<u16, SectionView>)
    requires
        directory(image) == Ok::<Map<u16, SectionView>, (usize, CodecError)>(dir),
        model_text(image) == Ok::<Seq<char>, CodeplugError>(cp.model@),
        all_fetched(cp, dir),
    ensures
        read_spec(image) == Ok::<CodeplugView, CodeplugError>(reread(cp)),
{
}

/// Writing a codeplug into an image keeps the radio model of the image,
/// where the image keeps its length and what it holds before the first
/// section.
pub proof fn lemma_model_kept(image: Seq<u8>, after: Seq<u8>)
    requires
        after.len() == image.len(),
        image.len() >= 0x392,
        after.subrange(0, 0x392) == image.subrange(0, 0x392),
    ensures
        model_text(after) == model_text(image),
{
    assert(model_bytes(after) =~= model_bytes(image)) by {
        assert forall|i: int| 0 <= i < 0x392 implies after[i] == image[i] by {
            assert(after.subrange(0, 0x392)[i] == after[i]);
            assert(image.subrange(0, 0x392)[i] == image[i]);
        }
    }
}

/// What is written is read again. Take an image that has a directory and
/// the radio model of a codeplug, and a codeplug whose collections lie where
/// the directory has the sections of their types and can come back from what
/// they are written as. Where the codeplug is written into the image without
/// a failure, reading the image gives the codeplug: the same records in every
/// collection, in the sections that they were written as.
pub proof fn lemma_codeplug_rereads(cp: &Codeplug, image: Seq<u8>, dir: Map<u16, SectionView>)
    requires
        directory(image) == Ok::<Map<u16, SectionView>, (usize, CodecError)>(dir),
        model_text(image) == Ok::<Seq<char>, CodeplugError>(cp.model@),
        all_placed(cp, dir),
        all_recoverable(cp),
        cp.written(image).1 is Ok,
    ensures
        read_spec(cp.written(image).0) == Ok::<CodeplugView, CodeplugError>(reread(cp)),
{
    let after = cp.written(image).0;
    let fresh = rewritten_directory(cp, dir);
    lemma_directory_after_write(cp, image, dir);
    lemma_rewritten_directory(cp, dir);
    lemma_written_blocks(cp, image);
    lemma_all_fetched(cp, fresh);
    lemma_model_kept(image, after);
    lemma_read_fetched(cp, after, fresh);
}

} // verus!
