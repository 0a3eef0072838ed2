//! What is written reads back. The bytes of a collection decode to a
//! section, and the records fetched from that section are the records of
//! the collection. The laws ask of each record that it comes back from a
//! slot of its section, which the lemmas at the end show of valid records
//! and slots that are long enough.

use crate::aggregate::Codeplug;
use crate::analog_channel::{analog_tail, lemma_analog_channel_roundtrip, AnalogChannel, AnalogChannelView};
use crate::bytes::zeros;
use crate::channel_common::lemma_common_prefix;
use crate::channel_pointer::digi_chan_pointer::DigiChannelPointer;
use crate::channel_pointer::pointer::ChannelPointer;
use crate::channel_pointer::raw_pointer::RawPointer;
use crate::channel_pointer::section::{
    lemma_mappings_bytes_total, lemma_packed_reads_back, lemma_table_entry, mappings_bytes,
    ChannelPointerSectionView,
};
use crate::collection::{
    fitted, fresh_mappings, records_bytes, section_block, section_image, section_written, CollectionView,
};
use crate::contact::{lemma_contact_roundtrip, Contact, ContactView};
use crate::cp_data::{fetch_all, fetch_elm_spec, lemma_name_text_prefix, CPData, RawCPData};
use crate::digital_channel::{digital_tail, lemma_digital_channel_roundtrip, DigitalChannel, DigitalChannelView};
use crate::error::{CodecError, CodeplugError};
use crate::roam::list::RoamList;
use crate::roam::{lemma_roam_roundtrip, Roam, RoamView};
use crate::scan::{lemma_scan_roundtrip, Scan, ScanView};
use crate::scan_list::ScanList;
use crate::section::{
    lemma_section_header_layout, lemma_section_header_roundtrip, patched, SectionHeader, SectionMappings,
    SectionView,
};
use crate::zone::{lemma_zone_roundtrip, Zone, ZoneView};
use crate::zone_list::ZoneList;
use vstd::prelude::*;

verus! {

/// Whether a record comes back from a slot of `sz` bytes: it can be encoded,
/// and its bytes, cut or filled to the length of the slot, decode to it.
pub open spec fn reads_back<T: RawCPData>(v: T::V, sz: int) -> bool {
    match T::spec_store(v) {
        Ok(b) => T::spec_load(fitted(b, sz)) == Ok::<T::V, CodecError>(v),
        Err(_) => false,
    }
}

/// The records of a collection take one slot each.
pub proof fn lemma_records_len<T: CPData>(data: Seq<T::V>, sz: int, section: u16)
    requires
        sz >= 0,
        records_bytes::<T>(data, sz, section) is Ok,
    ensures
        records_bytes::<T>(data, sz, section)->Ok_0.len() == data.len() * sz,
    decreases data.len(),
{
    if data.len() > 0 {
        let front = data.drop_last();
        lemma_records_len::<T>(front, sz, section);
        let n = data.len() as int;
        assert((n - 1) * sz + sz == n * sz) by (nonlinear_arith);
    }
}

/// Where the records of a collection lie in their bytes: each record can be
/// encoded, and slot `i` holds the bytes of record `i`, cut or filled to the
/// length of the slot.
pub proof fn lemma_records_slot<T: CPData>(data: Seq<T::V>, sz: int, section: u16, i: int)
    requires
        sz >= 0,
        records_bytes::<T>(data, sz, section) is Ok,
        0 <= i < data.len(),
    ensures
        T::spec_store(data[i]) is Ok,
        0 <= i * sz,
        i * sz + sz <= records_bytes::<T>(data, sz, section)->Ok_0.len(),
        records_bytes::<T>(data, sz, section)->Ok_0.subrange(i * sz, i * sz + sz) == fitted(
            T::spec_store(data[i])->Ok_0,
            sz,
        ),
    decreases data.len(),
{
    let n = data.len() as int;
    let front = data.drop_last();
    let all = records_bytes::<T>(data, sz, section)->Ok_0;
    let head = records_bytes::<T>(front, sz, section)->Ok_0;
    let slot = fitted(T::spec_store(data.last())->Ok_0, sz);
    lemma_records_len::<T>(front, sz, section);
    lemma_records_len::<T>(data, sz, section);
    assert(all == head + slot);
    assert(0 <= i * sz && i * sz + sz <= n * sz) by (nonlinear_arith)
        requires
            0 <= i < n,
            sz >= 0,
    ;
    if i < n - 1 {
        lemma_records_slot::<T>(front, sz, section, i);
        assert(front[i] == data[i]);
        assert(all.subrange(i * sz, i * sz + sz) =~= head.subrange(i * sz, i * sz + sz));
    } else {
        assert(all.subrange(i * sz, i * sz + sz) =~= slot);
    }
}

/// The section that the bytes of a collection decode to at offset `at`: the
/// header of the collection, the records in their slots with zeros behind
/// them, and the table made anew.
pub open spec fn written_section<T: CPData>(v: CollectionView<T::V>, section: u16, at: int) -> SectionView {
    let sz = v.sec.element_sz();
    let records = records_bytes::<T>(v.data, sz, section)->Ok_0;
    SectionView {
        header: v.sec.header,
        data: records + zeros((v.sec.header.byte_size - records.len()) as nat),
        mappings: fresh_mappings(v.sec.header.capacity as nat, sz),
        addr: at as u64,
    }
}

/// The length of the bytes of a collection, and where their parts lie.
pub proof fn lemma_block_parts<T: CPData>(v: CollectionView<T::V>, section: u16)
    requires
        section_block::<T>(v, section) is Ok,
    ensures
        v.sec.has_stride(),
        v.sec.element_sz() >= 1,
        v.sec.header.byte_size == v.sec.header.capacity * v.sec.element_sz(),
        v.data.len() < v.sec.header.capacity,
        section_block::<T>(v, section)->Ok_0.len() == v.sec.image_len(),
        section_block::<T>(v, section)->Ok_0.subrange(0, 22) == v.sec.header.bytes(),
        section_block::<T>(v, section)->Ok_0.subrange(22, 22 + v.sec.header.byte_size) == written_section::<
            T,
        >(v, section, 0).data,
        section_block::<T>(v, section)->Ok_0.subrange(
            22 + v.sec.header.byte_size,
            v.sec.image_len(),
        ) == mappings_bytes(fresh_mappings(v.sec.header.capacity as nat, v.sec.element_sz())),
{
    let h = v.sec.header;
    let sz = v.sec.element_sz();
    let cap = h.capacity as int;
    let size = h.byte_size as int;
    let n = v.data.len() as int;
    let records = records_bytes::<T>(v.data, sz, section)->Ok_0;
    let block = section_block::<T>(v, section)->Ok_0;
    let fill = zeros((size - records.len()) as nat);
    let table = mappings_bytes(fresh_mappings(cap as nat, sz));
    assert(size == cap * sz && sz >= 0) by (nonlinear_arith)
        requires
            cap > 0,
            size >= 0,
            size % cap == 0,
            sz == size / cap,
    ;
    lemma_records_len::<T>(v.data, sz, section);
    assert(sz >= 1 && n < cap) by (nonlinear_arith)
        requires
            n * sz < cap * sz,
            sz >= 0,
            n >= 0,
            cap > 0,
    ;
    lemma_mappings_bytes_total(fresh_mappings(cap as nat, sz));
    assert(h.bytes().len() == 22) by {
        lemma_section_header_layout(h);
    }
    assert(block == h.bytes() + records + fill + table);
    assert(block.subrange(0, 22) =~= h.bytes());
    assert(block.subrange(22, 22 + size) =~= records + fill);
    assert(block.subrange(22 + size, v.sec.image_len()) =~= table);
}

/// The header at the start of a chunk depends on the first twenty-two bytes
/// alone.
pub proof fn lemma_section_header_prefix(b: Seq<u8>, c: Seq<u8>)
    requires
        b.len() >= 22,
        c.len() >= 22,
        b.subrange(0, 22) == c.subrange(0, 22),
    ensures
        SectionHeader::decode(b) == SectionHeader::decode(c),
{
    assert forall|i: int| 0 <= i < 22 implies b[i] == c[i] by {
        assert(b.subrange(0, 22)[i] == b[i]);
        assert(c.subrange(0, 22)[i] == c[i]);
    }
}

/// A section reads back from its bytes: where an image holds the bytes of a
/// valid header, behind them a record region of the length that the header
/// gives, and behind that the bytes of a table with an entry for each slot,
/// the section at that place decodes to the header, the region and the
/// table.
pub proof fn lemma_section_roundtrip(
    h: SectionHeader,
    data: Seq<u8>,
    table: Seq<SectionMappings>,
    image: Seq<u8>,
    at: int,
)
    requires
        h.valid(),
        data.len() == h.byte_size,
        table.len() == h.capacity,
        0 <= at,
        at + 22 + h.byte_size + 6 * h.capacity <= image.len(),
        image.subrange(at, at + 22) == h.bytes(),
        image.subrange(at + 22, at + 22 + h.byte_size) == data,
        image.subrange(at + 22 + h.byte_size, at + 22 + h.byte_size + 6 * h.capacity) == mappings_bytes(
            table,
        ),
    ensures
        SectionView::decode(image, at) == Ok::<SectionView, CodecError>(
            SectionView { header: h, data, mappings: table, addr: at as u64 },
        ),
{
    let cap = h.capacity as int;
    let size = h.byte_size as int;
    let rest = image.subrange(at, image.len() as int);
    lemma_section_header_roundtrip(h);
    assert(rest.subrange(0, 22) =~= image.subrange(at, at + 22));
    assert(h.bytes().subrange(0, 22) =~= h.bytes());
    lemma_section_header_prefix(rest, h.bytes());
    assert(SectionHeader::decode(rest) == Ok::<SectionHeader, CodecError>(h));
    assert(rest.subrange(22, 22 + size) =~= image.subrange(at + 22, at + 22 + size));
    assert(rest.subrange(22 + size, 22 + size + 6 * cap) =~= image.subrange(
        at + 22 + size,
        at + 22 + size + 6 * cap,
    ));
    let read = Seq::new(cap as nat, |i: int| SectionMappings::at(rest, 22 + size + 6 * i));
    assert forall|i: int| 0 <= i < cap implies read[i] == table[i] by {
        lemma_table_entry(table, rest, 22 + size, i);
    }
    assert(read =~= table);
    assert(SectionView::decode(image, at) == Ok::<SectionView, CodecError>(
        SectionView { header: h, data: rest.subrange(22, 22 + size), mappings: read, addr: at as u64 },
    )) by {
        reveal(SectionView::decode);
    }
}

/// The bytes of a collection decode to its section where they stand in an
/// image.
pub proof fn lemma_block_decodes<T: CPData>(v: CollectionView<T::V>, section: u16, image: Seq<u8>, at: int)
    requires
        section_block::<T>(v, section) is Ok,
        v.sec.header.valid(),
        0 <= at,
        at + v.sec.image_len() <= image.len(),
        image.subrange(at, at + v.sec.image_len()) == section_block::<T>(v, section)->Ok_0,
    ensures
        SectionView::decode(image, at) == Ok::<SectionView, CodecError>(written_section::<T>(v, section, at)),
{
    let h = v.sec.header;
    let size = h.byte_size as int;
    let len = v.sec.image_len();
    let block = image.subrange(at, at + len);
    let want = written_section::<T>(v, section, at);
    lemma_block_parts::<T>(v, section);
    assert(want.data == written_section::<T>(v, section, 0).data);
    assert(image.subrange(at, at + 22) =~= block.subrange(0, 22));
    assert(image.subrange(at + 22, at + 22 + size) =~= block.subrange(22, 22 + size));
    assert(image.subrange(at + 22 + size, at + len) =~= block.subrange(22 + size, len));
    lemma_section_roundtrip(h, want.data, want.mappings, image, at);
}

/// The records fetched from the section that a collection is written as
/// are the records of the collection, where each of them comes back from its
/// slot.
pub proof fn lemma_written_fetches<T: CPData>(v: CollectionView<T::V>, section: u16, at: int, k: int)
    requires
        section_block::<T>(v, section) is Ok,
        0 <= k <= v.data.len(),
        forall|i: int| 0 <= i < v.data.len() ==> reads_back::<T>(#[trigger] v.data[i], v.sec.element_sz()),
    ensures
        fetch_all::<T>(written_section::<T>(v, section, at), section, k as nat) == Ok::<
            Seq<T::V>,
            CodeplugError,
        >(v.data.subrange(0, k)),
    decreases k,
{
    let s = written_section::<T>(v, section, at);
    if k == 0 {
        assert(v.data.subrange(0, 0) =~= Seq::<T::V>::empty());
    } else {
        let i = k - 1;
        let sz = v.sec.element_sz();
        let records = records_bytes::<T>(v.data, sz, section)->Ok_0;
        lemma_written_fetches::<T>(v, section, at, i);
        lemma_block_parts::<T>(v, section);
        lemma_records_slot::<T>(v.data, sz, section, i);
        assert(0 <= i * sz < v.sec.header.capacity * sz) by (nonlinear_arith)
            requires
                0 <= i < v.sec.header.capacity,
                sz >= 1,
        ;
        assert(s.mappings[i].offset == i * sz);
        assert(s.data.subrange(i * sz, i * sz + sz) =~= records.subrange(i * sz, i * sz + sz));
        assert(s.data_chunk(i as u16) == Ok::<Seq<u8>, CodeplugError>(
            fitted(T::spec_store(v.data[i])->Ok_0, sz),
        ));
        assert(reads_back::<T>(v.data[i], sz));
        assert(fetch_elm_spec::<T>(s, section, i as u16) == Ok::<T::V, CodeplugError>(v.data[i]));
        assert(v.data.subrange(0, i).push(v.data[i]) =~= v.data.subrange(0, k));
    }
}

/// What a collection is written as reads back. Where an image holds the
/// bytes of a collection at some offset, the header of the collection is
/// valid and counts its records, and each record comes back from its slot:
/// the section at that offset decodes, and the records fetched from it are
/// the records of the collection.
pub proof fn lemma_collection_reads_back<T: CPData>(
    v: CollectionView<T::V>,
    section: u16,
    image: Seq<u8>,
    at: int,
)
    requires
        section_block::<T>(v, section) is Ok,
        v.sec.header.valid(),
        v.data.len() == v.sec.header.elements_in_use,
        forall|i: int| 0 <= i < v.data.len() ==> reads_back::<T>(#[trigger] v.data[i], v.sec.element_sz()),
        0 <= at,
        at + v.sec.image_len() <= image.len(),
        image.subrange(at, at + v.sec.image_len()) == section_block::<T>(v, section)->Ok_0,
    ensures
        SectionView::decode(image, at) == Ok::<SectionView, CodecError>(written_section::<T>(v, section, at)),
        fetch_all::<T>(
            written_section::<T>(v, section, at),
            section,
            v.sec.header.elements_in_use as nat,
        ) == Ok::<Seq<T::V>, CodeplugError>(v.data),
{
    lemma_block_decodes::<T>(v, section, image, at);
    lemma_written_fetches::<T>(v, section, at, v.data.len() as int);
    assert(v.data.subrange(0, v.data.len() as int) =~= v.data);
}

/// Whether a collection can come back from what it is written as: its
/// header is valid and counts its records, and each record comes back from
/// a slot of the section.
pub open spec fn recoverable<T: CPData>(v: CollectionView<T::V>) -> bool {
    &&& v.sec.header.valid()
    &&& v.data.len() == v.sec.header.elements_in_use
    &&& forall|i: int| 0 <= i < v.data.len() ==> reads_back::<T>(#[trigger] v.data[i], v.sec.element_sz())
}

/// Whether an image holds a collection: the section at the address of the
/// collection decodes to what the collection is written as, and the records
/// fetched from that section are the records of the collection.
pub open spec fn holds<T: CPData>(image: Seq<u8>, v: CollectionView<T::V>, section: u16) -> bool {
    &&& SectionView::decode(image, v.sec.addr as int) == Ok::<SectionView, CodecError>(
        written_section::<T>(v, section, v.sec.addr as int),
    )
    &&& fetch_all::<T>(
        written_section::<T>(v, section, v.sec.addr as int),
        section,
        v.sec.header.elements_in_use as nat,
    ) == Ok::<Seq<T::V>, CodeplugError>(v.data)
}

/// Writing a collection into an image and reading the section at its
/// address gives the collection back: the section decodes, and the records
/// fetched from it are those that were written.
pub proof fn lemma_write_reads_back<T: CPData>(v: CollectionView<T::V>, section: u16, image: Seq<u8>)
    requires
        section_written::<T>(v, section, image).1 is Ok,
        recoverable::<T>(v),
    ensures
        holds::<T>(section_written::<T>(v, section, image).0, v, section),
        v.sec.addr <= section_written::<T>(v, section, image).0.len(),
{
    reveal(section_written);
    let at = v.sec.addr as int;
    let block = section_block::<T>(v, section)->Ok_0;
    let after = patched(image, at, block);
    lemma_block_parts::<T>(v, section);
    assert(section_image::<T>(v, section) is Ok);
    assert(after.subrange(at, at + v.sec.image_len()) =~= block);
    lemma_collection_reads_back::<T>(v, section, after, at);
}

/// A section that decodes lies within the image.
pub proof fn lemma_section_within(image: Seq<u8>, at: int)
    requires
        0 <= at <= image.len(),
        SectionView::decode(image, at) is Ok,
    ensures
        at + SectionView::decode(image, at)->Ok_0.image_len() <= image.len(),
{
    reveal(SectionView::decode);
}

/// A section depends on its own bytes alone: where two images agree on the
/// bytes of a section that decodes in the first, it decodes to the same in
/// the second.
pub proof fn lemma_section_local(first: Seq<u8>, second: Seq<u8>, at: int, s: SectionView)
    requires
        0 <= at,
        at + s.image_len() <= first.len(),
        at + s.image_len() <= second.len(),
        SectionView::decode(first, at) == Ok::<SectionView, CodecError>(s),
        first.subrange(at, at + s.image_len()) == second.subrange(at, at + s.image_len()),
    ensures
        SectionView::decode(second, at) == Ok::<SectionView, CodecError>(s),
{
    reveal(SectionView::decode);
    let len = s.image_len();
    let a = first.subrange(at, first.len() as int);
    let b = second.subrange(at, second.len() as int);
    assert(s.header == SectionHeader::decode(a)->Ok_0);
    assert forall|i: int| 0 <= i < len implies a[i] == b[i] by {
        assert(first.subrange(at, at + len)[i] == first[at + i]);
        assert(second.subrange(at, at + len)[i] == second[at + i]);
    }
    assert(a.subrange(0, 22) =~= b.subrange(0, 22));
    lemma_section_header_prefix(a, b);
    let size = s.header.byte_size as int;
    assert(a.subrange(22, 22 + size) =~= b.subrange(22, 22 + size));
    let cap = s.header.capacity as nat;
    let from_a = Seq::new(cap, |i: int| SectionMappings::at(a, 22 + size + 6 * i));
    let from_b = Seq::new(cap, |i: int| SectionMappings::at(b, 22 + size + 6 * i));
    assert forall|i: int| 0 <= i < cap implies from_a[i] == from_b[i] by {
        let p = 22 + size + 6 * i;
        assert(a[p] == b[p] && a[p + 1] == b[p + 1] && a[p + 2] == b[p + 2]);
        assert(a[p + 3] == b[p + 3] && a[p + 4] == b[p + 4] && a[p + 5] == b[p + 5]);
    }
    assert(from_a =~= from_b);
}

/// Whether every collection of a codeplug can come back from what it is
/// written as.
pub open spec fn all_recoverable(cp: &Codeplug) -> bool {
    &&& recoverable::<Contact>(cp.contacts@)
    &&& recoverable::<DigitalChannel>(cp.digi_chans@)
    &&& recoverable::<AnalogChannel>(cp.ana_chans@)
    &&& recoverable::<Zone>(cp.zones.data@)
    &&& recoverable::<ZoneList>(cp.zones.channels@)
    &&& recoverable::<Scan>(cp.scan_list.data@)
    &&& recoverable::<ScanList>(cp.scan_list.channels@)
    &&& recoverable::<Roam>(cp.roam_list.data@)
    &&& recoverable::<RoamList>(cp.roam_list.channels@)
}

/// The bytes of a record in its slot start with the bytes of the record, as
/// far as the slot reaches.
pub proof fn lemma_fitted_prefix(b: Seq<u8>, sz: int, n: int)
    requires
        0 <= n <= b.len(),
        n <= sz,
    ensures
        fitted(b, sz).len() == sz,
        fitted(b, sz).subrange(0, n) == b.subrange(0, n),
{
    assert(fitted(b, sz).subrange(0, n) =~= b.subrange(0, n));
}

/// A valid contact comes back from a slot of forty-eight bytes or more.
pub proof fn lemma_contact_reads_back(v: ContactView, sz: int)
    requires
        v.valid(),
        sz >= 48,
    ensures
        reads_back::<Contact>(v, sz),
{
    let b = v.bytes();
    let f = fitted(b, sz);
    lemma_contact_roundtrip(v);
    lemma_fitted_prefix(b, sz, 48);
    assert forall|i: int| 0 <= i < 48 implies f[i] == b[i] by {
        assert(f.subrange(0, 48)[i] == b.subrange(0, 48)[i]);
    }
    assert(f.subrange(4, 36) =~= b.subrange(4, 36));
    assert(ContactView::decode(f) == ContactView::decode(b));
}

/// A valid zone comes back from a slot of forty bytes or more.
pub proof fn lemma_zone_reads_back(v: ZoneView, sz: int)
    requires
        v.valid(),
        sz >= 40,
    ensures
        reads_back::<Zone>(v, sz),
{
    let b = v.bytes();
    let f = fitted(b, sz);
    lemma_zone_roundtrip(v);
    lemma_fitted_prefix(b, sz, 40);
    assert forall|i: int| 0 <= i < 40 implies f[i] == b[i] by {
        assert(f.subrange(0, 40)[i] == b.subrange(0, 40)[i]);
    }
    assert(f.subrange(0, 32) =~= b.subrange(0, 32));
    lemma_name_text_prefix(f, b);
    assert(f.subrange(34, 40) =~= b.subrange(34, 40));
    assert(ZoneView::decode(f) == ZoneView::decode(b));
}

/// Valid scan settings come back from a slot of thirty-eight bytes or more:
/// the bytes that are written behind the thirty-eighth are not read.
pub proof fn lemma_scan_reads_back(v: ScanView, sz: int)
    requires
        v.valid(),
        sz >= 38,
    ensures
        reads_back::<Scan>(v, sz),
{
    let b = v.bytes();
    let f = fitted(b, sz);
    lemma_scan_roundtrip(v);
    lemma_fitted_prefix(b, sz, 38);
    assert forall|i: int| 0 <= i < 38 implies f[i] == b[i] by {
        assert(f.subrange(0, 38)[i] == b.subrange(0, 38)[i]);
    }
    assert(f.subrange(0, 32) =~= b.subrange(0, 32));
    lemma_name_text_prefix(f, b);
    assert(ScanView::decode(f) == ScanView::decode(b));
}

/// Valid roam settings come back from a slot of forty bytes or more.
pub proof fn lemma_roam_reads_back(v: RoamView, sz: int)
    requires
        v.valid(),
        sz >= 40,
    ensures
        reads_back::<Roam>(v, sz),
{
    let b = v.bytes();
    let f = fitted(b, sz);
    lemma_roam_roundtrip(v);
    lemma_fitted_prefix(b, sz, 40);
    assert forall|i: int| 0 <= i < 40 implies f[i] == b[i] by {
        assert(f.subrange(0, 40)[i] == b.subrange(0, 40)[i]);
    }
    assert(f.subrange(0, 32) =~= b.subrange(0, 32));
    lemma_name_text_prefix(f, b);
    assert(RoamView::decode(f) == RoamView::decode(b));
}

/// A valid analog channel comes back from a slot of sixty-eight bytes or
/// more.
pub proof fn lemma_analog_reads_back(v: AnalogChannelView, sz: int)
    requires
        v.valid(),
        sz >= 68,
    ensures
        reads_back::<AnalogChannel>(v, sz),
{
    let b = v.bytes();
    let f = fitted(b, sz);
    lemma_analog_channel_roundtrip(v);
    lemma_fitted_prefix(b, sz, 68);
    assert forall|i: int| 0 <= i < 68 implies f[i] == b[i] by {
        assert(f.subrange(0, 68)[i] == b.subrange(0, 68)[i]);
    }
    assert(f.subrange(0, 44) =~= b.subrange(0, 44));
    lemma_common_prefix(f, b);
    assert(analog_tail(f, v.common) == analog_tail(b, v.common));
}

/// A valid digital channel comes back from a slot of seventy-four bytes or
/// more.
pub proof fn lemma_digital_reads_back(v: DigitalChannelView, sz: int)
    requires
        v.valid(),
        sz >= 74,
    ensures
        reads_back::<DigitalChannel>(v, sz),
{
    let b = v.bytes();
    let f = fitted(b, sz);
    lemma_digital_channel_roundtrip(v);
    lemma_fitted_prefix(b, sz, 74);
    assert forall|i: int| 0 <= i < 74 implies f[i] == b[i] by {
        assert(f.subrange(0, 74)[i] == b.subrange(0, 74)[i]);
    }
    assert(f.subrange(0, 44) =~= b.subrange(0, 44));
    lemma_common_prefix(f, b);
    assert(digital_tail(f, v.common) == digital_tail(b, v.common));
}

/// A zone list of valid pointers, not empty and not longer than its region
/// has room for, comes back from a slot that holds all its bytes.
pub proof fn lemma_zone_list_reads_back(v: Seq<ChannelPointer>, sz: int)
    requires
        0 < v.len() <= 512,
        forall|j: int| 0 <= j < v.len() ==> (#[trigger] v[j]).valid(),
        sz >= 14 + 0x800 + 6 * v.len(),
    ensures
        reads_back::<ZoneList>(v, sz),
{
    let cut = 0x800u32 as u16;
    assert(cut == 0x800) by (bit_vector)
        requires
            cut == 0x800u32 as u16,
    ;
    assert forall|j: int| 0 <= j < v.len() implies <ChannelPointer as RawPointer>::spec_valid(
        #[trigger] v[j],
    ) by {
        assert(v[j].valid());
    }
    let b = ChannelPointerSectionView::from_channels::<ChannelPointer>(v, 0x800)->Ok_0.bytes();
    let fill = zeros((sz - (14 + 0x800 + 6 * v.len())) as nat);
    lemma_packed_reads_back::<ChannelPointer>(v, 0x800, fill);
    assert(fitted(b, sz) =~= b + fill);
}

/// A scan list of valid pointers, not longer than its region has room for,
/// comes back from a slot that holds all its bytes.
pub proof fn lemma_scan_list_reads_back(v: Seq<ChannelPointer>, sz: int)
    requires
        v.len() <= 32,
        forall|j: int| 0 <= j < v.len() ==> (#[trigger] v[j]).valid(),
        sz >= 14 + 0x80 + 6 * v.len(),
    ensures
        reads_back::<ScanList>(v, sz),
{
    let cut = 0x80u32 as u16;
    assert(cut == 0x80) by (bit_vector)
        requires
            cut == 0x80u32 as u16,
    ;
    assert forall|j: int| 0 <= j < v.len() implies <ChannelPointer as RawPointer>::spec_valid(
        #[trigger] v[j],
    ) by {
        assert(v[j].valid());
    }
    let b = ChannelPointerSectionView::from_channels::<ChannelPointer>(v, 0x80)->Ok_0.bytes();
    let fill = zeros((sz - (14 + 0x80 + 6 * v.len())) as nat);
    lemma_packed_reads_back::<ChannelPointer>(v, 0x80, fill);
    assert(fitted(b, sz) =~= b + fill);
}

/// A roam list of valid pointers, not longer than its region has room for,
/// comes back from a slot that holds all its bytes.
pub proof fn lemma_roam_list_reads_back(v: Seq<DigiChannelPointer>, sz: int)
    requires
        v.len() <= 32,
        forall|j: int| 0 <= j < v.len() ==> (#[trigger] v[j]).valid(),
        sz >= 14 + 0x40 + 6 * v.len(),
    ensures
        reads_back::<RoamList>(v, sz),
{
    let cut = 0x40u32 as u16;
    assert(cut == 0x40) by (bit_vector)
        requires
            cut == 0x40u32 as u16,
    ;
    assert forall|j: int| 0 <= j < v.len() implies <DigiChannelPointer as RawPointer>::spec_valid(
        #[trigger] v[j],
    ) by {
        assert(v[j].valid());
    }
    let b = ChannelPointerSectionView::from_channels::<DigiChannelPointer>(v, 0x40)->Ok_0.bytes();
    let fill = zeros((sz - (14 + 0x40 + 6 * v.len())) as nat);
    lemma_packed_reads_back::<DigiChannelPointer>(v, 0x40, fill);
    assert(fitted(b, sz) =~= b + fill);
}

/// Whether the header of a collection is valid and counts its records.
pub open spec fn counted_by_header<V>(v: CollectionView<V>) -> bool {
    v.sec.header.valid() && v.data.len() == v.sec.header.elements_in_use
}

/// Whether a list of pointers fits its region and its slot: it is not
/// longer than the region of `region` bytes has room for, which is `room`
/// pointers, and the slot of `sz` bytes holds the header, the region and the
/// table of the list.
pub open spec fn list_fits<P>(list: Seq<P>, region: int, room: int, sz: int) -> bool {
    list.len() <= room && sz >= 14 + region + 6 * list.len()
}

/// Whether every record of a codeplug is one that decoding gives back after
/// encoding, in a section whose header is valid and counts its records and
/// whose slots are long enough for the record.
pub open spec fn all_fit(cp: &Codeplug) -> bool {
    &&& counted_by_header(cp.contacts@)
    &&& cp.contacts@.sec.element_sz() >= 48
    &&& forall|i: int| 0 <= i < cp.contacts@.data.len() ==> (#[trigger] cp.contacts@.data[i]).valid()
    &&& counted_by_header(cp.digi_chans@)
    &&& cp.digi_chans@.sec.element_sz() >= 74
    &&& forall|i: int| 0 <= i < cp.digi_chans@.data.len() ==> (#[trigger] cp.digi_chans@.data[i]).valid()
    &&& counted_by_header(cp.ana_chans@)
    &&& cp.ana_chans@.sec.element_sz() >= 68
    &&& forall|i: int| 0 <= i < cp.ana_chans@.data.len() ==> (#[trigger] cp.ana_chans@.data[i]).valid()
    &&& counted_by_header(cp.zones.data@)
    &&& cp.zones.data@.sec.element_sz() >= 40
    &&& forall|i: int| 0 <= i < cp.zones.data@.data.len() ==> (#[trigger] cp.zones.data@.data[i]).valid()
    &&& counted_by_header(cp.scan_list.data@)
    &&& cp.scan_list.data@.sec.element_sz() >= 38
    &&& forall|i: int| 0 <= i < cp.scan_list.data@.data.len() ==> (#[trigger] cp.scan_list.data@.data[i]).valid()
    &&& counted_by_header(cp.roam_list.data@)
    &&& cp.roam_list.data@.sec.element_sz() >= 40
    &&& forall|i: int| 0 <= i < cp.roam_list.data@.data.len() ==> (#[trigger] cp.roam_list.data@.data[i]).valid()
    &&& counted_by_header(cp.zones.channels@)
    &&& forall|i: int|
        0 <= i < cp.zones.channels@.data.len() ==> list_fits(#[trigger] cp.zones.channels@.data[i], 0x800, 512, cp.zones.channels@.sec.element_sz())
    &&& forall|i: int| 0 <= i < cp.zones.channels@.data.len() ==> (#[trigger] cp.zones.channels@.data[i]).len() > 0
    &&& forall|i: int, j: int|
        0 <= i < cp.zones.channels@.data.len() && 0 <= j < cp.zones.channels@.data[i].len() ==> (#[trigger] cp.zones.channels@.data[i][j]).valid()
    &&& counted_by_header(cp.scan_list.channels@)
    &&& forall|i: int|
        0 <= i < cp.scan_list.channels@.data.len() ==> list_fits(#[trigger] cp.scan_list.channels@.data[i], 0x80, 32, cp.scan_list.channels@.sec.element_sz())
    &&& forall|i: int, j: int|
        0 <= i < cp.scan_list.channels@.data.len() && 0 <= j < cp.scan_list.channels@.data[i].len() ==> (#[trigger] cp.scan_list.channels@.data[i][j]).valid()
    &&& counted_by_header(cp.roam_list.channels@)
    &&& forall|i: int|
        0 <= i < cp.roam_list.channels@.data.len() ==> list_fits(#[trigger] cp.roam_list.channels@.data[i], 0x40, 32, cp.roam_list.channels@.sec.element_sz())
    &&& forall|i: int, j: int|
        0 <= i < cp.roam_list.channels@.data.len() && 0 <= j < cp.roam_list.channels@.data[i].len() ==> (#[trigger] cp.roam_list.channels@.data[i][j]).valid()
}

/// A codeplug of valid records in slots that are long enough can come back
/// from what it is written as.
pub proof fn lemma_fit_is_recoverable(cp: &Codeplug)
    requires
        all_fit(cp),
    ensures
        all_recoverable(cp),
{
    assert forall|i: int| 0 <= i < cp.contacts@.data.len() implies reads_back::<Contact>(
        #[trigger] cp.contacts@.data[i],
        cp.contacts@.sec.element_sz(),
    ) by {
        lemma_contact_reads_back(cp.contacts@.data[i], cp.contacts@.sec.element_sz());
    }
    assert forall|i: int| 0 <= i < cp.digi_chans@.data.len() implies reads_back::<DigitalChannel>(
        #[trigger] cp.digi_chans@.data[i],
        cp.digi_chans@.sec.element_sz(),
    ) by {
        lemma_digital_reads_back(cp.digi_chans@.data[i], cp.digi_chans@.sec.element_sz());
    }
    assert forall|i: int| 0 <= i < cp.ana_chans@.data.len() implies reads_back::<AnalogChannel>(
        #[trigger] cp.ana_chans@.data[i],
        cp.ana_chans@.sec.element_sz(),
    ) by {
        lemma_analog_reads_back(cp.ana_chans@.data[i], cp.ana_chans@.sec.element_sz());
    }
    assert forall|i: int| 0 <= i < cp.zones.data@.data.len() implies reads_back::<Zone>(
        #[trigger] cp.zones.data@.data[i],
        cp.zones.data@.sec.element_sz(),
    ) by {
        lemma_zone_reads_back(cp.zones.data@.data[i], cp.zones.data@.sec.element_sz());
    }
    assert forall|i: int| 0 <= i < cp.scan_list.data@.data.len() implies reads_back::<Scan>(
        #[trigger] cp.scan_list.data@.data[i],
        cp.scan_list.data@.sec.element_sz(),
    ) by {
        lemma_scan_reads_back(cp.scan_list.data@.data[i], cp.scan_list.data@.sec.element_sz());
    }
    assert forall|i: int| 0 <= i < cp.roam_list.data@.data.len() implies reads_back::<Roam>(
        #[trigger] cp.roam_list.data@.data[i],
        cp.roam_list.data@.sec.element_sz(),
    ) by {
        lemma_roam_reads_back(cp.roam_list.data@.data[i], cp.roam_list.data@.sec.element_sz());
    }
    assert forall|i: int| 0 <= i < cp.zones.channels@.data.len() implies reads_back::<ZoneList>(
        #[trigger] cp.zones.channels@.data[i],
        cp.zones.channels@.sec.element_sz(),
    ) by {
        let list = cp.zones.channels@.data[i];
        assert(list_fits(list, 0x800, 512, cp.zones.channels@.sec.element_sz()));
        assert forall|j: int| 0 <= j < list.len() implies (#[trigger] list[j]).valid() by {
            assert(cp.zones.channels@.data[i][j].valid());
        }
        lemma_zone_list_reads_back(list, cp.zones.channels@.sec.element_sz());
    }
    assert forall|i: int| 0 <= i < cp.scan_list.channels@.data.len() implies reads_back::<ScanList>(
        #[trigger] cp.scan_list.channels@.data[i],
        cp.scan_list.channels@.sec.element_sz(),
    ) by {
        let list = cp.scan_list.channels@.data[i];
        assert(list_fits(list, 0x80, 32, cp.scan_list.channels@.sec.element_sz()));
        assert forall|j: int| 0 <= j < list.len() implies (#[trigger] list[j]).valid() by {
            assert(cp.scan_list.channels@.data[i][j].valid());
        }
        lemma_scan_list_reads_back(list, cp.scan_list.channels@.sec.element_sz());
    }
    assert forall|i: int| 0 <= i < cp.roam_list.channels@.data.len() implies reads_back::<RoamList>(
        #[trigger] cp.roam_list.channels@.data[i],
        cp.roam_list.channels@.sec.element_sz(),
    ) by {
        let list = cp.roam_list.channels@.data[i];
        assert(list_fits(list, 0x40, 32, cp.roam_list.channels@.sec.element_sz()));
        assert forall|j: int| 0 <= j < list.len() implies (#[trigger] list[j]).valid() by {
            assert(cp.roam_list.channels@.data[i][j].valid());
        }
        lemma_roam_list_reads_back(list, cp.roam_list.channels@.sec.element_sz());
    }
}

} // verus!
