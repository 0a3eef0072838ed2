//! The packed form of a pointer list: a small header, a region of pointer
//! records, and a table that gives the offset of each pointer in the region.

use crate::bytes::{
    get_u16, get_u32, lemma_u16_le_roundtrip, lemma_u32_le_roundtrip, pad_to, put_bytes, put_u16,
    put_u32, u16_at, u16_le_bytes, u32_at, u32_le_bytes, zeros,
};
use crate::channel_pointer::raw_pointer::RawPointer;
use crate::cp_data::{views, RawCPData};
use crate::error::CodecError;
use crate::section::{lemma_section_mappings_roundtrip, Reader, SectionMappings};
use vstd::prelude::*;

verus! {

/// Header of a packed pointer list.
#[derive(Debug, PartialEq, Eq, Clone, Copy, Structural)]
pub struct ChannelPointerSectionHeader {
    /// Two bytes of unknown meaning.
    pub unk1: u16,
    /// Number of pointers that the region has room for.
    pub capacity: u16,
    /// Number of pointers in the list.
    pub no_channels: u16,
    /// Length in bytes of the region.
    pub data_sz: u32,
    /// Offset of the table, counted from the start of the header.
    pub mappings_offset: u32,
}

/// Length in bytes of the header of a packed pointer list.
pub const CHANNEL_POINTER_HEADER_SZ: usize = 14;

impl ChannelPointerSectionHeader {
    /// The fourteen bytes of the header.
    pub open spec fn bytes(self) -> Seq<u8> {
        u16_le_bytes(self.unk1) + u16_le_bytes(self.capacity) + u16_le_bytes(self.no_channels)
            + u32_le_bytes(self.data_sz) + u32_le_bytes(self.mappings_offset)
    }

    /// What the header at the start of a chunk decodes to.
    pub open spec fn decode(b: Seq<u8>) -> Result<ChannelPointerSectionHeader, CodecError> {
        if b.len() < 14 {
            Err(CodecError::UnexpectedEof)
        } else {
            Ok(
                ChannelPointerSectionHeader {
                    unk1: u16_at(b, 0),
                    capacity: u16_at(b, 2),
                    no_channels: u16_at(b, 4),
                    data_sz: u32_at(b, 6),
                    mappings_offset: u32_at(b, 10),
                },
            )
        }
    }

    /// Length in bytes of the header.
    pub fn sz() -> (r: usize)
        ensures
            r == 14,
    {
        CHANNEL_POINTER_HEADER_SZ
    }

    /// Reads a header; a reader that fails stays where it was.
    pub fn load(reader: &mut Reader) -> (r: Result<ChannelPointerSectionHeader, CodecError>)
        ensures
            final(reader).data@ == old(reader).data@,
            r == Self::decode(old(reader).rest()),
            r is Ok ==> final(reader).pos == old(reader).pos + 14,
            r is Err ==> final(reader).pos == old(reader).pos,
    {
        let b = reader.read_exact(CHANNEL_POINTER_HEADER_SZ)?;
        Ok(
            ChannelPointerSectionHeader {
                unk1: get_u16(b, 0),
                capacity: get_u16(b, 2),
                no_channels: get_u16(b, 4),
                data_sz: get_u32(b, 6),
                mappings_offset: get_u32(b, 10),
            },
        )
    }

    /// Appends the header to `out`.
    pub fn store(&self, out: &mut Vec<u8>)
        ensures
            final(out)@ == old(out)@ + self.bytes(),
    {
        put_u16(out, self.unk1);
        put_u16(out, self.capacity);
        put_u16(out, self.no_channels);
        put_u32(out, self.data_sz);
        put_u32(out, self.mappings_offset);
        assert(out@ =~= old(out)@ + self.bytes());
    }
}

/// A packed pointer list.
pub struct ChannelPointerSection {
    pub header: ChannelPointerSectionHeader,
    /// The region of pointer records.
    pub data: Vec<u8>,
    /// The table: for each pointer of the list, its offset in the region.
    pub mappings: Vec<SectionMappings>,
}

/// A `ChannelPointerSection` with its region and its table as sequences.
pub struct ChannelPointerSectionView {
    pub header: ChannelPointerSectionHeader,
    pub data: Seq<u8>,
    pub mappings: Seq<SectionMappings>,
}

impl View for ChannelPointerSection {
    type V = ChannelPointerSectionView;

    open spec fn view(&self) -> ChannelPointerSectionView {
        ChannelPointerSectionView {
            header: self.header,
            data: self.data@,
            mappings: self.mappings@,
        }
    }
}

/// The bytes of a table: those of its entries, one after the other.
pub open spec fn mappings_bytes(m: Seq<SectionMappings>) -> Seq<u8>
    decreases m.len(),
{
    if m.len() == 0 {
        Seq::empty()
    } else {
        mappings_bytes(m.drop_last()) + m.last().bytes()
    }
}

/// The bytes of a list of pointers, one after the other, or the failure of
/// the first pointer that cannot be stored.
pub open spec fn encode_all<T: RawCPData>(ptrs: Seq<T::V>) -> Result<Seq<u8>, CodecError>
    decreases ptrs.len(),
{
    if ptrs.len() == 0 {
        Ok(Seq::empty())
    } else {
        match encode_all::<T>(ptrs.drop_last()) {
            Err(e) => Err(e),
            Ok(front) => match T::spec_store(ptrs.last()) {
                Err(e) => Err(e),
                Ok(b) => Ok(front + b),
            },
        }
    }
}

/// What a region holds from the offset `offset` on; nothing, where the
/// offset lies behind its end.
pub open spec fn region_from(data: Seq<u8>, offset: int) -> Seq<u8> {
    if 0 <= offset <= data.len() {
        data.subrange(offset, data.len() as int)
    } else {
        Seq::empty()
    }
}

impl ChannelPointerSectionView {
    /// The table has one entry for each pointer that the header counts.
    pub open spec fn wf(self) -> bool {
        self.mappings.len() == self.header.no_channels
    }

    /// Number of bytes that the packed list takes.
    pub open spec fn image_len(self) -> int {
        14 + self.header.data_sz + 6 * self.header.no_channels
    }

    /// The packed list at the start of `rest`.
    #[verifier::opaque]
    pub open spec fn decode(rest: Seq<u8>) -> Result<ChannelPointerSectionView, CodecError> {
        match ChannelPointerSectionHeader::decode(rest) {
            Err(e) => Err(e),
            Ok(header) => {
                let data_end = 14 + header.data_sz;
                if rest.len() < data_end + 6 * header.no_channels {
                    Err(CodecError::UnexpectedEof)
                } else {
                    Ok(
                        ChannelPointerSectionView {
                            header,
                            data: rest.subrange(14, data_end),
                            mappings: Seq::new(
                                header.no_channels as nat,
                                |i: int| SectionMappings::at(rest, data_end + 6 * i),
                            ),
                        },
                    )
                }
            },
        }
    }

    /// The first `n` pointers of the list: each decoded from the region at the
    /// offset that the table gives it; or the failure of the first of them
    /// that fails.
    pub open spec fn pointers<T: RawCPData>(self, n: nat) -> Result<Seq<T::V>, CodecError>
        decreases n,
    {
        if n == 0 {
            Ok(Seq::empty())
        } else {
            match self.pointers::<T>((n - 1) as nat) {
                Err(e) => Err(e),
                Ok(front) => match T::spec_load(
                    region_from(self.data, self.mappings[n - 1].offset as int),
                ) {
                    Err(e) => Err(e),
                    Ok(v) => Ok(front.push(v)),
                },
            }
        }
    }

    /// The packed list that holds the given pointers in a region of `data_sz`
    /// bytes: the pointers back to back from the start of the region, the
    /// rest of the region zero, and a table that gives the pointer at place
    /// `i` the index `i` and the offset `i` times the width of a pointer. The
    /// capacity is the region size, cut to sixteen bits, over the width; a
    /// list longer than that is refused.
    pub open spec fn from_channels<T: RawPointer>(ptrs: Seq<T::V>, data_sz: u32) -> Result<
        ChannelPointerSectionView,
        CodecError,
    > {
        let capacity = ((data_sz as u16) as int / T::spec_sz() as int) as u16;
        if ptrs.len() > capacity {
            Err(CodecError::TooManyChannels)
        } else {
            match encode_all::<T>(ptrs) {
                Err(e) => Err(e),
                Ok(b) => Ok(
                    ChannelPointerSectionView {
                        header: ChannelPointerSectionHeader {
                            unk1: 0,
                            capacity,
                            no_channels: ptrs.len() as u16,
                            data_sz,
                            mappings_offset: (data_sz + 14) as u32,
                        },
                        data: b + zeros((data_sz - b.len()) as nat),
                        mappings: Seq::new(
                            ptrs.len(),
                            |i: int|
                                SectionMappings {
                                    idx: i as u16,
                                    offset: (i * T::spec_sz()) as u32,
                                },
                        ),
                    },
                ),
            }
        }
    }

    /// The bytes of the packed list: header, region, filled with zeros to the
    /// size that the header gives, and table.
    pub open spec fn bytes(self) -> Seq<u8> {
        self.header.bytes() + self.data + zeros(
            if self.data.len() < self.header.data_sz {
                (self.header.data_sz - self.data.len()) as nat
            } else {
                0
            },
        ) + mappings_bytes(self.mappings)
    }
}

/// The bytes of `n` stored pointers take `n` times the width of a pointer.
pub proof fn lemma_encode_all_len<T: RawPointer>(ptrs: Seq<T::V>)
    ensures
        encode_all::<T>(ptrs) matches Ok(b) ==> b.len() == ptrs.len() * T::spec_sz(),
    decreases ptrs.len(),
{
    if ptrs.len() > 0 {
        lemma_encode_all_len::<T>(ptrs.drop_last());
        T::lemma_store_len(ptrs.last());
        assert((ptrs.len() - 1) * T::spec_sz() + T::spec_sz() == ptrs.len() * T::spec_sz())
            by (nonlinear_arith);
    }
}

/// Once a pointer cannot be stored, the whole list cannot.
pub proof fn lemma_encode_all_fails<T: RawCPData>(ptrs: Seq<T::V>, n: int, e: CodecError)
    requires
        0 <= n <= ptrs.len(),
        encode_all::<T>(ptrs.subrange(0, n)) == Err::<Seq<u8>, CodecError>(e),
    ensures
        encode_all::<T>(ptrs) == Err::<Seq<u8>, CodecError>(e),
    decreases ptrs.len() - n,
{
    if n < ptrs.len() {
        let next = ptrs.subrange(0, n + 1);
        assert(next.drop_last() =~= ptrs.subrange(0, n));
        lemma_encode_all_fails::<T>(ptrs, n + 1, e);
    } else {
        assert(ptrs.subrange(0, n) =~= ptrs);
    }
}

/// Once a pointer fails to decode, decoding more pointers fails in the same
/// way.
pub proof fn lemma_pointers_fail<T: RawCPData>(
    v: ChannelPointerSectionView,
    n: nat,
    m: nat,
    e: CodecError,
)
    requires
        n <= m,
        v.pointers::<T>(n) == Err::<Seq<T::V>, CodecError>(e),
    ensures
        v.pointers::<T>(m) == Err::<Seq<T::V>, CodecError>(e),
    decreases m - n,
{
    if n < m {
        lemma_pointers_fail::<T>(v, n, (m - 1) as nat, e);
    }
}

impl ChannelPointerSection {
    /// Reads a packed list: its header, as many bytes as the header gives the
    /// region, and one table entry for each pointer that the header counts.
    /// A reader that fails stays where it was.
    pub fn load(reader: &mut Reader) -> (r: Result<ChannelPointerSection, CodecError>)
        ensures
            final(reader).data@ == old(reader).data@,
            match r {
                Ok(s) => ChannelPointerSectionView::decode(old(reader).rest()) == Ok::<
                    ChannelPointerSectionView,
                    CodecError,
                >(s@) && s@.wf() && final(reader).pos == old(reader).pos + s@.image_len(),
                Err(e) => ChannelPointerSectionView::decode(old(reader).rest()) == Err::<
                    ChannelPointerSectionView,
                    CodecError,
                >(e) && final(reader).pos == old(reader).pos,
            },
    {
        reveal(ChannelPointerSectionView::decode);
        let start = reader.pos;
        let ghost rest = reader.rest();
        let header = ChannelPointerSectionHeader::load(reader)?;
        let chunk = match reader.read_exact(header.data_sz as usize) {
            Ok(c) => c,
            Err(e) => {
                reader.pos = start;
                return Err(e);
            },
        };
        let mut data: Vec<u8> = Vec::new();
        put_bytes(&mut data, chunk);
        let ghost data_end = 14 + header.data_sz;
        assert(data@ =~= rest.subrange(14, data_end));
        let mut mappings: Vec<SectionMappings> = Vec::new();
        let mut i: u16 = 0;
        while i < header.no_channels
            invariant
                i <= header.no_channels,
                reader.data@ == old(reader).data@,
                start == old(reader).pos,
                start <= reader.data@.len(),
                rest == old(reader).rest(),
                rest == reader.data@.subrange(start as int, reader.data@.len() as int),
                ChannelPointerSectionHeader::decode(rest) == Ok::<
                    ChannelPointerSectionHeader,
                    CodecError,
                >(header),
                data@ == rest.subrange(14, data_end),
                data_end == 14 + header.data_sz,
                reader.pos == start + data_end + 6 * i,
                reader.pos <= reader.data@.len(),
                mappings@.len() == i,
                forall|j: int|
                    0 <= j < i ==> mappings@[j] == SectionMappings::at(rest, data_end + 6 * j),
            decreases header.no_channels - i,
        {
            let ghost before = reader.rest();
            let m = match SectionMappings::load(reader) {
                Ok(m) => m,
                Err(e) => {
                    reader.pos = start;
                    proof {
                        reveal(ChannelPointerSectionView::decode);
                    }
                    return Err(e);
                },
            };
            assert(m == SectionMappings::at(rest, data_end + 6 * i)) by {
                assert forall|k: int| 0 <= k < 6 implies before[k] == rest[data_end + 6 * i + k] by {}
            }
            mappings.push(m);
            i += 1;
        }
        let ghost expected = Seq::new(
            header.no_channels as nat,
            |j: int| SectionMappings::at(rest, data_end + 6 * j),
        );
        assert(mappings@ =~= expected);
        Ok(ChannelPointerSection { header, data, mappings })
    }

    /// Decodes the pointers of the list, each from the offset that the table
    /// gives it.
    pub fn deduce_channels<T: RawPointer>(&self) -> (r: Result<Vec<T>, CodecError>)
        requires
            self@.wf(),
        ensures
            match r {
                Ok(v) => self@.pointers::<T>(self.header.no_channels as nat) == Ok::<
                    Seq<T::V>,
                    CodecError,
                >(views(v@)),
                Err(e) => self@.pointers::<T>(self.header.no_channels as nat) == Err::<
                    Seq<T::V>,
                    CodecError,
                >(e),
            },
    {
        let mut ret: Vec<T> = Vec::new();
        let mut i: u16 = 0;
        assert(views(ret@) =~= Seq::<T::V>::empty());
        while i < self.header.no_channels
            invariant
                i <= self.header.no_channels,
                self@.wf(),
                self@.pointers::<T>(i as nat) == Ok::<Seq<T::V>, CodecError>(views(ret@)),
            decreases self.header.no_channels - i,
        {
            let offset = self.mappings[i as usize].offset as usize;
            let len = self.data.len();
            let chunk = if offset <= len {
                &self.data.as_slice()[offset..len]
            } else {
                &self.data.as_slice()[0..0]
            };
            assert(chunk@ =~= region_from(self.data@, offset as int));
            let ghost front = views(ret@);
            match T::load(chunk) {
                Ok(v) => {
                    let ghost vv = v@;
                    ret.push(v);
                    assert(views(ret@) =~= front.push(vv));
                },
                Err(e) => {
                    proof {
                        lemma_pointers_fail::<T>(
                            self@,
                            (i + 1) as nat,
                            self.header.no_channels as nat,
                            e,
                        );
                    }
                    return Err(e);
                },
            }
            i += 1;
        }
        Ok(ret)
    }

    /// Packs a list of pointers into a region of `data_sz` bytes.
    pub fn from_channels<T: RawPointer>(channels: &Vec<T>, data_sz: u32) -> (r: Result<
        ChannelPointerSection,
        CodecError,
    >)
        requires
            data_sz + 14 <= u32::MAX,
        ensures
            match r {
                Ok(s) => ChannelPointerSectionView::from_channels::<T>(views(channels@), data_sz)
                    == Ok::<ChannelPointerSectionView, CodecError>(s@) && s@.wf(),
                Err(e) => ChannelPointerSectionView::from_channels::<T>(views(channels@), data_sz)
                    == Err::<ChannelPointerSectionView, CodecError>(e),
            },
    {
        let sz = T::sz();
        let region: u16 = #[verifier::truncate] (data_sz as u16);
        let capacity: u16 = region / (sz as u16);
        let ghost all = views(channels@);
        if channels.len() > capacity as usize {
            return Err(CodecError::TooManyChannels);
        }
        assert(capacity * sz <= region) by (nonlinear_arith)
            requires
                capacity == region as int / sz as int,
                sz > 0,
        ;
        let mut data: Vec<u8> = Vec::new();
        let mut mappings: Vec<SectionMappings> = Vec::new();
        let mut idx: usize = 0;
        assert(all.subrange(0, 0) =~= Seq::<T::V>::empty());
        while idx < channels.len()
            invariant
                idx <= channels@.len(),
                channels@.len() <= capacity,
                capacity * sz <= region,
                region <= 0xffff,
                region == data_sz as u16,
                capacity == region / (sz as u16),
                sz <= 0xffff,
                sz == T::spec_sz(),
                0 < sz,
                all == views(channels@),
                encode_all::<T>(all.subrange(0, idx as int)) == Ok::<Seq<u8>, CodecError>(data@),
                data@.len() == idx * sz,
                mappings@.len() == idx,
                forall|j: int|
                    0 <= j < idx ==> mappings@[j] == (SectionMappings {
                        idx: j as u16,
                        offset: (j * sz) as u32,
                    }),
            decreases channels@.len() - idx,
        {
            let ghost front = all.subrange(0, idx as int);
            let ghost next = all.subrange(0, idx + 1);
            assert(next.drop_last() =~= front);
            assert(next.last() == channels@[idx as int]@);
            assert(idx * sz <= capacity * sz) by (nonlinear_arith)
                requires
                    idx <= capacity,
                    0 < sz,
            ;
            match channels[idx].store(&mut data) {
                Ok(_) => {},
                Err(e) => {
                    proof {
                        lemma_encode_all_fails::<T>(all, idx + 1, e);
                    }
                    return Err(e);
                },
            }
            proof {
                lemma_encode_all_len::<T>(next);
            }
            mappings.push(SectionMappings { idx: idx as u16, offset: (idx * sz) as u32 });
            idx += 1;
        }
        assert(all.subrange(0, idx as int) =~= all);
        let ghost packed = data@;
        assert(idx * sz <= capacity * sz) by (nonlinear_arith)
            requires
                idx <= capacity,
                0 < sz,
        ;
        assert(region <= data_sz) by (bit_vector)
            requires
                region == data_sz as u16,
        ;
        pad_to(&mut data, data_sz as usize);
        let header = ChannelPointerSectionHeader {
            unk1: 0,
            capacity,
            no_channels: channels.len() as u16,
            data_sz,
            mappings_offset: data_sz + 14,
        };
        let ghost expected = Seq::new(
            all.len(),
            |i: int| SectionMappings { idx: i as u16, offset: (i * T::spec_sz()) as u32 },
        );
        assert(mappings@ =~= expected);
        assert(data@ =~= packed + zeros((data_sz - packed.len()) as nat));
        Ok(ChannelPointerSection { header, data, mappings })
    }

    /// Appends the packed list to `out`: header, region, filled with zeros to
    /// the size that the header gives, and table.
    pub fn store(&self, out: &mut Vec<u8>)
        ensures
            final(out)@ == old(out)@ + self@.bytes(),
    {
        self.header.store(out);
        put_bytes(out, self.data.as_slice());
        let ghost before = out@;
        let target = self.header.data_sz as usize;
        if self.data.len() < target {
            let mut fill: Vec<u8> = Vec::new();
            pad_to(&mut fill, target - self.data.len());
            put_bytes(out, fill.as_slice());
        }
        let ghost region_end = out@;
        assert(region_end =~= old(out)@ + self.header.bytes() + self.data@ + zeros(
            if self.data@.len() < self.header.data_sz {
                (self.header.data_sz - self.data@.len()) as nat
            } else {
                0
            },
        ));
        let mut i: usize = 0;
        assert(self.mappings@.subrange(0, 0) =~= Seq::<SectionMappings>::empty());
        while i < self.mappings.len()
            invariant
                i <= self.mappings@.len(),
                out@ == region_end + mappings_bytes(self.mappings@.subrange(0, i as int)),
            decreases self.mappings@.len() - i,
        {
            let ghost front = self.mappings@.subrange(0, i as int);
            let ghost next = self.mappings@.subrange(0, i + 1);
            assert(next.drop_last() =~= front);
            self.mappings[i].write(out);
            i += 1;
        }
        assert(self.mappings@.subrange(0, i as int) =~= self.mappings@);
    }
}

/// Where the fields of the header of a packed list lie in its bytes, whatever
/// follows them.
pub proof fn lemma_pointer_header_roundtrip(h: ChannelPointerSectionHeader, rest: Seq<u8>)
    ensures
        h.bytes().len() == 14,
        ChannelPointerSectionHeader::decode(h.bytes() + rest) == Ok::<
            ChannelPointerSectionHeader,
            CodecError,
        >(h),
{
    let f0 = u16_le_bytes(h.unk1);
    let f1 = u16_le_bytes(h.capacity);
    let f2 = u16_le_bytes(h.no_channels);
    let f3 = u32_le_bytes(h.data_sz);
    let f4 = u32_le_bytes(h.mappings_offset);
    let pre1 = f0 + f1;
    let pre2 = pre1 + f2;
    let pre3 = pre2 + f3;
    let b = h.bytes() + rest;
    assert(h.bytes() == pre3 + f4);
    assert(b[0] == f0[0] && b[1] == f0[1] && b[2] == f1[0] && b[3] == f1[1]) by {
        assert(pre1[0] == f0[0] && pre1[1] == f0[1] && pre1[2] == f1[0] && pre1[3] == f1[1]);
        assert(pre2[0] == pre1[0] && pre2[1] == pre1[1] && pre2[2] == pre1[2] && pre2[3] == pre1[3]);
        assert(pre3[0] == pre2[0] && pre3[1] == pre2[1] && pre3[2] == pre2[2] && pre3[3] == pre2[3]);
    }
    assert(b[4] == f2[0] && b[5] == f2[1]) by {
        assert(pre2[4] == f2[0] && pre2[5] == f2[1]);
        assert(pre3[4] == pre2[4] && pre3[5] == pre2[5]);
    }
    assert(b[6] == f3[0] && b[7] == f3[1] && b[8] == f3[2] && b[9] == f3[3]) by {
        assert(pre3[6] == f3[0] && pre3[7] == f3[1] && pre3[8] == f3[2] && pre3[9] == f3[3]);
    }
    assert(b[10] == f4[0] && b[11] == f4[1] && b[12] == f4[2] && b[13] == f4[3]);
    lemma_u16_le_roundtrip(h.unk1);
    lemma_u16_le_roundtrip(h.capacity);
    lemma_u16_le_roundtrip(h.no_channels);
    lemma_u32_le_roundtrip(h.data_sz);
    lemma_u32_le_roundtrip(h.mappings_offset);
}

/// Where the entries of a table lie in its bytes.
pub proof fn lemma_mappings_bytes_at(m: Seq<SectionMappings>, i: int)
    requires
        0 <= i < m.len(),
    ensures
        mappings_bytes(m).len() == 6 * m.len(),
        mappings_bytes(m).subrange(6 * i, 6 * i + 6) == m[i].bytes(),
    decreases m.len(),
{
    let front = m.drop_last();
    lemma_mappings_bytes_total(front);
    lemma_section_mappings_roundtrip(m.last());
    if i < m.len() - 1 {
        lemma_mappings_bytes_at(front, i);
        assert(mappings_bytes(m).subrange(6 * i, 6 * i + 6) =~= mappings_bytes(front).subrange(
            6 * i,
            6 * i + 6,
        ));
    } else {
        assert(mappings_bytes(m).subrange(6 * i, 6 * i + 6) =~= m.last().bytes());
    }
}

/// A table takes six bytes for each entry.
pub proof fn lemma_mappings_bytes_total(m: Seq<SectionMappings>)
    ensures
        mappings_bytes(m).len() == 6 * m.len(),
    decreases m.len(),
{
    if m.len() > 0 {
        lemma_mappings_bytes_total(m.drop_last());
        lemma_section_mappings_roundtrip(m.last());
    }
}

/// The bytes of a list of valid pointers hold the bytes of each pointer at
/// its place times the width of a pointer.
pub proof fn lemma_encode_all_at<T: RawPointer>(ptrs: Seq<T::V>, i: int)
    requires
        forall|j: int| 0 <= j < ptrs.len() ==> T::spec_valid(#[trigger] ptrs[j]),
        0 <= i < ptrs.len(),
    ensures
        encode_all::<T>(ptrs) is Ok,
        T::spec_store(ptrs[i]) is Ok,
        encode_all::<T>(ptrs)->Ok_0.len() == ptrs.len() * T::spec_sz(),
        0 <= i * T::spec_sz(),
        i * T::spec_sz() + T::spec_sz() <= ptrs.len() * T::spec_sz(),
        encode_all::<T>(ptrs)->Ok_0.subrange(
            i * T::spec_sz() as int,
            i * T::spec_sz() + T::spec_sz(),
        ) == T::spec_store(ptrs[i])->Ok_0,
    decreases ptrs.len(),
{
    let sz = T::spec_sz() as int;
    let front = ptrs.drop_last();
    let n = ptrs.len() as int;
    lemma_encode_all_valid::<T>(front);
    lemma_encode_all_valid::<T>(ptrs);
    T::lemma_load_stored(ptrs.last(), Seq::empty());
    T::lemma_store_len(ptrs.last());
    T::lemma_load_stored(ptrs[i], Seq::empty());
    let all = encode_all::<T>(ptrs)->Ok_0;
    let head = encode_all::<T>(front)->Ok_0;
    let tail = T::spec_store(ptrs.last())->Ok_0;
    assert(all == head + tail);
    assert(i * sz >= 0 && i * sz + sz <= n * sz && (n - 1) * sz + sz == n * sz)
        by (nonlinear_arith)
        requires
            0 <= i < n,
            sz >= 0,
    ;
    if i < n - 1 {
        lemma_encode_all_at::<T>(front, i);
        assert(i * sz + sz <= (n - 1) * sz) by (nonlinear_arith)
            requires
                0 <= i < n - 1,
                sz >= 0,
        ;
        assert(all.subrange(i * sz, i * sz + sz) =~= head.subrange(i * sz, i * sz + sz));
    } else {
        assert(all.subrange(i * sz, i * sz + sz) =~= tail);
    }
}

/// A list of valid pointers can be stored, and takes its length times the
/// width of a pointer.
pub proof fn lemma_encode_all_valid<T: RawPointer>(ptrs: Seq<T::V>)
    requires
        forall|j: int| 0 <= j < ptrs.len() ==> T::spec_valid(#[trigger] ptrs[j]),
    ensures
        encode_all::<T>(ptrs) is Ok,
        encode_all::<T>(ptrs)->Ok_0.len() == ptrs.len() * T::spec_sz(),
    decreases ptrs.len(),
{
    if ptrs.len() > 0 {
        lemma_encode_all_valid::<T>(ptrs.drop_last());
        T::lemma_load_stored(ptrs.last(), Seq::empty());
        lemma_encode_all_len::<T>(ptrs);
    }
}

/// The pointers of a packed list made of valid pointers are those pointers.
pub proof fn lemma_pointers_of_packed<T: RawPointer>(
    v: ChannelPointerSectionView,
    ptrs: Seq<T::V>,
    n: nat,
)
    requires
        forall|j: int| 0 <= j < ptrs.len() ==> T::spec_valid(#[trigger] ptrs[j]),
        n <= ptrs.len(),
        v.mappings.len() == ptrs.len(),
        forall|j: int|
            0 <= j < ptrs.len() ==> (#[trigger] v.mappings[j]).offset == j * T::spec_sz(),
        encode_all::<T>(ptrs) is Ok,
        v.data.len() >= encode_all::<T>(ptrs)->Ok_0.len(),
        v.data.subrange(0, encode_all::<T>(ptrs)->Ok_0.len() as int) == encode_all::<T>(
            ptrs,
        )->Ok_0,
    ensures
        v.pointers::<T>(n) == Ok::<Seq<T::V>, CodecError>(ptrs.subrange(0, n as int)),
    decreases n,
{
    if n == 0 {
        assert(ptrs.subrange(0, 0) =~= Seq::<T::V>::empty());
    } else {
        let i = (n - 1) as int;
        let sz = T::spec_sz() as int;
        lemma_pointers_of_packed::<T>(v, ptrs, (n - 1) as nat);
        lemma_encode_all_at::<T>(ptrs, i);
        let all = encode_all::<T>(ptrs)->Ok_0;
        let stored = T::spec_store(ptrs[i])->Ok_0;
        let region = region_from(v.data, v.mappings[i].offset as int);
        let rest = v.data.subrange(i * sz + sz, v.data.len() as int);
        assert(v.mappings[i].offset == i * sz);
        assert(region =~= stored + rest) by {
            assert forall|k: int| 0 <= k < sz implies region[k] == stored[k] by {
                assert(v.data.subrange(0, all.len() as int)[i * sz + k] == all[i * sz + k]);
                assert(all.subrange(i * sz, i * sz + sz)[k] == all[i * sz + k]);
            }
        }
        T::lemma_load_stored(ptrs[i], rest);
        assert(ptrs.subrange(0, n as int) =~= ptrs.subrange(0, i).push(ptrs[i]));
    }
}

/// An entry of a table reads back from the bytes of the table, wherever
/// they stand.
pub proof fn lemma_table_entry(table: Seq<SectionMappings>, b: Seq<u8>, at: int, i: int)
    requires
        0 <= i < table.len(),
        0 <= at,
        at + 6 * table.len() <= b.len(),
        b.subrange(at, at + 6 * table.len()) == mappings_bytes(table),
    ensures
        SectionMappings::at(b, at + 6 * i) == table[i],
{
    let packed = mappings_bytes(table);
    let m = table[i].bytes();
    lemma_mappings_bytes_at(table, i);
    lemma_section_mappings_roundtrip(table[i]);
    assert forall|k: int| 0 <= k < 6 implies b[at + 6 * i + k] == m[k] by {
        assert(b.subrange(at, at + 6 * table.len())[6 * i + k] == b[at + 6 * i + k]);
        assert(packed.subrange(6 * i, 6 * i + 6)[k] == packed[6 * i + k]);
    }
    assert(SectionMappings::at(m, 0) == table[i]);
    assert(b[at + 6 * i + 0] == m[0]);
    assert(b[at + 6 * i + 1] == m[1]);
    assert(b[at + 6 * i + 2] == m[2]);
    assert(b[at + 6 * i + 3] == m[3]);
    assert(b[at + 6 * i + 4] == m[4]);
    assert(b[at + 6 * i + 5] == m[5]);
}

/// A packed list whose region and table have the lengths that its header
/// gives reads back from its bytes, whatever follows them.
pub proof fn lemma_packed_decodes(s: ChannelPointerSectionView, rest: Seq<u8>)
    requires
        s.data.len() == s.header.data_sz,
        s.mappings.len() == s.header.no_channels,
    ensures
        s.bytes().len() == s.image_len(),
        ChannelPointerSectionView::decode(s.bytes() + rest) == Ok::<ChannelPointerSectionView, CodecError>(
            s,
        ),
{
    let n = s.mappings.len() as int;
    let data_end = 14 + s.header.data_sz;
    let table = mappings_bytes(s.mappings);
    let body = s.data + zeros(0) + table + rest;
    let b = s.bytes() + rest;
    lemma_mappings_bytes_total(s.mappings);
    assert(b =~= s.header.bytes() + body);
    lemma_pointer_header_roundtrip(s.header, body);
    assert(b.subrange(14, data_end) =~= s.data);
    assert(b.subrange(data_end, data_end + 6 * n) =~= table);
    let read = Seq::new(n as nat, |i: int| SectionMappings::at(b, data_end + 6 * i));
    assert forall|i: int| 0 <= i < n implies read[i] == s.mappings[i] by {
        lemma_table_entry(s.mappings, b, data_end, i);
    }
    assert(read =~= s.mappings);
    assert(ChannelPointerSectionView::decode(b) == Ok::<ChannelPointerSectionView, CodecError>(
        ChannelPointerSectionView { header: s.header, data: b.subrange(14, data_end), mappings: read },
    )) by {
        reveal(ChannelPointerSectionView::decode);
    }
}

/// Packing a list of valid pointers that the region has room for, storing
/// the packed list and reading it back gives the packed list and, from it,
/// the pointers, whatever bytes follow the packed list.
pub proof fn lemma_packed_reads_back<T: RawPointer>(ptrs: Seq<T::V>, data_sz: u32, rest: Seq<u8>)
    requires
        forall|j: int| 0 <= j < ptrs.len() ==> T::spec_valid(#[trigger] ptrs[j]),
        0 < T::spec_sz() <= 0xffff,
        ptrs.len() <= (data_sz as u16) as int / T::spec_sz() as int,
        data_sz + 14 <= u32::MAX,
    ensures
        ChannelPointerSectionView::from_channels::<T>(ptrs, data_sz) is Ok,
        ({
            let s = ChannelPointerSectionView::from_channels::<T>(ptrs, data_sz)->Ok_0;
            &&& s.header.data_sz == data_sz
            &&& s.header.no_channels == ptrs.len()
            &&& s.bytes().len() == 14 + data_sz + 6 * ptrs.len()
            &&& ChannelPointerSectionView::decode(s.bytes() + rest) == Ok::<
                ChannelPointerSectionView,
                CodecError,
            >(s)
            &&& s.pointers::<T>(ptrs.len()) == Ok::<Seq<T::V>, CodecError>(ptrs)
        }),
{
    let sz = T::spec_sz() as int;
    let n = ptrs.len() as int;
    let region = (data_sz as u16) as int;
    let cap = region / sz;
    lemma_encode_all_valid::<T>(ptrs);
    let cut = data_sz as u16;
    assert(cut <= data_sz) by (bit_vector)
        requires
            cut == data_sz as u16,
    ;
    assert(cap * sz <= region && n * sz <= cap * sz && cap <= region) by (nonlinear_arith)
        requires
            cap == region / sz,
            sz > 0,
            0 <= n <= cap,
            region >= 0,
    ;
    let s = ChannelPointerSectionView::from_channels::<T>(ptrs, data_sz)->Ok_0;
    let packed = encode_all::<T>(ptrs)->Ok_0;
    let fill = zeros((data_sz - packed.len()) as nat);
    assert(s.data == packed + fill);
    assert(s.data.len() == data_sz);
    assert(s.data.subrange(0, packed.len() as int) =~= packed);
    assert forall|j: int| 0 <= j < n implies (#[trigger] s.mappings[j]).offset == j * sz by {
        assert(0 <= j * sz <= n * sz) by (nonlinear_arith)
            requires
                0 <= j < n,
                sz > 0,
        ;
    }
    lemma_pointers_of_packed::<T>(s, ptrs, ptrs.len());
    assert(ptrs.subrange(0, n) =~= ptrs);
    lemma_packed_decodes(s, rest);
}

/// Packing a list of valid pointers that the region has room for, storing
/// the packed list and reading it back gives the packed list and, from it,
/// the pointers.
pub proof fn lemma_packed_roundtrip<T: RawPointer>(ptrs: Seq<T::V>, data_sz: u32)
    requires
        forall|j: int| 0 <= j < ptrs.len() ==> T::spec_valid(#[trigger] ptrs[j]),
        0 < T::spec_sz() <= 0xffff,
        ptrs.len() <= (data_sz as u16) as int / T::spec_sz() as int,
        data_sz + 14 <= u32::MAX,
    ensures
        ChannelPointerSectionView::from_channels::<T>(ptrs, data_sz) is Ok,
        ({
            let s = ChannelPointerSectionView::from_channels::<T>(ptrs, data_sz)->Ok_0;
            &&& s.header.data_sz == data_sz
            &&& s.header.no_channels == ptrs.len()
            &&& ChannelPointerSectionView::decode(s.bytes()) == Ok::<
                ChannelPointerSectionView,
                CodecError,
            >(s)
            &&& s.pointers::<T>(ptrs.len()) == Ok::<Seq<T::V>, CodecError>(ptrs)
        }),
{
    let s = ChannelPointerSectionView::from_channels::<T>(ptrs, data_sz)->Ok_0;
    lemma_packed_reads_back::<T>(ptrs, data_sz, Seq::empty());
    assert(s.bytes() + Seq::<u8>::empty() =~= s.bytes());
}

} // verus!
