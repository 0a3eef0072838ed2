//! The section directory of a codeplug image: section headers, mapping
//! tables, and the sections they describe.

use crate::bytes::{
    get_u16, get_u32, lemma_u16_le_roundtrip, lemma_u32_le_roundtrip, pad_to, put_u16, put_u32,
    u16_at, u16_le_bytes, u32_at, u32_le_bytes, zeros,
};
use crate::error::{CodecError, CodeplugError, Field};
use std::collections::HashMap;
use vstd::prelude::*;

verus! {

/// A place in a byte slice, from which records are read front to back.
pub struct Reader<'a> {
    pub data: &'a [u8],
    pub pos: usize,
}

impl<'a> Reader<'a> {
    /// What is left to read.
    pub open spec fn rest(&self) -> Seq<u8> {
        if self.pos <= self.data@.len() {
            self.data@.subrange(self.pos as int, self.data@.len() as int)
        } else {
            Seq::empty()
        }
    }

    /// A reader at the start of `data`.
    pub fn new(data: &'a [u8]) -> (r: Reader<'a>)
        ensures
            r.data@ == data@,
            r.pos == 0,
    {
        Reader { data, pos: 0 }
    }

    /// The place of the reader, counted from the start of the data.
    pub fn stream_position(&self) -> (p: usize)
        ensures
            p == self.pos,
    {
        self.pos
    }

    /// Moves the reader to `pos`, which may lie behind the end of the data.
    pub fn seek(&mut self, pos: usize)
        ensures
            final(self).data@ == old(self).data@,
            final(self).pos == pos,
    {
        self.pos = pos;
    }

    /// The next `n` bytes, which stay unread; fails where fewer are left.
    pub fn peek(&self, n: usize) -> (r: Result<&'a [u8], CodecError>)
        ensures
            match r {
                Ok(s) => n <= self.rest().len() && s@ == self.rest().subrange(0, n as int),
                Err(e) => e == CodecError::UnexpectedEof && self.rest().len() < n,
            },
    {
        let len = self.data.len();
        if self.pos > len {
            if n > 0 {
                return Err(CodecError::UnexpectedEof);
            }
            let s = &self.data[0..0];
            assert(s@ =~= self.rest().subrange(0, 0));
            return Ok(s);
        }
        if len - self.pos < n {
            return Err(CodecError::UnexpectedEof);
        }
        let s = &self.data[self.pos..self.pos + n];
        assert(s@ =~= self.rest().subrange(0, n as int));
        Ok(s)
    }

    /// Reads the next `n` bytes; fails, and stays where it is, where fewer are
    /// left.
    pub fn read_exact(&mut self, n: usize) -> (r: Result<&'a [u8], CodecError>)
        ensures
            final(self).data@ == old(self).data@,
            match r {
                Ok(s) => n <= old(self).rest().len() && s@ == old(self).rest().subrange(
                    0,
                    n as int,
                ) && final(self).pos == old(self).pos + n,
                Err(e) => e == CodecError::UnexpectedEof && old(self).rest().len() < n
                    && final(self).pos == old(self).pos,
            },
    {
        let s = self.peek(n)?;
        if n > 0 {
            let len = self.data.len();
            assert(self.pos + n <= len);
            self.pos = self.pos + n;
        }
        Ok(s)
    }
}

/// What `bytes` written at offset `at` makes of an image: bytes in the way
/// are replaced, an image that ends before the last written byte grows, and
/// a gap is filled with zeros.
pub open spec fn patched(image: Seq<u8>, at: int, bytes: Seq<u8>) -> Seq<u8> {
    let len = if image.len() >= at + bytes.len() {
        image.len()
    } else {
        (at + bytes.len()) as nat
    };
    Seq::new(
        len,
        |i: int|
            if at <= i < at + bytes.len() {
                bytes[i - at]
            } else if i < image.len() {
                image[i]
            } else {
                0u8
            },
    )
}

/// Writes `bytes` into `image` at offset `at`.
pub fn write_at(image: &mut Vec<u8>, at: usize, bytes: &[u8])
    requires
        at + bytes@.len() <= usize::MAX,
    ensures
        final(image)@ == patched(old(image)@, at as int, bytes@),
{
    pad_to(image, at);
    let ghost padded = image@;
    let mut i: usize = 0;
    while i < bytes.len()
        invariant
            i <= bytes@.len(),
            at + bytes@.len() <= usize::MAX,
            padded.len() >= at,
            image@.len() == if padded.len() >= at + i {
                padded.len()
            } else {
                (at + i) as nat
            },
            forall|j: int| 0 <= j < image@.len() ==> image@[j] == if at <= j < at + i {
                bytes@[j - at]
            } else {
                padded[j]
            },
        decreases bytes@.len() - i,
    {
        if at + i < image.len() {
            image.set(at + i, bytes[i]);
        } else {
            image.push(bytes[i]);
        }
        i += 1;
    }
    assert(image@ =~= patched(old(image)@, at as int, bytes@));
}

/// Header of a section.
#[derive(Debug, Clone, Copy, PartialEq, Eq, Structural)]
pub struct SectionHeader {
    /// What kind of records the section holds.
    pub section_type: u16,
    /// Number of record slots, below 4096.
    pub capacity: u16,
    /// Four bits of unknown meaning.
    pub unk1: u8,
    /// Number of records in use.
    pub elements_in_use: u16,
    /// Four bytes of unknown meaning.
    pub unk2: u32,
    /// Length in bytes of the record region.
    pub byte_size: u32,
}

/// Length in bytes of a section header.
pub const SECTION_HEADER_SZ: usize = 22;

/// The constant that every section header holds after its element count.
pub const SECTION_MAGIC: u32 = 0x20;

/// What the redundant last field of a section header holds more than the
/// byte size.
pub const SECTION_TRAILER_EXTRA: u32 = 0x16;

impl SectionHeader {
    /// The word that packs the capacity into the low twelve bits and the
    /// unknown bits into the top four.
    pub open spec fn capacity_word(self) -> u16 {
        self.capacity | ((self.unk1 as u16) << 12)
    }

    /// The twenty-two bytes of the header, where the byte size leaves room for its
    /// redundant copy.
    pub open spec fn bytes(self) -> Seq<u8> {
        u16_le_bytes(self.section_type) + u16_le_bytes(self.capacity_word()) + u16_le_bytes(
            self.elements_in_use,
        ) + u32_le_bytes(0x20) + u32_le_bytes(self.unk2) + u32_le_bytes(self.byte_size)
            + u32_le_bytes((self.byte_size + 0x16) as u32)
    }

    /// The bytes of the header; a byte size so large that its redundant copy
    /// does not fit is refused.
    pub open spec fn encode(self) -> Result<Seq<u8>, CodecError> {
        if self.byte_size + 0x16 > u32::MAX {
            Err(CodecError::IndexOutOfRange(Field::SectionByteSize))
        } else {
            Ok(self.bytes())
        }
    }

    /// A header that decoding gives back after encoding.
    pub open spec fn valid(self) -> bool {
        &&& self.capacity < 4096
        &&& self.unk1 < 16
        &&& self.byte_size + 0x16 <= u32::MAX
    }

    /// What the header at the start of a chunk decodes to.
    pub open spec fn decode(b: Seq<u8>) -> Result<SectionHeader, CodecError> {
        if b.len() < 22 {
            Err(CodecError::UnexpectedEof)
        } else if u32_at(b, 6) != 0x20 {
            Err(CodecError::ReservedMismatch(Field::SectionMagic))
        } else if u32_at(b, 18) != u32_at(b, 14) + 0x16 {
            Err(CodecError::ReservedMismatch(Field::SectionByteSize))
        } else {
            Ok(
                SectionHeader {
                    section_type: u16_at(b, 0),
                    capacity: u16_at(b, 2) & 0xfff,
                    unk1: (u16_at(b, 2) >> 12) as u8,
                    elements_in_use: u16_at(b, 4),
                    unk2: u32_at(b, 10),
                    byte_size: u32_at(b, 14),
                },
            )
        }
    }

    /// Decodes the header at the start of `b`.
    pub fn from_bytes(b: &[u8]) -> (r: Result<SectionHeader, CodecError>)
        ensures
            r == Self::decode(b@),
    {
        if b.len() < SECTION_HEADER_SZ {
            return Err(CodecError::UnexpectedEof);
        }
        let section_type = get_u16(b, 0);
        let cap_field = get_u16(b, 2);
        let elements_in_use = get_u16(b, 4);
        if get_u32(b, 6) != SECTION_MAGIC {
            return Err(CodecError::ReservedMismatch(Field::SectionMagic));
        }
        let unk2 = get_u32(b, 10);
        let byte_size = get_u32(b, 14);
        let trailer = get_u32(b, 18);
        if trailer < SECTION_TRAILER_EXTRA || trailer - SECTION_TRAILER_EXTRA != byte_size {
            return Err(CodecError::ReservedMismatch(Field::SectionByteSize));
        }
        let hi: u16 = cap_field >> 12;
        assert(hi < 16) by (bit_vector)
            requires
                hi == cap_field >> 12,
        ;
        Ok(
            SectionHeader {
                section_type,
                capacity: cap_field & 0xfff,
                unk1: hi as u8,
                elements_in_use,
                unk2,
                byte_size,
            },
        )
    }

    /// Reads a header; a reader that fails stays where it was.
    pub fn load(reader: &mut Reader) -> (r: Result<SectionHeader, CodecError>)
        ensures
            final(reader).data@ == old(reader).data@,
            r == Self::decode(old(reader).rest()),
            r is Ok ==> final(reader).pos == old(reader).pos + 22,
            r is Err ==> final(reader).pos == old(reader).pos,
    {
        let start = reader.pos;
        let ghost rest = reader.rest();
        let b = reader.read_exact(SECTION_HEADER_SZ)?;
        assert(Self::decode(b@) == Self::decode(rest)) by {
            assert forall|i: int| 0 <= i < 22 implies b@[i] == rest[i] by {}
        }
        match Self::from_bytes(b) {
            Ok(h) => Ok(h),
            Err(e) => {
                reader.pos = start;
                Err(e)
            },
        }
    }

    /// Appends the header to `out`, or fails and leaves `out` as it was.
    pub fn write(&self, out: &mut Vec<u8>) -> (r: Result<(), CodecError>)
        ensures
            match self.encode() {
                Ok(b) => r is Ok && final(out)@ == old(out)@ + b,
                Err(e) => r == Err::<(), CodecError>(e) && final(out)@ == old(out)@,
            },
    {
        if self.byte_size > u32::MAX - SECTION_TRAILER_EXTRA {
            return Err(CodecError::IndexOutOfRange(Field::SectionByteSize));
        }
        put_u16(out, self.section_type);
        put_u16(out, self.capacity | ((self.unk1 as u16) << 12));
        put_u16(out, self.elements_in_use);
        put_u32(out, SECTION_MAGIC);
        put_u32(out, self.unk2);
        put_u32(out, self.byte_size);
        put_u32(out, self.byte_size + SECTION_TRAILER_EXTRA);
        assert(out@ =~= old(out)@ + self.bytes());
        Ok(())
    }
}

/// Where the fields of a section header lie in its bytes.
pub proof fn lemma_section_header_layout(h: SectionHeader)
    requires
        h.byte_size + 0x16 <= u32::MAX,
    ensures
        h.bytes().len() == 22,
        u16_at(h.bytes(), 0) == h.section_type,
        u16_at(h.bytes(), 2) == h.capacity_word(),
        u16_at(h.bytes(), 4) == h.elements_in_use,
        u32_at(h.bytes(), 6) == 0x20,
        u32_at(h.bytes(), 10) == h.unk2,
        u32_at(h.bytes(), 14) == h.byte_size,
        u32_at(h.bytes(), 18) == h.byte_size + 0x16,
{
    let b = h.bytes();
    let f0 = u16_le_bytes(h.section_type);
    let f1 = u16_le_bytes(h.capacity_word());
    let f2 = u16_le_bytes(h.elements_in_use);
    let f3 = u32_le_bytes(0x20);
    let f4 = u32_le_bytes(h.unk2);
    let f5 = u32_le_bytes(h.byte_size);
    let f6 = u32_le_bytes((h.byte_size + 0x16) as u32);
    let pre1 = f0 + f1;
    let pre2 = pre1 + f2;
    let pre3 = pre2 + f3;
    let pre4 = pre3 + f4;
    let pre5 = pre4 + f5;
    assert(b == pre5 + f6);
    assert(f0.len() == 2 && f1.len() == 2 && f2.len() == 2);
    assert(f3.len() == 4 && f4.len() == 4 && f5.len() == 4 && f6.len() == 4);
    assert(b[0] == f0[0] && b[1] == f0[1] && b[2] == f1[0] && b[3] == f1[1]) by {
        assert(pre1[0] == f0[0] && pre1[1] == f0[1] && pre1[2] == f1[0] && pre1[3] == f1[1]);
        assert(pre2[0] == pre1[0] && pre2[1] == pre1[1] && pre2[2] == pre1[2] && pre2[3] == pre1[3]);
        assert(pre3[0] == pre2[0] && pre3[1] == pre2[1] && pre3[2] == pre2[2] && pre3[3] == pre2[3]);
        assert(pre4[0] == pre3[0] && pre4[1] == pre3[1] && pre4[2] == pre3[2] && pre4[3] == pre3[3]);
        assert(pre5[0] == pre4[0] && pre5[1] == pre4[1] && pre5[2] == pre4[2] && pre5[3] == pre4[3]);
    }
    assert(b[4] == f2[0] && b[5] == f2[1]) by {
        assert(pre2[4] == f2[0] && pre2[5] == f2[1]);
        assert(pre3[4] == pre2[4] && pre3[5] == pre2[5]);
        assert(pre4[4] == pre3[4] && pre4[5] == pre3[5]);
        assert(pre5[4] == pre4[4] && pre5[5] == pre4[5]);
    }
    assert(b[6] == f3[0] && b[7] == f3[1] && b[8] == f3[2] && b[9] == f3[3]) by {
        assert(pre3[6] == f3[0] && pre3[7] == f3[1] && pre3[8] == f3[2] && pre3[9] == f3[3]);
        assert(pre4[6] == pre3[6] && pre4[7] == pre3[7] && pre4[8] == pre3[8] && pre4[9] == pre3[9]);
        assert(pre5[6] == pre4[6] && pre5[7] == pre4[7] && pre5[8] == pre4[8] && pre5[9] == pre4[9]);
    }
    assert(b[10] == f4[0] && b[11] == f4[1] && b[12] == f4[2] && b[13] == f4[3]) by {
        assert(pre4[10] == f4[0] && pre4[11] == f4[1] && pre4[12] == f4[2] && pre4[13] == f4[3]);
        assert(pre5[10] == pre4[10] && pre5[11] == pre4[11] && pre5[12] == pre4[12] && pre5[13] == pre4[13]);
    }
    assert(b[14] == f5[0] && b[15] == f5[1] && b[16] == f5[2] && b[17] == f5[3]) by {
        assert(pre5[14] == f5[0] && pre5[15] == f5[1] && pre5[16] == f5[2] && pre5[17] == f5[3]);
    }
    assert(pre5.len() == 18);
    assert(b[18] == f6[0] && b[19] == f6[1] && b[20] == f6[2] && b[21] == f6[3]);
    lemma_u16_le_roundtrip(h.section_type);
    lemma_u16_le_roundtrip(h.capacity_word());
    lemma_u16_le_roundtrip(h.elements_in_use);
    lemma_u32_le_roundtrip(0x20);
    lemma_u32_le_roundtrip(h.unk2);
    lemma_u32_le_roundtrip(h.byte_size);
    lemma_u32_le_roundtrip((h.byte_size + 0x16) as u32);
}

/// Decoding the bytes of a valid section header gives it back.
pub proof fn lemma_section_header_roundtrip(h: SectionHeader)
    requires
        h.valid(),
    ensures
        h.encode() == Ok::<Seq<u8>, CodecError>(h.bytes()),
        h.bytes().len() == 22,
        SectionHeader::decode(h.bytes()) == Ok::<SectionHeader, CodecError>(h),
{
    lemma_section_header_layout(h);
    let c = h.capacity;
    let u = h.unk1;
    let w = h.capacity_word();
    assert(c < 4096 && u < 16 ==> w & 0xfff == c && (w >> 12) as u8 == u) by (bit_vector)
        requires
            w == c | ((u as u16) << 12),
    ;
}

/// One entry of a mapping table: a logical index and the offset of its record
/// in the record region.
#[derive(Debug, Clone, Copy, PartialEq, Eq, Structural)]
pub struct SectionMappings {
    pub idx: u16,
    pub offset: u32,
}

/// Length in bytes of a mapping table entry.
pub const SECTION_MAPPING_SZ: usize = 6;

impl SectionMappings {
    /// The six bytes of the entry.
    pub open spec fn bytes(self) -> Seq<u8> {
        u16_le_bytes(self.idx) + u32_le_bytes(self.offset)
    }

    /// The entry that the six bytes at offset `at` of `b` hold.
    pub open spec fn at(b: Seq<u8>, at: int) -> SectionMappings {
        SectionMappings { idx: u16_at(b, at), offset: u32_at(b, at + 2) }
    }

    /// What the entry at the start of a chunk decodes to.
    pub open spec fn decode(b: Seq<u8>) -> Result<SectionMappings, CodecError> {
        if b.len() < 6 {
            Err(CodecError::UnexpectedEof)
        } else {
            Ok(Self::at(b, 0))
        }
    }

    /// Reads an entry; a reader that fails stays where it was.
    pub fn load(reader: &mut Reader) -> (r: Result<SectionMappings, CodecError>)
        ensures
            final(reader).data@ == old(reader).data@,
            r == Self::decode(old(reader).rest()),
            r is Ok ==> final(reader).pos == old(reader).pos + 6,
            r is Err ==> final(reader).pos == old(reader).pos,
    {
        let b = reader.read_exact(SECTION_MAPPING_SZ)?;
        Ok(SectionMappings { idx: get_u16(b, 0), offset: get_u32(b, 2) })
    }

    /// Appends the entry to `out`.
    pub fn write(&self, out: &mut Vec<u8>)
        ensures
            final(out)@ == old(out)@ + self.bytes(),
    {
        put_u16(out, self.idx);
        put_u32(out, self.offset);
        assert(out@ =~= old(out)@ + self.bytes());
    }
}

/// Decoding the bytes of a mapping table entry gives it back.
pub proof fn lemma_section_mappings_roundtrip(m: SectionMappings)
    ensures
        m.bytes().len() == 6,
        SectionMappings::decode(m.bytes()) == Ok::<SectionMappings, CodecError>(m),
{
    lemma_u16_le_roundtrip(m.idx);
    lemma_u32_le_roundtrip(m.offset);
    let b = m.bytes();
    assert(b[0] == u16_le_bytes(m.idx)[0] && b[1] == u16_le_bytes(m.idx)[1]);
    assert(b[2] == u32_le_bytes(m.offset)[0] && b[3] == u32_le_bytes(m.offset)[1] && b[4]
        == u32_le_bytes(m.offset)[2] && b[5] == u32_le_bytes(m.offset)[3]);
}

/// One section of a codeplug image.
#[derive(Debug, Clone)]
pub struct Section {
    pub header: SectionHeader,
    /// The record region: `capacity` slots of equal size.
    pub data: Vec<u8>,
    /// The mapping table, one entry for each slot.
    pub mappings: Vec<SectionMappings>,
    /// Where in the image the section starts.
    pub addr: u64,
}

/// A `Section` with its record region and its mapping table as sequences.
pub struct SectionView {
    pub header: SectionHeader,
    pub data: Seq<u8>,
    pub mappings: Seq<SectionMappings>,
    pub addr: u64,
}

impl View for Section {
    type V = SectionView;

    open spec fn view(&self) -> SectionView {
        SectionView {
            header: self.header,
            data: self.data@,
            mappings: self.mappings@,
            addr: self.addr,
        }
    }
}

/// The sections of an image by their type.
pub type Sections = HashMap<u16, Section>;

/// Where in an image the address of the end of the section directory
/// stands.
pub const DIRECTORY_ANCHOR: usize = 0x38e;

/// Where in an image the first section starts.
pub const DIRECTORY_START: usize = 0x392;

impl SectionView {
    /// Number of bytes that the section takes in the image: header, record
    /// region and mapping table.
    pub open spec fn image_len(self) -> int {
        22 + self.header.byte_size + 6 * self.header.capacity
    }

    /// The section that starts at offset `pos` of an image.
    #[verifier::opaque]
    pub open spec fn decode(image: Seq<u8>, pos: int) -> Result<SectionView, CodecError> {
        let rest = image.subrange(pos, image.len() as int);
        match SectionHeader::decode(rest) {
            Err(e) => Err(e),
            Ok(header) => {
                let data_end = 22 + header.byte_size;
                if rest.len() < data_end + 6 * header.capacity {
                    Err(CodecError::UnexpectedEof)
                } else {
                    Ok(
                        SectionView {
                            header,
                            data: rest.subrange(22, data_end),
                            mappings: Seq::new(
                                header.capacity as nat,
                                |i: int| SectionMappings::at(rest, data_end + 6 * i),
                            ),
                            addr: pos as u64,
                        },
                    )
                }
            },
        }
    }

    /// Whether the record region divides evenly into the slots.
    pub open spec fn has_stride(self) -> bool {
        self.header.capacity != 0 && self.header.byte_size % (self.header.capacity as u32) == 0
    }

    /// Length in bytes of a slot.
    pub open spec fn element_sz(self) -> int
        recommends
            self.has_stride(),
    {
        self.header.byte_size as int / self.header.capacity as int
    }

    /// The first place in the mapping table whose entry has the logical index
    /// `idx`, if any.
    pub open spec fn rev_map(self, idx: u16) -> Option<int> {
        if exists|p: int| 0 <= p < self.mappings.len() && self.mappings[p].idx == idx {
            Some(first_mapping(self.mappings, idx))
        } else {
            None
        }
    }

    /// The bytes of the record at place `idx`: as many bytes as a slot is
    /// long, from the offset that the mapping at place `idx` gives, cut short
    /// where the record region ends.
    pub open spec fn data_chunk(self, idx: u16) -> Result<Seq<u8>, CodeplugError> {
        let section = self.header.section_type;
        if !self.has_stride() {
            Err(CodeplugError::UnevenSection(section))
        } else if idx >= self.mappings.len() {
            Err(CodeplugError::MissingMapping { section, position: idx })
        } else {
            let start = self.mappings[idx as int].offset as int;
            if self.element_sz() == 0 || start >= self.data.len() {
                Err(CodeplugError::MissingChunk { section, position: idx })
            } else if start + self.element_sz() <= self.data.len() {
                Ok(self.data.subrange(start, start + self.element_sz()))
            } else {
                Ok(self.data.subrange(start, self.data.len() as int))
            }
        }
    }
}

/// The least place in `m` whose entry has the logical index `idx`.
pub open spec fn first_mapping(m: Seq<SectionMappings>, idx: u16) -> int
    decreases m.len(),
{
    if m.len() == 0 || m[0].idx == idx {
        0
    } else {
        1 + first_mapping(m.drop_first(), idx)
    }
}

/// `first_mapping` is the least place with the index.
pub proof fn lemma_first_mapping(m: Seq<SectionMappings>, idx: u16, p: int)
    requires
        0 <= p < m.len(),
        m[p].idx == idx,
        forall|j: int| 0 <= j < p ==> m[j].idx != idx,
    ensures
        first_mapping(m, idx) == p,
    decreases m.len(),
{
    if m[0].idx == idx {
    } else {
        let t = m.drop_first();
        assert forall|j: int| 0 <= j < p - 1 implies t[j].idx != idx by {
            assert(t[j] == m[j + 1]);
        }
        assert(t[p - 1] == m[p]);
        lemma_first_mapping(t, idx, p - 1);
    }
}

impl Section {
    /// Reads the section at the place of the reader: its header, as many
    /// bytes as the header gives the record region, and one mapping for each
    /// slot. A reader that fails stays where it was.
    pub fn load(reader: &mut Reader) -> (r: Result<Section, CodecError>)
        requires
            old(reader).pos <= old(reader).data@.len(),
        ensures
            final(reader).data@ == old(reader).data@,
            match r {
                Ok(s) => SectionView::decode(old(reader).data@, old(reader).pos as int) == Ok::<
                    SectionView,
                    CodecError,
                >(s@) && final(reader).pos == old(reader).pos + s@.image_len() && final(reader).pos <= old(reader).data@.len(),
                Err(e) => SectionView::decode(old(reader).data@, old(reader).pos as int) == Err::<
                    SectionView,
                    CodecError,
                >(e) && final(reader).pos == old(reader).pos,
            },
    {
        reveal(SectionView::decode);
        let start = reader.pos;
        let ghost rest = reader.rest();
        let header = SectionHeader::load(reader)?;
        let chunk = match reader.read_exact(header.byte_size as usize) {
            Ok(c) => c,
            Err(e) => {
                reader.pos = start;
                return Err(e);
            },
        };
        let mut data: Vec<u8> = Vec::new();
        crate::bytes::put_bytes(&mut data, chunk);
        let ghost data_end = 22 + header.byte_size;
        assert(data@ =~= rest.subrange(22, data_end));
        let mut mappings: Vec<SectionMappings> = Vec::new();
        let mut i: u16 = 0;
        while i < header.capacity
            invariant
                i <= header.capacity,
                reader.data@ == old(reader).data@,
                start == old(reader).pos,
                start <= reader.data@.len(),
                rest == old(reader).rest(),
                rest == reader.data@.subrange(start as int, reader.data@.len() as int),
                SectionHeader::decode(rest) == Ok::<SectionHeader, CodecError>(header),
                data@ == rest.subrange(22, data_end),
                data_end == 22 + header.byte_size,
                reader.pos == start + data_end + 6 * i,
                reader.pos <= reader.data@.len(),
                mappings@.len() == i,
                forall|j: int|
                    0 <= j < i ==> mappings@[j] == SectionMappings::at(rest, data_end + 6 * j),
            decreases header.capacity - i,
        {
            let ghost before = reader.rest();
            let m = match SectionMappings::load(reader) {
                Ok(m) => m,
                Err(e) => {
                    reader.pos = start;
                    proof {
                        reveal(SectionView::decode);
                    }
                    return Err(e);
                },
            };
            assert(m == SectionMappings::at(rest, data_end + 6 * i)) by {
                assert forall|k: int| 0 <= k < 6 implies before[k] == rest[data_end + 6 * i + k] by {}
            }
            mappings.push(m);
            i += 1;
        }
        let ghost expected = Seq::new(
            header.capacity as nat,
            |j: int| SectionMappings::at(rest, data_end + 6 * j),
        );
        assert(mappings@ =~= expected);
        Ok(Section { header, data, mappings, addr: start as u64 })
    }

    /// A copy of the section.
    pub fn duplicate(&self) -> (r: Section)
        ensures
            r@ == self@,
    {
        let mut data: Vec<u8> = Vec::new();
        crate::bytes::put_bytes(&mut data, self.data.as_slice());
        let mut mappings: Vec<SectionMappings> = Vec::new();
        let mut i: usize = 0;
        while i < self.mappings.len()
            invariant
                i <= self.mappings@.len(),
                mappings@ == self.mappings@.subrange(0, i as int),
            decreases self.mappings@.len() - i,
        {
            mappings.push(self.mappings[i]);
            i += 1;
        }
        assert(data@ =~= self.data@);
        assert(mappings@ =~= self.mappings@);
        Section { header: self.header, data, mappings, addr: self.addr }
    }

    /// Whether the record region divides evenly into the slots.
    pub fn has_stride(&self) -> (r: bool)
        ensures
            r == self@.has_stride(),
    {
        self.header.capacity != 0 && self.header.byte_size % (self.header.capacity as u32) == 0
    }

    /// Length in bytes of a slot.
    pub fn get_element_sz(&self) -> (r: usize)
        requires
            self@.has_stride(),
        ensures
            r == self@.element_sz(),
    {
        (self.header.byte_size / (self.header.capacity as u32)) as usize
    }

    /// The mapping that the slot `idx` has in a table made anew: the slot's
    /// own index, and its offset in the record region.
    pub fn get_mapping(&self, idx: u16) -> (r: SectionMappings)
        requires
            self@.has_stride(),
            idx * self@.element_sz() <= u32::MAX,
        ensures
            r == (SectionMappings { idx, offset: (idx * self@.element_sz()) as u32 }),
    {
        let sz: u32 = self.header.byte_size / (self.header.capacity as u32);
        assert(idx * sz <= 0xffff * 0xffff_ffff) by (nonlinear_arith)
            requires
                idx <= 0xffff,
                sz <= 0xffff_ffff,
        ;
        let offset: u64 = (idx as u64) * (sz as u64);
        SectionMappings { idx, offset: offset as u32 }
    }

    /// The first place in the mapping table whose entry has the logical index
    /// `idx`.
    pub fn rev_map(&self, idx: u16) -> (r: Option<usize>)
        ensures
            match r {
                Some(p) => self@.rev_map(idx) == Some(p as int) && p < self.mappings@.len()
                    && self.mappings@[p as int].idx == idx,
                None => self@.rev_map(idx) is None,
            },
    {
        let mut p: usize = 0;
        while p < self.mappings.len()
            invariant
                p <= self.mappings@.len(),
                forall|j: int| 0 <= j < p ==> self.mappings@[j].idx != idx,
            decreases self.mappings@.len() - p,
        {
            if self.mappings[p].idx == idx {
                proof {
                    lemma_first_mapping(self.mappings@, idx, p as int);
                    assert(0 <= p < self@.mappings.len() && self@.mappings[p as int].idx == idx);
                }
                return Some(p);
            }
            p += 1;
        }
        None
    }

    /// The bytes of the record at place `idx`.
    pub fn get_data_chunk(&self, idx: u16) -> (r: Result<&[u8], CodeplugError>)
        ensures
            match r {
                Ok(c) => self@.data_chunk(idx) == Ok::<Seq<u8>, CodeplugError>(c@),
                Err(e) => self@.data_chunk(idx) == Err::<Seq<u8>, CodeplugError>(e),
            },
    {
        let section = self.header.section_type;
        if !self.has_stride() {
            return Err(CodeplugError::UnevenSection(section));
        }
        if idx as usize >= self.mappings.len() {
            return Err(CodeplugError::MissingMapping { section, position: idx });
        }
        let sz: u64 = (self.header.byte_size / (self.header.capacity as u32)) as u64;
        let start: u64 = self.mappings[idx as usize].offset as u64;
        let len: u64 = self.data.len() as u64;
        if sz == 0 || start >= len {
            return Err(CodeplugError::MissingChunk { section, position: idx });
        }
        let end: u64 = if start + sz <= len {
            start + sz
        } else {
            len
        };
        Ok(&self.data.as_slice()[start as usize..end as usize])
    }
}

/// The sections that `load_sections` finds from offset `pos` on, added to
/// those in `found`: section after section up to the end address, a later
/// section of a type taking the place of an earlier one.
pub open spec fn sections_from(image: Seq<u8>, pos: int, end: int, found: Map<u16, SectionView>) -> Result<
    Map<u16, SectionView>,
    (usize, CodecError),
>
    decreases end - pos,
{
    if pos >= end || pos < 0 {
        Ok(found)
    } else {
        match SectionView::decode(image, pos) {
            Err(e) => Err((pos as usize, e)),
            Ok(s) => {
                let next = pos + 22 + (s.header.byte_size as nat) + 6 * (s.header.capacity as nat);
                if next >= end {
                    Ok(found.insert(s.header.section_type, s))
                } else {
                    sections_from(image, next, end, found.insert(s.header.section_type, s))
                }
            },
        }
    }
}

/// After a section that decodes, the directory goes on behind it.
pub proof fn lemma_sections_step(
    image: Seq<u8>,
    pos: int,
    end: int,
    found: Map<u16, SectionView>,
    s: SectionView,
)
    requires
        0 <= pos < end,
        SectionView::decode(image, pos) == Ok::<SectionView, CodecError>(s),
    ensures
        s.image_len() >= 22,
        sections_from(image, pos, end, found) == sections_from(
            image,
            pos + s.image_len(),
            end,
            found.insert(s.header.section_type, s),
        ),
{
}

/// A section that does not decode fails the directory, at its offset.
pub proof fn lemma_sections_fail(
    image: Seq<u8>,
    pos: int,
    end: int,
    found: Map<u16, SectionView>,
    e: CodecError,
)
    requires
        0 <= pos < end,
        SectionView::decode(image, pos) == Err::<SectionView, CodecError>(e),
    ensures
        sections_from(image, pos, end, found) == Err::<Map<u16, SectionView>, (usize, CodecError)>(
            (pos as usize, e),
        ),
{
}

/// The section directory of an image: the sections between the start of the
/// directory and the end address that the anchor holds. A failure comes with
/// the offset of what could not be read: of the anchor, or of a section.
pub open spec fn directory(image: Seq<u8>) -> Result<Map<u16, SectionView>, (usize, CodecError)> {
    if image.len() < 0x392 {
        Err((0x38e, CodecError::UnexpectedEof))
    } else {
        sections_from(image, 0x392, u32_at(image, 0x38e) as int, Map::empty())
    }
}

/// The sections of a map by their views.
pub open spec fn section_views(m: Map<u16, Section>) -> Map<u16, SectionView> {
    m.map_values(|s: Section| s@)
}

impl Section {
    /// Reads the section directory of an image.
    pub fn load_sections(image: &[u8]) -> (r: Result<Sections, (usize, CodecError)>)
        ensures
            match r {
                Ok(m) => directory(image@) == Ok::<Map<u16, SectionView>, (usize, CodecError)>(
                    section_views(m@),
                ),
                Err(e) => directory(image@) == Err::<Map<u16, SectionView>, (usize, CodecError)>(e),
            },
    {
        broadcast use vstd::std_specs::hash::group_hash_axioms;

        let mut reader = Reader::new(image);
        reader.seek(DIRECTORY_ANCHOR);
        let anchor = match reader.read_exact(4) {
            Ok(a) => a,
            Err(e) => {
                return Err((DIRECTORY_ANCHOR, e));
            },
        };
        let end_addr: u64 = get_u32(anchor, 0) as u64;
        assert(end_addr == u32_at(image@, 0x38e)) by {
            assert forall|k: int| 0 <= k < 4 implies anchor@[k] == image@[0x38e + k] by {}
        }
        let mut sections: HashMap<u16, Section> = HashMap::new();
        assert(section_views(sections@) =~= Map::empty());
        while (reader.pos as u64) < end_addr
            invariant
                reader.data@ == image@,
                reader.pos <= image@.len(),
                end_addr <= u32::MAX,
                directory(image@) == sections_from(
                    image@,
                    reader.pos as int,
                    end_addr as int,
                    section_views(sections@),
                ),
            decreases
                    (if end_addr > reader.pos {
                        end_addr - reader.pos
                    } else {
                        0
                    }),
        {
            let ghost before = section_views(sections@);
            let at: usize = reader.pos;
            let ghost pos = reader.pos;
            let section = match Section::load(&mut reader) {
                Ok(s) => s,
                Err(e) => {
                    proof {
                        lemma_sections_fail(image@, pos as int, end_addr as int, before, e);
                    }
                    return Err((at, e));
                },
            };
            let ghost v = section@;
            proof {
                lemma_sections_step(image@, pos as int, end_addr as int, before, v);
            }
            assert(reader.pos >= pos + 22);
            sections.insert(section.header.section_type, section);
            assert(section_views(sections@) =~= before.insert(v.header.section_type, v));
        }
        Ok(sections)
    }
}

} // verus!
