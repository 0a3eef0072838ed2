//! A section together with the records decoded from it, and the pairing of
//! such a collection with the collection of its channel lists.

use crate::aggregate::Codeplug;
use crate::bytes::{pad_to, put_bytes, zeros};
use crate::channel_pointer::section::{lemma_mappings_bytes_total, mappings_bytes};
use crate::cp_data::{views, CPData, RawCPData};
use crate::error::CodeplugError;
use crate::section::{patched, write_at, Section, SectionHeader, SectionMappings, SectionView};
use vstd::prelude::*;

verus! {

/// The records of one section.
pub struct CodeplugSection<T: CPData> {
    /// The section as it was read, with the header kept up to date.
    pub sec: Section,
    /// The records in use, by their place.
    pub data: Vec<T>,
}

/// A section and its records, by their views.
pub struct CollectionView<V> {
    pub sec: SectionView,
    pub data: Seq<V>,
}

impl<T: CPData> View for CodeplugSection<T> {
    type V = CollectionView<T::V>;

    open spec fn view(&self) -> CollectionView<T::V> {
        CollectionView { sec: self.sec@, data: views(self.data@) }
    }
}

/// Whether every record of a collection fits the codeplug: `Ok`, or what is
/// wrong with the first record that does not, with the section type and the
/// place of the record.
pub open spec fn verify_records<T: CPData>(data: Seq<T::V>, cp: &Codeplug, section: u16) -> Result<
    (),
    CodeplugError,
>
    decreases data.len(),
{
    if data.len() == 0 {
        Ok(())
    } else {
        match verify_records::<T>(data.drop_last(), cp, section) {
            Err(e) => Err(e),
            Ok(_) => match T::spec_verify(data.last(), cp) {
                Ok(_) => Ok(()),
                Err(reason) => Err(
                    CodeplugError::Reference {
                        section,
                        index: (data.len() - 1) as usize,
                        reason,
                    },
                ),
            },
        }
    }
}

/// A failure among the first records of a collection is the failure of the
/// whole collection.
pub proof fn lemma_verify_records_fails<T: CPData>(
    data: Seq<T::V>,
    cp: &Codeplug,
    section: u16,
    n: int,
    e: CodeplugError,
)
    requires
        0 <= n <= data.len(),
        verify_records::<T>(data.subrange(0, n), cp, section) == Err::<(), CodeplugError>(e),
    ensures
        verify_records::<T>(data, cp, section) == Err::<(), CodeplugError>(e),
    decreases data.len() - n,
{
    if n < data.len() {
        let next = data.subrange(0, n + 1);
        assert(next.drop_last() =~= data.subrange(0, n));
        lemma_verify_records_fails::<T>(data, cp, section, n + 1, e);
    } else {
        assert(data.subrange(0, n) =~= data);
    }
}

/// A collection with a record that does not fit the codeplug does not
/// verify.
pub proof fn lemma_verify_records_rejects<T: CPData>(
    data: Seq<T::V>,
    cp: &Codeplug,
    section: u16,
    k: int,
)
    requires
        0 <= k < data.len(),
        T::spec_verify(data[k], cp) is Err,
    ensures
        verify_records::<T>(data, cp, section) is Err,
    decreases data.len(),
{
    if k < data.len() - 1 {
        lemma_verify_records_rejects::<T>(data.drop_last(), cp, section, k);
    }
}

/// The bytes of a record as they stand in a slot of `sz` bytes: cut where
/// they are longer, filled with zeros where they are shorter.
pub open spec fn fitted(b: Seq<u8>, sz: int) -> Seq<u8> {
    if b.len() >= sz {
        b.subrange(0, sz)
    } else {
        b + zeros((sz - b.len()) as nat)
    }
}

/// The records of a collection, each in its slot of `sz` bytes, one after
/// the other; or the failure of the first record that cannot be encoded.
pub open spec fn records_bytes<T: CPData>(data: Seq<T::V>, sz: int, section: u16) -> Result<
    Seq<u8>,
    CodeplugError,
>
    decreases data.len(),
{
    if data.len() == 0 {
        Ok(Seq::empty())
    } else {
        match records_bytes::<T>(data.drop_last(), sz, section) {
            Err(e) => Err(e),
            Ok(front) => match T::spec_store(data.last()) {
                Err(cause) => Err(
                    CodeplugError::Encode { section, index: (data.len() - 1) as usize, cause },
                ),
                Ok(b) => Ok(front + fitted(b, sz)),
            },
        }
    }
}

/// Number of records whose bytes do not have the length of a slot.
pub open spec fn resized_records<T: CPData>(data: Seq<T::V>, sz: int) -> nat
    decreases data.len(),
{
    if data.len() == 0 {
        0
    } else {
        resized_records::<T>(data.drop_last(), sz) + match T::spec_store(data.last()) {
            Ok(b) => if b.len() != sz {
                1nat
            } else {
                0nat
            },
            Err(_) => 0nat,
        }
    }
}

/// A failure among the first records of a collection is the failure of the
/// whole collection.
pub proof fn lemma_records_bytes_fails<T: CPData>(
    data: Seq<T::V>,
    sz: int,
    section: u16,
    n: int,
    e: CodeplugError,
)
    requires
        0 <= n <= data.len(),
        records_bytes::<T>(data.subrange(0, n), sz, section) == Err::<Seq<u8>, CodeplugError>(e),
    ensures
        records_bytes::<T>(data, sz, section) == Err::<Seq<u8>, CodeplugError>(e),
    decreases data.len() - n,
{
    if n < data.len() {
        let next = data.subrange(0, n + 1);
        assert(next.drop_last() =~= data.subrange(0, n));
        lemma_records_bytes_fails::<T>(data, sz, section, n + 1, e);
    } else {
        assert(data.subrange(0, n) =~= data);
    }
}

/// The table that a section is written with: for each slot its own index and
/// its offset in the record region.
pub open spec fn fresh_mappings(capacity: nat, sz: int) -> Seq<SectionMappings> {
    Seq::new(capacity, |i: int| SectionMappings { idx: i as u16, offset: (i * sz) as u32 })
}

/// The bytes that a collection is written as, without regard to its
/// address: the header, the records in their slots, zeros up to the byte size
/// of the header, and a table made anew.
pub open spec fn section_block<T: CPData>(v: CollectionView<T::V>, section: u16) -> Result<
    Seq<u8>,
    CodeplugError,
> {
    if !v.sec.has_stride() {
        Err(CodeplugError::UnevenSection(section))
    } else {
        match records_bytes::<T>(v.data, v.sec.element_sz(), section) {
            Err(e) => Err(e),
            Ok(records) => if records.len() >= v.sec.header.byte_size {
                Err(CodeplugError::SectionOverflow(section))
            } else {
                match v.sec.header.encode() {
                    Err(cause) => Err(CodeplugError::Header { section, cause }),
                    Ok(header) => Ok(
                        header + records + zeros((v.sec.header.byte_size - records.len()) as nat)
                            + mappings_bytes(
                            fresh_mappings(v.sec.header.capacity as nat, v.sec.element_sz()),
                        ),
                    ),
                }
            },
        }
    }
}

/// The bytes that a collection is written as; a section that would end
/// beyond what this machine can index is refused.
pub open spec fn section_image<T: CPData>(v: CollectionView<T::V>, section: u16) -> Result<
    Seq<u8>,
    CodeplugError,
> {
    match section_block::<T>(v, section) {
        Err(e) => Err(e),
        Ok(block) => if v.sec.addr + v.sec.image_len() > usize::MAX {
            Err(CodeplugError::Address(section))
        } else {
            Ok(block)
        },
    }
}

/// What writing a collection makes of an image: the image with the bytes of
/// the collection at the address of its section; or a failure, and the image
/// as it was.
#[verifier::opaque]
pub open spec fn section_written<T: CPData>(
    v: CollectionView<T::V>,
    section: u16,
    image: Seq<u8>,
) -> (Seq<u8>, Result<nat, CodeplugError>) {
    match section_image::<T>(v, section) {
        Err(e) => (image, Err(e)),
        Ok(block) => (
            patched(image, v.sec.addr as int, block),
            Ok(resized_records::<T>(v.data, v.sec.element_sz())),
        ),
    }
}

impl<T: CPData> CodeplugSection<T> {
    /// Whether one more record can be inserted: the count after it stays
    /// below the capacity.
    pub open spec fn spec_has_room(&self) -> bool {
        self.sec.header.elements_in_use + 1 < self.sec.header.capacity
    }

    /// Whether one more record can be inserted.
    pub fn has_room(&self) -> (r: bool)
        ensures
            r == self.spec_has_room(),
    {
        self.sec.header.elements_in_use < u16::MAX && self.sec.header.elements_in_use + 1
            < self.sec.header.capacity
    }

    /// Appends a record and counts it in the header. Gives the place of the
    /// record.
    pub fn insert(&mut self, obj: T) -> (n: usize)
        requires
            old(self).spec_has_room(),
        ensures
            n == old(self).data@.len(),
            inserted(old(self), final(self), obj),
            final(self).sec.header.elements_in_use < final(self).sec.header.capacity,
    {
        let n = self.data.len();
        self.data.push(obj);
        self.sec.header.elements_in_use = self.sec.header.elements_in_use + 1;
        n
    }

    /// Appends a record where there is room for it; a full section stays as
    /// it is and hands the record back.
    pub fn try_insert(&mut self, obj: T) -> (r: Result<usize, T>)
        ensures
            match r {
                Ok(n) => old(self).spec_has_room() && n == old(self).data@.len() && inserted(
                    old(self),
                    final(self),
                    obj,
                ),
                Err(o) => !old(self).spec_has_room() && o == obj && *final(self) == *old(self),
            },
    {
        if self.has_room() {
            Ok(self.insert(obj))
        } else {
            Err(obj)
        }
    }

    /// Whether the collection fits the codeplug: the header counts the
    /// records that are there, and every record fits.
    pub open spec fn spec_verify(&self, cp: &Codeplug) -> Result<(), CodeplugError> {
        if self.sec.header.elements_in_use != self.data@.len() {
            Err(CodeplugError::CountMismatch(T::spec_cp_section()))
        } else {
            verify_records::<T>(views(self.data@), cp, T::spec_cp_section())
        }
    }

    /// Checks that the header counts the records that are there, and every
    /// record against the codeplug. The first failure is reported.
    pub fn verify(&self, cp: &Codeplug) -> (r: Result<(), CodeplugError>)
        ensures
            r == self.spec_verify(cp),
    {
        let section = T::cp_section();
        if self.sec.header.elements_in_use as usize != self.data.len() {
            return Err(CodeplugError::CountMismatch(section));
        }
        let ghost all = views(self.data@);
        let mut i: usize = 0;
        assert(all.subrange(0, 0) =~= Seq::<T::V>::empty());
        while i < self.data.len()
            invariant
                i <= self.data@.len(),
                self.sec.header.elements_in_use == self.data@.len(),
                all == views(self.data@),
                section == T::spec_cp_section(),
                verify_records::<T>(all.subrange(0, i as int), cp, section) == Ok::<
                    (),
                    CodeplugError,
                >(()),
            decreases self.data@.len() - i,
        {
            let ghost front = all.subrange(0, i as int);
            let ghost next = all.subrange(0, i + 1);
            assert(next.drop_last() =~= front);
            assert(next.last() == self.data@[i as int]@);
            match self.data[i].verify(cp) {
                Ok(_) => {},
                Err(reason) => {
                    let e = CodeplugError::Reference { section, index: i, reason };
                    proof {
                        lemma_verify_records_fails::<T>(all, cp, section, i + 1, e);
                    }
                    return Err(e);
                },
            }
            i += 1;
        }
        assert(all.subrange(0, i as int) =~= all);
        Ok(())
    }

    /// Encodes every record into its slot. Gives the bytes and the number of
    /// records that were cut or filled.
    fn encode_records(&self, sz: usize) -> (r: Result<(Vec<u8>, usize), CodeplugError>)
        ensures
            match r {
                Ok((b, n)) => records_bytes::<T>(
                    views(self.data@),
                    sz as int,
                    T::spec_cp_section(),
                ) == Ok::<Seq<u8>, CodeplugError>(b@) && n == resized_records::<T>(
                    views(self.data@),
                    sz as int,
                ) && n <= self.data@.len() && (sz >= 1 ==> self.data@.len() <= b@.len()),
                Err(e) => records_bytes::<T>(views(self.data@), sz as int, T::spec_cp_section())
                    == Err::<Seq<u8>, CodeplugError>(e),
            },
    {
        let section = T::cp_section();
        let ghost all = views(self.data@);
        let mut buf: Vec<u8> = Vec::new();
        let mut resized: usize = 0;
        let mut i: usize = 0;
        assert(all.subrange(0, 0) =~= Seq::<T::V>::empty());
        while i < self.data.len()
            invariant
                i <= self.data@.len(),
                all == views(self.data@),
                section == T::spec_cp_section(),
                records_bytes::<T>(all.subrange(0, i as int), sz as int, section) == Ok::<
                    Seq<u8>,
                    CodeplugError,
                >(buf@),
                resized == resized_records::<T>(all.subrange(0, i as int), sz as int),
                resized <= i,
                sz >= 1 ==> i <= buf@.len(),
            decreases self.data@.len() - i,
        {
            let ghost front = all.subrange(0, i as int);
            let ghost next = all.subrange(0, i + 1);
            assert(next.drop_last() =~= front);
            assert(next.last() == self.data@[i as int]@);
            let mut obj_buf: Vec<u8> = Vec::new();
            match self.data[i].store(&mut obj_buf) {
                Ok(_) => {},
                Err(cause) => {
                    let e = CodeplugError::Encode { section, index: i, cause };
                    proof {
                        lemma_records_bytes_fails::<T>(all, sz as int, section, i + 1, e);
                    }
                    return Err(e);
                },
            }
            let ghost encoded = obj_buf@;
            if obj_buf.len() != sz {
                resized = resized + 1;
                if obj_buf.len() > sz {
                    obj_buf.truncate(sz);
                } else {
                    pad_to(&mut obj_buf, sz);
                }
            }
            assert(obj_buf@ =~= fitted(encoded, sz as int));
            assert(obj_buf@.len() == sz);
            put_bytes(&mut buf, obj_buf.as_slice());
            i += 1;
        }
        assert(all.subrange(0, i as int) =~= all);
        Ok((buf, resized))
    }

    /// Appends to `out` the table that the section is written with.
    fn write_mappings(&self, out: &mut Vec<u8>)
        requires
            self.sec@.has_stride(),
        ensures
            final(out)@ == old(out)@ + mappings_bytes(
                fresh_mappings(self.sec.header.capacity as nat, self.sec@.element_sz()),
            ),
    {
        let capacity = self.sec.header.capacity;
        let ghost sz = self.sec@.element_sz();
        let ghost table = fresh_mappings(capacity as nat, sz);
        let mut i: u16 = 0;
        assert(table.subrange(0, 0) =~= Seq::<SectionMappings>::empty());
        while i < capacity
            invariant
                i <= capacity,
                capacity == self.sec.header.capacity,
                self.sec@.has_stride(),
                sz == self.sec@.element_sz(),
                table == fresh_mappings(capacity as nat, sz),
                out@ == old(out)@ + mappings_bytes(table.subrange(0, i as int)),
            decreases capacity - i,
        {
            let ghost front = table.subrange(0, i as int);
            let ghost next = table.subrange(0, i + 1);
            assert(next.drop_last() =~= front);
            assert(i * sz <= self.sec.header.byte_size) by (nonlinear_arith)
                requires
                    i < capacity,
                    capacity > 0,
                    sz == self.sec.header.byte_size as int / capacity as int,
                    sz >= 0,
            ;
            let m = self.sec.get_mapping(i);
            assert(m == next.last());
            m.write(out);
            i += 1;
        }
        assert(table.subrange(0, i as int) =~= table);
    }

    /// The bytes that the collection is written as, without regard to its
    /// address, and the number of records that were cut or filled.
    fn render(&self) -> (r: Result<(Vec<u8>, usize), CodeplugError>)
        ensures
            match r {
                Ok((block, n)) => section_block::<T>(self@, T::spec_cp_section()) == Ok::<
                    Seq<u8>,
                    CodeplugError,
                >(block@) && block@.len() == self.sec@.image_len() && n == resized_records::<T>(
                    views(self.data@),
                    self.sec@.element_sz(),
                ) && n <= u32::MAX,
                Err(e) => section_block::<T>(self@, T::spec_cp_section()) == Err::<
                    Seq<u8>,
                    CodeplugError,
                >(e),
            },
    {
        let section = T::cp_section();
        if !self.sec.has_stride() {
            return Err(CodeplugError::UnevenSection(section));
        }
        let sz = self.sec.get_element_sz();
        let mut block: Vec<u8> = Vec::new();
        let header = self.sec.header.write(&mut block);
        let (mut buf, resized) = self.encode_records(sz)?;
        let byte_size = self.sec.header.byte_size as usize;
        if buf.len() >= byte_size {
            return Err(CodeplugError::SectionOverflow(section));
        }
        match header {
            Ok(_) => {},
            Err(cause) => {
                return Err(CodeplugError::Header { section, cause });
            },
        }
        let ghost head = block@;
        let ghost records = buf@;
        proof {
            lemma_stride_positive(
                self.sec.header.capacity as int,
                self.sec.header.byte_size as int,
            );
        }
        assert(resized <= u32::MAX);
        pad_to(&mut buf, byte_size);
        let ghost region = buf@;
        assert(region =~= records + zeros((byte_size - records.len()) as nat));
        proof {
            crate::section::lemma_section_header_layout(self.sec.header);
        }
        put_bytes(&mut block, buf.as_slice());
        self.write_mappings(&mut block);
        let ghost table = mappings_bytes(
            fresh_mappings(self.sec.header.capacity as nat, self.sec@.element_sz()),
        );
        proof {
            lemma_mappings_bytes_total(
                fresh_mappings(self.sec.header.capacity as nat, self.sec@.element_sz()),
            );
        }
        assert(block@ =~= head + records + zeros((byte_size - records.len()) as nat) + table);
        Ok((block, resized))
    }

    /// Writes the collection into an image at the address of its section:
    /// the header, every record in its slot, zeros up to the byte size of the
    /// header, and a table made anew. A record longer than a slot is cut, a
    /// shorter one is filled with zeros; the number of such records is the
    /// result. Where anything fails the image stays as it was.
    pub fn write(&self, image: &mut Vec<u8>) -> (r: Result<usize, CodeplugError>)
        ensures
            final(image)@ == section_written::<T>(self@, T::spec_cp_section(), old(image)@).0,
            match r {
                Ok(n) => section_written::<T>(self@, T::spec_cp_section(), old(image)@).1 == Ok::<
                    nat,
                    CodeplugError,
                >(n as nat) && n <= u32::MAX,
                Err(e) => section_written::<T>(self@, T::spec_cp_section(), old(image)@).1 == Err::<
                    nat,
                    CodeplugError,
                >(e),
            },
    {
        reveal(section_written);
        let (block, resized) = self.render()?;
        if self.sec.addr > (usize::MAX - block.len()) as u64 {
            return Err(CodeplugError::Address(T::cp_section()));
        }
        write_at(image, self.sec.addr as usize, block.as_slice());
        Ok(resized)
    }

    /// Removes every record and sets the count of the header to zero. The
    /// section stays as it is otherwise.
    pub fn clear(&mut self)
        ensures
            cleared(old(self), final(self)),
    {
        self.sec.header.elements_in_use = 0;
        self.data.clear();
    }
}

/// What writing one more collection makes of an image and of the count of
/// cut or filled records so far; after a failure nothing more is written.
pub open spec fn then_written<T: CPData>(
    before: (Seq<u8>, Result<nat, CodeplugError>),
    v: CollectionView<T::V>,
    section: u16,
) -> (Seq<u8>, Result<nat, CodeplugError>) {
    match before.1 {
        Err(e) => before,
        Ok(n) => {
            let step = section_written::<T>(v, section, before.0);
            (
                step.0,
                match step.1 {
                    Err(e) => Err(e),
                    Ok(m) => Ok(n + m),
                },
            )
        },
    }
}

/// A region that is not empty and divides evenly into its slots has no empty
/// slot.
pub proof fn lemma_stride_positive(capacity: int, byte_size: int)
    requires
        capacity > 0,
        byte_size > 0,
        byte_size % capacity == 0,
    ensures
        byte_size / capacity >= 1,
{
    assert(byte_size / capacity >= 1) by (nonlinear_arith)
        requires
            capacity > 0,
            byte_size % capacity == 0,
            byte_size > 0,
    ;
}

/// Whether `after` is the collection `before` with `obj` appended: one more
/// record, one more in the count of the header, and the section as it was
/// otherwise.
pub open spec fn inserted<T: CPData>(
    before: &CodeplugSection<T>,
    after: &CodeplugSection<T>,
    obj: T,
) -> bool {
    &&& after.data@ == before.data@.push(obj)
    &&& after.sec@ == (SectionView { header: after.sec.header, ..before.sec@ })
    &&& after.sec.header == (SectionHeader {
        elements_in_use: (before.sec.header.elements_in_use + 1) as u16,
        ..before.sec.header
    })
}

/// Whether `after` is the collection `before` emptied: no records, a count of
/// zero in the header, and the section as it was otherwise.
pub open spec fn cleared<T: CPData>(before: &CodeplugSection<T>, after: &CodeplugSection<T>) -> bool {
    &&& after.data@.len() == 0
    &&& after.sec@ == (SectionView { header: after.sec.header, ..before.sec@ })
    &&& after.sec.header == (SectionHeader { elements_in_use: 0, ..before.sec.header })
}

/// A collection of records together with the collection of their channel
/// lists: the list at a place belongs to the record at that place.
pub struct CodeplugSectionWithChanList<T: CPData, M: CPData> {
    pub data: CodeplugSection<T>,
    pub channels: CodeplugSection<M>,
}

/// A collection and the collection of its channel lists, by their views.
pub struct PairedView<A, B> {
    pub data: CollectionView<A>,
    pub channels: CollectionView<B>,
}

impl<T: CPData, M: CPData> View for CodeplugSectionWithChanList<T, M> {
    type V = PairedView<T::V, M::V>;

    open spec fn view(&self) -> PairedView<T::V, M::V> {
        PairedView { data: self.data@, channels: self.channels@ }
    }
}

impl<T: CPData, M: CPData> CodeplugSectionWithChanList<T, M> {
    /// Whether a record and its list can be inserted: both collections have
    /// room, and they hold the same number of records.
    pub open spec fn spec_has_room(&self) -> bool {
        &&& self.data.spec_has_room()
        &&& self.channels.spec_has_room()
        &&& self.data.data@.len() == self.channels.data@.len()
    }

    /// Whether a record and its list can be inserted.
    pub fn has_room(&self) -> (r: bool)
        ensures
            r == self.spec_has_room(),
    {
        self.data.has_room() && self.channels.has_room() && self.data.data.len()
            == self.channels.data.len()
    }

    /// Whether the pair fits the codeplug: the two headers count the same
    /// number of records, and both collections verify.
    pub open spec fn spec_verify(&self, cp: &Codeplug) -> Result<(), CodeplugError> {
        if self.data.sec.header.elements_in_use != self.channels.sec.header.elements_in_use {
            Err(CodeplugError::ParityMismatch(T::spec_cp_section()))
        } else {
            match self.data.spec_verify(cp) {
                Err(e) => Err(e),
                Ok(_) => self.channels.spec_verify(cp),
            }
        }
    }

    /// Checks that the two headers count the same number of records, then the
    /// records, then the lists. The first failure is reported.
    pub fn verify(&self, cp: &Codeplug) -> (r: Result<(), CodeplugError>)
        ensures
            r == self.spec_verify(cp),
    {
        if self.data.sec.header.elements_in_use != self.channels.sec.header.elements_in_use {
            return Err(CodeplugError::ParityMismatch(T::cp_section()));
        }
        self.data.verify(cp)?;
        self.channels.verify(cp)
    }

    /// Writes the records, then the lists, each into its own section. Gives
    /// the number of records and lists that were cut or filled. Where the
    /// lists fail the records are written already.
    pub fn write(&self, image: &mut Vec<u8>) -> (r: Result<u64, CodeplugError>)
        ensures
            final(image)@ == then_written::<M>(
                then_written::<T>(
                    (old(image)@, Ok(0nat)),
                    self.data@,
                    T::spec_cp_section(),
                ),
                self.channels@,
                M::spec_cp_section(),
            ).0,
            match r {
                Ok(n) => then_written::<M>(
                    then_written::<T>(
                        (old(image)@, Ok(0nat)),
                        self.data@,
                        T::spec_cp_section(),
                    ),
                    self.channels@,
                    M::spec_cp_section(),
                ).1 == Ok::<nat, CodeplugError>(n as nat) && n <= 2 * u32::MAX,
                Err(e) => then_written::<M>(
                    then_written::<T>(
                        (old(image)@, Ok(0nat)),
                        self.data@,
                        T::spec_cp_section(),
                    ),
                    self.channels@,
                    M::spec_cp_section(),
                ).1 == Err::<nat, CodeplugError>(e),
            },
    {
        let n = self.data.write(image)?;
        let m = self.channels.write(image)?;
        Ok(n as u64 + m as u64)
    }

    /// Removes every record and every list.
    pub fn clear(&mut self)
        ensures
            cleared(&old(self).data, &final(self).data),
            cleared(&old(self).channels, &final(self).channels),
    {
        self.data.clear();
        self.channels.clear();
    }

    /// Appends a record and its list. Gives the place of both.
    pub fn insert(&mut self, obj: T, channels: M) -> (n: usize)
        requires
            old(self).spec_has_room(),
        ensures
            n == old(self).data.data@.len(),
            inserted(&old(self).data, &final(self).data, obj),
            inserted(&old(self).channels, &final(self).channels, channels),
    {
        let n = self.data.insert(obj);
        let _ = self.channels.insert(channels);
        n
    }
}

} // verus!
