//! What every record of a codeplug can do: be decoded from the start of a
//! chunk of bytes and be appended, encoded, to a byte vector. Also the codec
//! of the fixed-width name field that most records start with.

use crate::aggregate::Codeplug;
use crate::bytes::{get_u16, put_u16, u16_at, u16_le_bytes};
use crate::collection::{CodeplugSection, CollectionView};
use crate::error::{CodecError, CodeplugError, ReferenceError};
use crate::section::{section_views, Section, SectionView, Sections};
use crate::utf16::{
    decode_utf16, encode_utf16, lemma_utf16_nul_free, lemma_utf16_roundtrip, utf16_decode,
    utf16_encode,
};
use vstd::prelude::*;

verus! {

/// A value with a binary form. `spec_load` and `spec_store` are the format;
/// `load` and `store` compute them.
pub trait RawCPData: Sized + View {
    /// What a chunk of bytes decodes to. Bytes after the record are ignored.
    spec fn spec_load(bytes: Seq<u8>) -> Result<Self::V, CodecError>;

    /// The bytes of a value, or the reason why it has none.
    spec fn spec_store(v: Self::V) -> Result<Seq<u8>, CodecError>;

    /// Decodes the record at the start of `bytes`.
    fn load(bytes: &[u8]) -> (r: Result<Self, CodecError>)
        ensures
            match r {
                Ok(v) => Self::spec_load(bytes@) == Ok::<Self::V, CodecError>(v@),
                Err(e) => Self::spec_load(bytes@) == Err::<Self::V, CodecError>(e),
            },
    ;

    /// Appends the bytes of the value to `out`, or fails and leaves `out` as
    /// it was.
    fn store(&self, out: &mut Vec<u8>) -> (r: Result<(), CodecError>)
        ensures
            match Self::spec_store(self@) {
                Ok(b) => r is Ok && final(out)@ == old(out)@ + b,
                Err(e) => r == Err::<(), CodecError>(e) && final(out)@ == old(out)@,
            },
    ;
}

/// The views of the values of a sequence.
pub open spec fn views<T: View>(s: Seq<T>) -> Seq<T::V> {
    s.map_values(|t: T| t@)
}

/// What the record at place `idx` of a section decodes to: its chunk of the
/// record region, decoded; a failure names the section type `section` and
/// the place.
pub open spec fn fetch_elm_spec<T: RawCPData>(sec: SectionView, section: u16, idx: u16) -> Result<
    T::V,
    CodeplugError,
> {
    match sec.data_chunk(idx) {
        Err(e) => Err(e),
        Ok(chunk) => match T::spec_load(chunk) {
            Ok(v) => Ok(v),
            Err(cause) => Err(CodeplugError::Decode { section, position: idx, cause }),
        },
    }
}

/// What the first `n` records of a section decode to, or the failure of the
/// first of them that fails.
pub open spec fn fetch_all<T: RawCPData>(sec: SectionView, section: u16, n: nat) -> Result<
    Seq<T::V>,
    CodeplugError,
>
    decreases n,
{
    if n == 0 {
        Ok(Seq::empty())
    } else {
        match fetch_all::<T>(sec, section, (n - 1) as nat) {
            Err(e) => Err(e),
            Ok(front) => match fetch_elm_spec::<T>(sec, section, (n - 1) as u16) {
                Err(e) => Err(e),
                Ok(v) => Ok(front.push(v)),
            },
        }
    }
}

/// What `fetch_section` makes of a section directory for the section type
/// `section`.
pub open spec fn fetch_section_spec<T: RawCPData>(sections: Map<u16, SectionView>, section: u16) -> Result<
    CollectionView<T::V>,
    CodeplugError,
> {
    if !sections.contains_key(section) {
        Err(CodeplugError::MissingSection(section))
    } else {
        let sec = sections[section];
        match fetch_all::<T>(sec, section, sec.header.elements_in_use as nat) {
            Err(e) => Err(e),
            Ok(data) => Ok(CollectionView { sec, data }),
        }
    }
}

/// A record that has a section of its own in the codeplug.
pub trait CPData: RawCPData {
    /// The type of the section that holds the records.
    spec fn spec_cp_section() -> u16;

    /// Whether a record fits a codeplug: `Ok`, or what is wrong with it.
    spec fn spec_verify(v: Self::V, cp: &Codeplug) -> Result<(), ReferenceError>;

    /// The type of the section that holds the records.
    fn cp_section() -> (id: u16)
        ensures
            id == Self::spec_cp_section(),
    ;

    /// Checks the record against the codeplug that holds it.
    fn verify(&self, cp: &Codeplug) -> (r: Result<(), ReferenceError>)
        ensures
            r == Self::spec_verify(self@, cp),
    ;

    /// The section of the records in a section directory.
    fn get_section(sections: &Sections) -> (r: Result<&Section, CodeplugError>)
        ensures
            match r {
                Ok(s) => sections@.contains_key(Self::spec_cp_section()) && *s
                    == sections@[Self::spec_cp_section()],
                Err(e) => !sections@.contains_key(Self::spec_cp_section()) && e
                    == CodeplugError::MissingSection(Self::spec_cp_section()),
            },
    {
        broadcast use vstd::std_specs::hash::group_hash_axioms;

        match sections.get(&Self::cp_section()) {
            Some(s) => Ok(s),
            None => Err(CodeplugError::MissingSection(Self::cp_section())),
        }
    }

    /// Decodes the record at place `idx` of the section of the records.
    fn fetch_elm(sections: &Sections, idx: u16) -> (r: Result<Self, CodeplugError>)
        ensures
            match r {
                Ok(v) => sections@.contains_key(Self::spec_cp_section()) && fetch_elm_spec::<Self>(
                    sections@[Self::spec_cp_section()]@,
                    Self::spec_cp_section(),
                    idx,
                ) == Ok::<Self::V, CodeplugError>(v@),
                Err(e) => if sections@.contains_key(Self::spec_cp_section()) {
                    fetch_elm_spec::<Self>(
                        sections@[Self::spec_cp_section()]@,
                        Self::spec_cp_section(),
                        idx,
                    ) == Err::<Self::V, CodeplugError>(e)
                } else {
                    e == CodeplugError::MissingSection(Self::spec_cp_section())
                },
            },
    {
        let sec = Self::get_section(sections)?;
        let chunk = sec.get_data_chunk(idx)?;
        match Self::load(chunk) {
            Ok(v) => Ok(v),
            Err(cause) => Err(
                CodeplugError::Decode { section: Self::cp_section(), position: idx, cause },
            ),
        }
    }

    /// Decodes every record in use of the section of the records.
    fn fetch_section(sections: &Sections) -> (r: Result<CodeplugSection<Self>, CodeplugError>)
        ensures
            match r {
                Ok(cs) => fetch_section_spec::<Self>(
                    section_views(sections@),
                    Self::spec_cp_section(),
                ) == Ok::<CollectionView<Self::V>, CodeplugError>(
                    CollectionView { sec: cs.sec@, data: views(cs.data@) },
                ),
                Err(e) => fetch_section_spec::<Self>(
                    section_views(sections@),
                    Self::spec_cp_section(),
                ) == Err::<CollectionView<Self::V>, CodeplugError>(e),
            },
    {
        let sec = Self::get_section(sections)?;
        let ghost id = Self::spec_cp_section();
        let ghost sv = sec@;
        assert(section_views(sections@)[id] == sv);
        let mut data: Vec<Self> = Vec::new();
        let mut n: u16 = 0;
        assert(views(data@) =~= Seq::<Self::V>::empty());
        while n < sec.header.elements_in_use
            invariant
                n <= sec.header.elements_in_use,
                id == Self::spec_cp_section(),
                sections@.contains_key(id),
                *sec == sections@[id],
                sv == sec@,
                fetch_all::<Self>(sv, id, n as nat) == Ok::<Seq<Self::V>, CodeplugError>(
                    views(data@),
                ),
            decreases sec.header.elements_in_use - n,
        {
            let ghost front = views(data@);
            match Self::fetch_elm(sections, n) {
                Ok(v) => {
                    let ghost vv = v@;
                    data.push(v);
                    assert(views(data@) =~= front.push(vv));
                },
                Err(e) => {
                    proof {
                        lemma_fetch_all_fails::<Self>(
                            sv,
                            id,
                            (n + 1) as nat,
                            sec.header.elements_in_use as nat,
                            e,
                        );
                    }
                    return Err(e);
                },
            }
            n += 1;
        }
        Ok(CodeplugSection { sec: sec.duplicate(), data })
    }
}

/// Once a record fails, fetching more records fails in the same way.
pub proof fn lemma_fetch_all_fails<T: RawCPData>(
    sec: SectionView,
    section: u16,
    n: nat,
    m: nat,
    e: CodeplugError,
)
    requires
        n <= m,
        fetch_all::<T>(sec, section, n) == Err::<Seq<T::V>, CodeplugError>(e),
    ensures
        fetch_all::<T>(sec, section, m) == Err::<Seq<T::V>, CodeplugError>(e),
    decreases m - n,
{
    if n < m {
        lemma_fetch_all_fails::<T>(sec, section, n, (m - 1) as nat, e);
    }
}

/// Number of UTF-16 code units in a name field.
pub const NAME_UNITS: usize = 16;

/// Number of bytes in a name field.
pub const NAME_BYTES: usize = 32;

/// The code units of the name field at the start of `b`.
pub open spec fn name_units(b: Seq<u8>) -> Seq<u16> {
    Seq::new(16, |i: int| u16_at(b, 2 * i))
}

/// Index of the first zero in `u`, or its length where it holds none.
pub open spec fn nul_position(u: Seq<u16>) -> int
    decreases u.len(),
{
    if u.len() == 0 || u[0] == 0 {
        0
    } else {
        1 + nul_position(u.drop_first())
    }
}

/// The text of the name field at the start of `b`: what stands before the
/// first zero code unit, if that is well-formed UTF-16.
pub open spec fn name_text(b: Seq<u8>) -> Option<Seq<char>> {
    let u = name_units(b);
    utf16_decode(u.subrange(0, nul_position(u)))
}

/// The code unit at place `i` of a name field that holds `s`.
pub open spec fn name_unit(s: Seq<char>, i: int) -> u16 {
    let u = utf16_encode(s);
    if 0 <= i < u.len() {
        u[i]
    } else {
        0
    }
}

/// The bytes of a name field that holds `s`: its code units, then zeros.
pub open spec fn name_bytes(s: Seq<char>) -> Seq<u8> {
    Seq::new(32, |i: int| u16_le_bytes(name_unit(s, i / 2))[i % 2])
}

/// A text that a name field has room for.
pub open spec fn name_fits(s: Seq<char>) -> bool {
    utf16_encode(s).len() <= 16
}

/// A text that a name field gives back unchanged: it fits, and holds no
/// character zero.
pub open spec fn name_valid(s: Seq<char>) -> bool {
    &&& name_fits(s)
    &&& forall|i: int| 0 <= i < s.len() ==> s[i] as u32 != 0
}

/// `nul_position` is the place of the first zero.
pub proof fn lemma_nul_position(u: Seq<u16>, p: int)
    requires
        0 <= p <= u.len(),
        forall|j: int| 0 <= j < p ==> u[j] != 0,
        p < u.len() ==> u[p] == 0,
    ensures
        nul_position(u) == p,
    decreases u.len(),
{
    if u.len() == 0 || u[0] == 0 {
    } else {
        let t = u.drop_first();
        assert forall|j: int| 0 <= j < p - 1 implies t[j] != 0 by {
            assert(t[j] == u[j + 1]);
        }
        lemma_nul_position(t, p - 1);
    }
}

/// The name field depends on its thirty-two bytes only.
pub proof fn lemma_name_text_prefix(b: Seq<u8>, c: Seq<u8>)
    requires
        b.len() >= 32,
        c.len() >= 32,
        b.subrange(0, 32) == c.subrange(0, 32),
    ensures
        name_units(b) == name_units(c),
        name_text(b) == name_text(c),
{
    assert forall|i: int| 0 <= i < 32 implies b[i] == c[i] by {
        assert(b.subrange(0, 32)[i] == b[i]);
        assert(c.subrange(0, 32)[i] == c[i]);
    }
    assert(name_units(b) =~= name_units(c));
}

/// A valid name survives being written and read back.
pub proof fn lemma_name_roundtrip(s: Seq<char>)
    requires
        name_valid(s),
    ensures
        name_bytes(s).len() == 32,
        name_text(name_bytes(s)) == Some(s),
{
    let u = utf16_encode(s);
    let b = name_bytes(s);
    let units = name_units(b);
    assert forall|i: int| 0 <= i < 16 implies #[trigger] units[i] == name_unit(s, i) by {
        let x = name_unit(s, i);
        assert(b[2 * i] == u16_le_bytes(x)[0]);
        assert(b[2 * i + 1] == u16_le_bytes(x)[1]);
    }
    lemma_utf16_nul_free(s);
    lemma_nul_position(units, u.len() as int);
    assert(units.subrange(0, u.len() as int) =~= u);
    lemma_utf16_roundtrip(s);
}

/// What the name field at the start of a chunk decodes to.
pub open spec fn name_decode(bytes: Seq<u8>) -> Result<Seq<char>, CodecError> {
    if bytes.len() < 32 {
        Err(CodecError::UnexpectedEof)
    } else {
        match name_text(bytes) {
            Some(s) => Ok(s),
            None => Err(CodecError::InvalidName),
        }
    }
}

/// The name field that holds a text, if the text fits.
pub open spec fn name_encode(v: Seq<char>) -> Result<Seq<u8>, CodecError> {
    if name_fits(v) {
        Ok(name_bytes(v))
    } else {
        Err(CodecError::NameTooLong)
    }
}

/// Decodes the name field at the start of `bytes`.
pub fn load_name(bytes: &[u8]) -> (r: Result<String, CodecError>)
    ensures
        match r {
            Ok(s) => name_decode(bytes@) == Ok::<Seq<char>, CodecError>(s@),
            Err(e) => name_decode(bytes@) == Err::<Seq<char>, CodecError>(e),
        },
{
    if bytes.len() < NAME_BYTES {
        return Err(CodecError::UnexpectedEof);
    }
    let ghost all = name_units(bytes@);
    let mut units: Vec<u16> = Vec::new();
    let mut i: usize = 0;
    let mut done = false;
    while i < NAME_UNITS && !done
        invariant
            bytes@.len() >= 32,
            all == name_units(bytes@),
            i <= 16,
            units@ == all.subrange(0, i as int),
            forall|j: int| 0 <= j < i ==> all[j] != 0,
            done ==> i < 16 && all[i as int] == 0,
        decreases 16 - i + if done { 0int } else { 1int },
    {
        let x = get_u16(bytes, 2 * i);
        if x == 0 {
            done = true;
        } else {
            units.push(x);
            i += 1;
            assert(units@ =~= all.subrange(0, i as int));
        }
    }
    proof {
        lemma_nul_position(all, i as int);
    }
    match decode_utf16(units.as_slice()) {
        Some(s) => Ok(s),
        None => Err(CodecError::InvalidName),
    }
}

/// Appends the name field that holds `name` to `out`, or fails and leaves
/// `out` as it was.
pub fn store_name(name: &String, out: &mut Vec<u8>) -> (r: Result<(), CodecError>)
    ensures
        match name_encode(name@) {
            Ok(b) => r is Ok && final(out)@ == old(out)@ + b,
            Err(e) => r == Err::<(), CodecError>(e) && final(out)@ == old(out)@,
        },
{
    let units = encode_utf16(name.as_str());
    if units.len() > NAME_UNITS {
        return Err(CodecError::NameTooLong);
    }
    let ghost field = name_bytes(name@);
    let mut i: usize = 0;
    while i < NAME_UNITS
        invariant
            i <= 16,
            units@ == utf16_encode(name@),
            units@.len() <= 16,
            field == name_bytes(name@),
            out@ == old(out)@ + field.subrange(0, 2 * i),
        decreases 16 - i,
    {
        let x: u16 = if i < units.len() {
            units[i]
        } else {
            0
        };
        assert(x == name_unit(name@, i as int));
        let ghost before = out@;
        put_u16(out, x);
        i += 1;
        assert(out@ =~= old(out)@ + field.subrange(0, 2 * i)) by {
            assert(field[2 * (i - 1)] == u16_le_bytes(x)[0]);
            assert(field[2 * (i - 1) + 1] == u16_le_bytes(x)[1]);
        }
    }
    assert(field.subrange(0, 32) =~= field);
    Ok(())
}

} // verus!
