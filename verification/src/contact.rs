//! Contact records.

use crate::bytes::{
    flag, get_u16, get_u32, lemma_u16_le_roundtrip, lemma_u32_le_roundtrip, put_bytes, put_u16,
    put_u32, spec_flag, u16_at, u16_le_bytes, u32_at, u32_le_bytes,
};
use crate::aggregate::Codeplug;
use crate::cp_data::{
    lemma_name_roundtrip, load_name, name_bytes, name_fits, name_text, name_valid, store_name,
    CPData, RawCPData,
};
use crate::error::{CodecError, Field, ReferenceError};
use vstd::prelude::*;

verus! {

/// Kind of call that a contact stands for.
#[derive(Debug, Clone, Copy, PartialEq, Eq, Structural)]
pub enum CallType {
    Private,
    Group,
    Ignore,
}

impl CallType {
    /// The number that stands for a call type in a record.
    pub open spec fn spec_tag(self) -> u8 {
        match self {
            CallType::Private => 0,
            CallType::Group => 1,
            CallType::Ignore => 0x11,
        }
    }

    /// The call type that a number stands for, if any.
    pub open spec fn spec_try_from(v: u8) -> Option<CallType> {
        if v == 0 {
            Some(CallType::Private)
        } else if v == 1 {
            Some(CallType::Group)
        } else if v == 0x11 {
            Some(CallType::Ignore)
        } else {
            None
        }
    }

    /// The number of a call type stands for that call type.
    pub proof fn lemma_tag_roundtrip(self)
        ensures
            Self::spec_try_from(self.spec_tag()) == Some(self),
    {
    }

    /// The number that stands for a call type in a record.
    pub fn tag(self) -> (v: u8)
        ensures
            v == self.spec_tag(),
    {
        match self {
            CallType::Private => 0,
            CallType::Group => 1,
            CallType::Ignore => 0x11,
        }
    }

    /// The call type that a number stands for; a number that stands for none
    /// is refused.
    pub fn try_from(v: u8) -> (r: Result<CallType, CodecError>)
        ensures
            match Self::spec_try_from(v) {
                Some(t) => r == Ok::<CallType, CodecError>(t),
                None => r == Err::<CallType, CodecError>(CodecError::InvalidTag(Field::CallType)),
            },
    {
        if v == 0 {
            Ok(CallType::Private)
        } else if v == 1 {
            Ok(CallType::Group)
        } else if v == 0x11 {
            Ok(CallType::Ignore)
        } else {
            Err(CodecError::InvalidTag(Field::CallType))
        }
    }
}

/// One contact: whom a digital channel calls.
#[derive(Debug, Clone, PartialEq, Eq)]
pub struct Contact {
    pub unk1: u16,
    pub unk2: u16,
    pub name: String,
    pub call_type: CallType,
    pub is_ref: bool,
    pub id: u32,
}

/// A `Contact` with its name as text.
pub struct ContactView {
    pub unk1: u16,
    pub unk2: u16,
    pub name: Seq<char>,
    pub call_type: CallType,
    pub is_ref: bool,
    pub id: u32,
}

impl View for Contact {
    type V = ContactView;

    open spec fn view(&self) -> ContactView {
        ContactView {
            unk1: self.unk1,
            unk2: self.unk2,
            name: self.name@,
            call_type: self.call_type,
            is_ref: self.is_ref,
            id: self.id,
        }
    }
}

/// Length in bytes of a contact record.
pub const CONTACT_SZ: usize = 48;

impl ContactView {
    /// The forty-eight bytes of the record, for a name that fits.
    #[verifier::opaque]
    pub open spec fn bytes(self) -> Seq<u8> {
        u16_le_bytes(self.unk1) + u16_le_bytes(self.unk2) + name_bytes(self.name) + seq![
            self.call_type.spec_tag(),
            spec_flag(self.is_ref, 0x01),
            0u8,
            0u8,
        ] + u32_le_bytes(self.id) + u32_le_bytes(0)
    }

    /// A value that decoding gives back after encoding.
    pub open spec fn valid(self) -> bool {
        name_valid(self.name)
    }

    /// The bytes of the record, if the name fits.
    pub open spec fn encode(self) -> Result<Seq<u8>, CodecError> {
        if name_fits(self.name) {
            Ok(self.bytes())
        } else {
            Err(CodecError::NameTooLong)
        }
    }

    /// What the record at the start of a chunk decodes to.
    pub open spec fn decode(b: Seq<u8>) -> Result<ContactView, CodecError> {
        if b.len() < 48 {
            Err(CodecError::UnexpectedEof)
        } else if name_text(b.subrange(4, 36)) is None {
            Err(CodecError::InvalidName)
        } else if CallType::spec_try_from(b[36]) is None {
            Err(CodecError::InvalidTag(Field::CallType))
        } else if u16_at(b, 38) != 0 {
            Err(CodecError::ReservedMismatch(Field::ContactReserved1))
        } else if u32_at(b, 44) != 0 {
            Err(CodecError::ReservedMismatch(Field::ContactReserved2))
        } else {
            Ok(
                ContactView {
                    unk1: u16_at(b, 0),
                    unk2: u16_at(b, 2),
                    name: name_text(b.subrange(4, 36)).unwrap(),
                    call_type: CallType::spec_try_from(b[36]).unwrap(),
                    is_ref: b[37] != 0,
                    id: u32_at(b, 40),
                },
            )
        }
    }

    /// The contact that `Contact::new` makes.
    pub open spec fn spec_new(name: Seq<char>, call_type: CallType, id: u32) -> ContactView {
        ContactView { unk1: 0, unk2: 0, name, call_type, is_ref: true, id }
    }
}

impl Contact {
    /// Whether the contact has the number `id`.
    pub fn has_id(&self, id: u32) -> (r: bool)
        ensures
            r == (self.id == id),
    {
        self.id == id
    }

    /// A contact with the given name, call type and number, marked as
    /// referenced.
    pub fn new(name: String, call_type: CallType, id: u32) -> (r: Contact)
        ensures
            r@ == ContactView::spec_new(name@, call_type, id),
    {
        Contact { unk1: 0, unk2: 0, name, call_type, is_ref: true, id }
    }
}

impl RawCPData for Contact {
    open spec fn spec_load(b: Seq<u8>) -> Result<ContactView, CodecError> {
        ContactView::decode(b)
    }

    open spec fn spec_store(v: ContactView) -> Result<Seq<u8>, CodecError> {
        v.encode()
    }

    fn load(bytes: &[u8]) -> (r: Result<Self, CodecError>) {
        if bytes.len() < CONTACT_SZ {
            return Err(CodecError::UnexpectedEof);
        }
        let unk1 = get_u16(bytes, 0);
        let unk2 = get_u16(bytes, 2);
        let name = load_name(&bytes[4..36])?;
        let call_type = CallType::try_from(bytes[36])?;
        let is_ref = bytes[37] != 0;
        if get_u16(bytes, 38) != 0 {
            return Err(CodecError::ReservedMismatch(Field::ContactReserved1));
        }
        let id = get_u32(bytes, 40);
        if get_u32(bytes, 44) != 0 {
            return Err(CodecError::ReservedMismatch(Field::ContactReserved2));
        }
        Ok(Contact { unk1, unk2, name, call_type, is_ref, id })
    }

    fn store(&self, out: &mut Vec<u8>) -> (r: Result<(), CodecError>) {
        let mut name: Vec<u8> = Vec::new();
        store_name(&self.name, &mut name)?;
        assert(name@ =~= name_bytes(self.name@));
        put_u16(out, self.unk1);
        put_u16(out, self.unk2);
        put_bytes(out, name.as_slice());
        let kind: [u8; 4] = [self.call_type.tag(), flag(self.is_ref, 0x01), 0, 0];
        assert(kind@ =~= seq![self.call_type.spec_tag(), spec_flag(self.is_ref, 0x01), 0u8, 0u8]);
        put_bytes(out, kind.as_slice());
        put_u32(out, self.id);
        put_u32(out, 0);
        assert(out@ =~= old(out)@ + self@.bytes()) by {
            reveal(ContactView::bytes);
        }
        Ok(())
    }
}

/// Where the parts of a contact record lie in its bytes.
pub proof fn lemma_contact_layout(v: ContactView)
    ensures
        v.bytes().len() == 48,
        u16_at(v.bytes(), 0) == v.unk1,
        u16_at(v.bytes(), 2) == v.unk2,
        v.bytes().subrange(4, 36) == name_bytes(v.name),
        v.bytes()[36] == v.call_type.spec_tag(),
        v.bytes()[37] == spec_flag(v.is_ref, 0x01),
        u16_at(v.bytes(), 38) == 0,
        u32_at(v.bytes(), 40) == v.id,
        u32_at(v.bytes(), 44) == 0,
{
    reveal(ContactView::bytes);
    let b = v.bytes();
    let n = name_bytes(v.name);
    let k = seq![v.call_type.spec_tag(), spec_flag(v.is_ref, 0x01), 0u8, 0u8];
    let pre1 = u16_le_bytes(v.unk1) + u16_le_bytes(v.unk2);
    let pre2 = pre1 + n;
    let pre3 = pre2 + k;
    let pre4 = pre3 + u32_le_bytes(v.id);
    assert(b == pre4 + u32_le_bytes(0));
    assert(pre1.len() == 4 && pre2.len() == 36 && pre3.len() == 40 && pre4.len() == 44);
    assert forall|i: int| 0 <= i < 32 implies b[4 + i] == n[i] by {
        assert(pre2[4 + i] == n[i]);
        assert(pre3[4 + i] == pre2[4 + i]);
        assert(pre4[4 + i] == pre3[4 + i]);
    }
    assert(b.subrange(4, 36) =~= n);
    assert(b[0] == pre1[0] && b[1] == pre1[1] && b[2] == pre1[2] && b[3] == pre1[3]) by {
        assert(pre2[0] == pre1[0] && pre2[1] == pre1[1] && pre2[2] == pre1[2] && pre2[3] == pre1[3]);
        assert(pre3[0] == pre2[0] && pre3[1] == pre2[1] && pre3[2] == pre2[2] && pre3[3] == pre2[3]);
        assert(pre4[0] == pre3[0] && pre4[1] == pre3[1] && pre4[2] == pre3[2] && pre4[3] == pre3[3]);
    }
    assert(b[36] == k[0] && b[37] == k[1] && b[38] == k[2] && b[39] == k[3]) by {
        assert(pre3[36] == k[0] && pre3[37] == k[1] && pre3[38] == k[2] && pre3[39] == k[3]);
        assert(pre4[36] == pre3[36] && pre4[37] == pre3[37] && pre4[38] == pre3[38] && pre4[39] == pre3[39]);
    }
    assert(b[40] == u32_le_bytes(v.id)[0] && b[41] == u32_le_bytes(v.id)[1] && b[42]
        == u32_le_bytes(v.id)[2] && b[43] == u32_le_bytes(v.id)[3]) by {
        assert(pre4[40] == u32_le_bytes(v.id)[0] && pre4[41] == u32_le_bytes(v.id)[1] && pre4[42]
            == u32_le_bytes(v.id)[2] && pre4[43] == u32_le_bytes(v.id)[3]);
    }
    lemma_u16_le_roundtrip(v.unk1);
    lemma_u16_le_roundtrip(v.unk2);
    lemma_u32_le_roundtrip(v.id);
    lemma_u32_le_roundtrip(0);
}

/// Decoding the bytes of a valid contact gives it back.
pub proof fn lemma_contact_roundtrip(v: ContactView)
    requires
        v.valid(),
    ensures
        v.encode() == Ok::<Seq<u8>, CodecError>(v.bytes()),
        v.bytes().len() == 48,
        ContactView::decode(v.bytes()) == Ok::<ContactView, CodecError>(v),
{
    let b = v.bytes();
    lemma_contact_layout(v);
    lemma_name_roundtrip(v.name);
    v.call_type.lemma_tag_roundtrip();
}

/// Type of the section that holds the contacts.
pub const CONTACT_SECTION: u16 = 0x2a;

impl CPData for Contact {
    open spec fn spec_cp_section() -> u16 {
        0x2a
    }

    open spec fn spec_verify(v: ContactView, cp: &Codeplug) -> Result<(), ReferenceError> {
        Ok(())
    }

    fn cp_section() -> (id: u16) {
        CONTACT_SECTION
    }

    fn verify(&self, cp: &Codeplug) -> (r: Result<(), ReferenceError>) {
        Ok(())
    }
}

} // verus!
