//! Zone records: the name of a zone and the start of its channel list.

use crate::bytes::{get_u16, lemma_u16_le_roundtrip, put_bytes, put_u16, u16_at, u16_le_bytes};
use crate::channel_pointer::pointer::ChannelPointer;
use crate::aggregate::Codeplug;
use crate::cp_data::{load_name, store_name, CPData, 
    lemma_name_roundtrip, lemma_name_text_prefix, name_bytes, name_fits, name_text, name_valid,
    RawCPData,
};
use crate::error::{CodecError, ReferenceError};
use vstd::prelude::*;

verus! {

/// One zone. Its channels stand in the zone list at the same place; the
/// record itself keeps their number and the first six bytes of their
/// pointers.
#[derive(Debug, PartialEq, Eq)]
pub struct Zone {
    pub name: String,
    pub no_channels: u16,
    pub pointer_data: [u8; 6],
}

/// A `Zone` with its name as text and its pointer bytes as a sequence.
pub struct ZoneView {
    pub name: Seq<char>,
    pub no_channels: u16,
    pub pointer_data: Seq<u8>,
}

impl View for Zone {
    type V = ZoneView;

    open spec fn view(&self) -> ZoneView {
        ZoneView { name: self.name@, no_channels: self.no_channels, pointer_data: self.pointer_data@ }
    }
}

/// Length in bytes of a zone record.
pub const ZONE_SZ: usize = 40;

impl ZoneView {
    /// The forty bytes of the record, for a name that fits.
    pub open spec fn bytes(self) -> Seq<u8> {
        name_bytes(self.name) + u16_le_bytes(self.no_channels) + self.pointer_data
    }

    /// A value that decoding gives back after encoding.
    pub open spec fn valid(self) -> bool {
        &&& name_valid(self.name)
        &&& self.pointer_data.len() == 6
    }

    /// The bytes of the record, if the name fits.
    pub open spec fn encode(self) -> Result<Seq<u8>, CodecError> {
        if name_fits(self.name) {
            Ok(self.bytes())
        } else {
            Err(CodecError::NameTooLong)
        }
    }

    /// What the record at the start of a chunk decodes to.
    pub open spec fn decode(b: Seq<u8>) -> Result<ZoneView, CodecError> {
        if b.len() < 40 {
            Err(CodecError::UnexpectedEof)
        } else if name_text(b) is None {
            Err(CodecError::InvalidName)
        } else {
            Ok(
                ZoneView {
                    name: name_text(b).unwrap(),
                    no_channels: u16_at(b, 32),
                    pointer_data: b.subrange(34, 40),
                },
            )
        }
    }

    /// The zone that `Zone::new` makes of a name and a channel list: the
    /// number of channels, cut to sixteen bits, and the first six of the
    /// eight bytes of the first two pointers.
    pub open spec fn spec_new(name: Seq<char>, channels: Seq<ChannelPointer>) -> ZoneView {
        ZoneView {
            name,
            no_channels: channels.len() as u16,
            pointer_data: (channels[0].bytes() + channels[1].bytes()).subrange(0, 6),
        }
    }
}

impl Zone {
    /// A zone with the given name for the given channels, of which there are
    /// at least two.
    pub fn new(name: String, channels: &Vec<ChannelPointer>) -> (r: Zone)
        requires
            channels@.len() >= 2,
            channels@[0].storable(),
            channels@[1].storable(),
        ensures
            r@ == ZoneView::spec_new(name@, channels@),
    {
        let mut buf: Vec<u8> = Vec::new();
        let _ = channels[0].store(&mut buf);
        let _ = channels[1].store(&mut buf);
        assert(buf@ =~= channels@[0].bytes() + channels@[1].bytes());
        let pointer_data: [u8; 6] = [buf[0], buf[1], buf[2], buf[3], buf[4], buf[5]];
        assert(pointer_data@ =~= buf@.subrange(0, 6));
        Zone { name, no_channels: #[verifier::truncate] (channels.len() as u16), pointer_data }
    }
}

impl RawCPData for Zone {
    open spec fn spec_load(b: Seq<u8>) -> Result<ZoneView, CodecError> {
        ZoneView::decode(b)
    }

    open spec fn spec_store(v: ZoneView) -> Result<Seq<u8>, CodecError> {
        v.encode()
    }

    fn load(bytes: &[u8]) -> (r: Result<Self, CodecError>) {
        if bytes.len() < ZONE_SZ {
            return Err(CodecError::UnexpectedEof);
        }
        let name = load_name(bytes)?;
        let no_channels = get_u16(bytes, 32);
        let pointer_data: [u8; 6] = [
            bytes[34],
            bytes[35],
            bytes[36],
            bytes[37],
            bytes[38],
            bytes[39],
        ];
        assert(pointer_data@ =~= bytes@.subrange(34, 40));
        Ok(Zone { name, no_channels, pointer_data })
    }

    fn store(&self, out: &mut Vec<u8>) -> (r: Result<(), CodecError>) {
        store_name(&self.name, out)?;
        put_u16(out, self.no_channels);
        put_bytes(out, self.pointer_data.as_slice());
        assert(out@ =~= old(out)@ + self@.bytes());
        Ok(())
    }
}

/// Decoding the bytes of a valid zone gives it back.
pub proof fn lemma_zone_roundtrip(v: ZoneView)
    requires
        v.valid(),
    ensures
        v.encode() == Ok::<Seq<u8>, CodecError>(v.bytes()),
        v.bytes().len() == 40,
        ZoneView::decode(v.bytes()) == Ok::<ZoneView, CodecError>(v),
{
    let b = v.bytes();
    let n = name_bytes(v.name);
    lemma_name_roundtrip(v.name);
    assert(b.subrange(0, 32) =~= n.subrange(0, 32));
    lemma_name_text_prefix(b, n);
    lemma_u16_le_roundtrip(v.no_channels);
    assert(b[32] == u16_le_bytes(v.no_channels)[0] && b[33] == u16_le_bytes(v.no_channels)[1]);
    assert(b.subrange(34, 40) =~= v.pointer_data);
}

/// Type of the section that holds the zones.
pub const ZONE_SECTION: u16 = 0x24;

impl CPData for Zone {
    open spec fn spec_cp_section() -> u16 {
        0x24
    }

    open spec fn spec_verify(v: ZoneView, cp: &Codeplug) -> Result<(), ReferenceError> {
        Ok(())
    }

    fn cp_section() -> (id: u16) {
        ZONE_SECTION
    }

    fn verify(&self, cp: &Codeplug) -> (r: Result<(), ReferenceError>) {
        Ok(())
    }
}

} // verus!
