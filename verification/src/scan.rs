//! Scan records: the name of a scan list and how the radio scans it.

pub mod modes;

use crate::bytes::{get_u16, lemma_u16_le_roundtrip, put_bytes, put_u16, u16_at, u16_le_bytes};
use crate::channel_pointer::pointer::{lemma_channel_pointer_roundtrip, ChannelPointer};
use crate::aggregate::Codeplug;
use crate::cp_data::{load_name, store_name, CPData, 
    lemma_name_roundtrip, lemma_name_text_prefix, name_bytes, name_fits, name_text, name_valid,
    RawCPData,
};
use crate::error::{CodecError, Field, ReferenceError};
use crate::scan::modes::{lemma_scan_flags, scan_flags, CTCSSScanMode, ScanTxMode, ScanType};
use vstd::prelude::*;

verus! {

/// The settings of one scan list. Its channels stand in the scan list
/// collection at the same place.
#[derive(PartialEq, Eq, Debug)]
pub struct Scan {
    pub name: String,
    pub scan_type: ScanType,
    pub ctcss_mode: CTCSSScanMode,
    pub tx_mode: ScanTxMode,
    pub designated_tx_channel: ChannelPointer,
}

/// A `Scan` with its name as text.
pub struct ScanView {
    pub name: Seq<char>,
    pub scan_type: ScanType,
    pub ctcss_mode: CTCSSScanMode,
    pub tx_mode: ScanTxMode,
    pub designated_tx_channel: ChannelPointer,
}

impl View for Scan {
    type V = ScanView;

    open spec fn view(&self) -> ScanView {
        ScanView {
            name: self.name@,
            scan_type: self.scan_type,
            ctcss_mode: self.ctcss_mode,
            tx_mode: self.tx_mode,
            designated_tx_channel: self.designated_tx_channel,
        }
    }
}

/// Number of bytes that decoding a scan record looks at.
pub const SCAN_READ_SZ: usize = 38;

/// Number of bytes that encoding a scan record gives.
pub const SCAN_SZ: usize = 49;

/// The eleven bytes that close a scan record. Encoding writes them; decoding
/// does not look at them.
pub open spec fn scan_trailer() -> Seq<u8> {
    seq![0x00u8, 0x00u8, 0x05u8, 0x00u8, 0x00u8, 0x00u8, 0x05u8, 0x08u8, 0x06u8, 0x14u8, 0x06u8]
}

impl ScanView {
    /// The flags word of the record.
    pub open spec fn flags(self) -> u16 {
        scan_flags(self.scan_type, self.ctcss_mode, self.tx_mode)
    }

    /// The forty-nine bytes of the record, for a name that fits and a pointer
    /// that can be stored.
    pub open spec fn bytes(self) -> Seq<u8> {
        name_bytes(self.name) + u16_le_bytes(self.flags()) + self.designated_tx_channel.bytes()
            + scan_trailer()
    }

    /// A value that decoding gives back after encoding.
    pub open spec fn valid(self) -> bool {
        &&& name_valid(self.name)
        &&& self.designated_tx_channel.valid()
    }

    /// The bytes of the record, if the pointer can be stored and the name
    /// fits.
    pub open spec fn encode(self) -> Result<Seq<u8>, CodecError> {
        if !self.designated_tx_channel.storable() {
            Err(CodecError::IndexOutOfRange(Field::PointerIndex))
        } else if !name_fits(self.name) {
            Err(CodecError::NameTooLong)
        } else {
            Ok(self.bytes())
        }
    }

    /// What the record at the start of a chunk decodes to.
    pub open spec fn decode(b: Seq<u8>) -> Result<ScanView, CodecError> {
        if b.len() < 38 {
            Err(CodecError::UnexpectedEof)
        } else if name_text(b) is None {
            Err(CodecError::InvalidName)
        } else if ScanType::spec_try_from(u16_at(b, 32)) is None {
            Err(CodecError::InvalidTag(Field::ScanType))
        } else if ScanTxMode::spec_try_from(u16_at(b, 32)) is None {
            Err(CodecError::InvalidTag(Field::ScanTxMode))
        } else if ChannelPointer::from_parts(u16_at(b, 34), b[36]) is Err {
            Err(ChannelPointer::from_parts(u16_at(b, 34), b[36])->Err_0)
        } else {
            Ok(
                ScanView {
                    name: name_text(b).unwrap(),
                    scan_type: ScanType::spec_try_from(u16_at(b, 32)).unwrap(),
                    ctcss_mode: CTCSSScanMode::spec_from(u16_at(b, 32)),
                    tx_mode: ScanTxMode::spec_try_from(u16_at(b, 32)).unwrap(),
                    designated_tx_channel: ChannelPointer::from_parts(u16_at(b, 34), b[36])->Ok_0,
                },
            )
        }
    }

    /// The scan settings that `Scan::new` makes.
    pub open spec fn spec_new(name: Seq<char>) -> ScanView {
        ScanView {
            name,
            scan_type: ScanType::Normal,
            ctcss_mode: CTCSSScanMode::Disabled,
            tx_mode: ScanTxMode::Selected,
            designated_tx_channel: ChannelPointer::Digital(0),
        }
    }
}

impl Scan {
    /// Scan settings with the given name and the usual values.
    pub fn new(name: String) -> (r: Scan)
        ensures
            r@ == ScanView::spec_new(name@),
    {
        Scan {
            name,
            scan_type: ScanType::Normal,
            ctcss_mode: CTCSSScanMode::Disabled,
            tx_mode: ScanTxMode::Selected,
            designated_tx_channel: ChannelPointer::Digital(0),
        }
    }
}

impl RawCPData for Scan {
    open spec fn spec_load(b: Seq<u8>) -> Result<ScanView, CodecError> {
        ScanView::decode(b)
    }

    open spec fn spec_store(v: ScanView) -> Result<Seq<u8>, CodecError> {
        v.encode()
    }

    fn load(bytes: &[u8]) -> (r: Result<Self, CodecError>) {
        if bytes.len() < SCAN_READ_SZ {
            return Err(CodecError::UnexpectedEof);
        }
        let name = load_name(bytes)?;
        let flags = get_u16(bytes, 32);
        let scan_type = ScanType::try_from(flags)?;
        let ctcss_mode = CTCSSScanMode::from(flags);
        let tx_mode = ScanTxMode::try_from(flags)?;
        let ghost sub = bytes@.subrange(34, 38);
        assert(u16_at(sub, 0) == u16_at(bytes@, 34) && sub[2] == bytes@[36]);
        let designated_tx_channel = ChannelPointer::load(&bytes[34..38])?;
        Ok(Scan { name, scan_type, ctcss_mode, tx_mode, designated_tx_channel })
    }

    fn store(&self, out: &mut Vec<u8>) -> (r: Result<(), CodecError>) {
        if !self.designated_tx_channel.is_storable() {
            return Err(CodecError::IndexOutOfRange(Field::PointerIndex));
        }
        store_name(&self.name, out)?;
        put_u16(
            out,
            self.scan_type.tag() | (self.ctcss_mode.tag() << 2) | (self.tx_mode.tag() << 6),
        );
        let _ = self.designated_tx_channel.store(out);
        let trailer: [u8; 11] = [0x00, 0x00, 0x05, 0x00, 0x00, 0x00, 0x05, 0x08, 0x06, 0x14, 0x06];
        assert(trailer@ =~= scan_trailer());
        put_bytes(out, trailer.as_slice());
        assert(out@ =~= old(out)@ + self@.bytes());
        Ok(())
    }
}

/// Decoding the bytes of valid scan settings gives them back.
pub proof fn lemma_scan_roundtrip(v: ScanView)
    requires
        v.valid(),
    ensures
        v.encode() == Ok::<Seq<u8>, CodecError>(v.bytes()),
        v.bytes().len() == 49,
        ScanView::decode(v.bytes()) == Ok::<ScanView, CodecError>(v),
{
    let b = v.bytes();
    let n = name_bytes(v.name);
    let f = u16_le_bytes(v.flags());
    let p = v.designated_tx_channel.bytes();
    lemma_name_roundtrip(v.name);
    assert(b.subrange(0, 32) =~= n.subrange(0, 32));
    lemma_name_text_prefix(b, n);
    lemma_u16_le_roundtrip(v.flags());
    lemma_scan_flags(v.scan_type, v.ctcss_mode, v.tx_mode);
    lemma_channel_pointer_roundtrip(v.designated_tx_channel);
    let pre1 = n + f;
    let pre2 = pre1 + p;
    assert(b == pre2 + scan_trailer());
    assert(pre1.len() == 34 && pre2.len() == 38);
    assert(b[32] == f[0] && b[33] == f[1]) by {
        assert(pre1[32] == f[0] && pre1[33] == f[1]);
        assert(pre2[32] == pre1[32] && pre2[33] == pre1[33]);
    }
    assert(b[34] == p[0] && b[35] == p[1] && b[36] == p[2]) by {
        assert(pre2[34] == p[0] && pre2[35] == p[1] && pre2[36] == p[2]);
    }
    assert(u16_at(b, 32) == v.flags());
    assert(u16_at(b, 34) == u16_at(p, 0));
}

/// Type of the section that holds the scan settings.
pub const SCAN_SECTION: u16 = 0x6d;

impl CPData for Scan {
    open spec fn spec_cp_section() -> u16 {
        0x6d
    }

    open spec fn spec_verify(v: ScanView, cp: &Codeplug) -> Result<(), ReferenceError> {
        Ok(())
    }

    fn cp_section() -> (id: u16) {
        SCAN_SECTION
    }

    fn verify(&self, cp: &Codeplug) -> (r: Result<(), ReferenceError>) {
        Ok(())
    }
}

} // verus!
