//! The sub-audible tone setting of an analog channel: two bytes that hold a
//! twelve-bit frequency and a two-bit kind.

use crate::cp_data::RawCPData;
use crate::error::CodecError;
use vstd::prelude::*;

verus! {

/// Kind of sub-audible signalling.
#[derive(Debug, PartialEq, Eq, Clone, Copy, Structural)]
pub enum CTCSSType {
    Off,
    Ctcss,
    Cdcss,
    CdcssInvert,
}

impl CTCSSType {
    /// The two-bit number that stands for a kind.
    pub open spec fn spec_tag(self) -> u8 {
        match self {
            CTCSSType::Off => 0,
            CTCSSType::Ctcss => 1,
            CTCSSType::Cdcss => 2,
            CTCSSType::CdcssInvert => 3,
        }
    }

    /// The kind in the top two bits of a byte.
    pub open spec fn spec_from_top_bits(b: u8) -> CTCSSType {
        let k = b >> 6;
        if k == 0 {
            CTCSSType::Off
        } else if k == 1 {
            CTCSSType::Ctcss
        } else if k == 2 {
            CTCSSType::Cdcss
        } else {
            CTCSSType::CdcssInvert
        }
    }

    /// The two-bit number that stands for a kind.
    pub fn tag(self) -> (v: u8)
        ensures
            v == self.spec_tag(),
            v <= 3,
    {
        match self {
            CTCSSType::Off => 0,
            CTCSSType::Ctcss => 1,
            CTCSSType::Cdcss => 2,
            CTCSSType::CdcssInvert => 3,
        }
    }

    /// The kind in the top two bits of a byte.
    pub fn from_top_bits(b: u8) -> (r: CTCSSType)
        ensures
            r == Self::spec_from_top_bits(b),
    {
        let k: u8 = b >> 6;
        if k == 0 {
            CTCSSType::Off
        } else if k == 1 {
            CTCSSType::Ctcss
        } else if k == 2 {
            CTCSSType::Cdcss
        } else {
            CTCSSType::CdcssInvert
        }
    }
}

/// A sub-audible tone: its kind and its frequency or code, below 4096.
#[derive(Debug, PartialEq, Eq, Clone, Copy, Structural)]
pub struct Ctcss {
    pub kind: CTCSSType,
    pub freq: u16,
}

impl View for Ctcss {
    type V = Ctcss;

    open spec fn view(&self) -> Ctcss {
        *self
    }
}

/// Length in bytes of a tone setting.
pub const CTCSS_SZ: usize = 2;

impl Ctcss {
    /// The first byte: the low eight bits of the frequency.
    pub open spec fn low_byte(self) -> u8 {
        (self.freq & 0xff) as u8
    }

    /// The second byte: the high bits of the frequency, with the kind in the
    /// top two bits.
    pub open spec fn high_byte(self) -> u8 {
        ((self.freq >> 8) as u8) | (self.kind.spec_tag() << 6)
    }

    /// The two bytes of a tone setting.
    pub open spec fn bytes(self) -> Seq<u8> {
        seq![self.low_byte(), self.high_byte()]
    }

    /// The tone setting that two bytes hold. Bits 4 and 5 of the second byte
    /// are not looked at.
    pub open spec fn from_bytes(b0: u8, b1: u8) -> Ctcss {
        Ctcss {
            kind: CTCSSType::spec_from_top_bits(b1),
            freq: (b0 as u16) | (((b1 & 0xf) as u16) << 8),
        }
    }

    /// The tone setting that two bytes hold.
    pub fn unpack(b0: u8, b1: u8) -> (r: Ctcss)
        ensures
            r == Ctcss::from_bytes(b0, b1),
    {
        Ctcss {
            kind: CTCSSType::from_top_bits(b1),
            freq: (b0 as u16) | (((b1 & 0xf) as u16) << 8),
        }
    }

    /// A value that decoding gives back after encoding: the frequency takes
    /// twelve bits.
    pub open spec fn valid(self) -> bool {
        self.freq < 4096
    }
}

impl Ctcss {
    /// What the two bytes at the start of a chunk decode to.
    pub open spec fn decode(b: Seq<u8>) -> Result<Ctcss, CodecError> {
        if b.len() < 2 {
            Err(CodecError::UnexpectedEof)
        } else {
            Ok(Ctcss::from_bytes(b[0], b[1]))
        }
    }
}

impl RawCPData for Ctcss {
    open spec fn spec_load(b: Seq<u8>) -> Result<Ctcss, CodecError> {
        Ctcss::decode(b)
    }

    open spec fn spec_store(v: Ctcss) -> Result<Seq<u8>, CodecError> {
        Ok(v.bytes())
    }

    fn load(bytes: &[u8]) -> (r: Result<Self, CodecError>) {
        if bytes.len() < CTCSS_SZ {
            return Err(CodecError::UnexpectedEof);
        }
        Ok(Ctcss::unpack(bytes[0], bytes[1]))
    }

    fn store(&self, out: &mut Vec<u8>) -> (r: Result<(), CodecError>) {
        out.push(#[verifier::truncate] ((self.freq & 0xff) as u8));
        out.push((#[verifier::truncate] ((self.freq >> 8) as u8)) | (self.kind.tag() << 6));
        assert(out@ =~= old(out)@ + self.bytes());
        Ok(())
    }
}

/// Decoding the bytes of a valid tone setting gives it back.
pub proof fn lemma_ctcss_roundtrip(v: Ctcss)
    requires
        v.valid(),
    ensures
        v.bytes().len() == 2,
        Ctcss::decode(v.bytes()) == Ok::<Ctcss, CodecError>(v),
        Ctcss::from_bytes(v.low_byte(), v.high_byte()) == v,
{
    let f = v.freq;
    let k = v.kind.spec_tag();
    let b0 = (f & 0xff) as u8;
    let b1 = ((f >> 8) as u8) | (k << 6);
    assert(f < 4096 && k <= 3 ==> (b0 as u16) | (((b1 & 0xf) as u16) << 8) == f && b1 >> 6 == k)
        by (bit_vector)
        requires
            b0 == (f & 0xff) as u8,
            b1 == ((f >> 8) as u8) | (k << 6),
    ;
}

} // verus!
