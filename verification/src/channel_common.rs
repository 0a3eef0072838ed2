//! The part that analog and digital channel records share.

use crate::bytes::{flag, get_u16, get_u32, put_u16, put_u32, spec_flag, u16_at, u16_le_bytes, u32_at, u32_le_bytes};
use crate::cp_data::{load_name, store_name, lemma_name_roundtrip, lemma_name_text_prefix, name_bytes, name_fits, name_text, name_valid, RawCPData};
use crate::error::{CodecError, Field};
use vstd::prelude::*;

verus! {

/// Kind of a channel record.
#[derive(Debug, PartialEq, Eq, Clone, Copy, Structural)]
pub enum ChannelType {
    Digial,
    Analog,
}

impl ChannelType {
    /// The stored tag of a channel type.
    pub open spec fn spec_tag(self) -> u8 {
        match self {
            ChannelType::Digial => 0,
            ChannelType::Analog => 1,
        }
    }

    /// The channel type that a tag stands for.
    pub open spec fn spec_try_from(v: u8) -> Option<ChannelType> {
        if v == 0 {
            Some(ChannelType::Digial)
        } else if v == 1 {
            Some(ChannelType::Analog)
        } else {
            None
        }
    }

    /// The stored tag of a channel type.
    pub fn tag(self) -> (v: u8)
        ensures
            v == self.spec_tag(),
    {
        match self {
            ChannelType::Digial => 0,
            ChannelType::Analog => 1,
        }
    }

    /// The channel type that a tag stands for; any other byte is refused.
    pub fn try_from(v: u8) -> (r: Result<ChannelType, CodecError>)
        ensures
            match Self::spec_try_from(v) {
                Some(t) => r == Ok::<ChannelType, CodecError>(t),
                None => r == Err::<ChannelType, CodecError>(
                    CodecError::InvalidTag(Field::ChannelType),
                ),
            },
    {
        match v {
            0 => Ok(ChannelType::Digial),
            1 => Ok(ChannelType::Analog),
            _ => Err(CodecError::InvalidTag(Field::ChannelType)),
        }
    }
}

impl Default for ChannelType {
    fn default() -> (r: ChannelType)
        ensures
            r == ChannelType::Analog,
    {
        ChannelType::Analog
    }
}

/// Transmit power of a channel.
#[derive(Debug, Clone, PartialEq, Eq, Copy, Structural)]
pub enum PowerLevel {
    High,
    Low,
}

impl PowerLevel {
    /// The power level in bit 2 of a byte.
    pub open spec fn spec_from(v: u8) -> PowerLevel {
        if v & 0x4 == 0 {
            PowerLevel::High
        } else {
            PowerLevel::Low
        }
    }

    /// The power level in bit 2 of a byte; the other bits are not looked at.
    pub fn from(v: u8) -> (r: PowerLevel)
        ensures
            r == Self::spec_from(v),
    {
        if v & 0x4 == 0 {
            PowerLevel::High
        } else {
            PowerLevel::Low
        }
    }

    /// Whether this is the low power level.
    pub open spec fn spec_is_low(self) -> bool {
        self == PowerLevel::Low
    }

    /// Whether this is the low power level.
    pub fn is_low(self) -> (r: bool)
        ensures
            r == self.spec_is_low(),
    {
        match self {
            PowerLevel::High => false,
            PowerLevel::Low => true,
        }
    }
}

/// Name, kind, power and frequencies of a channel.
#[derive(Debug, PartialEq, Eq)]
pub struct ChannelCommon {
    pub name: String,
    pub chan_type: ChannelType,
    pub rx_only: bool,
    pub power_level: PowerLevel,
    pub rx_freq: u32,
    pub tx_freq: u32,
}

/// A `ChannelCommon` with its name as text.
pub struct ChannelCommonView {
    pub name: Seq<char>,
    pub chan_type: ChannelType,
    pub rx_only: bool,
    pub power_level: PowerLevel,
    pub rx_freq: u32,
    pub tx_freq: u32,
}

impl View for ChannelCommon {
    type V = ChannelCommonView;

    open spec fn view(&self) -> ChannelCommonView {
        ChannelCommonView {
            name: self.name@,
            chan_type: self.chan_type,
            rx_only: self.rx_only,
            power_level: self.power_level,
            rx_freq: self.rx_freq,
            tx_freq: self.tx_freq,
        }
    }
}

/// Length in bytes of the common part of a channel record.
pub const CHANNEL_COMMON_SZ: usize = 44;

impl ChannelCommonView {
    /// The byte that holds the receive-only flag in bit 0 and the power level
    /// in bit 2.
    pub open spec fn power_byte(self) -> u8 {
        spec_flag(self.rx_only, 0x01) | spec_flag(self.power_level.spec_is_low(), 0x04)
    }

    /// The forty-four bytes of the common part, for a name that fits.
    pub open spec fn bytes(self) -> Seq<u8> {
        name_bytes(self.name) + seq![self.chan_type.spec_tag(), self.power_byte(), 0u8, 0u8]
            + u32_le_bytes(self.rx_freq) + u32_le_bytes(self.tx_freq)
    }

    /// A value that decoding gives back after encoding.
    pub open spec fn valid(self) -> bool {
        name_valid(self.name)
    }

    /// What the common part at the start of a chunk decodes to.
    pub open spec fn decode(b: Seq<u8>) -> Result<ChannelCommonView, CodecError> {
        if b.len() < 44 {
            Err(CodecError::UnexpectedEof)
        } else if name_text(b) is None {
            Err(CodecError::InvalidName)
        } else if ChannelType::spec_try_from(b[32]) is None {
            Err(CodecError::InvalidTag(Field::ChannelType))
        } else if u16_at(b, 34) != 0 {
            Err(CodecError::ReservedMismatch(Field::ChannelReserved))
        } else {
            Ok(
                ChannelCommonView {
                    name: name_text(b).unwrap(),
                    chan_type: ChannelType::spec_try_from(b[32]).unwrap(),
                    rx_only: b[33] & 0x01 != 0,
                    power_level: PowerLevel::spec_from(b[33]),
                    rx_freq: u32_at(b, 36),
                    tx_freq: u32_at(b, 40),
                },
            )
        }
    }

    /// The bytes of the common part, if the name fits.
    pub open spec fn encode(self) -> Result<Seq<u8>, CodecError> {
        if name_fits(self.name) {
            Ok(self.bytes())
        } else {
            Err(CodecError::NameTooLong)
        }
    }
}

impl RawCPData for ChannelCommon {
    open spec fn spec_load(b: Seq<u8>) -> Result<ChannelCommonView, CodecError> {
        ChannelCommonView::decode(b)
    }

    open spec fn spec_store(v: ChannelCommonView) -> Result<Seq<u8>, CodecError> {
        v.encode()
    }

    fn load(bytes: &[u8]) -> (r: Result<Self, CodecError>) {
        assert(<ChannelCommon as RawCPData>::spec_load(bytes@) == ChannelCommonView::decode(
            bytes@,
        ));
        if bytes.len() < CHANNEL_COMMON_SZ {
            return Err(CodecError::UnexpectedEof);
        }
        let name = load_name(bytes)?;
        let chan_type = ChannelType::try_from(bytes[32])?;
        let b1 = bytes[33];
        if get_u16(bytes, 34) != 0 {
            return Err(CodecError::ReservedMismatch(Field::ChannelReserved));
        }
        let rx_freq = get_u32(bytes, 36);
        let tx_freq = get_u32(bytes, 40);
        Ok(
            ChannelCommon {
                name,
                chan_type,
                rx_only: b1 & 0x01 != 0,
                power_level: PowerLevel::from(b1),
                rx_freq,
                tx_freq,
            },
        )
    }

    fn store(&self, out: &mut Vec<u8>) -> (r: Result<(), CodecError>) {
        store_name(&self.name, out)?;
        out.push(self.chan_type.tag());
        out.push(flag(self.rx_only, 0x01) | flag(self.power_level.is_low(), 0x04));
        put_u16(out, 0);
        put_u32(out, self.rx_freq);
        put_u32(out, self.tx_freq);
        assert(u16_le_bytes(0) =~= seq![0u8, 0u8]);
        assert(out@ =~= old(out)@ + self@.bytes());
        Ok(())
    }
}

/// The flags that the power byte is made of can be read back from it.
pub proof fn lemma_power_byte(rx_only: bool, low: bool)
    ensures
        (spec_flag(rx_only, 0x01) | spec_flag(low, 0x04)) & 0x01 != 0 <==> rx_only,
        (spec_flag(rx_only, 0x01) | spec_flag(low, 0x04)) & 0x04 == 0 <==> !low,
{
    let a = spec_flag(rx_only, 0x01);
    let b = spec_flag(low, 0x04);
    assert((a == 0 || a == 1) && (b == 0 || b == 4) ==> ((a | b) & 0x01 != 0 <==> a == 1) && ((a
        | b) & 0x04 == 0 <==> b == 0)) by (bit_vector);
}

/// Decoding the bytes of a valid common part gives it back.
pub proof fn lemma_channel_common_roundtrip(v: ChannelCommonView)
    requires
        v.valid(),
    ensures
        v.encode() == Ok::<Seq<u8>, CodecError>(v.bytes()),
        v.bytes().len() == 44,
        ChannelCommonView::decode(v.bytes()) == Ok::<ChannelCommonView, CodecError>(v),
{
    let b = v.bytes();
    lemma_name_roundtrip(v.name);
    assert(b.subrange(0, 32) =~= name_bytes(v.name).subrange(0, 32));
    lemma_name_text_prefix(b, name_bytes(v.name));
    lemma_power_byte(v.rx_only, v.power_level.spec_is_low());
    assert(b[32] == v.chan_type.spec_tag());
    assert(b[33] == v.power_byte());
    assert(b[34] == 0 && b[35] == 0);
    assert(b[36] == u32_le_bytes(v.rx_freq)[0] && b[37] == u32_le_bytes(v.rx_freq)[1] && b[38]
        == u32_le_bytes(v.rx_freq)[2] && b[39] == u32_le_bytes(v.rx_freq)[3]);
    assert(b[40] == u32_le_bytes(v.tx_freq)[0] && b[41] == u32_le_bytes(v.tx_freq)[1] && b[42]
        == u32_le_bytes(v.tx_freq)[2] && b[43] == u32_le_bytes(v.tx_freq)[3]);
}

/// The common part of a channel record depends on its first forty-four bytes
/// only.
pub proof fn lemma_common_prefix(b: Seq<u8>, c: Seq<u8>)
    requires
        b.len() >= 44,
        c.len() >= 44,
        b.subrange(0, 44) == c.subrange(0, 44),
    ensures
        ChannelCommonView::decode(b) == ChannelCommonView::decode(c),
{
    assert forall|i: int| 0 <= i < 44 implies b[i] == c[i] by {
        assert(b.subrange(0, 44)[i] == b[i]);
        assert(c.subrange(0, 44)[i] == c[i]);
    }
    assert(b.subrange(0, 32) =~= c.subrange(0, 32));
    lemma_name_text_prefix(b, c);
}

} // verus!
