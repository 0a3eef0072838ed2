//! The emergency settings of an analog channel: an index and three flags.

use crate::bytes::{flag, spec_flag};
use crate::cp_data::RawCPData;
use crate::error::CodecError;
use vstd::prelude::*;

verus! {

/// Which emergency system a channel uses, and what it signals.
#[derive(Debug, PartialEq, Eq, Clone, Copy, Structural)]
pub struct EmergencySystem {
    pub idx: u8,
    pub alarm_indication: bool,
    pub alarm_ack: bool,
    pub call_indication: bool,
}

impl View for EmergencySystem {
    type V = EmergencySystem;

    open spec fn view(&self) -> EmergencySystem {
        *self
    }
}

/// Length in bytes of the emergency settings.
pub const EMERGENCY_SZ: usize = 2;

impl EmergencySystem {
    /// The byte that packs the three flags into bits 0 to 2.
    pub open spec fn flags_byte(self) -> u8 {
        spec_flag(self.alarm_indication, 0x01) | spec_flag(self.alarm_ack, 0x02) | spec_flag(
            self.call_indication,
            0x04,
        )
    }

    /// The two bytes of the emergency settings.
    pub open spec fn bytes(self) -> Seq<u8> {
        seq![self.idx, self.flags_byte()]
    }

    /// The emergency settings that two bytes hold. Bits 3 to 7 of the second
    /// byte are not looked at.
    pub open spec fn from_bytes(b0: u8, b1: u8) -> EmergencySystem {
        EmergencySystem {
            idx: b0,
            alarm_indication: b1 & 0x01 != 0,
            alarm_ack: b1 & 0x02 != 0,
            call_indication: b1 & 0x04 != 0,
        }
    }
}

impl EmergencySystem {
    /// The emergency settings that two bytes hold.
    pub fn unpack(b0: u8, b1: u8) -> (r: EmergencySystem)
        ensures
            r == EmergencySystem::from_bytes(b0, b1),
    {
        EmergencySystem {
            idx: b0,
            alarm_indication: b1 & 0x01 != 0,
            alarm_ack: b1 & 0x02 != 0,
            call_indication: b1 & 0x04 != 0,
        }
    }

    /// What the two bytes at the start of a chunk decode to.
    pub open spec fn decode(b: Seq<u8>) -> Result<EmergencySystem, CodecError> {
        if b.len() < 2 {
            Err(CodecError::UnexpectedEof)
        } else {
            Ok(EmergencySystem::from_bytes(b[0], b[1]))
        }
    }
}

impl RawCPData for EmergencySystem {
    open spec fn spec_load(b: Seq<u8>) -> Result<EmergencySystem, CodecError> {
        EmergencySystem::decode(b)
    }

    open spec fn spec_store(v: EmergencySystem) -> Result<Seq<u8>, CodecError> {
        Ok(v.bytes())
    }

    fn load(bytes: &[u8]) -> (r: Result<Self, CodecError>) {
        if bytes.len() < EMERGENCY_SZ {
            return Err(CodecError::UnexpectedEof);
        }
        Ok(EmergencySystem::unpack(bytes[0], bytes[1]))
    }

    fn store(&self, out: &mut Vec<u8>) -> (r: Result<(), CodecError>) {
        out.push(self.idx);
        out.push(
            flag(self.alarm_indication, 0x01) | flag(self.alarm_ack, 0x02) | flag(
                self.call_indication,
                0x04,
            ),
        );
        assert(out@ =~= old(out)@ + self.bytes());
        Ok(())
    }
}

/// Decoding the bytes of emergency settings gives them back.
pub proof fn lemma_emergency_roundtrip(v: EmergencySystem)
    ensures
        v.bytes().len() == 2,
        EmergencySystem::decode(v.bytes()) == Ok::<EmergencySystem, CodecError>(v),
        EmergencySystem::from_bytes(v.idx, v.flags_byte()) == v,
{
    let a = spec_flag(v.alarm_indication, 0x01);
    let b = spec_flag(v.alarm_ack, 0x02);
    let c = spec_flag(v.call_indication, 0x04);
    assert((a == 0 || a == 1) && (b == 0 || b == 2) && (c == 0 || c == 4) ==> ((a | b | c) & 0x01
        != 0 <==> a == 1) && ((a | b | c) & 0x02 != 0 <==> b == 2) && ((a | b | c) & 0x04 != 0
        <==> c == 4)) by (bit_vector);
}

} // verus!
