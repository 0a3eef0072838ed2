//! The three small fields that the flags word of a scan record packs.

use crate::error::{CodecError, Field};
use vstd::prelude::*;

verus! {

/// How a scan goes over its channels.
#[derive(Debug, PartialEq, Eq, Clone, Copy, Structural)]
pub enum ScanType {
    Normal,
    Vote,
    DigitalChannel,
}

impl ScanType {
    /// The number that stands for a scan type in bits 0 and 1.
    pub open spec fn spec_tag(self) -> u16 {
        match self {
            ScanType::Normal => 0,
            ScanType::Vote => 1,
            ScanType::DigitalChannel => 2,
        }
    }

    /// The scan type in bits 0 and 1 of a flags word, if any.
    pub open spec fn spec_try_from(value: u16) -> Option<ScanType> {
        let x = value & 3;
        if x == 0 {
            Some(ScanType::Normal)
        } else if x == 1 {
            Some(ScanType::Vote)
        } else if x == 2 {
            Some(ScanType::DigitalChannel)
        } else {
            None
        }
    }

    /// The number that stands for a scan type in bits 0 and 1.
    pub fn tag(self) -> (v: u16)
        ensures
            v == self.spec_tag(),
    {
        match self {
            ScanType::Normal => 0,
            ScanType::Vote => 1,
            ScanType::DigitalChannel => 2,
        }
    }

    /// The scan type in bits 0 and 1 of a flags word; the number three is
    /// refused.
    pub fn try_from(value: u16) -> (r: Result<ScanType, CodecError>)
        ensures
            match Self::spec_try_from(value) {
                Some(t) => r == Ok::<ScanType, CodecError>(t),
                None => r == Err::<ScanType, CodecError>(CodecError::InvalidTag(Field::ScanType)),
            },
    {
        let x: u16 = value & 3;
        if x == 0 {
            Ok(ScanType::Normal)
        } else if x == 1 {
            Ok(ScanType::Vote)
        } else if x == 2 {
            Ok(ScanType::DigitalChannel)
        } else {
            Err(CodecError::InvalidTag(Field::ScanType))
        }
    }
}

/// On which channels a scan looks at the sub-audible tone.
#[derive(Debug, PartialEq, Eq, Clone, Copy, Structural)]
pub enum CTCSSScanMode {
    Disabled,
    NonPriorityChannel,
    PriorityChannel,
    PriorityAndNonPriorityChannel,
}

impl CTCSSScanMode {
    /// The number that stands for a mode in bits 2 and 3.
    pub open spec fn spec_tag(self) -> u16 {
        match self {
            CTCSSScanMode::Disabled => 0,
            CTCSSScanMode::NonPriorityChannel => 1,
            CTCSSScanMode::PriorityChannel => 2,
            CTCSSScanMode::PriorityAndNonPriorityChannel => 3,
        }
    }

    /// The mode in bits 2 and 3 of a flags word.
    pub open spec fn spec_from(value: u16) -> CTCSSScanMode {
        let x = (value >> 2) & 3;
        if x == 0 {
            CTCSSScanMode::Disabled
        } else if x == 1 {
            CTCSSScanMode::NonPriorityChannel
        } else if x == 2 {
            CTCSSScanMode::PriorityChannel
        } else {
            CTCSSScanMode::PriorityAndNonPriorityChannel
        }
    }

    /// The number that stands for a mode in bits 2 and 3.
    pub fn tag(self) -> (v: u16)
        ensures
            v == self.spec_tag(),
            v <= 3,
    {
        match self {
            CTCSSScanMode::Disabled => 0,
            CTCSSScanMode::NonPriorityChannel => 1,
            CTCSSScanMode::PriorityChannel => 2,
            CTCSSScanMode::PriorityAndNonPriorityChannel => 3,
        }
    }

    /// The mode in bits 2 and 3 of a flags word.
    pub fn from(value: u16) -> (r: CTCSSScanMode)
        ensures
            r == Self::spec_from(value),
    {
        let x: u16 = (value >> 2) & 3;
        if x == 0 {
            CTCSSScanMode::Disabled
        } else if x == 1 {
            CTCSSScanMode::NonPriorityChannel
        } else if x == 2 {
            CTCSSScanMode::PriorityChannel
        } else {
            CTCSSScanMode::PriorityAndNonPriorityChannel
        }
    }
}

/// On which channel the radio transmits while it scans.
#[derive(Debug, PartialEq, Eq, Clone, Copy, Structural)]
pub enum ScanTxMode {
    Selected,
    LastActive,
    Designated,
}

impl ScanTxMode {
    /// The number that stands for a transmit mode in bits 6 and 7.
    pub open spec fn spec_tag(self) -> u16 {
        match self {
            ScanTxMode::Selected => 0,
            ScanTxMode::LastActive => 1,
            ScanTxMode::Designated => 2,
        }
    }

    /// The transmit mode in bits 6 and 7 of a flags word, if any.
    pub open spec fn spec_try_from(value: u16) -> Option<ScanTxMode> {
        let x = (value >> 6) & 3;
        if x == 0 {
            Some(ScanTxMode::Selected)
        } else if x == 1 {
            Some(ScanTxMode::LastActive)
        } else if x == 2 {
            Some(ScanTxMode::Designated)
        } else {
            None
        }
    }

    /// The number that stands for a transmit mode in bits 6 and 7.
    pub fn tag(self) -> (v: u16)
        ensures
            v == self.spec_tag(),
            v <= 2,
    {
        match self {
            ScanTxMode::Selected => 0,
            ScanTxMode::LastActive => 1,
            ScanTxMode::Designated => 2,
        }
    }

    /// The transmit mode in bits 6 and 7 of a flags word; the number three is
    /// refused.
    pub fn try_from(value: u16) -> (r: Result<ScanTxMode, CodecError>)
        ensures
            match Self::spec_try_from(value) {
                Some(t) => r == Ok::<ScanTxMode, CodecError>(t),
                None => r == Err::<ScanTxMode, CodecError>(
                    CodecError::InvalidTag(Field::ScanTxMode),
                ),
            },
    {
        let x: u16 = (value >> 6) & 3;
        if x == 0 {
            Ok(ScanTxMode::Selected)
        } else if x == 1 {
            Ok(ScanTxMode::LastActive)
        } else if x == 2 {
            Ok(ScanTxMode::Designated)
        } else {
            Err(CodecError::InvalidTag(Field::ScanTxMode))
        }
    }
}

/// The flags word that packs the three fields.
pub open spec fn scan_flags(scan_type: ScanType, ctcss_mode: CTCSSScanMode, tx_mode: ScanTxMode) -> u16 {
    scan_type.spec_tag() | (ctcss_mode.spec_tag() << 2) | (tx_mode.spec_tag() << 6)
}

/// The three fields can be read back from the flags word that packs them.
pub proof fn lemma_scan_flags(scan_type: ScanType, ctcss_mode: CTCSSScanMode, tx_mode: ScanTxMode)
    ensures
        ScanType::spec_try_from(scan_flags(scan_type, ctcss_mode, tx_mode)) == Some(scan_type),
        CTCSSScanMode::spec_from(scan_flags(scan_type, ctcss_mode, tx_mode)) == ctcss_mode,
        ScanTxMode::spec_try_from(scan_flags(scan_type, ctcss_mode, tx_mode)) == Some(tx_mode),
{
    let s = scan_type.spec_tag();
    let c = ctcss_mode.spec_tag();
    let t = tx_mode.spec_tag();
    let f = s | (c << 2) | (t << 6);
    assert(s <= 2 && c <= 3 && t <= 2 ==> f & 3 == s && (f >> 2) & 3 == c && (f >> 6) & 3 == t)
        by (bit_vector)
        requires
            f == s | (c << 2) | (t << 6),
    ;
}

} // verus!
