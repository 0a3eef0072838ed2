//! The small enumerations of an analog channel record.

use crate::error::{CodecError, Field};
use vstd::prelude::*;

verus! {

/// When the transmit timer of an analog channel resets by itself.
#[derive(Debug, PartialEq, Eq, Clone, Copy, Structural)]
pub enum AutoResetMode {
    Disable,
    CarrierOverride,
    CarrierIndependent,
    ManualOverride,
}

impl AutoResetMode {
    /// The number that stands for a value in a record.
    pub open spec fn spec_tag(self) -> u8 {
        match self {
            AutoResetMode::Disable => 0,
            AutoResetMode::CarrierOverride => 1,
            AutoResetMode::CarrierIndependent => 2,
            AutoResetMode::ManualOverride => 3,
        }
    }

    /// The value that a number stands for, if any.
    pub open spec fn spec_try_from(v: u8) -> Option<AutoResetMode> {
        if v == 0 {
            Some(AutoResetMode::Disable)
        } else if v == 1 {
            Some(AutoResetMode::CarrierOverride)
        } else if v == 2 {
            Some(AutoResetMode::CarrierIndependent)
        } else if v == 3 {
            Some(AutoResetMode::ManualOverride)
        } else {
            None
        }
    }

    /// The number of a value stands for that value.
    pub proof fn lemma_tag_roundtrip(self)
        ensures
            Self::spec_try_from(self.spec_tag()) == Some(self),
    {
    }

    /// The number that stands for a value in a record.
    pub fn tag(self) -> (v: u8)
        ensures
            v == self.spec_tag(),
    {
        match self {
            AutoResetMode::Disable => 0,
            AutoResetMode::CarrierOverride => 1,
            AutoResetMode::CarrierIndependent => 2,
            AutoResetMode::ManualOverride => 3,
        }
    }

    /// The value that a number stands for; a number that stands for none is
    /// refused.
    pub fn try_from(v: u8) -> (r: Result<AutoResetMode, CodecError>)
        ensures
            match Self::spec_try_from(v) {
                Some(t) => r == Ok::<AutoResetMode, CodecError>(t),
                None => r == Err::<AutoResetMode, CodecError>(CodecError::InvalidTag(Field::AutoResetMode)),
            },
    {
        if v == 0 {
            Ok(AutoResetMode::Disable)
        } else if v == 1 {
            Ok(AutoResetMode::CarrierOverride)
        } else if v == 2 {
            Ok(AutoResetMode::CarrierIndependent)
        } else if v == 3 {
            Ok(AutoResetMode::ManualOverride)
        } else {
            Err(CodecError::InvalidTag(Field::AutoResetMode))
        }
    }
}

/// How tight the carrier squelch of an analog channel is.
#[derive(Debug, PartialEq, Eq, Clone, Copy, Structural)]
pub enum CarrierSqlLevel {
    Open,
    Normal,
    Tight,
}

impl CarrierSqlLevel {
    /// The number that stands for a value in a record.
    pub open spec fn spec_tag(self) -> u8 {
        match self {
            CarrierSqlLevel::Open => 0,
            CarrierSqlLevel::Normal => 1,
            CarrierSqlLevel::Tight => 2,
        }
    }

    /// The value that a number stands for, if any.
    pub open spec fn spec_try_from(v: u8) -> Option<CarrierSqlLevel> {
        if v == 0 {
            Some(CarrierSqlLevel::Open)
        } else if v == 1 {
            Some(CarrierSqlLevel::Normal)
        } else if v == 2 {
            Some(CarrierSqlLevel::Tight)
        } else {
            None
        }
    }

    /// The number of a value stands for that value.
    pub proof fn lemma_tag_roundtrip(self)
        ensures
            Self::spec_try_from(self.spec_tag()) == Some(self),
    {
    }

    /// The number that stands for a value in a record.
    pub fn tag(self) -> (v: u8)
        ensures
            v == self.spec_tag(),
    {
        match self {
            CarrierSqlLevel::Open => 0,
            CarrierSqlLevel::Normal => 1,
            CarrierSqlLevel::Tight => 2,
        }
    }

    /// The value that a number stands for; a number that stands for none is
    /// refused.
    pub fn try_from(v: u8) -> (r: Result<CarrierSqlLevel, CodecError>)
        ensures
            match Self::spec_try_from(v) {
                Some(t) => r == Ok::<CarrierSqlLevel, CodecError>(t),
                None => r == Err::<CarrierSqlLevel, CodecError>(CodecError::InvalidTag(Field::CarrierSqlLevel)),
            },
    {
        if v == 0 {
            Ok(CarrierSqlLevel::Open)
        } else if v == 1 {
            Ok(CarrierSqlLevel::Normal)
        } else if v == 2 {
            Ok(CarrierSqlLevel::Tight)
        } else {
            Err(CodecError::InvalidTag(Field::CarrierSqlLevel))
        }
    }
}

/// Which squelch mode applies after a channel change.
#[derive(Debug, PartialEq, Eq, Clone, Copy, Structural)]
pub enum ChannelChangeSqlMode {
    RxSQLMode,
    MonitorSqlMode,
}

impl ChannelChangeSqlMode {
    /// The number that stands for a value in a record.
    pub open spec fn spec_tag(self) -> u8 {
        match self {
            ChannelChangeSqlMode::RxSQLMode => 0,
            ChannelChangeSqlMode::MonitorSqlMode => 1,
        }
    }

    /// The value that a number stands for, if any.
    pub open spec fn spec_try_from(v: u8) -> Option<ChannelChangeSqlMode> {
        if v == 0 {
            Some(ChannelChangeSqlMode::RxSQLMode)
        } else if v == 1 {
            Some(ChannelChangeSqlMode::MonitorSqlMode)
        } else {
            None
        }
    }

    /// The number of a value stands for that value.
    pub proof fn lemma_tag_roundtrip(self)
        ensures
            Self::spec_try_from(self.spec_tag()) == Some(self),
    {
    }

    /// The number that stands for a value in a record.
    pub fn tag(self) -> (v: u8)
        ensures
            v == self.spec_tag(),
    {
        match self {
            ChannelChangeSqlMode::RxSQLMode => 0,
            ChannelChangeSqlMode::MonitorSqlMode => 1,
        }
    }

    /// The value that a number stands for; a number that stands for none is
    /// refused.
    pub fn try_from(v: u8) -> (r: Result<ChannelChangeSqlMode, CodecError>)
        ensures
            match Self::spec_try_from(v) {
                Some(t) => r == Ok::<ChannelChangeSqlMode, CodecError>(t),
                None => r == Err::<ChannelChangeSqlMode, CodecError>(CodecError::InvalidTag(Field::ChannelChangeSqlMode)),
            },
    {
        if v == 0 {
            Ok(ChannelChangeSqlMode::RxSQLMode)
        } else if v == 1 {
            Ok(ChannelChangeSqlMode::MonitorSqlMode)
        } else {
            Err(CodecError::InvalidTag(Field::ChannelChangeSqlMode))
        }
    }
}

/// Signalling system of an analog channel.
#[derive(Debug, PartialEq, Eq, Clone, Copy, Structural)]
pub enum SignallingType {
    Off,
    TwoTone,
}

impl SignallingType {
    /// The number that stands for a value in a record.
    pub open spec fn spec_tag(self) -> u8 {
        match self {
            SignallingType::Off => 0,
            SignallingType::TwoTone => 1,
        }
    }

    /// The value that a number stands for, if any.
    pub open spec fn spec_try_from(v: u8) -> Option<SignallingType> {
        if v == 0 {
            Some(SignallingType::Off)
        } else if v == 1 {
            Some(SignallingType::TwoTone)
        } else {
            None
        }
    }

    /// The number of a value stands for that value.
    pub proof fn lemma_tag_roundtrip(self)
        ensures
            Self::spec_try_from(self.spec_tag()) == Some(self),
    {
    }

    /// The number that stands for a value in a record.
    pub fn tag(self) -> (v: u8)
        ensures
            v == self.spec_tag(),
    {
        match self {
            SignallingType::Off => 0,
            SignallingType::TwoTone => 1,
        }
    }

    /// The value that a number stands for; a number that stands for none is
    /// refused.
    pub fn try_from(v: u8) -> (r: Result<SignallingType, CodecError>)
        ensures
            match Self::spec_try_from(v) {
                Some(t) => r == Ok::<SignallingType, CodecError>(t),
                None => r == Err::<SignallingType, CodecError>(CodecError::InvalidTag(Field::SignallingType)),
            },
    {
        if v == 0 {
            Ok(SignallingType::Off)
        } else if v == 1 {
            Ok(SignallingType::TwoTone)
        } else {
            Err(CodecError::InvalidTag(Field::SignallingType))
        }
    }
}

/// What opens the squelch of an analog channel.
#[derive(Debug, PartialEq, Eq, Clone, Copy, Structural)]
pub enum SqlMode {
    Carrier,
    CtcssCdcss,
    OptSignaling,
    CtcssCdcssAndOptSig,
    CtcssCdcssOrOptSig,
}

impl SqlMode {
    /// The number that stands for a value in a record.
    pub open spec fn spec_tag(self) -> u8 {
        match self {
            SqlMode::Carrier => 0,
            SqlMode::CtcssCdcss => 1,
            SqlMode::OptSignaling => 2,
            SqlMode::CtcssCdcssAndOptSig => 3,
            SqlMode::CtcssCdcssOrOptSig => 4,
        }
    }

    /// The value that a number stands for, if any.
    pub open spec fn spec_try_from(v: u8) -> Option<SqlMode> {
        if v == 0 {
            Some(SqlMode::Carrier)
        } else if v == 1 {
            Some(SqlMode::CtcssCdcss)
        } else if v == 2 {
            Some(SqlMode::OptSignaling)
        } else if v == 3 {
            Some(SqlMode::CtcssCdcssAndOptSig)
        } else if v == 4 {
            Some(SqlMode::CtcssCdcssOrOptSig)
        } else {
            None
        }
    }

    /// The number of a value stands for that value.
    pub proof fn lemma_tag_roundtrip(self)
        ensures
            Self::spec_try_from(self.spec_tag()) == Some(self),
    {
    }

    /// The number that stands for a value in a record.
    pub fn tag(self) -> (v: u8)
        ensures
            v == self.spec_tag(),
    {
        match self {
            SqlMode::Carrier => 0,
            SqlMode::CtcssCdcss => 1,
            SqlMode::OptSignaling => 2,
            SqlMode::CtcssCdcssAndOptSig => 3,
            SqlMode::CtcssCdcssOrOptSig => 4,
        }
    }

    /// The value that a number stands for; a number that stands for none is
    /// refused.
    pub fn try_from(v: u8) -> (r: Result<SqlMode, CodecError>)
        ensures
            match Self::spec_try_from(v) {
                Some(t) => r == Ok::<SqlMode, CodecError>(t),
                None => r == Err::<SqlMode, CodecError>(CodecError::InvalidTag(Field::SqlMode)),
            },
    {
        if v == 0 {
            Ok(SqlMode::Carrier)
        } else if v == 1 {
            Ok(SqlMode::CtcssCdcss)
        } else if v == 2 {
            Ok(SqlMode::OptSignaling)
        } else if v == 3 {
            Ok(SqlMode::CtcssCdcssAndOptSig)
        } else if v == 4 {
            Ok(SqlMode::CtcssCdcssOrOptSig)
        } else {
            Err(CodecError::InvalidTag(Field::SqlMode))
        }
    }
}

/// When an analog channel may transmit.
#[derive(Debug, PartialEq, Eq, Clone, Copy, Structural)]
pub enum TxAdmit {
    Always,
    ChannelFree,
    CTCSSCorrect,
    CTCSSIncorrect,
}

impl TxAdmit {
    /// The number that stands for a value in a record.
    pub open spec fn spec_tag(self) -> u8 {
        match self {
            TxAdmit::Always => 0,
            TxAdmit::ChannelFree => 1,
            TxAdmit::CTCSSCorrect => 2,
            TxAdmit::CTCSSIncorrect => 3,
        }
    }

    /// The value that a number stands for, if any.
    pub open spec fn spec_try_from(v: u8) -> Option<TxAdmit> {
        if v == 0 {
            Some(TxAdmit::Always)
        } else if v == 1 {
            Some(TxAdmit::ChannelFree)
        } else if v == 2 {
            Some(TxAdmit::CTCSSCorrect)
        } else if v == 3 {
            Some(TxAdmit::CTCSSIncorrect)
        } else {
            None
        }
    }

    /// The number of a value stands for that value.
    pub proof fn lemma_tag_roundtrip(self)
        ensures
            Self::spec_try_from(self.spec_tag()) == Some(self),
    {
    }

    /// The number that stands for a value in a record.
    pub fn tag(self) -> (v: u8)
        ensures
            v == self.spec_tag(),
    {
        match self {
            TxAdmit::Always => 0,
            TxAdmit::ChannelFree => 1,
            TxAdmit::CTCSSCorrect => 2,
            TxAdmit::CTCSSIncorrect => 3,
        }
    }

    /// The value that a number stands for; a number that stands for none is
    /// refused.
    pub fn try_from(v: u8) -> (r: Result<TxAdmit, CodecError>)
        ensures
            match Self::spec_try_from(v) {
                Some(t) => r == Ok::<TxAdmit, CodecError>(t),
                None => r == Err::<TxAdmit, CodecError>(CodecError::InvalidTag(Field::TxAdmit)),
            },
    {
        if v == 0 {
            Ok(TxAdmit::Always)
        } else if v == 1 {
            Ok(TxAdmit::ChannelFree)
        } else if v == 2 {
            Ok(TxAdmit::CTCSSCorrect)
        } else if v == 3 {
            Ok(TxAdmit::CTCSSIncorrect)
        } else {
            Err(CodecError::InvalidTag(Field::TxAdmit))
        }
    }
}
/// Phase shift of the tone that ends a transmission.
#[derive(Debug, PartialEq, Eq, Clone, Copy, Structural)]
pub enum CTCSSTailRevertPhase {
    Rad120,
    Rad180,
}

impl CTCSSTailRevertPhase {
    /// The phase in bit 5 of a byte.
    pub open spec fn spec_from(v: u8) -> CTCSSTailRevertPhase {
        if v & 0x20 == 0 {
            CTCSSTailRevertPhase::Rad120
        } else {
            CTCSSTailRevertPhase::Rad180
        }
    }

    /// The phase in bit 5 of a byte; the other bits are not looked at.
    pub fn from(v: u8) -> (r: CTCSSTailRevertPhase)
        ensures
            r == Self::spec_from(v),
    {
        if v & 0x20 == 0 {
            CTCSSTailRevertPhase::Rad120
        } else {
            CTCSSTailRevertPhase::Rad180
        }
    }
}

} // verus!
