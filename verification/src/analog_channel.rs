//! Analog channel records.

pub mod ctcss;
pub mod emergency;
pub mod modes;

use crate::analog_channel::ctcss::{lemma_ctcss_roundtrip, Ctcss};
use crate::analog_channel::emergency::{lemma_emergency_roundtrip, EmergencySystem};
use crate::analog_channel::modes::{
    AutoResetMode, CarrierSqlLevel, ChannelChangeSqlMode, SignallingType, SqlMode, TxAdmit,
};
use crate::bytes::{flag, put_bytes, spec_flag};
use crate::channel_common::{
    lemma_channel_common_roundtrip, lemma_common_prefix, ChannelCommon, ChannelCommonView, ChannelType, PowerLevel,
};
use crate::aggregate::Codeplug;
use crate::cp_data::{CPData, RawCPData};
use crate::error::{CodecError, Field, ReferenceError};
use vstd::prelude::*;

verus! {

/// One analog channel.
#[derive(Debug, PartialEq, Eq)]
pub struct AnalogChannel {
    pub common: ChannelCommon,
    pub rx_ctcss: Ctcss,
    pub tx_ctcss: Ctcss,
    pub rx_sql_mode: SqlMode,
    pub mon_sql_mode: SqlMode,
    pub channel_change_sql_mode: ChannelChangeSqlMode,
    pub carrier_sql_level: CarrierSqlLevel,
    pub tx_admit: TxAdmit,
    pub tx_timeout: u8,
    pub tot_prealert: u8,
    pub tot_rekey: u8,
    pub tot_reset: u8,
    pub auto_reset_mode: AutoResetMode,
    pub auto_reset_time: u8,
    pub signalling_type: SignallingType,
    pub emergency: EmergencySystem,
    pub scan_list_idx: u8,
    pub auto_start_scan: bool,
    pub emph_de_emph: bool,
    pub scrambler: bool,
    pub compandor: bool,
    pub vox: bool,
}

/// An `AnalogChannel` with its name as text.
pub struct AnalogChannelView {
    pub common: ChannelCommonView,
    pub rx_ctcss: Ctcss,
    pub tx_ctcss: Ctcss,
    pub rx_sql_mode: SqlMode,
    pub mon_sql_mode: SqlMode,
    pub channel_change_sql_mode: ChannelChangeSqlMode,
    pub carrier_sql_level: CarrierSqlLevel,
    pub tx_admit: TxAdmit,
    pub tx_timeout: u8,
    pub tot_prealert: u8,
    pub tot_rekey: u8,
    pub tot_reset: u8,
    pub auto_reset_mode: AutoResetMode,
    pub auto_reset_time: u8,
    pub signalling_type: SignallingType,
    pub emergency: EmergencySystem,
    pub scan_list_idx: u8,
    pub auto_start_scan: bool,
    pub emph_de_emph: bool,
    pub scrambler: bool,
    pub compandor: bool,
    pub vox: bool,
}

impl View for AnalogChannel {
    type V = AnalogChannelView;

    open spec fn view(&self) -> AnalogChannelView {
        AnalogChannelView {
            common: self.common@,
            rx_ctcss: self.rx_ctcss,
            tx_ctcss: self.tx_ctcss,
            rx_sql_mode: self.rx_sql_mode,
            mon_sql_mode: self.mon_sql_mode,
            channel_change_sql_mode: self.channel_change_sql_mode,
            carrier_sql_level: self.carrier_sql_level,
            tx_admit: self.tx_admit,
            tx_timeout: self.tx_timeout,
            tot_prealert: self.tot_prealert,
            tot_rekey: self.tot_rekey,
            tot_reset: self.tot_reset,
            auto_reset_mode: self.auto_reset_mode,
            auto_reset_time: self.auto_reset_time,
            signalling_type: self.signalling_type,
            emergency: self.emergency,
            scan_list_idx: self.scan_list_idx,
            auto_start_scan: self.auto_start_scan,
            emph_de_emph: self.emph_de_emph,
            scrambler: self.scrambler,
            compandor: self.compandor,
            vox: self.vox,
        }
    }
}

/// Length in bytes of an analog channel record.
pub const ANALOG_CHANNEL_SZ: usize = 68;

/// Value of the reserved byte after the auto reset time.
pub const ANALOG_RESERVED2: u8 = 10;

impl AnalogChannelView {
    /// The byte that packs four flags: scan at start in bit 0, emphasis in
    /// bit 4, compandor in bit 5, scrambler in bit 6.
    pub open spec fn flags_byte(self) -> u8 {
        spec_flag(self.auto_start_scan, 0x01) | spec_flag(self.emph_de_emph, 0x10) | spec_flag(
            self.compandor,
            0x20,
        ) | spec_flag(self.scrambler, 0x40)
    }

    /// The bytes between the tone settings and the emergency settings.
    #[verifier::opaque]
    pub open spec fn mode_bytes(self) -> Seq<u8> {
        seq![
            self.rx_sql_mode.spec_tag(),
            self.mon_sql_mode.spec_tag(),
            self.channel_change_sql_mode.spec_tag(),
            0u8,
            self.carrier_sql_level.spec_tag(),
            self.tx_admit.spec_tag(),
            self.tx_timeout,
            self.tot_prealert,
            self.tot_rekey,
            self.tot_reset,
            self.auto_reset_mode.spec_tag(),
            self.auto_reset_time,
            10u8,
            self.signalling_type.spec_tag(),
            0u8,
        ]
    }

    /// The sixty-eight bytes of the record, for a name that fits.
    #[verifier::opaque]
    pub open spec fn bytes(self) -> Seq<u8> {
        self.common.bytes() + self.rx_ctcss.bytes() + self.tx_ctcss.bytes() + self.mode_bytes()
            + self.emergency.bytes() + seq![
            self.scan_list_idx,
            self.flags_byte(),
            spec_flag(self.vox, 0x80),
        ]
    }

    /// A value that decoding gives back after encoding.
    pub open spec fn valid(self) -> bool {
        &&& self.common.valid()
        &&& self.common.chan_type == ChannelType::Analog
        &&& self.rx_ctcss.valid()
        &&& self.tx_ctcss.valid()
    }

    /// The channel that `AnalogChannel::new` makes.
    pub open spec fn spec_new(
        name: Seq<char>,
        tx_freq: u32,
        rx_freq: u32,
        rx_only: bool,
        power_level: PowerLevel,
        rx_ctcss: Ctcss,
        tx_ctcss: Ctcss,
    ) -> AnalogChannelView {
        AnalogChannelView {
            common: ChannelCommonView {
                name,
                chan_type: ChannelType::Analog,
                rx_only,
                power_level,
                rx_freq,
                tx_freq,
            },
            rx_ctcss,
            tx_ctcss,
            rx_sql_mode: SqlMode::Carrier,
            mon_sql_mode: SqlMode::Carrier,
            channel_change_sql_mode: ChannelChangeSqlMode::RxSQLMode,
            carrier_sql_level: CarrierSqlLevel::Normal,
            tx_admit: TxAdmit::ChannelFree,
            tx_timeout: 0,
            tot_prealert: 0,
            tot_rekey: 0,
            tot_reset: 0,
            auto_reset_mode: AutoResetMode::Disable,
            auto_reset_time: 0,
            signalling_type: SignallingType::Off,
            emergency: EmergencySystem {
                idx: 0,
                alarm_indication: false,
                alarm_ack: false,
                call_indication: false,
            },
            scan_list_idx: 0,
            auto_start_scan: false,
            emph_de_emph: true,
            scrambler: false,
            compandor: false,
            vox: false,
        }
    }
}

/// What the bytes after the common part of an analog channel record hold,
/// given what the common part holds.
pub open spec fn analog_tail(b: Seq<u8>, common: ChannelCommonView) -> Result<
    AnalogChannelView,
    CodecError,
> {
    if common.chan_type != ChannelType::Analog {
        Err(CodecError::ReservedMismatch(Field::ChannelType))
    } else if SqlMode::spec_try_from(b[48]) is None {
        Err(CodecError::InvalidTag(Field::RxSqlMode))
    } else if SqlMode::spec_try_from(b[49]) is None {
        Err(CodecError::InvalidTag(Field::MonSqlMode))
    } else if ChannelChangeSqlMode::spec_try_from(b[50]) is None {
        Err(CodecError::InvalidTag(Field::ChannelChangeSqlMode))
    } else if b[51] != 0 {
        Err(CodecError::ReservedMismatch(Field::AnalogReserved1))
    } else if CarrierSqlLevel::spec_try_from(b[52]) is None {
        Err(CodecError::InvalidTag(Field::CarrierSqlLevel))
    } else if TxAdmit::spec_try_from(b[53]) is None {
        Err(CodecError::InvalidTag(Field::TxAdmit))
    } else if AutoResetMode::spec_try_from(b[58]) is None {
        Err(CodecError::InvalidTag(Field::AutoResetMode))
    } else if b[60] != 10 {
        Err(CodecError::ReservedMismatch(Field::AnalogReserved2))
    } else if SignallingType::spec_try_from(b[61]) is None {
        Err(CodecError::InvalidTag(Field::SignallingType))
    } else if b[62] != 0 {
        Err(CodecError::ReservedMismatch(Field::AnalogReserved3))
    } else {
        Ok(
            AnalogChannelView {
                common,
                rx_ctcss: Ctcss::from_bytes(b[44], b[45]),
                tx_ctcss: Ctcss::from_bytes(b[46], b[47]),
                rx_sql_mode: SqlMode::spec_try_from(b[48]).unwrap(),
                mon_sql_mode: SqlMode::spec_try_from(b[49]).unwrap(),
                channel_change_sql_mode: ChannelChangeSqlMode::spec_try_from(b[50]).unwrap(),
                carrier_sql_level: CarrierSqlLevel::spec_try_from(b[52]).unwrap(),
                tx_admit: TxAdmit::spec_try_from(b[53]).unwrap(),
                tx_timeout: b[54],
                tot_prealert: b[55],
                tot_rekey: b[56],
                tot_reset: b[57],
                auto_reset_mode: AutoResetMode::spec_try_from(b[58]).unwrap(),
                auto_reset_time: b[59],
                signalling_type: SignallingType::spec_try_from(b[61]).unwrap(),
                emergency: EmergencySystem::from_bytes(b[63], b[64]),
                scan_list_idx: b[65],
                auto_start_scan: b[66] & 0x01 != 0,
                emph_de_emph: b[66] & 0x10 != 0,
                compandor: b[66] & 0x20 != 0,
                scrambler: b[66] & 0x40 != 0,
                vox: b[67] & 0x80 != 0,
            },
        )
    }
}

impl AnalogChannelView {
    /// What the record at the start of a chunk decodes to.
    pub open spec fn decode(b: Seq<u8>) -> Result<AnalogChannelView, CodecError> {
        if b.len() < 68 {
            Err(CodecError::UnexpectedEof)
        } else {
            match ChannelCommonView::decode(b) {
                Err(e) => Err(e),
                Ok(common) => analog_tail(b, common),
            }
        }
    }

    /// The bytes of the record, if the name fits.
    pub open spec fn encode(self) -> Result<Seq<u8>, CodecError> {
        match self.common.encode() {
            Err(e) => Err(e),
            Ok(_) => Ok(self.bytes()),
        }
    }
}

impl RawCPData for AnalogChannel {
    open spec fn spec_load(b: Seq<u8>) -> Result<AnalogChannelView, CodecError> {
        AnalogChannelView::decode(b)
    }

    open spec fn spec_store(v: AnalogChannelView) -> Result<Seq<u8>, CodecError> {
        v.encode()
    }

    fn load(bytes: &[u8]) -> (r: Result<Self, CodecError>) {
        if bytes.len() < ANALOG_CHANNEL_SZ {
            return Err(CodecError::UnexpectedEof);
        }
        let common = ChannelCommon::load(bytes)?;
        AnalogChannel::load_tail(bytes, common)
    }

    fn store(&self, out: &mut Vec<u8>) -> (r: Result<(), CodecError>) {
        self.common.store(out)?;
        self.rx_ctcss.store(out)?;
        self.tx_ctcss.store(out)?;
        let modes: [u8; 15] = [
            self.rx_sql_mode.tag(),
            self.mon_sql_mode.tag(),
            self.channel_change_sql_mode.tag(),
            0,
            self.carrier_sql_level.tag(),
            self.tx_admit.tag(),
            self.tx_timeout,
            self.tot_prealert,
            self.tot_rekey,
            self.tot_reset,
            self.auto_reset_mode.tag(),
            self.auto_reset_time,
            ANALOG_RESERVED2,
            self.signalling_type.tag(),
            0,
        ];
        assert(modes@ =~= self@.mode_bytes()) by {
            reveal(AnalogChannelView::mode_bytes);
        }
        put_bytes(out, modes.as_slice());
        self.emergency.store(out)?;
        let last: [u8; 3] = [
            self.scan_list_idx,
            flag(self.auto_start_scan, 0x01) | flag(self.emph_de_emph, 0x10) | flag(
                self.compandor,
                0x20,
            ) | flag(self.scrambler, 0x40),
            flag(self.vox, 0x80),
        ];
        assert(last@ =~= seq![
            self.scan_list_idx,
            self@.flags_byte(),
            spec_flag(self.vox, 0x80),
        ]);
        put_bytes(out, last.as_slice());
        assert(out@ =~= old(out)@ + self@.bytes()) by {
            reveal(AnalogChannelView::bytes);
        }
        Ok(())
    }
}

impl AnalogChannel {
    /// Decodes what stands after the common part of an analog channel record.
    fn load_tail(bytes: &[u8], common: ChannelCommon) -> (r: Result<AnalogChannel, CodecError>)
        requires
            bytes@.len() >= 68,
        ensures
            match r {
                Ok(v) => analog_tail(bytes@, common@) == Ok::<AnalogChannelView, CodecError>(v@),
                Err(e) => analog_tail(bytes@, common@) == Err::<AnalogChannelView, CodecError>(e),
            },
    {
        match common.chan_type {
            ChannelType::Analog => {},
            ChannelType::Digial => {
                return Err(CodecError::ReservedMismatch(Field::ChannelType));
            },
        }
        let rx_sql_mode = match SqlMode::try_from(bytes[48]) {
            Ok(m) => m,
            Err(_) => {
                return Err(CodecError::InvalidTag(Field::RxSqlMode));
            },
        };
        let mon_sql_mode = match SqlMode::try_from(bytes[49]) {
            Ok(m) => m,
            Err(_) => {
                return Err(CodecError::InvalidTag(Field::MonSqlMode));
            },
        };
        let channel_change_sql_mode = ChannelChangeSqlMode::try_from(bytes[50])?;
        if bytes[51] != 0 {
            return Err(CodecError::ReservedMismatch(Field::AnalogReserved1));
        }
        let carrier_sql_level = CarrierSqlLevel::try_from(bytes[52])?;
        let tx_admit = TxAdmit::try_from(bytes[53])?;
        let auto_reset_mode = AutoResetMode::try_from(bytes[58])?;
        if bytes[60] != ANALOG_RESERVED2 {
            return Err(CodecError::ReservedMismatch(Field::AnalogReserved2));
        }
        let signalling_type = SignallingType::try_from(bytes[61])?;
        if bytes[62] != 0 {
            return Err(CodecError::ReservedMismatch(Field::AnalogReserved3));
        }
        let b1 = bytes[66];
        let b2 = bytes[67];
        Ok(
            AnalogChannel {
                common,
                rx_ctcss: Ctcss::unpack(bytes[44], bytes[45]),
                tx_ctcss: Ctcss::unpack(bytes[46], bytes[47]),
                rx_sql_mode,
                mon_sql_mode,
                channel_change_sql_mode,
                carrier_sql_level,
                tx_admit,
                tx_timeout: bytes[54],
                tot_prealert: bytes[55],
                tot_rekey: bytes[56],
                tot_reset: bytes[57],
                auto_reset_mode,
                auto_reset_time: bytes[59],
                signalling_type,
                emergency: EmergencySystem::unpack(bytes[63], bytes[64]),
                scan_list_idx: bytes[65],
                auto_start_scan: b1 & 0x01 != 0,
                emph_de_emph: b1 & 0x10 != 0,
                compandor: b1 & 0x20 != 0,
                scrambler: b1 & 0x40 != 0,
                vox: b2 & 0x80 != 0,
            },
        )
    }

    /// An analog channel with the given name, frequencies, power and tones, and
    /// every other setting at its usual value.
    pub fn new(
        name: String,
        tx_freq: u32,
        rx_freq: u32,
        rx_only: bool,
        power_level: PowerLevel,
        rx_ctcss: Ctcss,
        tx_ctcss: Ctcss,
    ) -> (r: AnalogChannel)
        ensures
            r@ == AnalogChannelView::spec_new(
                name@,
                tx_freq,
                rx_freq,
                rx_only,
                power_level,
                rx_ctcss,
                tx_ctcss,
            ),
    {
        AnalogChannel {
            common: ChannelCommon {
                name,
                chan_type: ChannelType::Analog,
                rx_only,
                power_level,
                rx_freq,
                tx_freq,
            },
            rx_ctcss,
            tx_ctcss,
            rx_sql_mode: SqlMode::Carrier,
            mon_sql_mode: SqlMode::Carrier,
            channel_change_sql_mode: ChannelChangeSqlMode::RxSQLMode,
            carrier_sql_level: CarrierSqlLevel::Normal,
            tx_admit: TxAdmit::ChannelFree,
            tx_timeout: 0,
            tot_prealert: 0,
            tot_rekey: 0,
            tot_reset: 0,
            auto_reset_mode: AutoResetMode::Disable,
            auto_reset_time: 0,
            signalling_type: SignallingType::Off,
            emergency: EmergencySystem {
                idx: 0,
                alarm_indication: false,
                alarm_ack: false,
                call_indication: false,
            },
            scan_list_idx: 0,
            auto_start_scan: false,
            emph_de_emph: true,
            scrambler: false,
            compandor: false,
            vox: false,
        }
    }
}

/// The flags of the two flag bytes of an analog channel can be read back.
pub proof fn lemma_analog_flags(v: AnalogChannelView)
    ensures
        v.flags_byte() & 0x01 != 0 <==> v.auto_start_scan,
        v.flags_byte() & 0x10 != 0 <==> v.emph_de_emph,
        v.flags_byte() & 0x20 != 0 <==> v.compandor,
        v.flags_byte() & 0x40 != 0 <==> v.scrambler,
        spec_flag(v.vox, 0x80) & 0x80 != 0 <==> v.vox,
{
    let a = spec_flag(v.auto_start_scan, 0x01);
    let b = spec_flag(v.emph_de_emph, 0x10);
    let c = spec_flag(v.compandor, 0x20);
    let d = spec_flag(v.scrambler, 0x40);
    let e = spec_flag(v.vox, 0x80);
    assert((a == 0 || a == 0x01) && (b == 0 || b == 0x10) && (c == 0 || c == 0x20) && (d == 0 || d
        == 0x40) && (e == 0 || e == 0x80) ==> ((a | b | c | d) & 0x01 != 0 <==> a == 0x01) && ((a
        | b | c | d) & 0x10 != 0 <==> b == 0x10) && ((a | b | c | d) & 0x20 != 0 <==> c == 0x20)
        && ((a | b | c | d) & 0x40 != 0 <==> d == 0x40) && (e & 0x80 != 0 <==> e == 0x80))
        by (bit_vector);
}

/// Where the parts of an analog channel record lie in its bytes.
pub proof fn lemma_analog_layout(v: AnalogChannelView)
    requires
        v.common.bytes().len() == 44,
    ensures
        v.bytes().len() == 68,
        v.bytes().subrange(0, 44) == v.common.bytes(),
        v.bytes()[44] == v.rx_ctcss.low_byte(),
        v.bytes()[45] == v.rx_ctcss.high_byte(),
        v.bytes()[46] == v.tx_ctcss.low_byte(),
        v.bytes()[47] == v.tx_ctcss.high_byte(),
        v.bytes()[48] == v.rx_sql_mode.spec_tag(),
        v.bytes()[49] == v.mon_sql_mode.spec_tag(),
        v.bytes()[50] == v.channel_change_sql_mode.spec_tag(),
        v.bytes()[51] == 0,
        v.bytes()[52] == v.carrier_sql_level.spec_tag(),
        v.bytes()[53] == v.tx_admit.spec_tag(),
        v.bytes()[54] == v.tx_timeout,
        v.bytes()[55] == v.tot_prealert,
        v.bytes()[56] == v.tot_rekey,
        v.bytes()[57] == v.tot_reset,
        v.bytes()[58] == v.auto_reset_mode.spec_tag(),
        v.bytes()[59] == v.auto_reset_time,
        v.bytes()[60] == 10,
        v.bytes()[61] == v.signalling_type.spec_tag(),
        v.bytes()[62] == 0,
        v.bytes()[63] == v.emergency.idx,
        v.bytes()[64] == v.emergency.flags_byte(),
        v.bytes()[65] == v.scan_list_idx,
        v.bytes()[66] == v.flags_byte(),
        v.bytes()[67] == spec_flag(v.vox, 0x80),
{
    reveal(AnalogChannelView::bytes);
    reveal(AnalogChannelView::mode_bytes);
    let c = v.common.bytes();
    let r = v.rx_ctcss.bytes();
    let t = v.tx_ctcss.bytes();
    let m = v.mode_bytes();
    let e = v.emergency.bytes();
    let z = seq![v.scan_list_idx, v.flags_byte(), spec_flag(v.vox, 0x80)];
    let pre1 = c + r;
    let pre2 = pre1 + t;
    let pre3 = pre2 + m;
    let pre4 = pre3 + e;
    assert(v.bytes() == pre4 + z);
    assert(pre1.len() == 46 && pre2.len() == 48 && pre3.len() == 63 && pre4.len() == 65);
    assert(v.bytes().subrange(0, 44) =~= c) by {
        assert forall|i: int| 0 <= i < 44 implies v.bytes()[i] == c[i] by {
            assert(pre1[i] == c[i] && pre2[i] == c[i] && pre3[i] == c[i] && pre4[i] == c[i]);
        }
    }
    assert(pre4[44] == r[0] && pre4[45] == r[1]) by {
        assert(pre1[44] == r[0] && pre1[45] == r[1]);
        assert(pre2[44] == pre1[44] && pre2[45] == pre1[45]);
        assert(pre3[44] == pre2[44] && pre3[45] == pre2[45]);
    }
    assert(pre4[46] == t[0] && pre4[47] == t[1]) by {
        assert(pre2[46] == t[0] && pre2[47] == t[1]);
        assert(pre3[46] == pre2[46] && pre3[47] == pre2[47]);
    }
    assert forall|i: int| 0 <= i < 15 implies pre4[48 + i] == m[i] by {
        assert(pre3[48 + i] == m[i]);
        assert(pre4[48 + i] == pre3[48 + i]);
    }
    assert(pre4[48] == m[0] && pre4[49] == m[1] && pre4[50] == m[2] && pre4[51] == m[3] && pre4[52] == m[4]);
    assert(pre4[53] == m[5] && pre4[54] == m[6] && pre4[55] == m[7] && pre4[56] == m[8] && pre4[57] == m[9]);
    assert(pre4[58] == m[10] && pre4[59] == m[11] && pre4[60] == m[12] && pre4[61] == m[13] && pre4[62]
        == m[14]);
    assert(pre4[63] == e[0] && pre4[64] == e[1]);
}

/// Decoding the bytes of a valid analog channel gives it back.
pub proof fn lemma_analog_channel_roundtrip(v: AnalogChannelView)
    requires
        v.valid(),
    ensures
        v.encode() == Ok::<Seq<u8>, CodecError>(v.bytes()),
        v.bytes().len() == 68,
        AnalogChannelView::decode(v.bytes()) == Ok::<AnalogChannelView, CodecError>(v),
{
    let b = v.bytes();
    let c = v.common.bytes();
    lemma_channel_common_roundtrip(v.common);
    lemma_analog_layout(v);
    assert(c.subrange(0, 44) =~= c);
    lemma_common_prefix(b, c);
    lemma_analog_tail_roundtrip(v);
}

/// The bytes after the common part of a valid analog channel decode to what
/// they were made from.
proof fn lemma_analog_tail_roundtrip(v: AnalogChannelView)
    requires
        v.common.bytes().len() == 44,
        v.common.chan_type == ChannelType::Analog,
        v.rx_ctcss.valid(),
        v.tx_ctcss.valid(),
    ensures
        analog_tail(v.bytes(), v.common) == Ok::<AnalogChannelView, CodecError>(v),
{
    lemma_analog_layout(v);
    lemma_ctcss_roundtrip(v.rx_ctcss);
    lemma_ctcss_roundtrip(v.tx_ctcss);
    lemma_emergency_roundtrip(v.emergency);
    lemma_analog_flags(v);
    v.rx_sql_mode.lemma_tag_roundtrip();
    v.mon_sql_mode.lemma_tag_roundtrip();
    v.channel_change_sql_mode.lemma_tag_roundtrip();
    v.carrier_sql_level.lemma_tag_roundtrip();
    v.tx_admit.lemma_tag_roundtrip();
    v.auto_reset_mode.lemma_tag_roundtrip();
    v.signalling_type.lemma_tag_roundtrip();
}

/// Type of the section that holds the analog channels.
pub const ANALOG_CHANNEL_SECTION: u16 = 0x27;

impl CPData for AnalogChannel {
    open spec fn spec_cp_section() -> u16 {
        0x27
    }

    open spec fn spec_verify(v: AnalogChannelView, cp: &Codeplug) -> Result<(), ReferenceError> {
        Ok(())
    }

    fn cp_section() -> (id: u16) {
        ANALOG_CHANNEL_SECTION
    }

    fn verify(&self, cp: &Codeplug) -> (r: Result<(), ReferenceError>) {
        Ok(())
    }
}

} // verus!
