//! Digital channel records.

pub mod modes;

use crate::bytes::{
    flag, get_u16, lemma_prefix_kept, lemma_u16_le_roundtrip, put_bytes, put_u16, spec_flag,
    u16_at, u16_le_bytes,
};
use crate::channel_common::{
    lemma_channel_common_roundtrip, lemma_common_prefix, ChannelCommon, ChannelCommonView, ChannelType, PowerLevel,
};
use crate::aggregate::Codeplug;
use crate::collection::CodeplugSection;
use crate::contact::Contact;
use crate::cp_data::{CPData, RawCPData};
use crate::digital_channel::modes::{RrsRevertCh, SLRLPointer, Timeslot, TxAdmit};
use crate::error::{CodecError, Field, ReferenceError};
use vstd::prelude::*;

verus! {

/// One digital channel.
#[derive(Debug, PartialEq, Eq)]
pub struct DigitalChannel {
    pub common: ChannelCommon,
    pub tx_admit: TxAdmit,
    pub tx_timeout: u8,
    pub tx_timeout_prealert: u8,
    pub tx_timeout_rekey: u8,
    pub tx_timeout_reset: u8,
    pub colour_code: u8,
    pub priority_interrupt_encode: bool,
    pub priority_interrupt_decode: bool,
    pub tx_contact_idx: u16,
    pub rx_group_list_idx: u16,
    pub emergency_system_idx: u16,
    pub timeslot: Timeslot,
    pub slrl_pointer: SLRLPointer,
    pub vox: bool,
    pub has_option_board: bool,
    /// A byte of unknown meaning, kept as it was read.
    pub unk1: u8,
    pub loc_rev_channel_idx: u16,
    pub phone_system_idx: u16,
    pub pseudo_trunk_tx: u8,
    pub rrs_revert_ch: RrsRevertCh,
    pub auto_start_scan: bool,
    pub auto_start_roam: bool,
    pub ip_multi_site_connect: bool,
}

/// A `DigitalChannel` with its name as text.
pub struct DigitalChannelView {
    pub common: ChannelCommonView,
    pub tx_admit: TxAdmit,
    pub tx_timeout: u8,
    pub tx_timeout_prealert: u8,
    pub tx_timeout_rekey: u8,
    pub tx_timeout_reset: u8,
    pub colour_code: u8,
    pub priority_interrupt_encode: bool,
    pub priority_interrupt_decode: bool,
    pub tx_contact_idx: u16,
    pub rx_group_list_idx: u16,
    pub emergency_system_idx: u16,
    pub timeslot: Timeslot,
    pub slrl_pointer: SLRLPointer,
    pub vox: bool,
    pub has_option_board: bool,
    pub unk1: u8,
    pub loc_rev_channel_idx: u16,
    pub phone_system_idx: u16,
    pub pseudo_trunk_tx: u8,
    pub rrs_revert_ch: RrsRevertCh,
    pub auto_start_scan: bool,
    pub auto_start_roam: bool,
    pub ip_multi_site_connect: bool,
}

impl View for DigitalChannel {
    type V = DigitalChannelView;

    open spec fn view(&self) -> DigitalChannelView {
        DigitalChannelView {
            common: self.common@,
            tx_admit: self.tx_admit,
            tx_timeout: self.tx_timeout,
            tx_timeout_prealert: self.tx_timeout_prealert,
            tx_timeout_rekey: self.tx_timeout_rekey,
            tx_timeout_reset: self.tx_timeout_reset,
            colour_code: self.colour_code,
            priority_interrupt_encode: self.priority_interrupt_encode,
            priority_interrupt_decode: self.priority_interrupt_decode,
            tx_contact_idx: self.tx_contact_idx,
            rx_group_list_idx: self.rx_group_list_idx,
            emergency_system_idx: self.emergency_system_idx,
            timeslot: self.timeslot,
            slrl_pointer: self.slrl_pointer,
            vox: self.vox,
            has_option_board: self.has_option_board,
            unk1: self.unk1,
            loc_rev_channel_idx: self.loc_rev_channel_idx,
            phone_system_idx: self.phone_system_idx,
            pseudo_trunk_tx: self.pseudo_trunk_tx,
            rrs_revert_ch: self.rrs_revert_ch,
            auto_start_scan: self.auto_start_scan,
            auto_start_roam: self.auto_start_roam,
            ip_multi_site_connect: self.ip_multi_site_connect,
        }
    }
}

/// Length in bytes of a digital channel record.
pub const DIGITAL_CHANNEL_SZ: usize = 74;

impl DigitalChannelView {
    /// Whether the channel works through a repeater: it receives and transmits
    /// on different frequencies.
    pub open spec fn repeater(self) -> bool {
        self.common.rx_freq != self.common.tx_freq
    }

    /// The byte that holds the colour code in its low four bits and the two
    /// priority interrupt flags in bits 5 and 6.
    pub open spec fn colour_byte(self) -> u8 {
        self.colour_code | spec_flag(self.priority_interrupt_encode, 0x20) | spec_flag(
            self.priority_interrupt_decode,
            0x40,
        )
    }

    /// The byte whose top bit is always set and that holds the repeater flag
    /// in bit 6, multi-site connect in bit 5 and scan at start in bit 0.
    pub open spec fn mode_byte(self) -> u8 {
        0x80u8 | spec_flag(self.repeater(), 0x40) | spec_flag(self.ip_multi_site_connect, 0x20)
            | spec_flag(self.auto_start_scan, 0x01)
    }

    /// The byte that holds the timeslot in its low two bits, roam at start in
    /// bit 2, the kind of list reference in bits 4 and 5, voice activation in
    /// bit 6 and the option board flag in bit 7.
    pub open spec fn slot_byte(self) -> u8 {
        self.timeslot.spec_tag() | self.slrl_pointer.spec_get_type() | spec_flag(
            self.auto_start_roam,
            0x04,
        ) | spec_flag(self.vox, 0x40) | spec_flag(self.has_option_board, 0x80)
    }

    /// The six bytes after the common part.
    #[verifier::opaque]
    pub open spec fn timer_bytes(self) -> Seq<u8> {
        seq![
            self.tx_admit.spec_tag(),
            self.tx_timeout,
            self.tx_timeout_prealert,
            self.tx_timeout_rekey,
            self.tx_timeout_reset,
            self.colour_byte(),
        ]
    }

    /// The seven bytes after the three list indices.
    #[verifier::opaque]
    pub open spec fn mode_bytes(self) -> Seq<u8> {
        seq![
            self.slrl_pointer.spec_get_idx(),
            self.mode_byte(),
            self.slot_byte(),
            spec_flag(self.repeater(), 0x01),
            0u8,
            0u8,
            self.unk1,
        ]
    }

    /// The seventy-four bytes of the record, for a name that fits and a list
    /// reference that can be stored.
    #[verifier::opaque]
    pub open spec fn bytes(self) -> Seq<u8> {
        self.common.bytes() + self.timer_bytes() + u16_le_bytes(self.tx_contact_idx)
            + u16_le_bytes(self.rx_group_list_idx) + u16_le_bytes(self.emergency_system_idx)
            + self.mode_bytes() + u16_le_bytes(self.loc_rev_channel_idx) + u16_le_bytes(1)
            + u16_le_bytes(self.phone_system_idx) + seq![self.pseudo_trunk_tx, 0u8, 0u8]
            + u16_le_bytes(self.rrs_revert_ch.spec_to_u16())
    }

    /// The contact that the channel transmits to.
    pub open spec fn tx_contact(self, contacts: &CodeplugSection<Contact>) -> Option<&Contact> {
        if self.tx_contact_idx == 0 {
            None
        } else {
            match contacts.sec@.rev_map((self.tx_contact_idx - 1) as u16) {
                Some(p) => if p < contacts.data@.len() {
                    Some(&contacts.data@[p])
                } else {
                    None
                },
                None => None,
            }
        }
    }

    /// A value that decoding gives back after encoding.
    pub open spec fn valid(self) -> bool {
        &&& self.common.valid()
        &&& self.common.chan_type == ChannelType::Digial
        &&& self.colour_code < 16
        &&& self.slrl_pointer.storable()
        &&& self.rrs_revert_ch.valid()
    }

    /// The bytes of the record, if the list reference can be stored and the
    /// name fits.
    pub open spec fn encode(self) -> Result<Seq<u8>, CodecError> {
        if !self.slrl_pointer.storable() {
            Err(CodecError::IndexOutOfRange(Field::SlrlIndex))
        } else {
            match self.common.encode() {
                Err(e) => Err(e),
                Ok(_) => Ok(self.bytes()),
            }
        }
    }

    /// What the record at the start of a chunk decodes to.
    pub open spec fn decode(b: Seq<u8>) -> Result<DigitalChannelView, CodecError> {
        if b.len() < 74 {
            Err(CodecError::UnexpectedEof)
        } else {
            match ChannelCommonView::decode(b) {
                Err(e) => Err(e),
                Ok(common) => digital_tail(b, common),
            }
        }
    }

    /// The channel that `DigitalChannel::new` makes.
    pub open spec fn spec_new(
        name: Seq<char>,
        tx_freq: u32,
        rx_freq: u32,
        rx_only: bool,
        power_level: PowerLevel,
        colour_code: u8,
        tx_contact_idx: u16,
        timeslot: Timeslot,
    ) -> DigitalChannelView {
        DigitalChannelView {
            common: ChannelCommonView {
                name,
                chan_type: ChannelType::Digial,
                rx_only,
                power_level,
                rx_freq,
                tx_freq,
            },
            tx_admit: TxAdmit::Channel,
            tx_timeout: 0,
            tx_timeout_prealert: 0,
            tx_timeout_rekey: 0,
            tx_timeout_reset: 0,
            colour_code,
            priority_interrupt_encode: false,
            priority_interrupt_decode: false,
            tx_contact_idx: (tx_contact_idx + 1) as u16,
            rx_group_list_idx: 0,
            emergency_system_idx: 0,
            timeslot,
            slrl_pointer: SLRLPointer::Unset,
            vox: false,
            has_option_board: false,
            unk1: 0,
            loc_rev_channel_idx: 0,
            phone_system_idx: 0,
            pseudo_trunk_tx: 0,
            rrs_revert_ch: RrsRevertCh::Unset,
            auto_start_scan: false,
            auto_start_roam: false,
            ip_multi_site_connect: false,
        }
    }
}

/// What the bytes after the common part of a digital channel record hold,
/// given what the common part holds.
pub open spec fn digital_tail(b: Seq<u8>, common: ChannelCommonView) -> Result<
    DigitalChannelView,
    CodecError,
> {
    let repeater = common.rx_freq != common.tx_freq;
    if common.chan_type != ChannelType::Digial {
        Err(CodecError::ReservedMismatch(Field::ChannelType))
    } else if TxAdmit::spec_try_from(b[44]) is None {
        Err(CodecError::InvalidTag(Field::TxAdmit))
    } else if b[57] & 0x80 == 0 {
        Err(CodecError::ReservedMismatch(Field::DigitalMarker))
    } else if (b[57] & 0x40 != 0) != repeater {
        Err(CodecError::ReservedMismatch(Field::DigitalModeBit))
    } else if Timeslot::spec_try_from(b[58] & 0x3) is None {
        Err(CodecError::InvalidTag(Field::Timeslot))
    } else if SLRLPointer::spec_from_parts(b[58] & 0x30, b[56]) is Err {
        Err(SLRLPointer::spec_from_parts(b[58] & 0x30, b[56])->Err_0)
    } else if b[59] != spec_flag(repeater, 0x01) {
        Err(CodecError::ReservedMismatch(Field::DigitalModeByte))
    } else if u16_at(b, 60) != 0 {
        Err(CodecError::ReservedMismatch(Field::DigitalReserved1))
    } else if u16_at(b, 65) != 1 {
        Err(CodecError::ReservedMismatch(Field::DigitalReserved2))
    } else if u16_at(b, 70) != 0 {
        Err(CodecError::ReservedMismatch(Field::DigitalReserved3))
    } else {
        Ok(
            DigitalChannelView {
                common,
                tx_admit: TxAdmit::spec_try_from(b[44]).unwrap(),
                tx_timeout: b[45],
                tx_timeout_prealert: b[46],
                tx_timeout_rekey: b[47],
                tx_timeout_reset: b[48],
                colour_code: b[49] & 0x0f,
                priority_interrupt_encode: b[49] & 0x20 != 0,
                priority_interrupt_decode: b[49] & 0x40 != 0,
                tx_contact_idx: u16_at(b, 50),
                rx_group_list_idx: u16_at(b, 52),
                emergency_system_idx: u16_at(b, 54),
                timeslot: Timeslot::spec_try_from(b[58] & 0x3).unwrap(),
                slrl_pointer: SLRLPointer::spec_from_parts(b[58] & 0x30, b[56])->Ok_0,
                vox: b[58] & 0x40 != 0,
                has_option_board: b[58] & 0x80 != 0,
                unk1: b[62],
                loc_rev_channel_idx: u16_at(b, 63),
                phone_system_idx: u16_at(b, 67),
                pseudo_trunk_tx: b[69],
                rrs_revert_ch: RrsRevertCh::spec_from(u16_at(b, 72)),
                auto_start_scan: b[57] & 0x01 != 0,
                auto_start_roam: b[58] & 0x04 != 0,
                ip_multi_site_connect: b[57] & 0x20 != 0,
            },
        )
    }
}

impl RawCPData for DigitalChannel {
    open spec fn spec_load(b: Seq<u8>) -> Result<DigitalChannelView, CodecError> {
        DigitalChannelView::decode(b)
    }

    open spec fn spec_store(v: DigitalChannelView) -> Result<Seq<u8>, CodecError> {
        v.encode()
    }

    fn load(bytes: &[u8]) -> (r: Result<Self, CodecError>) {
        if bytes.len() < DIGITAL_CHANNEL_SZ {
            return Err(CodecError::UnexpectedEof);
        }
        let common = ChannelCommon::load(bytes)?;
        DigitalChannel::load_tail(bytes, common)
    }

    fn store(&self, out: &mut Vec<u8>) -> (r: Result<(), CodecError>) {
        if !self.slrl_pointer.is_storable() {
            return Err(CodecError::IndexOutOfRange(Field::SlrlIndex));
        }
        let repeater = self.common.rx_freq != self.common.tx_freq;
        self.common.store(out)?;
        let timers: [u8; 6] = [
            self.tx_admit.tag(),
            self.tx_timeout,
            self.tx_timeout_prealert,
            self.tx_timeout_rekey,
            self.tx_timeout_reset,
            self.colour_code | flag(self.priority_interrupt_encode, 0x20) | flag(
                self.priority_interrupt_decode,
                0x40,
            ),
        ];
        assert(timers@ =~= self@.timer_bytes()) by {
            reveal(DigitalChannelView::timer_bytes);
        }
        put_bytes(out, timers.as_slice());
        put_u16(out, self.tx_contact_idx);
        put_u16(out, self.rx_group_list_idx);
        put_u16(out, self.emergency_system_idx);
        let modes: [u8; 7] = [
            self.slrl_pointer.get_idx(),
            0x80u8 | flag(repeater, 0x40) | flag(self.ip_multi_site_connect, 0x20) | flag(
                self.auto_start_scan,
                0x01,
            ),
            self.timeslot.tag() | self.slrl_pointer.get_type() | flag(self.auto_start_roam, 0x04)
                | flag(self.vox, 0x40) | flag(self.has_option_board, 0x80),
            flag(repeater, 0x01),
            0,
            0,
            self.unk1,
        ];
        assert(modes@ =~= self@.mode_bytes()) by {
            reveal(DigitalChannelView::mode_bytes);
        }
        put_bytes(out, modes.as_slice());
        put_u16(out, self.loc_rev_channel_idx);
        put_u16(out, 1);
        put_u16(out, self.phone_system_idx);
        let trunk: [u8; 3] = [self.pseudo_trunk_tx, 0, 0];
        assert(trunk@ =~= seq![self.pseudo_trunk_tx, 0u8, 0u8]);
        put_bytes(out, trunk.as_slice());
        put_u16(out, self.rrs_revert_ch.to_u16());
        assert(out@ =~= old(out)@ + self@.bytes()) by {
            reveal(DigitalChannelView::bytes);
        }
        Ok(())
    }
}

impl DigitalChannel {
    /// The contact that the channel transmits to: none where the stored
    /// index is zero; else the contact at the first place of the mapping table
    /// whose entry has the stored index less one, where there is such a
    /// place and a contact at it.
    pub fn resolve_tx_contact<'a>(&self, contacts: &'a CodeplugSection<Contact>) -> (r: Option<
        &'a Contact,
    >)
        ensures
            r == self@.tx_contact(contacts),
    {
        if self.tx_contact_idx == 0 {
            return None;
        }
        match contacts.sec.rev_map(self.tx_contact_idx - 1) {
            Some(p) => if p < contacts.data.len() {
                Some(&contacts.data[p])
            } else {
                None
            },
            None => None,
        }
    }

    /// Decodes what stands after the common part of a digital channel record.
    fn load_tail(bytes: &[u8], common: ChannelCommon) -> (r: Result<DigitalChannel, CodecError>)
        requires
            bytes@.len() >= 74,
        ensures
            match r {
                Ok(v) => digital_tail(bytes@, common@) == Ok::<DigitalChannelView, CodecError>(v@),
                Err(e) => digital_tail(bytes@, common@) == Err::<DigitalChannelView, CodecError>(
                    e,
                ),
            },
    {
        match common.chan_type {
            ChannelType::Digial => {},
            ChannelType::Analog => {
                return Err(CodecError::ReservedMismatch(Field::ChannelType));
            },
        }
        let repeater = common.rx_freq != common.tx_freq;
        let tx_admit = TxAdmit::try_from(bytes[44])?;
        let tx_timeout = bytes[45];
        let tx_timeout_prealert = bytes[46];
        let tx_timeout_rekey = bytes[47];
        let tx_timeout_reset = bytes[48];
        let b1 = bytes[49];
        let tx_contact_idx = get_u16(bytes, 50);
        let rx_group_list_idx = get_u16(bytes, 52);
        let emergency_system_idx = get_u16(bytes, 54);
        let slrl_idx = bytes[56];
        let b2 = bytes[57];
        if b2 & 0x80 == 0 {
            return Err(CodecError::ReservedMismatch(Field::DigitalMarker));
        }
        if (b2 & 0x40 != 0) != repeater {
            return Err(CodecError::ReservedMismatch(Field::DigitalModeBit));
        }
        let b3 = bytes[58];
        let timeslot = Timeslot::try_from(b3 & 0x3)?;
        let slrl_pointer = SLRLPointer::from_parts(b3 & 0x30, slrl_idx)?;
        if bytes[59] != flag(repeater, 0x01) {
            return Err(CodecError::ReservedMismatch(Field::DigitalModeByte));
        }
        if get_u16(bytes, 60) != 0 {
            return Err(CodecError::ReservedMismatch(Field::DigitalReserved1));
        }
        let unk1 = bytes[62];
        let loc_rev_channel_idx = get_u16(bytes, 63);
        if get_u16(bytes, 65) != 1 {
            return Err(CodecError::ReservedMismatch(Field::DigitalReserved2));
        }
        let phone_system_idx = get_u16(bytes, 67);
        let pseudo_trunk_tx = bytes[69];
        if get_u16(bytes, 70) != 0 {
            return Err(CodecError::ReservedMismatch(Field::DigitalReserved3));
        }
        let rrs_revert_ch = RrsRevertCh::from(get_u16(bytes, 72));
        Ok(
            DigitalChannel {
                common,
                tx_admit,
                tx_timeout,
                tx_timeout_prealert,
                tx_timeout_rekey,
                tx_timeout_reset,
                colour_code: b1 & 0x0f,
                priority_interrupt_encode: b1 & 0x20 != 0,
                priority_interrupt_decode: b1 & 0x40 != 0,
                tx_contact_idx,
                rx_group_list_idx,
                emergency_system_idx,
                timeslot,
                slrl_pointer,
                vox: b3 & 0x40 != 0,
                has_option_board: b3 & 0x80 != 0,
                unk1,
                loc_rev_channel_idx,
                phone_system_idx,
                pseudo_trunk_tx,
                rrs_revert_ch,
                auto_start_scan: b2 & 0x01 != 0,
                auto_start_roam: b3 & 0x04 != 0,
                ip_multi_site_connect: b2 & 0x20 != 0,
            },
        )
    }

    /// A digital channel with the given name, frequencies, power, colour code,
    /// contact and timeslot, and every other setting at its usual value. The
    /// contact is given by its place in the contact collection and stored as
    /// that place plus one.
    pub fn new(
        name: String,
        tx_freq: u32,
        rx_freq: u32,
        rx_only: bool,
        power_level: PowerLevel,
        colour_code: u8,
        tx_contact_idx: u16,
        timeslot: Timeslot,
    ) -> (r: DigitalChannel)
        requires
            tx_contact_idx < 0xffff,
        ensures
            r@ == DigitalChannelView::spec_new(
                name@,
                tx_freq,
                rx_freq,
                rx_only,
                power_level,
                colour_code,
                tx_contact_idx,
                timeslot,
            ),
    {
        DigitalChannel {
            common: ChannelCommon {
                name,
                chan_type: ChannelType::Digial,
                rx_only,
                power_level,
                rx_freq,
                tx_freq,
            },
            tx_admit: TxAdmit::Channel,
            tx_timeout: 0,
            tx_timeout_prealert: 0,
            tx_timeout_rekey: 0,
            tx_timeout_reset: 0,
            colour_code,
            priority_interrupt_encode: false,
            priority_interrupt_decode: false,
            tx_contact_idx: tx_contact_idx + 1,
            rx_group_list_idx: 0,
            emergency_system_idx: 0,
            timeslot,
            slrl_pointer: SLRLPointer::Unset,
            vox: false,
            has_option_board: false,
            unk1: 0,
            loc_rev_channel_idx: 0,
            phone_system_idx: 0,
            pseudo_trunk_tx: 0,
            rrs_revert_ch: RrsRevertCh::Unset,
            auto_start_scan: false,
            auto_start_roam: false,
            ip_multi_site_connect: false,
        }
    }
}

/// What the three packed bytes of a digital channel hold can be read back
/// from them.
pub proof fn lemma_digital_flags(v: DigitalChannelView)
    requires
        v.colour_code < 16,
    ensures
        v.colour_byte() & 0x0f == v.colour_code,
        v.colour_byte() & 0x20 != 0 <==> v.priority_interrupt_encode,
        v.colour_byte() & 0x40 != 0 <==> v.priority_interrupt_decode,
        v.mode_byte() & 0x80 != 0,
        v.mode_byte() & 0x40 != 0 <==> v.repeater(),
        v.mode_byte() & 0x20 != 0 <==> v.ip_multi_site_connect,
        v.mode_byte() & 0x01 != 0 <==> v.auto_start_scan,
        v.slot_byte() & 0x3 == v.timeslot.spec_tag(),
        v.slot_byte() & 0x30 == v.slrl_pointer.spec_get_type(),
        v.slot_byte() & 0x04 != 0 <==> v.auto_start_roam,
        v.slot_byte() & 0x40 != 0 <==> v.vox,
        v.slot_byte() & 0x80 != 0 <==> v.has_option_board,
{
    let c = v.colour_code;
    let e = spec_flag(v.priority_interrupt_encode, 0x20);
    let d = spec_flag(v.priority_interrupt_decode, 0x40);
    assert(c < 16 && (e == 0 || e == 0x20) && (d == 0 || d == 0x40) ==> (c | e | d) & 0x0f == c
        && ((c | e | d) & 0x20 != 0 <==> e == 0x20) && ((c | e | d) & 0x40 != 0 <==> d == 0x40))
        by (bit_vector);
    let r = spec_flag(v.repeater(), 0x40);
    let m = spec_flag(v.ip_multi_site_connect, 0x20);
    let s = spec_flag(v.auto_start_scan, 0x01);
    assert((r == 0 || r == 0x40) && (m == 0 || m == 0x20) && (s == 0 || s == 0x01) ==> (0x80u8 | r
        | m | s) & 0x80 != 0 && ((0x80u8 | r | m | s) & 0x40 != 0 <==> r == 0x40) && ((0x80u8 | r
        | m | s) & 0x20 != 0 <==> m == 0x20) && ((0x80u8 | r | m | s) & 0x01 != 0 <==> s == 0x01))
        by (bit_vector);
    let t = v.timeslot.spec_tag();
    let k = v.slrl_pointer.spec_get_type();
    let a = spec_flag(v.auto_start_roam, 0x04);
    let x = spec_flag(v.vox, 0x40);
    let o = spec_flag(v.has_option_board, 0x80);
    assert((t == 0 || t == 1 || t == 3) && (k == 0 || k == 0x10 || k == 0x20) && (a == 0 || a
        == 0x04) && (x == 0 || x == 0x40) && (o == 0 || o == 0x80) ==> (t | k | a | x | o) & 0x3
        == t && (t | k | a | x | o) & 0x30 == k && ((t | k | a | x | o) & 0x04 != 0 <==> a == 0x04)
        && ((t | k | a | x | o) & 0x40 != 0 <==> x == 0x40) && ((t | k | a | x | o) & 0x80 != 0
        <==> o == 0x80)) by (bit_vector);
}

/// Where the parts of a digital channel record lie in its bytes.
pub proof fn lemma_digital_layout(v: DigitalChannelView)
    requires
        v.common.bytes().len() == 44,
    ensures
        v.bytes().len() == 74,
        v.bytes().subrange(0, 44) == v.common.bytes(),
        v.bytes()[44] == v.tx_admit.spec_tag(),
        v.bytes()[45] == v.tx_timeout,
        v.bytes()[46] == v.tx_timeout_prealert,
        v.bytes()[47] == v.tx_timeout_rekey,
        v.bytes()[48] == v.tx_timeout_reset,
        v.bytes()[49] == v.colour_byte(),
        u16_at(v.bytes(), 50) == v.tx_contact_idx,
        u16_at(v.bytes(), 52) == v.rx_group_list_idx,
        u16_at(v.bytes(), 54) == v.emergency_system_idx,
        v.bytes()[56] == v.slrl_pointer.spec_get_idx(),
        v.bytes()[57] == v.mode_byte(),
        v.bytes()[58] == v.slot_byte(),
        v.bytes()[59] == spec_flag(v.repeater(), 0x01),
        u16_at(v.bytes(), 60) == 0,
        v.bytes()[62] == v.unk1,
        u16_at(v.bytes(), 63) == v.loc_rev_channel_idx,
        u16_at(v.bytes(), 65) == 1,
        u16_at(v.bytes(), 67) == v.phone_system_idx,
        v.bytes()[69] == v.pseudo_trunk_tx,
        u16_at(v.bytes(), 70) == 0,
        u16_at(v.bytes(), 72) == v.rrs_revert_ch.spec_to_u16(),
{
    reveal(DigitalChannelView::bytes);
    reveal(DigitalChannelView::timer_bytes);
    reveal(DigitalChannelView::mode_bytes);
    let b = v.bytes();
    let c = v.common.bytes();
    let t = v.timer_bytes();
    let m = v.mode_bytes();
    let z = seq![v.pseudo_trunk_tx, 0u8, 0u8];
    let pre1 = c + t;
    let pre2 = pre1 + u16_le_bytes(v.tx_contact_idx);
    let pre3 = pre2 + u16_le_bytes(v.rx_group_list_idx);
    let pre4 = pre3 + u16_le_bytes(v.emergency_system_idx);
    let pre5 = pre4 + m;
    let pre6 = pre5 + u16_le_bytes(v.loc_rev_channel_idx);
    let pre7 = pre6 + u16_le_bytes(1);
    let pre8 = pre7 + u16_le_bytes(v.phone_system_idx);
    let pre9 = pre8 + z;
    assert(b == pre9 + u16_le_bytes(v.rrs_revert_ch.spec_to_u16()));
    assert(pre1.len() == 50 && pre2.len() == 52 && pre3.len() == 54 && pre4.len() == 56 && pre5.len() == 63);
    assert(pre6.len() == 65 && pre7.len() == 67 && pre8.len() == 69 && pre9.len() == 72);
    lemma_prefix_kept(pre1, u16_le_bytes(v.tx_contact_idx));
    lemma_prefix_kept(pre2, u16_le_bytes(v.rx_group_list_idx));
    lemma_prefix_kept(pre3, u16_le_bytes(v.emergency_system_idx));
    lemma_prefix_kept(pre4, m);
    lemma_prefix_kept(pre5, u16_le_bytes(v.loc_rev_channel_idx));
    lemma_prefix_kept(pre6, u16_le_bytes(1));
    lemma_prefix_kept(pre7, u16_le_bytes(v.phone_system_idx));
    lemma_prefix_kept(pre8, z);
    lemma_prefix_kept(pre9, u16_le_bytes(v.rrs_revert_ch.spec_to_u16()));
    assert(b.subrange(0, 44) =~= c);
    lemma_u16_le_roundtrip(v.tx_contact_idx);
    lemma_u16_le_roundtrip(v.rx_group_list_idx);
    lemma_u16_le_roundtrip(v.emergency_system_idx);
    lemma_u16_le_roundtrip(v.loc_rev_channel_idx);
    lemma_u16_le_roundtrip(1);
    lemma_u16_le_roundtrip(0);
    lemma_u16_le_roundtrip(v.phone_system_idx);
    lemma_u16_le_roundtrip(v.rrs_revert_ch.spec_to_u16());
}

/// The bytes after the common part of a valid digital channel decode to what
/// they were made from.
proof fn lemma_digital_tail_roundtrip(v: DigitalChannelView)
    requires
        v.common.bytes().len() == 44,
        v.common.chan_type == ChannelType::Digial,
        v.colour_code < 16,
        v.slrl_pointer.storable(),
        v.rrs_revert_ch.valid(),
    ensures
        digital_tail(v.bytes(), v.common) == Ok::<DigitalChannelView, CodecError>(v),
{
    lemma_digital_layout(v);
    lemma_digital_flags(v);
    v.tx_admit.lemma_tag_roundtrip();
    v.timeslot.lemma_tag_roundtrip();
    v.slrl_pointer.lemma_parts_roundtrip();
}

/// Decoding the bytes of a valid digital channel gives it back.
pub proof fn lemma_digital_channel_roundtrip(v: DigitalChannelView)
    requires
        v.valid(),
    ensures
        v.encode() == Ok::<Seq<u8>, CodecError>(v.bytes()),
        v.bytes().len() == 74,
        DigitalChannelView::decode(v.bytes()) == Ok::<DigitalChannelView, CodecError>(v),
{
    let b = v.bytes();
    let c = v.common.bytes();
    lemma_channel_common_roundtrip(v.common);
    lemma_digital_layout(v);
    assert(c.subrange(0, 44) =~= c);
    lemma_common_prefix(b, c);
    lemma_digital_tail_roundtrip(v);
}

/// Type of the section that holds the digital channels.
pub const DIGITAL_CHANNEL_SECTION: u16 = 0x26;

/// Whether the list that a digital channel names is there, among `scan_lists`
/// scan lists and `roam_lists` roam lists: `Ok`, or the dangling reference.
pub open spec fn list_resolves(p: SLRLPointer, scan_lists: nat, roam_lists: nat) -> Result<
    (),
    ReferenceError,
> {
    match p {
        SLRLPointer::Unset => Ok(()),
        SLRLPointer::ScanList(i) => if i < scan_lists {
            Ok(())
        } else {
            Err(ReferenceError::ScanList(i))
        },
        SLRLPointer::RoamList(i) => if i < roam_lists {
            Ok(())
        } else {
            Err(ReferenceError::RoamList(i))
        },
    }
}

impl CPData for DigitalChannel {
    open spec fn spec_cp_section() -> u16 {
        0x26
    }

    open spec fn spec_verify(v: DigitalChannelView, cp: &Codeplug) -> Result<(), ReferenceError> {
        list_resolves(v.slrl_pointer, cp.scan_list_count(), cp.roam_list_count())
    }

    fn cp_section() -> (id: u16) {
        DIGITAL_CHANNEL_SECTION
    }

    fn verify(&self, cp: &Codeplug) -> (r: Result<(), ReferenceError>) {
        match self.slrl_pointer {
            SLRLPointer::Unset => Ok(()),
            SLRLPointer::ScanList(i) => if (i as usize) < cp.scan_list.channels.data.len() {
                Ok(())
            } else {
                Err(ReferenceError::ScanList(i))
            },
            SLRLPointer::RoamList(i) => if (i as usize) < cp.roam_list.channels.data.len() {
                Ok(())
            } else {
                Err(ReferenceError::RoamList(i))
            },
        }
    }
}

} // verus!
