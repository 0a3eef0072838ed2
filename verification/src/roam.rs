//! Roam records: the name of a roam list and how the radio roams over it.

pub mod list;

use crate::bytes::{flag, put_bytes, spec_flag};
use crate::aggregate::Codeplug;
use crate::cp_data::{load_name, store_name, CPData, 
    lemma_name_roundtrip, lemma_name_text_prefix, name_bytes, name_fits, name_text, name_valid,
    RawCPData,
};
use crate::error::{CodecError, Field, ReferenceError};
use vstd::prelude::*;

verus! {

/// The settings of one roam list. Its channels stand in the roam list
/// collection at the same place.
#[derive(Debug, PartialEq, Eq)]
pub struct Roam {
    pub name: String,
    pub rssi_threshold: u8,
    pub rssi_offset: u8,
    pub interval_time: u8,
    pub active_site_roam: bool,
    pub return_to_selected_ch: bool,
    pub follow_all_master_site_config: bool,
    pub stay: bool,
}

/// A `Roam` with its name as text.
pub struct RoamView {
    pub name: Seq<char>,
    pub rssi_threshold: u8,
    pub rssi_offset: u8,
    pub interval_time: u8,
    pub active_site_roam: bool,
    pub return_to_selected_ch: bool,
    pub follow_all_master_site_config: bool,
    pub stay: bool,
}

impl View for Roam {
    type V = RoamView;

    open spec fn view(&self) -> RoamView {
        RoamView {
            name: self.name@,
            rssi_threshold: self.rssi_threshold,
            rssi_offset: self.rssi_offset,
            interval_time: self.interval_time,
            active_site_roam: self.active_site_roam,
            return_to_selected_ch: self.return_to_selected_ch,
            follow_all_master_site_config: self.follow_all_master_site_config,
            stay: self.stay,
        }
    }
}

/// Length in bytes of a roam record.
pub const ROAM_SZ: usize = 40;

impl RoamView {
    /// The byte that packs four flags into bits 1 to 4.
    pub open spec fn flags_byte(self) -> u8 {
        spec_flag(self.active_site_roam, 0x02) | spec_flag(self.return_to_selected_ch, 0x04)
            | spec_flag(self.follow_all_master_site_config, 0x08) | spec_flag(self.stay, 0x10)
    }

    /// The eight bytes after the name.
    pub open spec fn tail_bytes(self) -> Seq<u8> {
        seq![
            self.rssi_threshold,
            0u8,
            0u8,
            0u8,
            self.flags_byte(),
            self.rssi_offset,
            self.interval_time,
            0u8,
        ]
    }

    /// The forty bytes of the record, for a name that fits.
    pub open spec fn bytes(self) -> Seq<u8> {
        name_bytes(self.name) + self.tail_bytes()
    }

    /// A value that decoding gives back after encoding.
    pub open spec fn valid(self) -> bool {
        name_valid(self.name)
    }

    /// The bytes of the record, if the name fits.
    pub open spec fn encode(self) -> Result<Seq<u8>, CodecError> {
        if name_fits(self.name) {
            Ok(self.bytes())
        } else {
            Err(CodecError::NameTooLong)
        }
    }

    /// What the record at the start of a chunk decodes to.
    pub open spec fn decode(b: Seq<u8>) -> Result<RoamView, CodecError> {
        if b.len() < 40 {
            Err(CodecError::UnexpectedEof)
        } else if name_text(b) is None {
            Err(CodecError::InvalidName)
        } else if b[33] != 0 || b[34] != 0 || b[35] != 0 {
            Err(CodecError::ReservedMismatch(Field::RoamPadding))
        } else if b[39] != 0 {
            Err(CodecError::ReservedMismatch(Field::RoamReserved))
        } else {
            Ok(
                RoamView {
                    name: name_text(b).unwrap(),
                    rssi_threshold: b[32],
                    rssi_offset: b[37],
                    interval_time: b[38],
                    active_site_roam: b[36] & 0x02 != 0,
                    return_to_selected_ch: b[36] & 0x04 != 0,
                    follow_all_master_site_config: b[36] & 0x08 != 0,
                    stay: b[36] & 0x10 != 0,
                },
            )
        }
    }

    /// The roam settings that `Roam::new` makes.
    pub open spec fn spec_new(name: Seq<char>) -> RoamView {
        RoamView {
            name,
            rssi_threshold: 108,
            rssi_offset: 5,
            interval_time: 15,
            active_site_roam: true,
            return_to_selected_ch: false,
            follow_all_master_site_config: false,
            stay: true,
        }
    }
}

impl Roam {
    /// Roam settings with the given name and the usual values.
    pub fn new(name: String) -> (r: Roam)
        ensures
            r@ == RoamView::spec_new(name@),
    {
        Roam {
            name,
            rssi_threshold: 108,
            rssi_offset: 5,
            interval_time: 15,
            active_site_roam: true,
            return_to_selected_ch: false,
            follow_all_master_site_config: false,
            stay: true,
        }
    }
}

impl RawCPData for Roam {
    open spec fn spec_load(b: Seq<u8>) -> Result<RoamView, CodecError> {
        RoamView::decode(b)
    }

    open spec fn spec_store(v: RoamView) -> Result<Seq<u8>, CodecError> {
        v.encode()
    }

    fn load(bytes: &[u8]) -> (r: Result<Self, CodecError>) {
        if bytes.len() < ROAM_SZ {
            return Err(CodecError::UnexpectedEof);
        }
        let name = load_name(bytes)?;
        let rssi_threshold = bytes[32];
        if bytes[33] != 0 || bytes[34] != 0 || bytes[35] != 0 {
            return Err(CodecError::ReservedMismatch(Field::RoamPadding));
        }
        let flags = bytes[36];
        let rssi_offset = bytes[37];
        let interval_time = bytes[38];
        if bytes[39] != 0 {
            return Err(CodecError::ReservedMismatch(Field::RoamReserved));
        }
        Ok(
            Roam {
                name,
                rssi_threshold,
                rssi_offset,
                interval_time,
                active_site_roam: flags & 0x02 != 0,
                return_to_selected_ch: flags & 0x04 != 0,
                follow_all_master_site_config: flags & 0x08 != 0,
                stay: flags & 0x10 != 0,
            },
        )
    }

    fn store(&self, out: &mut Vec<u8>) -> (r: Result<(), CodecError>) {
        store_name(&self.name, out)?;
        let tail: [u8; 8] = [
            self.rssi_threshold,
            0,
            0,
            0,
            flag(self.active_site_roam, 0x02) | flag(self.return_to_selected_ch, 0x04) | flag(
                self.follow_all_master_site_config,
                0x08,
            ) | flag(self.stay, 0x10),
            self.rssi_offset,
            self.interval_time,
            0,
        ];
        assert(tail@ =~= self@.tail_bytes());
        put_bytes(out, tail.as_slice());
        assert(out@ =~= old(out)@ + self@.bytes());
        Ok(())
    }
}

/// The flags of a roam record can be read back from its flags byte.
pub proof fn lemma_roam_flags(v: RoamView)
    ensures
        v.flags_byte() & 0x02 != 0 <==> v.active_site_roam,
        v.flags_byte() & 0x04 != 0 <==> v.return_to_selected_ch,
        v.flags_byte() & 0x08 != 0 <==> v.follow_all_master_site_config,
        v.flags_byte() & 0x10 != 0 <==> v.stay,
{
    let a = spec_flag(v.active_site_roam, 0x02);
    let b = spec_flag(v.return_to_selected_ch, 0x04);
    let c = spec_flag(v.follow_all_master_site_config, 0x08);
    let d = spec_flag(v.stay, 0x10);
    assert((a == 0 || a == 0x02) && (b == 0 || b == 0x04) && (c == 0 || c == 0x08) && (d == 0 || d
        == 0x10) ==> ((a | b | c | d) & 0x02 != 0 <==> a == 0x02) && ((a | b | c | d) & 0x04 != 0
        <==> b == 0x04) && ((a | b | c | d) & 0x08 != 0 <==> c == 0x08) && ((a | b | c | d) & 0x10
        != 0 <==> d == 0x10)) by (bit_vector);
}

/// Decoding the bytes of valid roam settings gives them back.
pub proof fn lemma_roam_roundtrip(v: RoamView)
    requires
        v.valid(),
    ensures
        v.encode() == Ok::<Seq<u8>, CodecError>(v.bytes()),
        v.bytes().len() == 40,
        RoamView::decode(v.bytes()) == Ok::<RoamView, CodecError>(v),
{
    let b = v.bytes();
    let n = name_bytes(v.name);
    let t = v.tail_bytes();
    lemma_name_roundtrip(v.name);
    assert(b.subrange(0, 32) =~= n.subrange(0, 32));
    lemma_name_text_prefix(b, n);
    lemma_roam_flags(v);
    assert(b[32] == t[0] && b[33] == t[1] && b[34] == t[2] && b[35] == t[3] && b[36] == t[4]
        && b[37] == t[5] && b[38] == t[6] && b[39] == t[7]);
}

/// Type of the section that holds the roam settings.
pub const ROAM_SECTION: u16 = 0x7a;

impl CPData for Roam {
    open spec fn spec_cp_section() -> u16 {
        0x7a
    }

    open spec fn spec_verify(v: RoamView, cp: &Codeplug) -> Result<(), ReferenceError> {
        Ok(())
    }

    fn cp_section() -> (id: u16) {
        ROAM_SECTION
    }

    fn verify(&self, cp: &Codeplug) -> (r: Result<(), ReferenceError>) {
        Ok(())
    }
}

} // verus!
