//! The codeplug as a whole: every collection of records, read from an image,
//! checked, and written back.

use crate::analog_channel::{AnalogChannel, AnalogChannelView};
use crate::collection::{
    cleared, inserted, then_written, CodeplugSection, CodeplugSectionWithChanList, CollectionView,
    PairedView,
};
use crate::contact::{Contact, ContactView};
use crate::cp_data::{fetch_section_spec, CPData};
use crate::channel_pointer::digi_chan_pointer::DigiChannelPointer;
use crate::channel_pointer::pointer::ChannelPointer;
use crate::digital_channel::{DigitalChannel, DigitalChannelView};
use crate::error::{CodeplugError, ReferenceError};
use crate::integrity::{lemma_verify_iff_valid, valid};
use crate::roam::list::RoamList;
use crate::roam::{Roam, RoamView};
use crate::scan::{Scan, ScanView};
use crate::scan_list::ScanList;
use crate::section::{directory, section_views, Section, SectionView};
use crate::zone::{Zone, ZoneView};
use crate::zone_list::ZoneList;
use vstd::prelude::*;
use vstd::string::StrSliceExecFns;
use vstd::utf8::{decode_utf8, valid_utf8};

verus! {

/// Class of a radio.
#[derive(PartialEq, Eq, Clone, Copy, Debug, Structural)]
pub enum DeviceType {
    Portable,
    Mobile,
}

/// The decoded contents of a codeplug image.
pub struct Codeplug {
    pub contacts: CodeplugSection<Contact>,
    pub zones: CodeplugSectionWithChanList<Zone, ZoneList>,
    pub digi_chans: CodeplugSection<DigitalChannel>,
    pub ana_chans: CodeplugSection<AnalogChannel>,
    pub scan_list: CodeplugSectionWithChanList<Scan, ScanList>,
    pub roam_list: CodeplugSectionWithChanList<Roam, RoamList>,
    /// The radio model field of the image.
    pub model: String,
}

/// A `Codeplug` with every collection as a sequence of record views.
pub struct CodeplugView {
    pub contacts: CollectionView<ContactView>,
    pub zones: PairedView<ZoneView, Seq<ChannelPointer>>,
    pub digi_chans: CollectionView<DigitalChannelView>,
    pub ana_chans: CollectionView<AnalogChannelView>,
    pub scan_list: PairedView<ScanView, Seq<ChannelPointer>>,
    pub roam_list: PairedView<RoamView, Seq<DigiChannelPointer>>,
    pub model: Seq<char>,
}

impl View for Codeplug {
    type V = CodeplugView;

    open spec fn view(&self) -> CodeplugView {
        CodeplugView {
            contacts: self.contacts@,
            zones: self.zones@,
            digi_chans: self.digi_chans@,
            ana_chans: self.ana_chans@,
            scan_list: self.scan_list@,
            roam_list: self.roam_list@,
            model: self.model@,
        }
    }
}

/// Where in an image the radio model field starts.
pub const MODEL_OFFSET: usize = 0x3c;

/// Length in bytes of the radio model field.
pub const MODEL_LEN: usize = 27;

/// The bytes of the radio model field of an image: twenty-seven bytes from
/// offset 0x3c on, or as many of them as the image holds.
pub open spec fn model_bytes(image: Seq<u8>) -> Seq<u8> {
    if image.len() <= 0x3c {
        Seq::empty()
    } else if image.len() < 0x57 {
        image.subrange(0x3c, image.len() as int)
    } else {
        image.subrange(0x3c, 0x57)
    }
}

/// The radio model of an image: its model field, where that is UTF-8.
pub open spec fn model_text(image: Seq<u8>) -> Result<Seq<char>, CodeplugError> {
    if valid_utf8(model_bytes(image)) {
        Ok(decode_utf8(model_bytes(image)))
    } else {
        Err(CodeplugError::Model)
    }
}

/// Calls `String::from_utf8` on a copy of the bytes, which gives the text
/// that the bytes encode where they are UTF-8 and fails where they are not.
#[verifier::external_body]
fn utf8_text(b: &[u8]) -> (r: Option<String>)
    ensures
        match r {
            Some(s) => valid_utf8(b@) && s@ == decode_utf8(b@),
            None => !valid_utf8(b@),
        },
{
    String::from_utf8(b.to_vec()).ok()
}

/// Why a record is not added to a codeplug: it does not fit the codeplug,
/// which names the section `checked` and the place `index` that the record
/// would take; or it fits, and the section `full` has no room for it.
pub open spec fn refusal(
    fit: Result<(), ReferenceError>,
    checked: u16,
    index: nat,
    full: u16,
) -> CodeplugError {
    match fit {
        Err(reason) => CodeplugError::Reference { section: checked, index: index as usize, reason },
        Ok(_) => CodeplugError::SectionFull(full),
    }
}

/// A collection and its lists, as `fetch_section` finds them in a section
/// directory: first the collection, then the lists.
pub open spec fn fetch_pair_spec<T: CPData, M: CPData>(
    sections: Map<u16, SectionView>,
    section: u16,
    lists: u16,
) -> Result<PairedView<T::V, M::V>, CodeplugError> {
    match fetch_section_spec::<T>(sections, section) {
        Err(e) => Err(e),
        Ok(data) => match fetch_section_spec::<M>(sections, lists) {
            Err(e) => Err(e),
            Ok(channels) => Ok(PairedView { data, channels }),
        },
    }
}

/// The three plain collections, as `fetch_section` finds them in a section
/// directory: contacts, digital channels, analog channels.
pub open spec fn fetch_plain_spec(sections: Map<u16, SectionView>) -> Result<
    (
        CollectionView<ContactView>,
        CollectionView<DigitalChannelView>,
        CollectionView<AnalogChannelView>,
    ),
    CodeplugError,
> {
    match fetch_section_spec::<Contact>(sections, 0x2a) {
        Err(e) => Err(e),
        Ok(contacts) => match fetch_section_spec::<DigitalChannel>(sections, 0x26) {
            Err(e) => Err(e),
            Ok(digi_chans) => match fetch_section_spec::<AnalogChannel>(sections, 0x27) {
                Err(e) => Err(e),
                Ok(ana_chans) => Ok((contacts, digi_chans, ana_chans)),
            },
        },
    }
}

/// What reading an image gives: the radio model, the section directory, and
/// from the directory the zones, the scan settings, the roam settings, each
/// with its lists, then contacts and channels. The first failure is the
/// result.
pub open spec fn read_spec(image: Seq<u8>) -> Result<CodeplugView, CodeplugError> {
    match model_text(image) {
        Err(e) => Err(e),
        Ok(model) => match directory(image) {
            Err(e) => Err(CodeplugError::Directory { at: e.0, cause: e.1 }),
            Ok(dir) => match fetch_pair_spec::<Zone, ZoneList>(dir, 0x24, 0x23) {
                Err(e) => Err(e),
                Ok(zones) => match fetch_pair_spec::<Scan, ScanList>(dir, 0x6d, 0x4d) {
                    Err(e) => Err(e),
                    Ok(scan_list) => match fetch_pair_spec::<Roam, RoamList>(dir, 0x7a, 0x79) {
                        Err(e) => Err(e),
                        Ok(roam_list) => match fetch_plain_spec(dir) {
                            Err(e) => Err(e),
                            Ok(plain) => Ok(
                                CodeplugView {
                                    contacts: plain.0,
                                    zones,
                                    digi_chans: plain.1,
                                    ana_chans: plain.2,
                                    scan_list,
                                    roam_list,
                                    model,
                                },
                            ),
                        },
                    },
                },
            },
        },
    }
}

impl Codeplug {
    /// Number of digital channels.
    pub open spec fn digital_count(&self) -> nat {
        self.digi_chans.data@.len()
    }

    /// Number of analog channels.
    pub open spec fn analog_count(&self) -> nat {
        self.ana_chans.data@.len()
    }

    /// Number of scan lists.
    pub open spec fn scan_list_count(&self) -> nat {
        self.scan_list.channels.data@.len()
    }

    /// Number of roam lists.
    pub open spec fn roam_list_count(&self) -> nat {
        self.roam_list.channels.data@.len()
    }

    /// Whether the codeplug may be written: every collection verifies, in the
    /// order contacts, analog channels, digital channels, scan lists, zones,
    /// roam lists. The first failure is the result.
    pub open spec fn spec_verify(&self) -> Result<(), CodeplugError> {
        match self.contacts.spec_verify(self) {
            Err(e) => Err(e),
            Ok(_) => match self.ana_chans.spec_verify(self) {
                Err(e) => Err(e),
                Ok(_) => match self.digi_chans.spec_verify(self) {
                    Err(e) => Err(e),
                    Ok(_) => match self.scan_list.spec_verify(self) {
                        Err(e) => Err(e),
                        Ok(_) => match self.zones.spec_verify(self) {
                            Err(e) => Err(e),
                            Ok(_) => self.roam_list.spec_verify(self),
                        },
                    },
                },
            },
        }
    }

    /// What writing every collection makes of an image, without regard to
    /// whether the codeplug verifies: contacts, digital channels, analog
    /// channels, zones and their lists, scan settings and their lists, roam
    /// settings and their lists. After a failure nothing more is written.
    pub open spec fn written(&self, image: Seq<u8>) -> (Seq<u8>, Result<nat, CodeplugError>) {
        let s0 = (image, Ok::<nat, CodeplugError>(0nat));
        let s1 = then_written::<Contact>(s0, self.contacts@, 0x2a);
        let s2 = then_written::<DigitalChannel>(s1, self.digi_chans@, 0x26);
        let s3 = then_written::<AnalogChannel>(s2, self.ana_chans@, 0x27);
        let s4 = then_written::<Zone>(s3, self.zones.data@, 0x24);
        let s5 = then_written::<ZoneList>(s4, self.zones.channels@, 0x23);
        let s6 = then_written::<Scan>(s5, self.scan_list.data@, 0x6d);
        let s7 = then_written::<ScanList>(s6, self.scan_list.channels@, 0x4d);
        let s8 = then_written::<Roam>(s7, self.roam_list.data@, 0x7a);
        then_written::<RoamList>(s8, self.roam_list.channels@, 0x79)
    }

    /// What `write_codeplug` makes of an image: a codeplug that does not
    /// verify leaves it as it is.
    pub open spec fn spec_write(&self, image: Seq<u8>) -> (Seq<u8>, Result<nat, CodeplugError>) {
        match self.spec_verify() {
            Err(e) => (image, Err(e)),
            Ok(_) => self.written(image),
        }
    }

    /// The radio model of an image.
    pub fn get_radio_model(image: &[u8]) -> (r: Result<String, CodeplugError>)
        ensures
            match r {
                Ok(s) => model_text(image@) == Ok::<Seq<char>, CodeplugError>(s@),
                Err(e) => model_text(image@) == Err::<Seq<char>, CodeplugError>(e),
            },
    {
        let len = image.len();
        let field = if len <= MODEL_OFFSET {
            &image[0..0]
        } else if len < MODEL_OFFSET + MODEL_LEN {
            &image[MODEL_OFFSET..len]
        } else {
            &image[MODEL_OFFSET..MODEL_OFFSET + MODEL_LEN]
        };
        assert(field@ =~= model_bytes(image@));
        match utf8_text(field) {
            Some(s) => Ok(s),
            None => Err(CodeplugError::Model),
        }
    }

    /// Decodes a codeplug from its image.
    pub fn read_codeplug(image: &[u8]) -> (r: Result<Codeplug, CodeplugError>)
        ensures
            match r {
                Ok(cp) => read_spec(image@) == Ok::<CodeplugView, CodeplugError>(cp@),
                Err(e) => read_spec(image@) == Err::<CodeplugView, CodeplugError>(e),
            },
    {
        let model = Self::get_radio_model(image)?;
        let sections = match Section::load_sections(image) {
            Ok(s) => s,
            Err(e) => {
                return Err(CodeplugError::Directory { at: e.0, cause: e.1 });
            },
        };
        let ghost dir = section_views(sections@);
        let zones = Zone::fetch_section(&sections)?;
        let zone_list = ZoneList::fetch_section(&sections)?;
        let scan = Scan::fetch_section(&sections)?;
        let scan_list = ScanList::fetch_section(&sections)?;
        let roam = Roam::fetch_section(&sections)?;
        let roam_list = RoamList::fetch_section(&sections)?;
        let contacts = Contact::fetch_section(&sections)?;
        let digi_chans = DigitalChannel::fetch_section(&sections)?;
        let ana_chans = AnalogChannel::fetch_section(&sections)?;
        Ok(
            Codeplug {
                contacts,
                zones: CodeplugSectionWithChanList { data: zones, channels: zone_list },
                digi_chans,
                ana_chans,
                scan_list: CodeplugSectionWithChanList { data: scan, channels: scan_list },
                roam_list: CodeplugSectionWithChanList { data: roam, channels: roam_list },
                model,
            },
        )
    }

    /// The class of the radio: mobile where the model starts with `m`, else
    /// portable.
    pub fn radio_type(&self) -> (r: DeviceType)
        ensures
            r == if self.model@.len() > 0 && self.model@[0] == 'm' {
                DeviceType::Mobile
            } else {
                DeviceType::Portable
            },
    {
        let s = self.model.as_str();
        if s.unicode_len() > 0 && s.get_char(0) == 'm' {
            DeviceType::Mobile
        } else {
            DeviceType::Portable
        }
    }

    /// Checks every collection: the counts of the headers, the parity of each
    /// collection with its lists, and every reference. The first failure is
    /// reported.
    pub fn verify(&self) -> (r: Result<(), CodeplugError>)
        ensures
            r == self.spec_verify(),
            r is Ok <==> valid(self),
    {
        proof {
            lemma_verify_iff_valid(self);
        }
        self.contacts.verify(self)?;
        self.ana_chans.verify(self)?;
        self.digi_chans.verify(self)?;
        self.scan_list.verify(self)?;
        self.zones.verify(self)?;
        self.roam_list.verify(self)
    }

    /// Verifies the codeplug, then writes every collection into the image at
    /// the address of its section. A codeplug that does not verify is not
    /// written. Gives the number of records that were cut or filled to the
    /// size of their slot.
    pub fn write_codeplug(&self, image: &mut Vec<u8>) -> (r: Result<u64, CodeplugError>)
        ensures
            final(image)@ == self.spec_write(old(image)@).0,
            match r {
                Ok(n) => self.spec_write(old(image)@).1 == Ok::<nat, CodeplugError>(n as nat),
                Err(e) => self.spec_write(old(image)@).1 == Err::<nat, CodeplugError>(e),
            },
    {
        self.verify()?;
        let n1 = self.contacts.write(image)?;
        let n2 = self.digi_chans.write(image)?;
        let n3 = self.ana_chans.write(image)?;
        let n4 = self.zones.write(image)?;
        let n5 = self.scan_list.write(image)?;
        let n6 = self.roam_list.write(image)?;
        Ok(n1 as u64 + n2 as u64 + n3 as u64 + n4 + n5 + n6)
    }

    /// Empties every collection: no records are left, every header counts
    /// zero records, and the sections and the radio model stay as they are
    /// otherwise. An empty codeplug is valid.
    pub fn clear_codeplug(&mut self)
        ensures
            valid(final(self)),
            cleared(&old(self).contacts, &final(self).contacts),
            cleared(&old(self).ana_chans, &final(self).ana_chans),
            cleared(&old(self).digi_chans, &final(self).digi_chans),
            cleared(&old(self).scan_list.data, &final(self).scan_list.data),
            cleared(&old(self).scan_list.channels, &final(self).scan_list.channels),
            cleared(&old(self).zones.data, &final(self).zones.data),
            cleared(&old(self).zones.channels, &final(self).zones.channels),
            cleared(&old(self).roam_list.data, &final(self).roam_list.data),
            cleared(&old(self).roam_list.channels, &final(self).roam_list.channels),
            final(self).model == old(self).model,
    {
        self.contacts.clear();
        self.ana_chans.clear();
        self.digi_chans.clear();
        self.scan_list.clear();
        self.zones.clear();
        self.roam_list.clear();
    }

    /// Appends a contact where the section has room for it; else the
    /// codeplug stays as it is. Gives the place of the contact.
    pub fn add_contact(&mut self, contact: Contact) -> (r: Result<usize, CodeplugError>)
        ensures
            valid(old(self)) ==> valid(final(self)),
            match r {
                Ok(n) => old(self).contacts.spec_has_room() && n == old(self).contacts.data@.len()
                    && inserted(&old(self).contacts, &final(self).contacts, contact) && *final(self)
                    == (Codeplug { contacts: final(self).contacts, ..*old(self) }),
                Err(e) => !old(self).contacts.spec_has_room() && e == CodeplugError::SectionFull(
                    0x2a,
                ) && *final(self) == *old(self),
            },
    {
        match self.contacts.try_insert(contact) {
            Ok(n) => Ok(n),
            Err(_) => Err(CodeplugError::SectionFull(Contact::cp_section())),
        }
    }

    /// Appends an analog channel where the section has room for it; else the
    /// codeplug stays as it is. Gives the place of the channel.
    pub fn add_analog_channel(&mut self, channel: AnalogChannel) -> (r: Result<
        usize,
        CodeplugError,
    >)
        ensures
            valid(old(self)) ==> valid(final(self)),
            match r {
                Ok(n) => old(self).ana_chans.spec_has_room() && n == old(self).ana_chans.data@.len()
                    && inserted(&old(self).ana_chans, &final(self).ana_chans, channel) && *final(self) == (Codeplug { ana_chans: final(self).ana_chans, ..*old(self) }),
                Err(e) => !old(self).ana_chans.spec_has_room() && e == CodeplugError::SectionFull(
                    0x27,
                ) && *final(self) == *old(self),
            },
    {
        match self.ana_chans.try_insert(channel) {
            Ok(n) => Ok(n),
            Err(_) => Err(CodeplugError::SectionFull(AnalogChannel::cp_section())),
        }
    }

    /// Appends a digital channel where the scan list or roam list that it
    /// names is there and the section has room for it; else the codeplug
    /// stays as it is. Gives the place of the channel.
    pub fn add_digital_channel(&mut self, channel: DigitalChannel) -> (r: Result<
        usize,
        CodeplugError,
    >)
        ensures
            valid(old(self)) ==> valid(final(self)),
            match r {
                Ok(n) => n == old(self).digi_chans.data@.len() && inserted(
                    &old(self).digi_chans,
                    &final(self).digi_chans,
                    channel,
                ) && *final(self) == (Codeplug { digi_chans: final(self).digi_chans, ..*old(self) }),
                Err(e) => *final(self) == *old(self) && e == refusal(
                    DigitalChannel::spec_verify(channel@, old(self)),
                    0x26,
                    old(self).digi_chans.data@.len(),
                    0x26,
                ),
            },
            r is Ok <==> DigitalChannel::spec_verify(channel@, old(self)) is Ok && old(self).digi_chans.spec_has_room(),
    {
        let section = DigitalChannel::cp_section();
        match channel.verify(self) {
            Ok(_) => {},
            Err(reason) => {
                return Err(
                    CodeplugError::Reference { section, index: self.digi_chans.data.len(), reason },
                );
            },
        }
        match self.digi_chans.try_insert(channel) {
            Ok(n) => Ok(n),
            Err(_) => Err(CodeplugError::SectionFull(section)),
        }
    }

    /// Appends a zone and its channels where every channel is there and both
    /// sections have room; else the codeplug stays as it is. Gives the place
    /// of the zone.
    pub fn add_zone(&mut self, zone: Zone, channels: ZoneList) -> (r: Result<usize, CodeplugError>)
        ensures
            valid(old(self)) ==> valid(final(self)),
            match r {
                Ok(n) => n == old(self).zones.data.data@.len() && inserted(
                    &old(self).zones.data,
                    &final(self).zones.data,
                    zone,
                ) && inserted(&old(self).zones.channels, &final(self).zones.channels, channels)
                    && *final(self) == (Codeplug { zones: final(self).zones, ..*old(self) }),
                Err(e) => *final(self) == *old(self) && e == refusal(
                    ZoneList::spec_verify(channels@, old(self)),
                    0x23,
                    old(self).zones.channels.data@.len(),
                    0x24,
                ),
            },
            r is Ok <==> ZoneList::spec_verify(channels@, old(self)) is Ok && old(self).zones.spec_has_room(),
    {
        proof {
            crate::integrity::lemma_wide_list(self, channels.channels@);
        }
        match channels.verify(self) {
            Ok(_) => {},
            Err(reason) => {
                return Err(
                    CodeplugError::Reference {
                        section: ZoneList::cp_section(),
                        index: self.zones.channels.data.len(),
                        reason,
                    },
                );
            },
        }
        if !self.zones.has_room() {
            return Err(CodeplugError::SectionFull(Zone::cp_section()));
        }
        Ok(self.zones.insert(zone, channels))
    }

    /// Appends scan settings and their channels where the list starts with
    /// the selected channel, every channel is there and both sections have
    /// room; else the codeplug stays as it is. Gives the place of the scan
    /// list.
    pub fn add_scan_list(&mut self, scan: Scan, channels: ScanList) -> (r: Result<
        usize,
        CodeplugError,
    >)
        ensures
            valid(old(self)) ==> valid(final(self)),
            match r {
                Ok(n) => n == old(self).scan_list.data.data@.len() && inserted(
                    &old(self).scan_list.data,
                    &final(self).scan_list.data,
                    scan,
                ) && inserted(
                    &old(self).scan_list.channels,
                    &final(self).scan_list.channels,
                    channels,
                ) && *final(self) == (Codeplug { scan_list: final(self).scan_list, ..*old(self) }),
                Err(e) => *final(self) == *old(self) && e == refusal(
                    ScanList::spec_verify(channels@, old(self)),
                    0x4d,
                    old(self).scan_list.channels.data@.len(),
                    0x6d,
                ),
            },
            r is Ok <==> ScanList::spec_verify(channels@, old(self)) is Ok && old(self).scan_list.spec_has_room(),
    {
        proof {
            crate::integrity::lemma_wide_list(self, channels.channels@);
        }
        match channels.verify(self) {
            Ok(_) => {},
            Err(reason) => {
                return Err(
                    CodeplugError::Reference {
                        section: ScanList::cp_section(),
                        index: self.scan_list.channels.data.len(),
                        reason,
                    },
                );
            },
        }
        if !self.scan_list.has_room() {
            return Err(CodeplugError::SectionFull(Scan::cp_section()));
        }
        Ok(self.scan_list.insert(scan, channels))
    }

    /// Appends roam settings and their channels where the list starts with
    /// the selected channel, every channel is there and both sections have
    /// room; else the codeplug stays as it is. Gives the place of the roam
    /// list.
    pub fn add_roam_list(&mut self, roam: Roam, channels: RoamList) -> (r: Result<
        usize,
        CodeplugError,
    >)
        ensures
            valid(old(self)) ==> valid(final(self)),
            match r {
                Ok(n) => n == old(self).roam_list.data.data@.len() && inserted(
                    &old(self).roam_list.data,
                    &final(self).roam_list.data,
                    roam,
                ) && inserted(
                    &old(self).roam_list.channels,
                    &final(self).roam_list.channels,
                    channels,
                ) && *final(self) == (Codeplug { roam_list: final(self).roam_list, ..*old(self) }),
                Err(e) => *final(self) == *old(self) && e == refusal(
                    RoamList::spec_verify(channels@, old(self)),
                    0x79,
                    old(self).roam_list.channels.data@.len(),
                    0x7a,
                ),
            },
            r is Ok <==> RoamList::spec_verify(channels@, old(self)) is Ok && old(self).roam_list.spec_has_room(),
    {
        proof {
            crate::integrity::lemma_narrow_list(self, channels.channels@);
        }
        match channels.verify(self) {
            Ok(_) => {},
            Err(reason) => {
                return Err(
                    CodeplugError::Reference {
                        section: RoamList::cp_section(),
                        index: self.roam_list.channels.data.len(),
                        reason,
                    },
                );
            },
        }
        if !self.roam_list.has_room() {
            return Err(CodeplugError::SectionFull(Roam::cp_section()));
        }
        Ok(self.roam_list.insert(roam, channels))
    }
}

} // verus!
