//! Filling a codeplug with a fixed set of repeaters, simplex channels, scan
//! lists and roam lists. Every step goes through the checked insertions of
//! the codeplug, so that a valid codeplug stays valid.

use crate::aggregate::{Codeplug, DeviceType};
use crate::analog_channel::ctcss::{CTCSSType, Ctcss};
use crate::analog_channel::{AnalogChannel, AnalogChannelView};
use crate::channel_common::PowerLevel;
use crate::channel_pointer::digi_chan_pointer::DigiChannelPointer;
use crate::channel_pointer::pointer::ChannelPointer;
use crate::contact::{CallType, Contact, ContactView};
use crate::digital_channel::modes::{SLRLPointer, Timeslot};
use crate::digital_channel::{DigitalChannel, DigitalChannelView};
use crate::collection::{inserted, CodeplugSection};
use crate::cp_data::CPData;
use crate::error::CodeplugError;
use crate::integrity::{lemma_wide_list, valid};
use crate::roam::list::RoamList;
use crate::roam::Roam;
use crate::scan::{Scan, ScanView};
use crate::scan_list::ScanList;
use crate::section::{SectionHeader, SectionView};
use crate::zone::{Zone, ZoneView};
use crate::zone_list::ZoneList;
use itertools::Itertools;
use vstd::prelude::*;
use vstd::string::StringExecFns;

verus! {

/// The decimal digits of a number, without leading zeros.
pub open spec fn decimal(n: nat) -> Seq<char>
    decreases n,
{
    if n < 10 {
        seq![(0x30 + n) as char]
    } else {
        decimal(n / 10).push((0x30 + n % 10) as char)
    }
}

/// Calls `u32::to_string`, which gives the decimal digits of the number.
#[verifier::external_body]
fn decimal_string(n: u32) -> (r: String)
    ensures
        r@ == decimal(n as nat),
{
    n.to_string()
}

/// Calls `itertools::Itertools::find_position` on the contacts, which gives
/// the place of the first contact that has the number `id`.
#[verifier::external_body]
fn find_contact(contacts: &Vec<Contact>, id: u32) -> (r: Option<usize>)
    ensures
        match r {
            Some(i) => i < contacts@.len() && contacts@[i as int].id == id && forall|j: int|
                0 <= j < i ==> contacts@[j].id != id,
            None => forall|j: int| 0 <= j < contacts@.len() ==> contacts@[j].id != id,
        },
{
    contacts.iter().find_position(|c| c.has_id(id)).map(|p| p.0)
}

/// The name of the contact for a talk group: its number, a space, its name.
pub open spec fn spec_contact_name(id: u32, name: Seq<char>) -> Seq<char> {
    decimal(id as nat) + " "@ + name
}

/// The name of the contact for a talk group.
fn contact_name(id: u32, name: &str) -> (r: String)
    ensures
        r@ == spec_contact_name(id, name@),
{
    let mut s = decimal_string(id);
    s.append(" ");
    s.append(name);
    s
}

/// The short name of a timeslot.
pub open spec fn spec_slot_name(ts: Timeslot) -> Seq<char> {
    match ts {
        Timeslot::Slot1 => "S1"@,
        Timeslot::Slot2 => "S2"@,
        Timeslot::PseudoTrunk => "PS"@,
    }
}

/// A talk group that every repeater gets a channel for.
#[derive(Clone, Copy, Debug)]
pub struct TalkGroup {
    pub name: &'static str,
    pub id: u32,
    pub slot: Timeslot,
    /// Whether the name of the channel says the timeslot.
    pub local: bool,
}

/// The talk groups of a repeater; a repeater that roams gets one more.
pub open spec fn spec_talk_groups(roams: bool) -> Seq<TalkGroup> {
    let groups = seq![
        TalkGroup { name: "WW", id: 1, slot: Timeslot::Slot1, local: false },
        TalkGroup { name: "Europe", id: 2, slot: Timeslot::Slot1, local: false },
        TalkGroup { name: "UK Call", id: 235, slot: Timeslot::Slot1, local: false },
        TalkGroup { name: "UK UA", id: 80, slot: Timeslot::Slot1, local: false },
        TalkGroup { name: "UK UA", id: 81, slot: Timeslot::Slot1, local: false },
        TalkGroup { name: "UK UA", id: 82, slot: Timeslot::Slot1, local: false },
        TalkGroup { name: "UK UA", id: 83, slot: Timeslot::Slot1, local: false },
        TalkGroup { name: "CQ-UK UA", id: 2351, slot: Timeslot::Slot1, local: false },
        TalkGroup { name: "NW", id: 820, slot: Timeslot::Slot1, local: false },
        TalkGroup { name: "Echo", id: 9990, slot: Timeslot::Slot1, local: false },
        TalkGroup { name: "Local", id: 9, slot: Timeslot::Slot1, local: true },
        TalkGroup { name: "Local", id: 9, slot: Timeslot::Slot2, local: true },
    ];
    if roams {
        groups.push(TalkGroup { name: "M62 Roam", id: 862, slot: Timeslot::Slot2, local: false })
    } else {
        groups
    }
}

/// The talk groups of a repeater.
fn talk_groups(roams: bool) -> (r: Vec<TalkGroup>)
    ensures
        r@ == spec_talk_groups(roams),
{
    let mut r: Vec<TalkGroup> = Vec::new();
    r.push(TalkGroup { name: "WW", id: 1, slot: Timeslot::Slot1, local: false });
    r.push(TalkGroup { name: "Europe", id: 2, slot: Timeslot::Slot1, local: false });
    r.push(TalkGroup { name: "UK Call", id: 235, slot: Timeslot::Slot1, local: false });
    r.push(TalkGroup { name: "UK UA", id: 80, slot: Timeslot::Slot1, local: false });
    r.push(TalkGroup { name: "UK UA", id: 81, slot: Timeslot::Slot1, local: false });
    r.push(TalkGroup { name: "UK UA", id: 82, slot: Timeslot::Slot1, local: false });
    r.push(TalkGroup { name: "UK UA", id: 83, slot: Timeslot::Slot1, local: false });
    r.push(TalkGroup { name: "CQ-UK UA", id: 2351, slot: Timeslot::Slot1, local: false });
    r.push(TalkGroup { name: "NW", id: 820, slot: Timeslot::Slot1, local: false });
    r.push(TalkGroup { name: "Echo", id: 9990, slot: Timeslot::Slot1, local: false });
    r.push(TalkGroup { name: "Local", id: 9, slot: Timeslot::Slot1, local: true });
    r.push(TalkGroup { name: "Local", id: 9, slot: Timeslot::Slot2, local: true });
    if roams {
        r.push(TalkGroup { name: "M62 Roam", id: 862, slot: Timeslot::Slot2, local: false });
    }
    assert(r@ =~= spec_talk_groups(roams));
    r
}

/// The name of the channel of a repeater for a talk group: the letters of
/// the repeater, the number of the talk group, the timeslot where the name
/// says it, and the name of the talk group, with spaces between them.
pub open spec fn spec_channel_name(suffix: Seq<char>, group: TalkGroup) -> Seq<char> {
    if group.local {
        suffix + " "@ + decimal(group.id as nat) + " "@ + spec_slot_name(group.slot) + " "@
            + group.name@
    } else {
        suffix + " "@ + decimal(group.id as nat) + " "@ + group.name@
    }
}

/// The name of the zone of a repeater: `GB7`, the letters of the repeater, a
/// space, and the place.
pub open spec fn spec_zone_name(suffix: Seq<char>, loc: Seq<char>) -> Seq<char> {
    "GB7"@ + suffix + " "@ + loc
}

/// Three decimal digits of a number below a thousand.
pub open spec fn spec_pad3(n: nat) -> Seq<char> {
    if n < 10 {
        "00"@ + decimal(n)
    } else if n < 100 {
        "0"@ + decimal(n)
    } else {
        decimal(n)
    }
}

/// The name of a simplex channel: `U`, its number, and in brackets its
/// frequency in megahertz with three places behind the point.
pub open spec fn spec_simplex_name(number: u32, freq: u32) -> Seq<char> {
    "U"@ + decimal(number as nat) + " ("@ + decimal((freq / 1_000_000) as nat) + "."@ + spec_pad3(
        ((freq % 1_000_000) / 1000) as nat,
    ) + ")"@
}

/// The name of the channel of a repeater for a talk group.
fn channel_name(suffix: &str, group: &TalkGroup) -> (r: String)
    ensures
        r@ == spec_channel_name(suffix@, *group),
{
    let mut s = String::from_str(suffix);
    s.append(" ");
    s.append(decimal_string(group.id).as_str());
    s.append(" ");
    if group.local {
        s.append(Codeplug::slot_name(group.slot).as_str());
        s.append(" ");
    }
    s.append(group.name);
    s
}

/// The name of the zone of a repeater.
fn zone_name(suffix: &str, loc: &str) -> (r: String)
    ensures
        r@ == spec_zone_name(suffix@, loc@),
{
    let mut s = String::from_str("GB7");
    s.append(suffix);
    s.append(" ");
    s.append(loc);
    s
}

/// The name of a simplex channel.
fn simplex_name(number: u32, freq: u32) -> (r: String)
    ensures
        r@ == spec_simplex_name(number, freq),
{
    let mut s = String::from_str("U");
    s.append(decimal_string(number).as_str());
    s.append(" (");
    s.append(decimal_string(freq / 1_000_000).as_str());
    s.append(".");
    let khz: u32 = (freq % 1_000_000) / 1000;
    if khz < 10 {
        s.append("00");
    } else if khz < 100 {
        s.append("0");
    }
    s.append(decimal_string(khz).as_str());
    s.append(")");
    assert(s@ =~= spec_simplex_name(number, freq));
    s
}

/// A digital channel that scans the scan list at place `idx` from the start.
pub open spec fn scanning_digital(ch: DigitalChannel, idx: u8) -> DigitalChannel {
    DigitalChannel { slrl_pointer: SLRLPointer::ScanList(idx), auto_start_scan: true, ..ch }
}

/// An analog channel that scans the scan list at place `idx` from the start.
pub open spec fn scanning_analog(ch: AnalogChannel, idx: u8) -> AnalogChannel {
    AnalogChannel { scan_list_idx: (idx + 1) as u8, auto_start_scan: true, ..ch }
}

/// A digital channel that roams over the roam list at place `idx`.
pub open spec fn roaming_digital(ch: DigitalChannel, idx: u8) -> DigitalChannel {
    DigitalChannel {
        ip_multi_site_connect: true,
        slrl_pointer: SLRLPointer::RoamList(idx),
        auto_start_roam: true,
        ..ch
    }
}

/// Whether the channels of a list can all be set to scan: none is the
/// selected channel, and every one is there.
pub open spec fn can_scan(cp: &Codeplug, ptrs: Seq<ChannelPointer>) -> bool {
    forall|j: int|
        0 <= j < ptrs.len() ==> (#[trigger] ptrs[j]) != ChannelPointer::Selected && ptrs[j].resolves(
            cp.digital_count(),
            cp.analog_count(),
        ) is Ok
}

/// Whether `after` is the collection `before` with one record appended that
/// has the view `v`: the records that were there, the new record behind
/// them, one more in the count of the header, and the section as it was
/// otherwise.
pub open spec fn appended<T: CPData>(
    before: &CodeplugSection<T>,
    after: &CodeplugSection<T>,
    v: T::V,
) -> bool {
    &&& after.data@.len() == before.data@.len() + 1
    &&& after.data@.subrange(0, before.data@.len() as int) == before.data@
    &&& after.data@.last()@ == v
    &&& after.sec@ == (SectionView { header: after.sec.header, ..before.sec@ })
    &&& after.sec.header == (SectionHeader {
        elements_in_use: (before.sec.header.elements_in_use + 1) as u16,
        ..before.sec.header
    })
}

/// A collection that a record was inserted into has that record appended.
pub proof fn lemma_inserted_appended<T: CPData>(
    before: &CodeplugSection<T>,
    after: &CodeplugSection<T>,
    obj: T,
)
    requires
        inserted(before, after, obj),
    ensures
        appended(before, after, obj@),
{
    assert(after.data@.subrange(0, before.data@.len() as int) =~= before.data@);
}

/// Pointers to the `n` analog channels from place `first` on.
pub open spec fn analog_run(first: nat, n: nat) -> Seq<ChannelPointer> {
    Seq::new(n, |k: int| ChannelPointer::Analog((first + k) as u16))
}

/// How many more analog channels `add_analog_zone` can append to a
/// codeplug: as many as the section has room for, and no more than a
/// pointer can name.
pub open spec fn analog_room(cp: &Codeplug) -> int {
    let by_index = 0xffff - cp.ana_chans.data@.len();
    let by_slots = cp.ana_chans.sec.header.capacity - 1 - cp.ana_chans.sec.header.elements_in_use;
    let least = if by_index <= by_slots {
        by_index
    } else {
        by_slots
    };
    if least < 0 {
        0
    } else {
        least
    }
}

/// What `add_analog_zone` gives for `n` channels: the place of the new
/// zone, or the failure of the first step that fails. A zone takes two
/// channels at least; all the channels must find room; then the scan
/// settings and their list, then the zone and its list; and the place of the
/// scan list must be one that an analog channel can store.
pub open spec fn analog_zone_result(cp: &Codeplug, n: nat) -> Result<usize, CodeplugError> {
    if n < 2 {
        Err(CodeplugError::ZoneTooSmall)
    } else if analog_room(cp) < n {
        Err(CodeplugError::SectionFull(0x27))
    } else if !cp.scan_list.spec_has_room() {
        Err(CodeplugError::SectionFull(0x6d))
    } else if !cp.zones.spec_has_room() {
        Err(CodeplugError::SectionFull(0x24))
    } else if cp.scan_list.data.data@.len() >= 255 {
        Err(CodeplugError::NoSuchScanList(cp.scan_list.data.data@.len() as usize))
    } else {
        Ok(cp.zones.data.data@.len() as usize)
    }
}

/// The analog channel that `add_analog_zone` makes of a name, a transmit
/// and a receive frequency: without tones, and set to scan the scan list at
/// the place `scanning` from the start, where there is one.
pub open spec fn new_analog(
    power: PowerLevel,
    chan: (String, u32, u32),
    scanning: Option<u8>,
) -> AnalogChannelView {
    let off = Ctcss { kind: CTCSSType::Off, freq: 0 };
    let plain = AnalogChannelView::spec_new(chan.0@, chan.1, chan.2, false, power, off, off);
    match scanning {
        Some(idx) => AnalogChannelView {
            scan_list_idx: (idx + 1) as u8,
            auto_start_scan: true,
            ..plain
        },
        None => plain,
    }
}

/// Whether `after` is the collection of analog channels `before` with the
/// first `added` of the channels `chans` appended.
pub open spec fn analogs_appended(
    before: &CodeplugSection<AnalogChannel>,
    after: &CodeplugSection<AnalogChannel>,
    power: PowerLevel,
    chans: Seq<(String, u32, u32)>,
    added: int,
    scanning: Option<u8>,
) -> bool {
    let first = before.data@.len() as int;
    &&& after.data@.len() == first + added
    &&& after.data@.subrange(0, first) == before.data@
    &&& forall|i: int|
        first <= i < first + added ==> (#[trigger] after.data@[i])@ == new_analog(
            power,
            chans[i - first],
            scanning,
        )
    &&& after.sec@ == (SectionView { header: after.sec.header, ..before.sec@ })
    &&& after.sec.header == (SectionHeader {
        elements_in_use: (before.sec.header.elements_in_use + added) as u16,
        ..before.sec.header
    })
}

/// What `add_analog_zone` makes of a codeplug, as far as it gets. The
/// channels that find room are appended. Where all of them did, scan
/// settings of the given name are appended with the list of the selected
/// channel and the new channels, if that pair of sections has room; then a
/// zone of the given name with the list of the new channels, if that pair
/// has room; then the new channels are set to scan the new scan list, if its
/// place can be stored. Everything else stays.
pub open spec fn analog_zone_done(
    before: &Codeplug,
    after: &Codeplug,
    name: Seq<char>,
    power: PowerLevel,
    chans: Seq<(String, u32, u32)>,
) -> bool {
    let n = chans.len();
    let room = analog_room(before);
    let added = if n < 2 {
        0
    } else if room < n {
        room
    } else {
        n as int
    };
    let scan = n >= 2 && room >= n && before.scan_list.spec_has_room();
    let zone = scan && before.zones.spec_has_room();
    let scanning = zone && before.scan_list.data.data@.len() < 255;
    let ptrs = analog_run(before.ana_chans.data@.len(), n);
    &&& *after == (Codeplug {
        ana_chans: after.ana_chans,
        digi_chans: after.digi_chans,
        scan_list: after.scan_list,
        zones: after.zones,
        ..*before
    })
    &&& after.digi_chans.sec == before.digi_chans.sec
    &&& after.digi_chans.data@ == before.digi_chans.data@
    &&& analogs_appended(
        &before.ana_chans,
        &after.ana_chans,
        power,
        chans,
        added,
        if scanning {
            Some(before.scan_list.data.data@.len() as u8)
        } else {
            None
        },
    )
    &&& if scan {
        &&& appended(&before.scan_list.data, &after.scan_list.data, ScanView::spec_new(name))
        &&& appended(
            &before.scan_list.channels,
            &after.scan_list.channels,
            seq![ChannelPointer::Selected] + ptrs,
        )
    } else {
        after.scan_list == before.scan_list
    }
    &&& if zone {
        &&& appended(&before.zones.data, &after.zones.data, ZoneView::spec_new(name, ptrs))
        &&& appended(&before.zones.channels, &after.zones.channels, ptrs)
    } else {
        after.zones == before.zones
    }
}

/// A collection of analog channels has none of the channels of a zone
/// appended before the first is.
pub proof fn lemma_analogs_begun(
    before: &CodeplugSection<AnalogChannel>,
    power: PowerLevel,
    chans: Seq<(String, u32, u32)>,
)
    ensures
        analogs_appended(before, before, power, chans, 0, None),
{
    assert(before.data@.subrange(0, before.data@.len() as int) =~= before.data@);
}

/// Inserting the next channel of a zone into a collection that has the
/// channels before it appended gives the collection with one more of them
/// appended.
pub proof fn lemma_analogs_grown(
    before: &CodeplugSection<AnalogChannel>,
    during: &CodeplugSection<AnalogChannel>,
    after: &CodeplugSection<AnalogChannel>,
    power: PowerLevel,
    chans: Seq<(String, u32, u32)>,
    k: int,
    channel: AnalogChannel,
)
    requires
        0 <= k < chans.len(),
        analogs_appended(before, during, power, chans, k, None),
        during.sec.header.elements_in_use == before.sec.header.elements_in_use + k,
        during.spec_has_room(),
        inserted(during, after, channel),
        channel@ == new_analog(power, chans[k], None),
    ensures
        analogs_appended(before, after, power, chans, k + 1, None),
        after.sec.header.elements_in_use == before.sec.header.elements_in_use + k + 1,
{
    let first = before.data@.len() as int;
    assert(after.data@.subrange(0, first) =~= during.data@.subrange(0, first));
    assert forall|i: int| first <= i < first + k + 1 implies (#[trigger] after.data@[i])@ == new_analog(
        power,
        chans[i - first],
        None,
    ) by {
        if i < first + k {
            assert(after.data@[i] == during.data@[i]);
        }
    }
}

/// The pointers to the analog channels that were appended name channels
/// that are there, and so does the list of the selected channel and those
/// pointers.
pub proof fn lemma_analog_run_resolves(cp: &Codeplug, first: nat, n: nat)
    requires
        cp.analog_count() == first + n,
        first + n <= 0xffff,
    ensures
        crate::integrity::wide_resolve(cp, analog_run(first, n)),
        crate::integrity::wide_resolve(cp, seq![ChannelPointer::Selected] + analog_run(first, n)),
{
    let ptrs = analog_run(first, n);
    let all = seq![ChannelPointer::Selected] + ptrs;
    assert forall|j: int| 0 <= j < all.len() implies (#[trigger] all[j]).resolves(
        cp.digital_count(),
        cp.analog_count(),
    ) is Ok by {
        if j > 0 {
            assert(all[j] == ptrs[j - 1]);
        }
    }
}

/// The pointers to the analog channels that were appended can all be set
/// to scan.
pub proof fn lemma_analog_run_scans(cp: &Codeplug, first: nat, n: nat)
    requires
        cp.analog_count() == first + n,
        first + n <= 0xffff,
    ensures
        can_scan(cp, analog_run(first, n)),
{
}

/// Setting the channels of a zone to scan changes the channels that were
/// appended for the zone, and no others.
pub proof fn lemma_analogs_scanning(
    before: &CodeplugSection<AnalogChannel>,
    loaded: &CodeplugSection<AnalogChannel>,
    after: &CodeplugSection<AnalogChannel>,
    power: PowerLevel,
    chans: Seq<(String, u32, u32)>,
    idx: u8,
)
    requires
        idx < 255,
        before.data@.len() + chans.len() <= 0xffff,
        analogs_appended(before, loaded, power, chans, chans.len() as int, None),
        after.sec == loaded.sec,
        after.data@.len() == loaded.data@.len(),
        forall|i: int|
            0 <= i < loaded.data@.len() ==> #[trigger] after.data@[i] == if i <= 0xffff && analog_run(
                before.data@.len(),
                chans.len(),
            ).contains(ChannelPointer::Analog(i as u16)) {
                scanning_analog(loaded.data@[i], idx)
            } else {
                loaded.data@[i]
            },
    ensures
        analogs_appended(before, after, power, chans, chans.len() as int, Some(idx)),
{
    let first = before.data@.len();
    let n = chans.len();
    let ptrs = analog_run(first, n);
    assert forall|i: int| 0 <= i < first implies after.data@[i] == before.data@[i] by {
        if ptrs.contains(ChannelPointer::Analog(i as u16)) {
            let j = choose|j: int| 0 <= j < ptrs.len() && ptrs[j] == ChannelPointer::Analog(i as u16);
            assert(ptrs[j] == ChannelPointer::Analog((first + j) as u16));
        }
        assert(after.data@[i] == loaded.data@[i]);
        assert(loaded.data@.subrange(0, first as int)[i] == loaded.data@[i]);
    }
    assert(after.data@.subrange(0, first as int) =~= before.data@);
    assert forall|i: int| first <= i < first + n implies (#[trigger] after.data@[i])@ == new_analog(
        power,
        chans[i - first],
        Some(idx),
    ) by {
        assert(ptrs[i - first] == ChannelPointer::Analog(i as u16));
        assert(ptrs.contains(ChannelPointer::Analog(i as u16)));
        assert(after.data@[i] == scanning_analog(loaded.data@[i], idx));
    }
}

/// The numbers of the contacts of a collection, by their place.
pub open spec fn contact_ids(contacts: Seq<Contact>) -> Seq<u32> {
    Seq::new(contacts.len(), |i: int| contacts[i].id)
}

/// The first place of the number `id` among `ids`; where it is not among
/// them, their length.
pub open spec fn place_of(ids: Seq<u32>, id: u32) -> int
    decreases ids.len(),
{
    if ids.len() == 0 || ids[0] == id {
        0
    } else {
        1 + place_of(ids.drop_first(), id)
    }
}

/// `place_of` is the least place with the number.
pub proof fn lemma_place_of(ids: Seq<u32>, id: u32, p: int)
    requires
        0 <= p < ids.len(),
        ids[p] == id,
        forall|j: int| 0 <= j < p ==> ids[j] != id,
    ensures
        place_of(ids, id) == p,
    decreases ids.len(),
{
    if ids[0] != id {
        let t = ids.drop_first();
        assert forall|j: int| 0 <= j < p - 1 implies t[j] != id by {
            assert(t[j] == ids[j + 1]);
        }
        assert(t[p - 1] == ids[p]);
        lemma_place_of(t, id, p - 1);
    }
}

/// How far `add_dmr_repeater` has got with the channels of a repeater: the
/// numbers of the contacts that are there, the talk groups that a contact
/// was appended for, the number of channels that were appended, and the
/// failure that ended it, if one did.
pub struct RepeaterProgress {
    pub ids: Seq<u32>,
    pub fresh: Seq<int>,
    pub done: nat,
    pub failed: Option<CodeplugError>,
}

/// How far `add_dmr_repeater` gets with the first `k` talk groups. For each
/// talk group in turn it looks for the contact with the number of the talk
/// group and appends one where there is none, which needs room in the
/// section of the contacts; the place of the contact must be one that a
/// channel can store; and the channel needs room in the section of the
/// digital channels and a place that a pointer can name. The first failure
/// ends it.
pub open spec fn repeater_progress(cp: &Codeplug, groups: Seq<TalkGroup>, k: nat) -> RepeaterProgress
    decreases k,
{
    if k == 0 {
        RepeaterProgress {
            ids: contact_ids(cp.contacts.data@),
            fresh: Seq::empty(),
            done: 0,
            failed: if cp.digi_chans.data@.len() > 0xffff {
                Some(CodeplugError::SectionFull(0x26))
            } else {
                None
            },
        }
    } else {
        let p = repeater_progress(cp, groups, (k - 1) as nat);
        let g = k - 1;
        let id = groups[g].id;
        let contacts = cp.contacts.sec.header;
        let channels = cp.digi_chans.sec.header;
        if p.failed is Some {
            p
        } else if !p.ids.contains(id) && !(contacts.elements_in_use + p.fresh.len() + 1
            < contacts.capacity) {
            RepeaterProgress { failed: Some(CodeplugError::SectionFull(0x2a)), ..p }
        } else {
            let ids = if p.ids.contains(id) {
                p.ids
            } else {
                p.ids.push(id)
            };
            let fresh = if p.ids.contains(id) {
                p.fresh
            } else {
                p.fresh.push(g)
            };
            if place_of(ids, id) >= 0xffff {
                RepeaterProgress { ids, fresh, done: p.done, failed: Some(CodeplugError::SectionFull(0x2a)) }
            } else if !(cp.digi_chans.data@.len() + g < 0xffff && channels.elements_in_use + g + 1
                < channels.capacity) {
                RepeaterProgress { ids, fresh, done: p.done, failed: Some(CodeplugError::SectionFull(0x26)) }
            } else {
                RepeaterProgress { ids, fresh, done: k, failed: None }
            }
        }
    }
}

/// After a failure nothing more is done.
pub proof fn lemma_progress_stuck(cp: &Codeplug, groups: Seq<TalkGroup>, k: nat, later: nat)
    requires
        k <= later,
        repeater_progress(cp, groups, k).failed is Some,
    ensures
        repeater_progress(cp, groups, later) == repeater_progress(cp, groups, k),
    decreases later,
{
    if k < later {
        lemma_progress_stuck(cp, groups, k, (later - 1) as nat);
    }
}

/// The place of the contact that the channel for the talk group at place
/// `g` transmits to.
pub open spec fn contact_of(cp: &Codeplug, groups: Seq<TalkGroup>, g: int) -> u16 {
    place_of(repeater_progress(cp, groups, (g + 1) as nat).ids, groups[g].id) as u16
}

/// The power of the channels of a repeater: low for a mobile radio, high
/// for a portable one.
pub open spec fn repeater_power(cp: &Codeplug) -> PowerLevel {
    if cp.model@.len() > 0 && cp.model@[0] == 'm' {
        PowerLevel::Low
    } else {
        PowerLevel::High
    }
}

/// The digital channel that `add_dmr_repeater` makes for a talk group, set
/// to scan the scan list at the place `scanning` from the start, where there
/// is one.
pub open spec fn new_digital(
    suffix: Seq<char>,
    group: TalkGroup,
    tx_freq: u32,
    rx_freq: u32,
    power: PowerLevel,
    colour_code: u8,
    contact: u16,
    scanning: Option<u8>,
) -> DigitalChannelView {
    let plain = DigitalChannelView::spec_new(
        spec_channel_name(suffix, group),
        tx_freq,
        rx_freq,
        false,
        power,
        colour_code,
        contact,
        group.slot,
    );
    match scanning {
        Some(idx) => DigitalChannelView {
            slrl_pointer: SLRLPointer::ScanList(idx),
            auto_start_scan: true,
            ..plain
        },
        None => plain,
    }
}

/// Whether `after` is the collection of contacts `before` with a contact
/// appended for each of the talk groups `fresh`, in that order.
pub open spec fn contacts_appended(
    before: &CodeplugSection<Contact>,
    after: &CodeplugSection<Contact>,
    groups: Seq<TalkGroup>,
    fresh: Seq<int>,
) -> bool {
    let first = before.data@.len() as int;
    &&& after.data@.len() == first + fresh.len()
    &&& after.data@.subrange(0, first) == before.data@
    &&& forall|i: int|
        first <= i < first + fresh.len() ==> (#[trigger] after.data@[i])@ == ContactView::spec_new(
            spec_contact_name(groups[fresh[i - first]].id, groups[fresh[i - first]].name@),
            CallType::Group,
            groups[fresh[i - first]].id,
        )
    &&& after.sec@ == (SectionView { header: after.sec.header, ..before.sec@ })
    &&& after.sec.header == (SectionHeader {
        elements_in_use: (before.sec.header.elements_in_use + fresh.len()) as u16,
        ..before.sec.header
    })
}

/// Whether `after` is the collection of digital channels `before` with the
/// channels for the first `done` talk groups appended.
pub open spec fn digitals_appended(
    cp: &Codeplug,
    after: &CodeplugSection<DigitalChannel>,
    groups: Seq<TalkGroup>,
    suffix: Seq<char>,
    tx_freq: u32,
    rx_freq: u32,
    colour_code: u8,
    done: int,
    scanning: Option<u8>,
) -> bool {
    let before = &cp.digi_chans;
    let first = before.data@.len() as int;
    &&& after.data@.len() == first + done
    &&& after.data@.subrange(0, first) == before.data@
    &&& forall|i: int|
        first <= i < first + done ==> (#[trigger] after.data@[i])@ == new_digital(
            suffix,
            groups[i - first],
            tx_freq,
            rx_freq,
            repeater_power(cp),
            colour_code,
            contact_of(cp, groups, i - first),
            scanning,
        )
    &&& after.sec@ == (SectionView { header: after.sec.header, ..before.sec@ })
    &&& after.sec.header == (SectionHeader {
        elements_in_use: (before.sec.header.elements_in_use + done) as u16,
        ..before.sec.header
    })
}

/// Pointers to the `n` digital channels from place `first` on.
pub open spec fn digital_run(first: nat, n: nat) -> Seq<ChannelPointer> {
    Seq::new(n, |k: int| ChannelPointer::Digital((first + k) as u16))
}

/// What `add_dmr_repeater` gives: the place of the new zone, or the failure
/// of the first step that fails. The channels of all the talk groups must
/// be appended; then the scan settings and their list need room, then the
/// zone and its list; and the place of the scan list must be one that a
/// channel can store.
pub open spec fn repeater_result(cp: &Codeplug, roams: bool) -> Result<usize, CodeplugError> {
    let groups = spec_talk_groups(roams);
    let p = repeater_progress(cp, groups, groups.len());
    if p.failed is Some {
        Err(p.failed->0)
    } else if !cp.scan_list.spec_has_room() {
        Err(CodeplugError::SectionFull(0x6d))
    } else if !cp.zones.spec_has_room() {
        Err(CodeplugError::SectionFull(0x24))
    } else if cp.scan_list.data.data@.len() >= 255 {
        Err(CodeplugError::NoSuchScanList(cp.scan_list.data.data@.len() as usize))
    } else {
        Ok(cp.zones.data.data@.len() as usize)
    }
}

/// What `add_dmr_repeater` makes of a codeplug and of the list `roam`, as
/// far as it gets. The contacts and the channels of the talk groups are
/// appended up to the first failure. Where all of them were, the pointer to
/// the last channel is appended to the list of a repeater that roams; scan
/// settings named after the repeater are appended with the list of the
/// selected channel and the new channels, if that pair of sections has room;
/// then a zone of the same name with the list of the new channels, if that
/// pair has room; then the new channels are set to scan the new scan list,
/// if its place can be stored. Everything else stays.
pub open spec fn repeater_done(
    before: &Codeplug,
    after: &Codeplug,
    roam_before: Seq<DigiChannelPointer>,
    roam_after: Seq<DigiChannelPointer>,
    suffix: Seq<char>,
    loc: Seq<char>,
    tx_freq: u32,
    rx_freq: u32,
    colour_code: u8,
    roams: bool,
) -> bool {
    let groups = spec_talk_groups(roams);
    let p = repeater_progress(before, groups, groups.len());
    let whole = p.failed is None;
    let scan = whole && before.scan_list.spec_has_room();
    let zone = scan && before.zones.spec_has_room();
    let scanning = zone && before.scan_list.data.data@.len() < 255;
    let first = before.digi_chans.data@.len();
    let ptrs = digital_run(first, groups.len());
    let name = spec_zone_name(suffix, loc);
    &&& *after == (Codeplug {
        contacts: after.contacts,
        digi_chans: after.digi_chans,
        ana_chans: after.ana_chans,
        scan_list: after.scan_list,
        zones: after.zones,
        ..*before
    })
    &&& after.ana_chans.sec == before.ana_chans.sec
    &&& after.ana_chans.data@ == before.ana_chans.data@
    &&& contacts_appended(&before.contacts, &after.contacts, groups, p.fresh)
    &&& digitals_appended(
        before,
        &after.digi_chans,
        groups,
        suffix,
        tx_freq,
        rx_freq,
        colour_code,
        p.done as int,
        if scanning {
            Some(before.scan_list.data.data@.len() as u8)
        } else {
            None
        },
    )
    &&& roam_after == if whole && roams {
        roam_before.push(DigiChannelPointer::Digital((first + groups.len() - 1) as u16))
    } else {
        roam_before
    }
    &&& if scan {
        &&& appended(&before.scan_list.data, &after.scan_list.data, ScanView::spec_new(name))
        &&& appended(
            &before.scan_list.channels,
            &after.scan_list.channels,
            seq![ChannelPointer::Selected] + ptrs,
        )
    } else {
        after.scan_list == before.scan_list
    }
    &&& if zone {
        &&& appended(&before.zones.data, &after.zones.data, ZoneView::spec_new(name, ptrs))
        &&& appended(&before.zones.channels, &after.zones.channels, ptrs)
    } else {
        after.zones == before.zones
    }
}

/// Before the first talk group nothing is appended.
pub proof fn lemma_repeater_begun(cp: &Codeplug, groups: Seq<TalkGroup>)
    ensures
        contacts_appended(&cp.contacts, &cp.contacts, groups, Seq::empty()),
        forall|suffix: Seq<char>, tx_freq: u32, rx_freq: u32, colour_code: u8|
            #[trigger] digitals_appended(
                cp,
                &cp.digi_chans,
                groups,
                suffix,
                tx_freq,
                rx_freq,
                colour_code,
                0,
                None,
            ),
{
    assert(cp.contacts.data@.subrange(0, cp.contacts.data@.len() as int) =~= cp.contacts.data@);
    assert(cp.digi_chans.data@.subrange(0, cp.digi_chans.data@.len() as int) =~= cp.digi_chans.data@);
}

/// A number is among the numbers of the contacts exactly if a contact has
/// it.
pub proof fn lemma_contact_known(contacts: Seq<Contact>, id: u32)
    ensures
        contact_ids(contacts).contains(id) <==> exists|j: int|
            0 <= j < contacts.len() && contacts[j].id == id,
{
    let ids = contact_ids(contacts);
    if ids.contains(id) {
        let j = choose|j: int| 0 <= j < ids.len() && ids[j] == id;
        assert(contacts[j].id == id);
    }
    if exists|j: int| 0 <= j < contacts.len() && contacts[j].id == id {
        let j = choose|j: int| 0 <= j < contacts.len() && contacts[j].id == id;
        assert(ids[j] == id);
    }
}

/// What finding or appending the contact of a talk group makes of the
/// contacts: where a contact had the number, they stay, and the place that
/// was found is the first with the number; else a contact for the talk group
/// is appended, and its place is the first with the number.
pub proof fn lemma_contact_step(
    before: &CodeplugSection<Contact>,
    during: &CodeplugSection<Contact>,
    after: &CodeplugSection<Contact>,
    groups: Seq<TalkGroup>,
    fresh: Seq<int>,
    g: int,
    place: int,
)
    requires
        0 <= g < groups.len(),
        contacts_appended(before, during, groups, fresh),
        during.sec.header.elements_in_use == before.sec.header.elements_in_use + fresh.len(),
        0 <= place < after.data@.len(),
        after.data@[place].id == groups[g].id,
        forall|j: int| 0 <= j < place ==> during.data@[j].id != groups[g].id,
        if place < during.data@.len() {
            after == during
        } else {
            &&& place == during.data@.len()
            &&& during.spec_has_room()
            &&& appended(
                during,
                after,
                ContactView::spec_new(
                    spec_contact_name(groups[g].id, groups[g].name@),
                    CallType::Group,
                    groups[g].id,
                ),
            )
        },
    ensures
        place_of(contact_ids(after.data@), groups[g].id) == place,
        place < during.data@.len() ==> contact_ids(during.data@).contains(groups[g].id)
            && contacts_appended(before, after, groups, fresh),
        place >= during.data@.len() ==> !contact_ids(during.data@).contains(groups[g].id)
            && contact_ids(after.data@) == contact_ids(during.data@).push(groups[g].id)
            && contacts_appended(before, after, groups, fresh.push(g))
            && after.sec.header.elements_in_use == before.sec.header.elements_in_use + fresh.len() + 1,
{
    let id = groups[g].id;
    let ids = contact_ids(after.data@);
    let first = before.data@.len() as int;
    lemma_contact_known(during.data@, id);
    if place < during.data@.len() {
        assert(contact_ids(during.data@)[place] == id);
    } else {
        assert forall|j: int| 0 <= j < during.data@.len() implies after.data@[j] == during.data@[j] by {
            assert(after.data@.subrange(0, during.data@.len() as int)[j] == after.data@[j]);
        }
        assert(ids =~= contact_ids(during.data@).push(id));
        assert(after.data@.subrange(0, first) =~= during.data@.subrange(0, first));
        let more = fresh.push(g);
        assert forall|i: int| first <= i < first + more.len() implies (#[trigger] after.data@[i])@
            == ContactView::spec_new(
            spec_contact_name(groups[more[i - first]].id, groups[more[i - first]].name@),
            CallType::Group,
            groups[more[i - first]].id,
        ) by {
            if i < first + fresh.len() {
                assert(after.data@[i] == during.data@[i]);
                assert(more[i - first] == fresh[i - first]);
            } else {
                assert(after.data@[i] == after.data@.last());
            }
        }
    }
    assert forall|j: int| 0 <= j < place implies ids[j] != id by {
        if place >= during.data@.len() {
            assert(after.data@.subrange(0, during.data@.len() as int)[j] == after.data@[j]);
        }
    }
    lemma_place_of(ids, id, place);
}

/// Inserting the channel of the next talk group into a collection that has
/// the channels before it appended gives the collection with one more of
/// them appended.
pub proof fn lemma_digitals_grown(
    cp: &Codeplug,
    during: &CodeplugSection<DigitalChannel>,
    after: &CodeplugSection<DigitalChannel>,
    groups: Seq<TalkGroup>,
    suffix: Seq<char>,
    tx_freq: u32,
    rx_freq: u32,
    colour_code: u8,
    k: int,
    channel: DigitalChannel,
)
    requires
        0 <= k < groups.len(),
        digitals_appended(cp, during, groups, suffix, tx_freq, rx_freq, colour_code, k, None),
        during.sec.header.elements_in_use == cp.digi_chans.sec.header.elements_in_use + k,
        during.spec_has_room(),
        inserted(during, after, channel),
        channel@ == new_digital(
            suffix,
            groups[k],
            tx_freq,
            rx_freq,
            repeater_power(cp),
            colour_code,
            contact_of(cp, groups, k),
            None,
        ),
    ensures
        digitals_appended(cp, after, groups, suffix, tx_freq, rx_freq, colour_code, k + 1, None),
        after.sec.header.elements_in_use == cp.digi_chans.sec.header.elements_in_use + k + 1,
{
    let first = cp.digi_chans.data@.len() as int;
    assert(after.data@.subrange(0, first) =~= during.data@.subrange(0, first));
    assert forall|i: int| first <= i < first + k + 1 implies (#[trigger] after.data@[i])@ == new_digital(
        suffix,
        groups[i - first],
        tx_freq,
        rx_freq,
        repeater_power(cp),
        colour_code,
        contact_of(cp, groups, i - first),
        None,
    ) by {
        if i < first + k {
            assert(after.data@[i] == during.data@[i]);
        }
    }
}

/// The pointers to the digital channels that were appended name channels
/// that are there, and so does the list of the selected channel and those
/// pointers.
pub proof fn lemma_digital_run_resolves(cp: &Codeplug, first: nat, n: nat)
    requires
        cp.digital_count() == first + n,
        first + n <= 0xffff,
    ensures
        crate::integrity::wide_resolve(cp, digital_run(first, n)),
        crate::integrity::wide_resolve(cp, seq![ChannelPointer::Selected] + digital_run(first, n)),
{
    let ptrs = digital_run(first, n);
    let all = seq![ChannelPointer::Selected] + ptrs;
    assert forall|j: int| 0 <= j < all.len() implies (#[trigger] all[j]).resolves(
        cp.digital_count(),
        cp.analog_count(),
    ) is Ok by {
        if j > 0 {
            assert(all[j] == ptrs[j - 1]);
        }
    }
}

/// The pointers to the digital channels that were appended can all be set
/// to scan.
pub proof fn lemma_digital_run_scans(cp: &Codeplug, first: nat, n: nat)
    requires
        cp.digital_count() == first + n,
        first + n <= 0xffff,
    ensures
        can_scan(cp, digital_run(first, n)),
{
}

/// Setting the channels of a zone to scan changes the channels that were
/// appended for the zone, and no others.
pub proof fn lemma_digitals_scanning(
    cp: &Codeplug,
    loaded: &CodeplugSection<DigitalChannel>,
    after: &CodeplugSection<DigitalChannel>,
    groups: Seq<TalkGroup>,
    suffix: Seq<char>,
    tx_freq: u32,
    rx_freq: u32,
    colour_code: u8,
    idx: u8,
)
    requires
        cp.digi_chans.data@.len() + groups.len() <= 0xffff,
        digitals_appended(
            cp,
            loaded,
            groups,
            suffix,
            tx_freq,
            rx_freq,
            colour_code,
            groups.len() as int,
            None,
        ),
        after.sec == loaded.sec,
        after.data@.len() == loaded.data@.len(),
        forall|i: int|
            0 <= i < loaded.data@.len() ==> #[trigger] after.data@[i] == if i <= 0xffff && digital_run(
                cp.digi_chans.data@.len(),
                groups.len(),
            ).contains(ChannelPointer::Digital(i as u16)) {
                scanning_digital(loaded.data@[i], idx)
            } else {
                loaded.data@[i]
            },
    ensures
        digitals_appended(
            cp,
            after,
            groups,
            suffix,
            tx_freq,
            rx_freq,
            colour_code,
            groups.len() as int,
            Some(idx),
        ),
{
    let first = cp.digi_chans.data@.len();
    let n = groups.len();
    let ptrs = digital_run(first, n);
    assert forall|i: int| 0 <= i < first implies after.data@[i] == cp.digi_chans.data@[i] by {
        if ptrs.contains(ChannelPointer::Digital(i as u16)) {
            let j = choose|j: int| 0 <= j < ptrs.len() && ptrs[j] == ChannelPointer::Digital(i as u16);
            assert(ptrs[j] == ChannelPointer::Digital((first + j) as u16));
        }
        assert(after.data@[i] == loaded.data@[i]);
        assert(loaded.data@.subrange(0, first as int)[i] == loaded.data@[i]);
    }
    assert(after.data@.subrange(0, first as int) =~= cp.digi_chans.data@);
    assert forall|i: int| first <= i < first + n implies (#[trigger] after.data@[i])@ == new_digital(
        suffix,
        groups[i - first],
        tx_freq,
        rx_freq,
        repeater_power(cp),
        colour_code,
        contact_of(cp, groups, i - first),
        Some(idx),
    ) by {
        assert(ptrs[i - first] == ChannelPointer::Digital(i as u16));
        assert(ptrs.contains(ChannelPointer::Digital(i as u16)));
        assert(after.data@[i] == scanning_digital(loaded.data@[i], idx));
    }
}

impl Codeplug {
    /// The short name of a timeslot.
    pub fn slot_name(ts: Timeslot) -> (r: String)
        ensures
            r@ == spec_slot_name(ts),
    {
        match ts {
            Timeslot::Slot1 => String::from_str("S1"),
            Timeslot::Slot2 => String::from_str("S2"),
            Timeslot::PseudoTrunk => String::from_str("PS"),
        }
    }

    /// The place of the first contact with the number `id`; where there is
    /// none, a group contact with that number, named by the number and
    /// `name`, is appended, if the section has room.
    pub fn create_or_add_contact(&mut self, name: &str, id: u32) -> (r: Result<
        usize,
        CodeplugError,
    >)
        ensures
            valid(old(self)) ==> valid(final(self)),
            *final(self) == (Codeplug { contacts: final(self).contacts, ..*old(self) }),
            match r {
                Ok(n) => n < final(self).contacts.data@.len() && final(self).contacts.data@[n as int].id
                    == id && (forall|j: int| 0 <= j < n ==> old(self).contacts.data@[j].id != id)
                    && if n < old(self).contacts.data@.len() {
                    *final(self) == *old(self)
                } else {
                    &&& n == old(self).contacts.data@.len()
                    &&& old(self).contacts.spec_has_room()
                    &&& final(self).contacts.data@.len() == n + 1
                    &&& final(self).contacts.data@.subrange(0, n as int) == old(self).contacts.data@
                    &&& final(self).contacts.data@[n as int]@ == ContactView::spec_new(
                        spec_contact_name(id, name@),
                        CallType::Group,
                        id,
                    )
                    &&& appended(
                        &old(self).contacts,
                        &final(self).contacts,
                        ContactView::spec_new(spec_contact_name(id, name@), CallType::Group, id),
                    )
                },
                Err(e) => e == CodeplugError::SectionFull(0x2a) && *final(self) == *old(self)
                    && !old(self).contacts.spec_has_room() && forall|j: int|
                    0 <= j < old(self).contacts.data@.len() ==> old(self).contacts.data@[j].id
                        != id,
            },
    {
        match find_contact(&self.contacts.data, id) {
            Some(i) => Ok(i),
            None => {
                let contact = Contact::new(contact_name(id, name), CallType::Group, id);
                let ghost before = self.contacts.data@;
                let ghost held = self.contacts;
                let r = self.add_contact(contact);
                proof {
                    if r is Ok {
                        assert(self.contacts.data@.subrange(0, before.len() as int) =~= before);
                        lemma_inserted_appended(&held, &self.contacts, contact);
                    }
                }
                r
            },
        }
    }

    /// Sets every channel of the zone at place `zone_idx` to scan the scan
    /// list at place `scan_list_idx` from the start. Nothing is changed
    /// where there is no such zone or no such scan list, where the place of
    /// the scan list cannot be stored in an analog channel, or where the
    /// zone holds the selected channel or a channel that is not there.
    pub fn set_zone_scanlist(&mut self, zone_idx: usize, scan_list_idx: usize) -> (r: Result<
        (),
        CodeplugError,
    >)
        ensures
            valid(old(self)) ==> valid(final(self)),
            *final(self) == (Codeplug {
                digi_chans: final(self).digi_chans,
                ana_chans: final(self).ana_chans,
                ..*old(self)
            }),
            final(self).digi_chans.sec == old(self).digi_chans.sec,
            final(self).ana_chans.sec == old(self).ana_chans.sec,
            final(self).digi_chans.data@.len() == old(self).digi_chans.data@.len(),
            final(self).ana_chans.data@.len() == old(self).ana_chans.data@.len(),
            r is Err ==> *final(self) == *old(self),
            zone_idx >= old(self).zones.channels.data@.len() ==> r == Err::<(), CodeplugError>(
                CodeplugError::NoSuchZone(zone_idx),
            ),
            zone_idx < old(self).zones.channels.data@.len() && !(scan_list_idx < old(self).scan_list_count()
                && scan_list_idx < 255) ==> r == Err::<(), CodeplugError>(
                CodeplugError::NoSuchScanList(scan_list_idx),
            ),
            r is Ok <==> zone_idx < old(self).zones.channels.data@.len() && scan_list_idx < old(self).scan_list_count() && scan_list_idx < 255 && can_scan(
                old(self),
                old(self).zones.channels.data@[zone_idx as int].channels@,
            ),
            r is Ok ==> {
                let ptrs = old(self).zones.channels.data@[zone_idx as int].channels@;
                &&& forall|i: int|
                    0 <= i < old(self).digi_chans.data@.len() ==> #[trigger] final(self).digi_chans.data@[i] == if i <= 0xffff && ptrs.contains(ChannelPointer::Digital(i as u16)) {
                        scanning_digital(old(self).digi_chans.data@[i], scan_list_idx as u8)
                    } else {
                        old(self).digi_chans.data@[i]
                    }
                &&& forall|i: int|
                    0 <= i < old(self).ana_chans.data@.len() ==> #[trigger] final(self).ana_chans.data@[i] == if i <= 0xffff && ptrs.contains(ChannelPointer::Analog(i as u16)) {
                        scanning_analog(old(self).ana_chans.data@[i], scan_list_idx as u8)
                    } else {
                        old(self).ana_chans.data@[i]
                    }
            },
    {
        if zone_idx >= self.zones.channels.data.len() {
            return Err(CodeplugError::NoSuchZone(zone_idx));
        }
        if scan_list_idx >= self.scan_list.channels.data.len() || scan_list_idx >= 255 {
            return Err(CodeplugError::NoSuchScanList(scan_list_idx));
        }
        let idx: u8 = scan_list_idx as u8;
        let count = self.zones.channels.data[zone_idx].channels.len();
        let ghost ptrs = self.zones.channels.data@[zone_idx as int].channels@;
        let mut j: usize = 0;
        while j < count
            invariant
                j <= count,
                zone_idx < self.zones.channels.data@.len(),
                ptrs == self.zones.channels.data@[zone_idx as int].channels@,
                count == ptrs.len(),
                *self == *old(self),
                scan_list_idx < self.scan_list_count(),
                scan_list_idx < 255,
                can_scan(self, ptrs.subrange(0, j as int)),
            decreases count - j,
        {
            let p = self.zones.channels.data[zone_idx].channels[j];
            let there = match p {
                ChannelPointer::Selected => false,
                ChannelPointer::Digital(i) => (i as usize) < self.digi_chans.data.len(),
                ChannelPointer::Analog(i) => (i as usize) < self.ana_chans.data.len(),
            };
            if !there {
                assert(!can_scan(self, ptrs)) by {
                    assert(ptrs[j as int] == p);
                }
                return Err(
                    match p {
                        ChannelPointer::Selected => CodeplugError::SelectedInZone(zone_idx),
                        _ => CodeplugError::NoSuchZone(zone_idx),
                    },
                );
            }
            assert(can_scan(self, ptrs.subrange(0, j + 1))) by {
                assert forall|k: int| 0 <= k < j + 1 implies (#[trigger] ptrs.subrange(
                    0,
                    j + 1,
                )[k]) != ChannelPointer::Selected && ptrs.subrange(0, j + 1)[k].resolves(
                    self.digital_count(),
                    self.analog_count(),
                ) is Ok by {
                    if k < j {
                        assert(ptrs.subrange(0, j as int)[k] == ptrs[k]);
                    }
                }
            }
            j += 1;
        }
        assert(ptrs.subrange(0, count as int) =~= ptrs);
        let mut j: usize = 0;
        while j < count
            invariant
                j <= count,
                zone_idx < self.zones.channels.data@.len(),
                ptrs == old(self).zones.channels.data@[zone_idx as int].channels@,
                count == ptrs.len(),
                can_scan(old(self), ptrs),
                idx == scan_list_idx,
                idx < old(self).scan_list_count(),
                idx < 255,
                valid(old(self)) ==> valid(self),
                *self == (Codeplug {
                    digi_chans: self.digi_chans,
                    ana_chans: self.ana_chans,
                    ..*old(self)
                }),
                self.digi_chans.sec == old(self).digi_chans.sec,
                self.ana_chans.sec == old(self).ana_chans.sec,
                self.digi_chans.data@.len() == old(self).digi_chans.data@.len(),
                self.ana_chans.data@.len() == old(self).ana_chans.data@.len(),
                forall|i: int|
                    0 <= i < old(self).digi_chans.data@.len() ==> #[trigger] self.digi_chans.data@[i]
                        == if i <= 0xffff && ptrs.subrange(0, j as int).contains(
                        ChannelPointer::Digital(i as u16),
                    ) {
                        scanning_digital(old(self).digi_chans.data@[i], idx)
                    } else {
                        old(self).digi_chans.data@[i]
                    },
                forall|i: int|
                    0 <= i < old(self).ana_chans.data@.len() ==> #[trigger] self.ana_chans.data@[i]
                        == if i <= 0xffff && ptrs.subrange(0, j as int).contains(
                        ChannelPointer::Analog(i as u16),
                    ) {
                        scanning_analog(old(self).ana_chans.data@[i], idx)
                    } else {
                        old(self).ana_chans.data@[i]
                    },
            decreases count - j,
        {
            let ghost done = ptrs.subrange(0, j as int);
            let ghost next = ptrs.subrange(0, j + 1);
            let p = self.zones.channels.data[zone_idx].channels[j];
            assert(p == ptrs[j as int]);
            assert(next =~= done.push(p));
            assert forall|q: ChannelPointer| next.contains(q) <==> (done.contains(q) || q == p) by {
                if next.contains(q) {
                    let k = choose|k: int| 0 <= k < next.len() && next[k] == q;
                    if k < j {
                        assert(done[k] == q);
                    }
                }
                if done.contains(q) {
                    let k = choose|k: int| 0 <= k < done.len() && done[k] == q;
                    assert(next[k] == q);
                }
                assert(next[j as int] == p);
            }
            match p {
                ChannelPointer::Digital(i) => {
                    self.digi_chans.data[i as usize].slrl_pointer = SLRLPointer::ScanList(idx);
                    self.digi_chans.data[i as usize].auto_start_scan = true;
                },
                ChannelPointer::Analog(i) => {
                    self.ana_chans.data[i as usize].scan_list_idx = idx + 1;
                    self.ana_chans.data[i as usize].auto_start_scan = true;
                },
                ChannelPointer::Selected => {},
            }
            j += 1;
        }
        assert(ptrs.subrange(0, count as int) =~= ptrs);
        Ok(())
    }

    /// Adds the channels of a DMR repeater, one for each talk group, with
    /// their contacts, and a scan list and a zone that hold them all; sets
    /// the channels to scan that scan list. A repeater that roams gets one
    /// more channel, and the pointer to it is appended to `roam_862`. Gives
    /// the place of the zone. Where a step fails the steps before it stay
    /// done.
    pub fn add_dmr_repeater(
        &mut self,
        suffix: &str,
        loc: &str,
        tx_freq: u32,
        rx_freq: u32,
        colour_code: u8,
        roams: bool,
        roam_862: &mut Vec<DigiChannelPointer>,
    ) -> (r: Result<usize, CodeplugError>)
        ensures
            valid(old(self)) ==> valid(final(self)),
            r == repeater_result(old(self), roams),
            repeater_done(
                old(self),
                final(self),
                old(roam_862)@,
                final(roam_862)@,
                suffix@,
                loc@,
                tx_freq,
                rx_freq,
                colour_code,
                roams,
            ),
            final(self).digital_count() >= old(self).digital_count(),
            final(self).roam_list == old(self).roam_list,
            final(self).ana_chans.data@.len() == old(self).ana_chans.data@.len(),
            final(roam_862)@.len() >= old(roam_862)@.len(),
            forall|j: int|
                0 <= j < old(roam_862)@.len() ==> final(roam_862)@[j] == old(roam_862)@[j],
            r matches Ok(zone) ==> {
                let groups = spec_talk_groups(roams);
                &&& zone == old(self).zones.channels.data@.len()
                &&& final(self).zones.channels.data@.len() == zone + 1
                &&& final(self).zones.data.data@.len() == old(self).zones.data.data@.len() + 1
                &&& final(self).scan_list.channels.data@.len() == old(self).scan_list.channels.data@.len() + 1
                &&& final(self).digital_count() == old(self).digital_count() + groups.len()
                &&& final(self).digital_count() <= 0xffff
                &&& final(self).zones.channels.data@[zone as int].channels@ == Seq::new(
                    groups.len(),
                    |k: int| ChannelPointer::Digital((old(self).digital_count() + k) as u16),
                )
                &&& final(self).zones.data.data@[zone as int].name@ == spec_zone_name(suffix@, loc@)
                &&& final(roam_862)@.len() == old(roam_862)@.len() + if roams {
                    1int
                } else {
                    0int
                }
                &&& roams ==> final(roam_862)@.last() == DigiChannelPointer::Digital(
                    (final(self).digital_count() - 1) as u16,
                )
            },
    {
        let groups = talk_groups(roams);
        let ghost total = groups@.len();
        let ghost first = self.digital_count();
        proof {
            lemma_repeater_begun(self, groups@);
        }
        if self.digi_chans.data.len() > 0xffff {
            proof {
                lemma_progress_stuck(self, groups@, 0, total);
            }
            return Err(CodeplugError::SectionFull(0x26));
        }
        let power = match self.radio_type() {
            DeviceType::Portable => PowerLevel::High,
            DeviceType::Mobile => PowerLevel::Low,
        };
        let mut channels: Vec<ChannelPointer> = Vec::new();
        let mut k: usize = 0;
        while k < groups.len()
            invariant
                k <= groups@.len(),
                total == groups@.len(),
                groups@ == spec_talk_groups(roams),
                first == old(self).digital_count(),
                power == repeater_power(old(self)),
                *roam_862 == *old(roam_862),
                valid(old(self)) ==> valid(self),
                *self == (Codeplug {
                    contacts: self.contacts,
                    digi_chans: self.digi_chans,
                    ..*old(self)
                }),
                self.digital_count() == first + k,
                self.digital_count() <= 0xffff,
                repeater_progress(old(self), groups@, k as nat).failed is None,
                repeater_progress(old(self), groups@, k as nat).done == k,
                repeater_progress(old(self), groups@, k as nat).ids == contact_ids(self.contacts.data@),
                contacts_appended(
                    &old(self).contacts,
                    &self.contacts,
                    groups@,
                    repeater_progress(old(self), groups@, k as nat).fresh,
                ),
                self.contacts.sec.header.elements_in_use == old(self).contacts.sec.header.elements_in_use
                    + repeater_progress(old(self), groups@, k as nat).fresh.len(),
                digitals_appended(
                    old(self),
                    &self.digi_chans,
                    groups@,
                    suffix@,
                    tx_freq,
                    rx_freq,
                    colour_code,
                    k as int,
                    None,
                ),
                self.digi_chans.sec.header.elements_in_use
                    == old(self).digi_chans.sec.header.elements_in_use + k,
                channels@.len() == k,
                forall|j: int|
                    0 <= j < k ==> #[trigger] channels@[j] == ChannelPointer::Digital(
                        (first + j) as u16,
                    ),
            decreases groups@.len() - k,
        {
            let group = groups[k];
            let name = channel_name(suffix, &group);
            let ghost p = repeater_progress(old(self), groups@, k as nat);
            let ghost q = repeater_progress(old(self), groups@, (k + 1) as nat);
            let ghost held = self.contacts;
            let contact_idx = match self.create_or_add_contact(group.name, group.id) {
                Ok(i) => i,
                Err(e) => {
                    proof {
                        lemma_contact_known(held.data@, group.id);
                        lemma_progress_stuck(old(self), groups@, (k + 1) as nat, total);
                    }
                    return Err(e);
                },
            };
            proof {
                lemma_contact_known(held.data@, group.id);
                lemma_contact_step(
                    &old(self).contacts,
                    &held,
                    &self.contacts,
                    groups@,
                    p.fresh,
                    k as int,
                    contact_idx as int,
                );
                assert(q.failed is None ==> q.ids == contact_ids(self.contacts.data@));
            }
            if contact_idx >= 0xffff {
                proof {
                    lemma_progress_stuck(old(self), groups@, (k + 1) as nat, total);
                }
                return Err(CodeplugError::SectionFull(0x2a));
            }
            if self.digi_chans.data.len() >= 0xffff {
                proof {
                    lemma_progress_stuck(old(self), groups@, (k + 1) as nat, total);
                }
                return Err(CodeplugError::SectionFull(0x26));
            }
            let channel = DigitalChannel::new(
                name,
                tx_freq,
                rx_freq,
                false,
                power,
                colour_code,
                contact_idx as u16,
                group.slot,
            );
            let ghost before = self.digi_chans;
            let idx = match self.add_digital_channel(channel) {
                Ok(i) => i,
                Err(e) => {
                    proof {
                        lemma_progress_stuck(old(self), groups@, (k + 1) as nat, total);
                    }
                    return Err(e);
                },
            };
            proof {
                lemma_digitals_grown(
                    old(self),
                    &before,
                    &self.digi_chans,
                    groups@,
                    suffix@,
                    tx_freq,
                    rx_freq,
                    colour_code,
                    k as int,
                    channel,
                );
            }
            channels.push(ChannelPointer::Digital(idx as u16));
            k += 1;
        }
        let ghost list = channels@;
        assert(list =~= digital_run(first, total));
        if roams {
            match DigiChannelPointer::try_from(&channels[channels.len() - 1]) {
                Ok(p) => {
                    roam_862.push(p);
                },
                Err(_) => {},
            }
        }
        let name = zone_name(suffix, loc);
        let scan = Scan::new(name.clone());
        let scan_list = ScanList::new(channels.as_slice());
        proof {
            lemma_digital_run_resolves(self, first, total);
            lemma_wide_list(self, scan_list.channels@);
            lemma_wide_list(self, channels@);
        }
        let ghost loaded = *self;
        let scan_idx = match self.add_scan_list(scan, scan_list) {
            Ok(i) => i,
            Err(e) => {
                return Err(e);
            },
        };
        proof {
            lemma_inserted_appended(&loaded.scan_list.data, &self.scan_list.data, scan);
            lemma_inserted_appended(&loaded.scan_list.channels, &self.scan_list.channels, scan_list);
            lemma_wide_list(self, channels@);
        }
        let zone = Zone::new(name, &channels);
        let ghost listed = *self;
        let zone_idx = match self.add_zone(zone, ZoneList { channels }) {
            Ok(i) => i,
            Err(e) => {
                return Err(e);
            },
        };
        proof {
            lemma_inserted_appended(&listed.zones.data, &self.zones.data, zone);
            lemma_inserted_appended(
                &listed.zones.channels,
                &self.zones.channels,
                ZoneList { channels },
            );
            lemma_digital_run_scans(self, first, total);
        }
        let ghost zoned = *self;
        match self.set_zone_scanlist(zone_idx, scan_idx) {
            Ok(_) => {},
            Err(e) => {
                return Err(e);
            },
        }
        proof {
            lemma_digitals_scanning(
                old(self),
                &zoned.digi_chans,
                &self.digi_chans,
                groups@,
                suffix@,
                tx_freq,
                rx_freq,
                colour_code,
                scan_idx as u8,
            );
            assert(self.ana_chans.data@ =~= zoned.ana_chans.data@);
        }
        Ok(zone_idx)
    }

    /// Adds an analog channel for each given name with its transmit and
    /// receive frequency, and a scan list and a zone of the given name that
    /// hold them all; sets the channels to scan that scan list. Gives the
    /// place of the zone. Where a step fails the steps before it stay done.
    pub fn add_analog_zone(
        &mut self,
        name: String,
        power_level: PowerLevel,
        chans: &Vec<(String, u32, u32)>,
    ) -> (r: Result<usize, CodeplugError>)
        ensures
            valid(old(self)) ==> valid(final(self)),
            r == analog_zone_result(old(self), chans@.len()),
            analog_zone_done(old(self), final(self), name@, power_level, chans@),
            final(self).analog_count() >= old(self).analog_count(),
            final(self).roam_list == old(self).roam_list,
            final(self).digi_chans.data@.len() == old(self).digi_chans.data@.len(),
            r is Ok ==> chans@.len() >= 2,
            r matches Ok(zone) ==> {
                &&& zone == old(self).zones.channels.data@.len()
                &&& final(self).zones.channels.data@.len() == zone + 1
                &&& final(self).zones.data.data@.len() == old(self).zones.data.data@.len() + 1
                &&& final(self).scan_list.channels.data@.len() == old(self).scan_list.channels.data@.len() + 1
                &&& final(self).analog_count() == old(self).analog_count() + chans@.len()
                &&& final(self).analog_count() <= 0xffff
                &&& final(self).zones.channels.data@[zone as int].channels@ == Seq::new(
                    chans@.len(),
                    |k: int| ChannelPointer::Analog((old(self).analog_count() + k) as u16),
                )
                &&& final(self).zones.data.data@[zone as int].name@ == name@
            },
    {
        let ghost first = self.analog_count();
        let ghost n = chans@.len();
        if chans.len() < 2 {
            proof {
                lemma_analogs_begun(&self.ana_chans, power_level, chans@);
            }
            return Err(CodeplugError::ZoneTooSmall);
        }
        if self.ana_chans.data.len() > 0xffff {
            proof {
                lemma_analogs_begun(&self.ana_chans, power_level, chans@);
            }
            return Err(CodeplugError::SectionFull(0x27));
        }
        let off = Ctcss { kind: CTCSSType::Off, freq: 0 };
        let mut channels: Vec<ChannelPointer> = Vec::new();
        let mut k: usize = 0;
        proof {
            lemma_analogs_begun(&self.ana_chans, power_level, chans@);
        }
        while k < chans.len()
            invariant
                k <= chans@.len(),
                n == chans@.len(),
                n >= 2,
                first == old(self).analog_count(),
                off == (Ctcss { kind: CTCSSType::Off, freq: 0 }),
                valid(old(self)) ==> valid(self),
                *self == (Codeplug { ana_chans: self.ana_chans, ..*old(self) }),
                self.analog_count() == first + k,
                self.analog_count() <= 0xffff,
                k <= analog_room(old(self)),
                self.ana_chans.sec.header.elements_in_use
                    == old(self).ana_chans.sec.header.elements_in_use + k,
                analogs_appended(
                    &old(self).ana_chans,
                    &self.ana_chans,
                    power_level,
                    chans@,
                    k as int,
                    None,
                ),
                channels@.len() == k,
                forall|j: int|
                    0 <= j < k ==> #[trigger] channels@[j] == ChannelPointer::Analog(
                        (first + j) as u16,
                    ),
            decreases chans@.len() - k,
        {
            if self.ana_chans.data.len() >= 0xffff {
                return Err(CodeplugError::SectionFull(0x27));
            }
            let channel = AnalogChannel::new(
                chans[k].0.clone(),
                chans[k].1,
                chans[k].2,
                false,
                power_level,
                off,
                off,
            );
            assert(channel@ == new_analog(power_level, chans@[k as int], None));
            let ghost before = self.ana_chans;
            let idx = self.add_analog_channel(channel)?;
            proof {
                lemma_analogs_grown(
                    &old(self).ana_chans,
                    &before,
                    &self.ana_chans,
                    power_level,
                    chans@,
                    k as int,
                    channel,
                );
            }
            channels.push(ChannelPointer::Analog(idx as u16));
            k += 1;
        }
        let ghost list = channels@;
        assert(list =~= analog_run(first, n));
        let scan = Scan::new(name.clone());
        let scan_list = ScanList::new(channels.as_slice());
        proof {
            lemma_analog_run_resolves(self, first, n);
            lemma_wide_list(self, scan_list.channels@);
            lemma_wide_list(self, channels@);
        }
        let ghost loaded = *self;
        let scan_idx = self.add_scan_list(scan, scan_list)?;
        proof {
            lemma_inserted_appended(&loaded.scan_list.data, &self.scan_list.data, scan);
            lemma_inserted_appended(&loaded.scan_list.channels, &self.scan_list.channels, scan_list);
            lemma_wide_list(self, channels@);
        }
        let zone = Zone::new(name, &channels);
        let ghost listed = *self;
        let zone_idx = self.add_zone(zone, ZoneList { channels })?;
        proof {
            lemma_inserted_appended(&listed.zones.data, &self.zones.data, zone);
            lemma_inserted_appended(
                &listed.zones.channels,
                &self.zones.channels,
                ZoneList { channels },
            );
            lemma_analog_run_scans(self, first, n);
        }
        let ghost zoned = *self;
        match self.set_zone_scanlist(zone_idx, scan_idx) {
            Ok(_) => {},
            Err(e) => {
                return Err(e);
            },
        }
        proof {
            lemma_analogs_scanning(
                &old(self).ana_chans,
                &zoned.ana_chans,
                &self.ana_chans,
                power_level,
                chans@,
                scan_idx as u8,
            );
            assert(self.digi_chans.data@ =~= zoned.digi_chans.data@);
        }
        Ok(zone_idx)
    }

    /// Empties the codeplug and fills it anew: four DMR repeaters, three of
    /// which roam; the roam list of those three; a zone of eight simplex
    /// channels; and a scan list of the simplex channels and the channels of
    /// the first repeater, which the channels of the first repeater are set
    /// to scan. Where a step fails the steps before it stay done; the
    /// codeplug is valid either way.
    pub fn mutate_cp(&mut self) -> (r: Result<(), CodeplugError>)
        ensures
            valid(final(self)),
            r is Ok ==> {
                &&& final(self).zones.data.data@.len() == 5
                &&& final(self).scan_list.data.data@.len() == 6
                &&& final(self).roam_list.data.data@.len() == 1
                &&& final(self).digital_count() == 51
                &&& final(self).analog_count() == 8
                &&& final(self).roam_list.channels.data@[0].channels@ == seq![
                    DigiChannelPointer::Selected,
                    DigiChannelPointer::Digital(12),
                    DigiChannelPointer::Digital(25),
                    DigiChannelPointer::Digital(38),
                ]
            },
    {
        self.clear_codeplug();
        let mut roam_862_chans: Vec<DigiChannelPointer> = Vec::new();
        let le_zone = self.add_dmr_repeater(
            "LE",
            "Leeds",
            430_662_500,
            439_662_500,
            2,
            true,
            &mut roam_862_chans,
        )?;
        self.add_dmr_repeater(
            "TD",
            "Wakefield",
            430_162_500,
            439_162_500,
            1,
            true,
            &mut roam_862_chans,
        )?;
        self.add_dmr_repeater(
            "RV",
            "Ribble Val",
            430_625_000,
            439_625_000,
            2,
            true,
            &mut roam_862_chans,
        )?;
        self.add_dmr_repeater(
            "MP",
            "Heysham",
            430_750_000,
            439_750_000,
            3,
            false,
            &mut roam_862_chans,
        )?;
        assert(roam_862_chans@ =~= seq![
            DigiChannelPointer::Digital(12),
            DigiChannelPointer::Digital(25),
            DigiChannelPointer::Digital(38),
        ]);
        let roam_862 = Roam::new(String::from_str("M62 Corridor"));
        let roam_862_list = RoamList::new(roam_862_chans.as_slice());
        proof {
            crate::integrity::lemma_narrow_list(self, roam_862_list.channels@);
        }
        let roam_862_idx = self.add_roam_list(roam_862, roam_862_list)?;
        let mut simplex: Vec<(String, u32, u32)> = Vec::new();
        let mut i: u32 = 0;
        while i < 8
            invariant
                i <= 8,
                simplex@.len() == i,
            decreases 8 - i,
        {
            let freq: u32 = 443_400_000 + i * 25_000;
            simplex.push((simplex_name(272 + i * 2, freq), freq, freq));
            i += 1;
        }
        let simplex_zone = self.add_analog_zone(
            String::from_str("70cm Simplex"),
            PowerLevel::High,
            &simplex,
        )?;
        let mut home_scan_channels: Vec<ChannelPointer> = Vec::new();
        let mut j: usize = 0;
        while j < self.zones.channels.data[simplex_zone].channels.len()
            invariant
                simplex_zone < self.zones.channels.data@.len(),
                j <= self.zones.channels.data@[simplex_zone as int].channels@.len(),
                home_scan_channels@ == self.zones.channels.data@[simplex_zone as int].channels@.subrange(
                    0,
                    j as int,
                ),
            decreases self.zones.channels.data@[simplex_zone as int].channels@.len() - j,
        {
            home_scan_channels.push(self.zones.channels.data[simplex_zone].channels[j]);
            j += 1;
        }
        let ghost simplex_list = home_scan_channels@;
        let mut j: usize = 0;
        while j < self.zones.channels.data[le_zone].channels.len()
            invariant
                le_zone < self.zones.channels.data@.len(),
                j <= self.zones.channels.data@[le_zone as int].channels@.len(),
                home_scan_channels@ == simplex_list + self.zones.channels.data@[le_zone as int].channels@.subrange(
                    0,
                    j as int,
                ),
            decreases self.zones.channels.data@[le_zone as int].channels@.len() - j,
        {
            home_scan_channels.push(self.zones.channels.data[le_zone].channels[j]);
            j += 1;
        }
        let home_scan = Scan::new(String::from_str("Home"));
        let home_scan_list = ScanList::new(home_scan_channels.as_slice());
        let home_scan_idx = self.add_scan_list(home_scan, home_scan_list)?;
        self.set_zone_scanlist(le_zone, home_scan_idx)?;
        let mut j: usize = 0;
        while j < roam_862_chans.len()
            invariant
                j <= roam_862_chans@.len(),
                valid(self),
                roam_862_idx == 0,
                self.roam_list_count() == 1,
                self.zones.data.data@.len() == 5,
                self.scan_list.data.data@.len() == 6,
                self.roam_list.data.data@.len() == 1,
                self.digital_count() == 51,
                self.analog_count() == 8,
                self.roam_list.channels.data@[0].channels@ == seq![
                    DigiChannelPointer::Selected,
                    DigiChannelPointer::Digital(12),
                    DigiChannelPointer::Digital(25),
                    DigiChannelPointer::Digital(38),
                ],
                roam_862_chans@ == seq![
                    DigiChannelPointer::Digital(12),
                    DigiChannelPointer::Digital(25),
                    DigiChannelPointer::Digital(38),
                ],
            decreases roam_862_chans@.len() - j,
        {
            match roam_862_chans[j] {
                DigiChannelPointer::Digital(di) => {
                    self.digi_chans.data[di as usize].ip_multi_site_connect = true;
                    self.digi_chans.data[di as usize].slrl_pointer = SLRLPointer::RoamList(
                        roam_862_idx as u8,
                    );
                    self.digi_chans.data[di as usize].auto_start_roam = true;
                },
                DigiChannelPointer::Selected => {},
            }
            j += 1;
        }
        Ok(())
    }
}

} // verus!
