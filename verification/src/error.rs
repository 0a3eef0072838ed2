//! Error values of the record codecs.

use vstd::prelude::*;

verus! {

/// The place in a record or header that an error speaks of.
#[derive(Clone, Copy, Debug, PartialEq, Eq, Structural)]
pub enum Field {
    /// Channel type tag of a channel record.
    ChannelType,
    /// Two reserved bytes after the power byte of a channel record.
    ChannelReserved,
    /// Call type tag of a contact.
    CallType,
    /// Two reserved bytes after the reference flag of a contact.
    ContactReserved1,
    /// Four reserved bytes that close a contact.
    ContactReserved2,
    /// A squelch mode, where no record says which.
    SqlMode,
    /// Receive squelch mode of an analog channel.
    RxSqlMode,
    /// Monitor squelch mode of an analog channel.
    MonSqlMode,
    /// Squelch mode on channel change of an analog channel.
    ChannelChangeSqlMode,
    /// Reserved byte after the squelch modes of an analog channel.
    AnalogReserved1,
    /// Carrier squelch level of an analog channel.
    CarrierSqlLevel,
    /// Transmit admit criterion.
    TxAdmit,
    /// Auto reset mode of an analog channel.
    AutoResetMode,
    /// Reserved byte after the auto reset time of an analog channel.
    AnalogReserved2,
    /// Signalling type of an analog channel.
    SignallingType,
    /// Reserved byte after the signalling type of an analog channel.
    AnalogReserved3,
    /// Always-set top bit of the mode byte of a digital channel.
    DigitalMarker,
    /// Direct or repeater bit of the mode byte of a digital channel.
    DigitalModeBit,
    /// Timeslot of a digital channel.
    Timeslot,
    /// Kind of the scan list or roam list reference of a digital channel.
    SlrlType,
    /// Index of the scan list or roam list reference of a digital channel.
    SlrlIndex,
    /// Direct or repeater byte of a digital channel.
    DigitalModeByte,
    /// Two reserved bytes after the direct or repeater byte.
    DigitalReserved1,
    /// Two reserved bytes after the location revert channel.
    DigitalReserved2,
    /// Two reserved bytes after the pseudo trunk field.
    DigitalReserved3,
    /// Three padding bytes of a roam record.
    RoamPadding,
    /// Reserved byte that closes a roam record.
    RoamReserved,
    /// Scan type of a scan record.
    ScanType,
    /// Transmit mode of a scan record.
    ScanTxMode,
    /// Target tag of a channel pointer.
    PointerTarget,
    /// Stored index of a channel pointer.
    PointerIndex,
    /// Magic constant of a section header.
    SectionMagic,
    /// Byte size of a section header, or its redundant copy.
    SectionByteSize,
    /// Declared size of the packed region of a pointer list.
    PointerRegionSize,
}

/// Why a record could not be decoded or encoded.
#[derive(Clone, Copy, Debug, PartialEq, Eq, Structural)]
pub enum CodecError {
    /// The input ends before the record does.
    UnexpectedEof,
    /// A discriminant matches no defined tag.
    InvalidTag(Field),
    /// A reserved field does not hold its required constant.
    ReservedMismatch(Field),
    /// A stored index is outside what the format can express.
    IndexOutOfRange(Field),
    /// A name field is not valid UTF-16.
    InvalidName,
    /// A name takes more than sixteen UTF-16 code units.
    NameTooLong,
    /// A pointer list holds more entries than its packed region has room for.
    TooManyChannels,
    /// A pointer list that must hold at least one entry is empty.
    EmptyChannelList,
    /// A pointer to an analog channel has no narrow form.
    AnalogPointer,
}

/// Why a record does not fit the codeplug that holds it.
#[derive(Clone, Copy, Debug, PartialEq, Eq, Structural)]
pub enum ReferenceError {
    /// A pointer names a digital channel that does not exist.
    Digital(u16),
    /// A pointer names an analog channel that does not exist.
    Analog(u16),
    /// A digital channel names a scan list that does not exist.
    ScanList(u8),
    /// A digital channel names a roam list that does not exist.
    RoamList(u8),
    /// The first entry of a scan list or roam list is not the selected
    /// channel.
    FirstNotSelected,
}

/// Why a codeplug could not be read, verified or written.
#[derive(Clone, Copy, Debug, PartialEq, Eq, Structural)]
pub enum CodeplugError {
    /// The section directory could not be read: its anchor, or the section at
    /// this offset of the image.
    Directory { at: usize, cause: CodecError },
    /// The radio model field is not text.
    Model,
    /// The image has no section of this type.
    MissingSection(u16),
    /// The byte size of the section of this type is not a multiple of its
    /// capacity.
    UnevenSection(u16),
    /// A section has no mapping for a place that it uses.
    MissingMapping { section: u16, position: u16 },
    /// A mapping gives an offset outside the record region of its section.
    MissingChunk { section: u16, position: u16 },
    /// A record could not be decoded.
    Decode { section: u16, position: u16, cause: CodecError },
    /// A record could not be encoded.
    Encode { section: u16, index: usize, cause: CodecError },
    /// The header of a section does not count as many records as the section
    /// holds.
    CountMismatch(u16),
    /// The section of this type and its list section differ in their number of
    /// records.
    ParityMismatch(u16),
    /// A record does not fit the codeplug.
    Reference { section: u16, index: usize, reason: ReferenceError },
    /// The records of a section fill its record region or go beyond it.
    SectionOverflow(u16),
    /// The header of a section could not be encoded.
    Header { section: u16, cause: CodecError },
    /// The address of a section is beyond what this machine can index.
    Address(u16),
    /// The section of this type has no room for one more record.
    SectionFull(u16),
    /// There is no zone at this place.
    NoSuchZone(usize),
    /// There is no scan list at this place, or its place cannot be stored in
    /// a channel.
    NoSuchScanList(usize),
    /// A zone whose channels are to scan holds the selected channel.
    SelectedInZone(usize),
    /// A zone needs at least two channels.
    ZoneTooSmall,
}

} // verus!
