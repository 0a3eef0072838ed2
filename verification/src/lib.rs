//! Decoder and encoder for the binary memory image ("codeplug") of a family
//! of two-way radios: the section directory, the bit-packed records, the
//! pointers between collections, and the checks made before an image is
//! written back.

pub mod aggregate;
pub mod analog_channel;
pub mod bytes;
pub mod channel_common;
pub mod channel_pointer;
pub mod collection;
pub mod contact;
pub mod cp_data;
pub mod custom_cp;
pub mod digital_channel;
pub mod error;
pub mod integrity;
pub mod radio;
pub mod readback;
pub mod reread;
pub mod roam;
pub mod scan;
pub mod scan_list;
pub mod section;
pub mod utf16;
pub mod zone;
pub mod zone_list;
