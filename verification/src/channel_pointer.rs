//! Compact references from one record to a channel, and the packed lists of
//! such references.

pub mod digi_chan_pointer;
pub mod pointer;
pub mod raw_pointer;
pub mod section;
