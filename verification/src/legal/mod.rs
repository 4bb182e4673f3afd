//! The legally relevant software.
//!
//! Everything a notified body assesses when this instrument is put through MID conformity
//! assessment lives under here: what turns a difference in flight time into litres, what those
//! litres are added to, the numbers that calibrate it, and the checks over both.
//!
//! The instrument declares its whole software legally relevant, which is the conservative choice
//! WELMEC 7.2 allows; the module boundary is kept because it documents which code carries the
//! metrology. Which requirement is met where:
//!
//! | | |
//! | --- | --- |
//! | P2, software identification | [`identity::SOFTWARE_VERSION`] and the image checksum |
//! | P5, protection against accidental change | the image checksum, checked at every start-up |
//! | P7, parameter protection | [`params`]: the seal, the write counter, the checksum |

pub mod flow;
pub mod fram;
pub mod identity;
pub mod params;
pub mod totals;
