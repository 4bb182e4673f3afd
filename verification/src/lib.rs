//! An ultrasonic water meter for the MSP430FR6043, built for a battery: the logic of it.
//!
//! Ping both transducers, work out how much water went past, add it to a reading kept in FRAM,
//! switch the analog section off, sleep. Everything in this crate is the part of that which
//! decides or computes: the flow equation, the reading and its checksum, the sealed calibration,
//! the adaptive measurement interval, the wireless M-Bus frame, the energy budget, the production
//! protocol and what the display shows. The hardware itself is driven from outside.
//!
//! Every number the meter runs on is in [`config`], and what those numbers cost in [`energy`].
//! The metrology — what a notified body assesses — is under [`legal`].

pub mod config;
pub mod crc;
pub mod legal;
pub mod radio;
pub mod calibration;
pub mod supply;
pub mod meter;
pub mod energy;
pub mod display;
