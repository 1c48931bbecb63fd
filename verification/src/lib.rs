//! Verified core of a hardware-inventory tool.
//!
//! The library holds the discovery-and-normalization logic: parsing the
//! PCI ID text registry into a lookup table, cleaning and translating
//! SMBIOS memory-device records, deriving parent block-device names,
//! assembling one `HardwareReport` snapshot out of the probes' partial
//! results, and the live-session state machine that patches a working
//! copy of a report in place. All hardware and terminal I/O lives in the
//! surrounding application, which hands this library plain values.

pub mod cli;
pub mod cpu;
pub mod health;
pub mod mem;
pub mod model;
pub mod pci;
pub mod pci_db;
pub mod report;
pub mod session;
pub mod storage;
pub mod text;
pub mod usb;
