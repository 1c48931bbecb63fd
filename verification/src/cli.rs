//! Option model for the command line: which output format to use and
//! which report sections to show. The flag parsing itself is plain
//! option decoding done by the surrounding application; the decision of
//! which sections a set of flags selects is made here.

use vstd::prelude::*;

verus! {

/// The output format for a static report.
#[derive(Copy, Clone, Debug, PartialEq, Eq, Structural)]
pub enum OutputFormat {
    Table,
    Json,
    Yaml,
}

/// The decoded command-line options.
#[derive(Debug, Clone, PartialEq, Eq)]
pub struct Args {
    pub format: OutputFormat,
    pub cpu: bool,
    pub ram: bool,
    pub storage: bool,
    pub network: bool,
    pub usb: bool,
    pub pci: bool,
    pub health: bool,
    /// Path of a YAML configuration file, when one was given.
    pub config: Option<String>,
    pub full: bool,
    pub tui: bool,
}

/// Which report sections a table rendering shows.
#[derive(Copy, Clone, Debug, PartialEq, Eq, Structural)]
pub struct Sections {
    pub cpu: bool,
    pub ram: bool,
    pub storage: bool,
    pub network: bool,
    pub usb: bool,
    pub pci: bool,
    pub health: bool,
}

impl Args {
    /// Whether any section filter (or the full switch) was given.
    pub fn any_filter(&self) -> (b: bool)
        ensures
            b == (self.cpu || self.ram || self.storage || self.network || self.usb || self.pci
                || self.health || self.full),
    {
        self.cpu || self.ram || self.storage || self.network || self.usb || self.pci || self.health
            || self.full
    }

    /// The sections to show: a section is selected by its own flag or by
    /// the full switch.
    pub fn selected_sections(&self) -> (s: Sections)
        ensures
            s.cpu == (self.cpu || self.full),
            s.ram == (self.ram || self.full),
            s.storage == (self.storage || self.full),
            s.network == (self.network || self.full),
            s.usb == (self.usb || self.full),
            s.pci == (self.pci || self.full),
            s.health == (self.health || self.full),
    {
        Sections {
            cpu: self.cpu || self.full,
            ram: self.ram || self.full,
            storage: self.storage || self.full,
            network: self.network || self.full,
            usb: self.usb || self.full,
            pci: self.pci || self.full,
            health: self.health || self.full,
        }
    }
}

} // verus!
