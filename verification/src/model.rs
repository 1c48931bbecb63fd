//! The report data model: one `HardwareReport` snapshot aggregates the
//! partial, best-effort results of every probe. Every collection field is
//! always present (possibly empty); optional scalar fields are `None`
//! where a source could not supply them.

use vstd::prelude::*;

verus! {

/// One logical CPU. Cache size labels are package-level data broadcast
/// identically onto every logical core's record; this duplication is an
/// accepted simplification of the underlying per-package topology.
#[derive(Debug, Clone, PartialEq, Eq)]
pub struct CpuInfo {
    pub model: String,
    pub vendor_id: String,
    pub brand: String,
    pub cores: usize,
    /// Clock frequency in MHz.
    pub frequency: u64,
    /// Instantaneous usage in hundredths of a percent (0 to 10000).
    pub usage_centi: u32,
    pub l1_cache: Option<String>,
    pub l2_cache: Option<String>,
    pub l3_cache: Option<String>,
}

/// One physically present memory module, from the firmware table.
#[derive(Debug, Clone, PartialEq, Eq)]
pub struct RamStick {
    pub manufacturer: Option<String>,
    pub part_number: Option<String>,
    pub serial_number: Option<String>,
    /// Configured speed in MT/s; zero parses count as unknown.
    pub speed: Option<u16>,
}

/// Memory counters plus the per-module details, when readable.
#[derive(Debug, Clone, PartialEq, Eq)]
pub struct RamInfo {
    pub total: u64,
    pub used: u64,
    pub free: u64,
    pub swap_total: u64,
    pub swap_used: u64,
    pub sticks: Vec<RamStick>,
}

/// One mounted filesystem, with best-effort physical-disk metadata
/// resolved from the parent block device.
#[derive(Debug, Clone, PartialEq, Eq)]
pub struct StorageInfo {
    pub name: String,
    pub mount_point: String,
    pub total: u64,
    pub used: u64,
    pub free: u64,
    pub filesystem: String,
    pub vendor: Option<String>,
    pub model_name: Option<String>,
    pub serial_number: Option<String>,
    pub disk_type: Option<String>,
    pub interface: Option<String>,
}

/// One network interface; counters are cumulative byte totals.
#[derive(Debug, Clone, PartialEq, Eq)]
pub struct NetworkInfo {
    pub name: String,
    pub received: u64,
    pub transmitted: u64,
    pub mac_address: String,
}

/// One enumerated USB device. The descriptor's numeric IDs are always
/// available; the two strings need a successful device open and are both
/// `None` when the open failed.
#[derive(Debug, Clone, PartialEq, Eq)]
pub struct UsbDevice {
    pub bus: u8,
    pub address: u8,
    pub vendor_id: u16,
    pub product_id: u16,
    pub manufacturer: Option<String>,
    pub product: Option<String>,
}

/// One enumerated PCI function, annotated with names resolved through
/// the vendor/device database; unresolved names stay `None`.
#[derive(Debug, Clone, PartialEq, Eq)]
pub struct PciDevice {
    pub slot: String,
    pub vendor_id: u16,
    pub device_id: u16,
    pub vendor_name: Option<String>,
    pub device_name: Option<String>,
    pub class_name: Option<String>,
}

/// Board and BIOS identity; each field degrades independently to a
/// literal `"Unknown"` when its source cannot be read.
#[derive(Debug, Clone, PartialEq, Eq)]
pub struct MotherboardInfo {
    pub vendor: String,
    pub product: String,
    pub bios_vendor: String,
    pub bios_version: String,
    pub bios_date: String,
}

/// One battery entry from the power-supply directory.
#[derive(Debug, Clone, PartialEq, Eq)]
pub struct BatteryInfo {
    pub name: String,
    pub status: String,
    pub capacity: u8,
}

/// One immutable snapshot of the machine, assembled once per report
/// cycle. Collection fields are present even when a probe found nothing.
#[derive(Debug, Clone, PartialEq, Eq)]
pub struct HardwareReport {
    pub os_name: String,
    pub os_version: String,
    pub kernel_version: String,
    pub hostname: String,
    /// Uptime in seconds.
    pub uptime: u64,
    pub cpu: Vec<CpuInfo>,
    pub ram: RamInfo,
    pub storage: Vec<StorageInfo>,
    pub network: Vec<NetworkInfo>,
    pub usb: Vec<UsbDevice>,
    pub pci: Vec<PciDevice>,
    pub motherboard: Option<MotherboardInfo>,
    pub battery: Vec<BatteryInfo>,
}

} // verus!
