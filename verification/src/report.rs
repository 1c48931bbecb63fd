//! Report assembly and the uptime rendering. Assembly is pure
//! composition: every probe's best-effort result, including an empty
//! collection, is accepted as final for the report cycle, so assembly
//! itself never fails.

use vstd::prelude::*;
use vstd::string::StringExecFns;

use crate::model::BatteryInfo;
use crate::model::CpuInfo;
use crate::model::HardwareReport;
use crate::model::MotherboardInfo;
use crate::model::NetworkInfo;
use crate::model::PciDevice;
use crate::model::RamInfo;
use crate::model::StorageInfo;
use crate::model::UsbDevice;
use crate::text::dec_str;
use crate::text::u64_to_dec;

verus! {

/// The machine's identity fields, as the operating system reports them;
/// a query that failed yields an empty string.
#[derive(Debug, Clone, PartialEq, Eq)]
pub struct Identity {
    pub os_name: String,
    pub os_version: String,
    pub kernel_version: String,
    pub hostname: String,
    /// Uptime in seconds.
    pub uptime: u64,
}

/// Fold the probes' results into one snapshot. Every input, however
/// empty or degraded, yields a report: assembly has no failure path.
pub fn assemble_report(
    identity: Identity,
    cpu: Vec<CpuInfo>,
    ram: RamInfo,
    storage: Vec<StorageInfo>,
    network: Vec<NetworkInfo>,
    usb: Vec<UsbDevice>,
    pci: Vec<PciDevice>,
    motherboard: Option<MotherboardInfo>,
    battery: Vec<BatteryInfo>,
) -> (r: HardwareReport)
    ensures
        r.os_name == identity.os_name,
        r.os_version == identity.os_version,
        r.kernel_version == identity.kernel_version,
        r.hostname == identity.hostname,
        r.uptime == identity.uptime,
        r.cpu == cpu,
        r.ram == ram,
        r.storage == storage,
        r.network == network,
        r.usb == usb,
        r.pci == pci,
        r.motherboard == motherboard,
        r.battery == battery,
{
    HardwareReport {
        os_name: identity.os_name,
        os_version: identity.os_version,
        kernel_version: identity.kernel_version,
        hostname: identity.hostname,
        uptime: identity.uptime,
        cpu,
        ram,
        storage,
        network,
        usb,
        pci,
        motherboard,
        battery,
    }
}

/// The uptime rendering: days, hours and minutes, with the leading
/// units left off while they are zero.
pub open spec fn spec_format_uptime(seconds: int) -> Seq<char> {
    let days = seconds / 86400;
    let hours = (seconds % 86400) / 3600;
    let minutes = (seconds % 3600) / 60;
    if days > 0 {
        dec_str(days) + "d "@ + dec_str(hours) + "h "@ + dec_str(minutes) + "m"@
    } else if hours > 0 {
        dec_str(hours) + "h "@ + dec_str(minutes) + "m"@
    } else {
        dec_str(minutes) + "m"@
    }
}

/// Render an uptime in seconds as days, hours and minutes.
pub fn format_uptime(seconds: u64) -> (r: String)
    ensures
        r@ == spec_format_uptime(seconds as int),
{
    let days = seconds / (24 * 3600);
    let hours = (seconds % (24 * 3600)) / 3600;
    let minutes = (seconds % 3600) / 60;

    if days > 0 {
        let mut s = u64_to_dec(days);
        s.append("d ");
        s.append(u64_to_dec(hours).as_str());
        s.append("h ");
        s.append(u64_to_dec(minutes).as_str());
        s.append("m");
        s
    } else if hours > 0 {
        let mut s = u64_to_dec(hours);
        s.append("h ");
        s.append(u64_to_dec(minutes).as_str());
        s.append("m");
        s
    } else {
        let mut s = u64_to_dec(minutes);
        s.append("m");
        s
    }
}

} // verus!
