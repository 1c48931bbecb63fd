//! Motherboard and battery records. Both probes only degrade: a board
//! or BIOS field that cannot be read becomes a literal "Unknown", and a
//! battery capacity that cannot be parsed becomes zero.

use vstd::prelude::*;
use vstd::string::StrSliceExecFns;

use crate::model::BatteryInfo;
use crate::model::MotherboardInfo;
use crate::text::opt_str_view;
use crate::text::parse_dec_u8;
use crate::text::spec_parse_dec_u8;
use crate::text::spec_starts_with;
use crate::text::str_starts_with;
use crate::text::trim_seq;
use crate::text::trim_str;

verus! {

/// What one identity read yields: its trimmed contents, or "Unknown"
/// when the read failed.
pub open spec fn spec_read_or_unknown(o: Option<Seq<char>>) -> Seq<char> {
    match o {
        Some(s) => trim_seq(s),
        None => "Unknown"@,
    }
}

/// Trim one identity read, defaulting to "Unknown".
pub fn read_or_unknown(o: Option<String>) -> (r: String)
    ensures
        r@ == spec_read_or_unknown(opt_str_view(o)),
{
    match o {
        Some(s) => trim_str(s.as_str()).to_owned(),
        None => "Unknown".to_owned(),
    }
}

/// Fold the five identity reads into the board record. Each field
/// degrades independently; this probe never fails as a whole.
pub fn motherboard_from_reads(
    vendor: Option<String>,
    product: Option<String>,
    bios_vendor: Option<String>,
    bios_version: Option<String>,
    bios_date: Option<String>,
) -> (r: MotherboardInfo)
    ensures
        r.vendor@ == spec_read_or_unknown(opt_str_view(vendor)),
        r.product@ == spec_read_or_unknown(opt_str_view(product)),
        r.bios_vendor@ == spec_read_or_unknown(opt_str_view(bios_vendor)),
        r.bios_version@ == spec_read_or_unknown(opt_str_view(bios_version)),
        r.bios_date@ == spec_read_or_unknown(opt_str_view(bios_date)),
{
    MotherboardInfo {
        vendor: read_or_unknown(vendor),
        product: read_or_unknown(product),
        bios_vendor: read_or_unknown(bios_vendor),
        bios_version: read_or_unknown(bios_version),
        bios_date: read_or_unknown(bios_date),
    }
}

/// The capacity a read yields: the trimmed text parsed as a decimal
/// number, with zero for a failed read or parse.
pub open spec fn spec_capacity(o: Option<Seq<char>>) -> u8 {
    match o {
        None => 0u8,
        Some(s) => match spec_parse_dec_u8(trim_seq(s)) {
            Some(v) => v,
            None => 0u8,
        },
    }
}

/// Build the record for one power-supply directory entry: only entries
/// whose name carries the battery prefix are batteries; status defaults
/// to "Unknown" and capacity to zero.
pub fn battery_from_entry(
    name: String,
    status: Option<String>,
    capacity: Option<String>,
) -> (r: Option<BatteryInfo>)
    ensures
        if spec_starts_with(name@, "BAT"@) {
            match r {
                Some(b) => b.name@ == name@ && b.status@ == spec_read_or_unknown(
                    opt_str_view(status),
                ) && b.capacity == spec_capacity(opt_str_view(capacity)),
                None => false,
            }
        } else {
            r is None
        },
{
    if !str_starts_with(name.as_str(), "BAT") {
        return None;
    }
    let cap: u8 = match &capacity {
        None => 0,
        Some(s) => match parse_dec_u8(trim_str(s.as_str())) {
            Some(v) => v,
            None => 0,
        },
    };
    Some(BatteryInfo { name, status: read_or_unknown(status), capacity: cap })
}

} // verus!
