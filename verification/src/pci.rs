//! PCI record annotation: each enumerated bus function is resolved
//! through the vendor/device database; unresolved entries keep `None`
//! names and are rendered as raw hex ids by the presentation layer.

use vstd::prelude::*;

use crate::model::PciDevice;
use crate::pci_db::EntryView;
use crate::pci_db::PciDb;
use crate::pci_db::spec_lookup;
use crate::text::opt_str_view;

verus! {

/// One enumerated PCI function as the bus probe saw it: its rendered
/// location and the two descriptor ids.
#[derive(Debug, Clone, PartialEq, Eq)]
pub struct PciFunctionSample {
    pub slot: String,
    pub vendor_id: u16,
    pub device_id: u16,
}

/// Whether `d` is the annotated record for sample `s` under database
/// `m`: ids and slot kept, names resolved by lookup, class unmodeled.
pub open spec fn pci_annotated(d: PciDevice, s: PciFunctionSample, m: Map<u32, EntryView>) -> bool {
    &&& d.slot@ == s.slot@
    &&& d.vendor_id == s.vendor_id
    &&& d.device_id == s.device_id
    &&& (opt_str_view(d.vendor_name), opt_str_view(d.device_name)) == spec_lookup(
        m,
        s.vendor_id,
        s.device_id,
    )
    &&& d.class_name is None
}

/// Annotate one enumerated function with the database's names.
pub fn pci_device_from_sample(db: &PciDb, s: &PciFunctionSample) -> (r: PciDevice)
    ensures
        pci_annotated(r, *s, db@),
{
    let (vendor_name, device_name) = db.lookup(s.vendor_id, s.device_id);
    PciDevice {
        slot: s.slot.clone(),
        vendor_id: s.vendor_id,
        device_id: s.device_id,
        vendor_name,
        device_name,
        class_name: None,
    }
}

/// Annotate every enumerated function, in order.
pub fn annotate_pci_devices(db: &PciDb, raw: &Vec<PciFunctionSample>) -> (r: Vec<PciDevice>)
    ensures
        r@.len() == raw@.len(),
        forall|i: int| 0 <= i < raw@.len() ==> pci_annotated(#[trigger] r@[i], raw@[i], db@),
{
    let mut out: Vec<PciDevice> = Vec::new();
    let mut i: usize = 0;
    while i < raw.len()
        invariant
            0 <= i <= raw@.len(),
            out@.len() == i,
            forall|k: int| 0 <= k < i ==> pci_annotated(#[trigger] out@[k], raw@[k], db@),
        decreases raw@.len() - i,
    {
        out.push(pci_device_from_sample(db, &raw[i]));
        i = i + 1;
    }
    out
}

} // verus!
