//! USB record normalization. Descriptor ids are always available; the
//! manufacturer and product strings need a successful device open, and
//! when the open failed both are absent together.

use vstd::prelude::*;

use crate::model::UsbDevice;
use crate::text::opt_str_view;

verus! {

/// One enumerated USB device as the bus probe saw it: the descriptor
/// ids, and the two strings when the device could be opened.
#[derive(Debug, Clone, PartialEq, Eq)]
pub struct UsbDeviceSample {
    pub bus: u8,
    pub address: u8,
    pub vendor_id: u16,
    pub product_id: u16,
    /// `None` when the device could not be opened; otherwise the two
    /// string reads, each itself best-effort.
    pub strings: Option<(Option<String>, Option<String>)>,
}

/// Build the record for one enumerated device: ids are kept, and a
/// failed open leaves both strings `None` while the ids still stand.
pub fn usb_device_from_sample(s: &UsbDeviceSample) -> (r: UsbDevice)
    ensures
        r.bus == s.bus,
        r.address == s.address,
        r.vendor_id == s.vendor_id,
        r.product_id == s.product_id,
        match s.strings {
            None => r.manufacturer is None && r.product is None,
            Some(p) => opt_str_view(r.manufacturer) == opt_str_view(p.0) && opt_str_view(r.product)
                == opt_str_view(p.1),
        },
{
    let (manufacturer, product) = match &s.strings {
        None => (None, None),
        Some(p) => {
            let m = match &p.0 {
                Some(x) => Some(x.clone()),
                None => None,
            };
            let q = match &p.1 {
                Some(x) => Some(x.clone()),
                None => None,
            };
            (m, q)
        },
    };
    UsbDevice {
        bus: s.bus,
        address: s.address,
        vendor_id: s.vendor_id,
        product_id: s.product_id,
        manufacturer,
        product,
    }
}

} // verus!
