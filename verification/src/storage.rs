//! Storage enrichment: mapping a partition device name to its parent
//! whole-disk device, inferring the interface type from the name prefix,
//! and folding the mounted-volume counters together with the sysfs
//! attribute reads into one `StorageInfo`.

use vstd::prelude::*;
use vstd::string::StrSliceExecFns;

use crate::model::StorageInfo;
use crate::text::is_dec_digit;
use crate::text::spec_starts_with;
use crate::text::str_starts_with;
use crate::text::trim_seq;
use crate::text::trim_str;

verus! {

/// The name with trailing decimal digits removed.
pub open spec fn strip_trailing_digits(s: Seq<char>) -> Seq<char>
    decreases s.len(),
{
    if s.len() > 0 && is_dec_digit(s.last()) {
        strip_trailing_digits(s.drop_last())
    } else {
        s
    }
}

proof fn lemma_strip_trailing_digits_take(s: Seq<char>, b: int)
    requires
        0 <= b <= s.len(),
        forall|j: int| b <= j < s.len() ==> is_dec_digit(#[trigger] s[j]),
        b > 0 ==> !is_dec_digit(s[b - 1]),
    ensures
        strip_trailing_digits(s) == s.take(b),
    decreases s.len() - b,
{
    if b == s.len() {
        assert(s.take(b) =~= s);
    } else {
        let t = s.drop_last();
        assert(t =~= s.take(s.len() - 1));
        assert(forall|j: int| b <= j < t.len() ==> is_dec_digit(#[trigger] t[j]));
        lemma_strip_trailing_digits_take(t, b);
        assert(t.take(b) =~= s.take(b));
    }
}

/// The position of the last occurrence of `c` in `s`, or -1 when `c`
/// does not occur.
pub open spec fn last_index_of(s: Seq<char>, c: char) -> int
    decreases s.len(),
{
    if s.len() == 0 {
        -1
    } else if s.last() == c {
        s.len() - 1
    } else {
        last_index_of(s.drop_last(), c)
    }
}

proof fn lemma_last_index_found(s: Seq<char>, c: char, pos: int)
    requires
        0 <= pos < s.len(),
        s[pos] == c,
        forall|j: int| pos < j < s.len() ==> s[j] != c,
    ensures
        last_index_of(s, c) == pos,
    decreases s.len(),
{
    if pos == s.len() - 1 {
    } else {
        let t = s.drop_last();
        lemma_last_index_found(t, c, pos);
    }
}

proof fn lemma_last_index_absent(s: Seq<char>, c: char)
    requires
        forall|j: int| 0 <= j < s.len() ==> s[j] != c,
    ensures
        last_index_of(s, c) == -1,
    decreases s.len(),
{
    if s.len() > 0 {
        lemma_last_index_absent(s.drop_last(), c);
    }
}

/// The parent whole-disk device of a partition device name: legacy-disk
/// names (`sd*`, `hd*`) lose their trailing digits; an NVMe-style name
/// with a partition separator `p` is truncated at the last `p`; any
/// other name stands unchanged.
pub open spec fn spec_parent_device(s: Seq<char>) -> Seq<char> {
    if spec_starts_with(s, "sd"@) || spec_starts_with(s, "hd"@) {
        strip_trailing_digits(s)
    } else if last_index_of(s, 'p') >= 0 && spec_starts_with(s, "nvme"@) {
        s.take(last_index_of(s, 'p'))
    } else {
        s
    }
}

/// Map a partition device name to its parent whole-disk device name.
pub fn parent_device_name(name: &str) -> (r: String)
    ensures
        r@ == spec_parent_device(name@),
{
    let n = name.unicode_len();
    if str_starts_with(name, "sd") || str_starts_with(name, "hd") {
        let mut b: usize = n;
        while b > 0 && crate::text::is_dec_digit_char(name.get_char(b - 1))
            invariant
                0 <= b <= n,
                n == name@.len(),
                forall|j: int| b <= j < n ==> is_dec_digit(#[trigger] name@[j]),
            decreases b,
        {
            b = b - 1;
        }
        proof {
            lemma_strip_trailing_digits_take(name@, b as int);
        }
        name.substring_char(0, b).to_owned()
    } else {
        let mut k: usize = n;
        while k > 0 && name.get_char(k - 1) != 'p'
            invariant
                0 <= k <= n,
                n == name@.len(),
                forall|j: int| k <= j < n ==> name@[j] != 'p',
            decreases k,
        {
            k = k - 1;
        }
        if k > 0 && str_starts_with(name, "nvme") {
            proof {
                lemma_last_index_found(name@, 'p', k - 1);
            }
            name.substring_char(0, k - 1).to_owned()
        } else {
            proof {
                if k == 0 {
                    lemma_last_index_absent(name@, 'p');
                }
            }
            name.to_owned()
        }
    }
}

/// The interface label a parent device name implies: an NVMe prefix
/// means NVMe, a legacy `sd` prefix means SATA/SAS, anything else is
/// unknown.
pub open spec fn spec_interface(parent: Seq<char>) -> Option<Seq<char>> {
    if spec_starts_with(parent, "nvme"@) {
        Some("NVMe"@)
    } else if spec_starts_with(parent, "sd"@) {
        Some("SATA/SAS"@)
    } else {
        None
    }
}

/// The interface label for a parent device name.
pub fn interface_for(parent: &str) -> (r: Option<String>)
    ensures
        crate::text::opt_str_view(r) == spec_interface(parent@),
{
    if str_starts_with(parent, "nvme") {
        Some("NVMe".to_owned())
    } else if str_starts_with(parent, "sd") {
        Some("SATA/SAS".to_owned())
    } else {
        None
    }
}

/// One mounted volume as listed by the disk probe: counters and labels,
/// before enrichment. `kind` is the probe's rendering of the disk kind.
#[derive(Debug, Clone, PartialEq, Eq)]
pub struct DiskSample {
    pub name: String,
    pub mount_point: String,
    pub total: u64,
    pub available: u64,
    pub filesystem: String,
    pub kind: String,
}

/// The raw contents of the parent device's sysfs attribute files, each
/// `None` where the file could not be read.
#[derive(Debug, Clone, PartialEq, Eq)]
pub struct DiskAttributes {
    pub vendor: Option<String>,
    pub model: Option<String>,
    pub serial: Option<String>,
}

/// The view of an optional raw attribute after trimming.
pub open spec fn trimmed_attr(a: Option<String>) -> Option<Seq<char>> {
    match a {
        Some(s) => Some(trim_seq(s@)),
        None => None,
    }
}

/// Fold one volume sample and its parent device's attribute reads into
/// a `StorageInfo`: usage is total minus available, attribute values are
/// trimmed, and the interface is inferred from the parent name prefix.
pub fn storage_info_from_sample(sample: &DiskSample, attrs: &DiskAttributes) -> (r: StorageInfo)
    requires
        sample.available <= sample.total,
    ensures
        r.name@ == sample.name@,
        r.mount_point@ == sample.mount_point@,
        r.total == sample.total,
        r.used == sample.total - sample.available,
        r.free == sample.available,
        r.filesystem@ == sample.filesystem@,
        crate::text::opt_str_view(r.vendor) == trimmed_attr(attrs.vendor),
        crate::text::opt_str_view(r.model_name) == trimmed_attr(attrs.model),
        crate::text::opt_str_view(r.serial_number) == trimmed_attr(attrs.serial),
        crate::text::opt_str_view(r.disk_type) == Some(sample.kind@),
        crate::text::opt_str_view(r.interface) == spec_interface(spec_parent_device(sample.name@)),
{
    let parent = parent_device_name(sample.name.as_str());
    let vendor = match &attrs.vendor {
        Some(s) => Some(trim_str(s.as_str()).to_owned()),
        None => None,
    };
    let model_name = match &attrs.model {
        Some(s) => Some(trim_str(s.as_str()).to_owned()),
        None => None,
    };
    let serial_number = match &attrs.serial {
        Some(s) => Some(trim_str(s.as_str()).to_owned()),
        None => None,
    };
    StorageInfo {
        name: sample.name.clone(),
        mount_point: sample.mount_point.clone(),
        total: sample.total,
        used: sample.total - sample.available,
        free: sample.available,
        filesystem: sample.filesystem.clone(),
        vendor,
        model_name,
        serial_number,
        disk_type: Some(sample.kind.clone()),
        interface: interface_for(parent.as_str()),
    }
}

} // verus!
