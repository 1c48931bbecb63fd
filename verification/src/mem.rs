//! Memory-module normalization: cleaning of placeholder firmware
//! strings, translation of raw JEDEC manufacturer codes, and speed
//! parsing. A record whose manufacturer cleans away is excluded from the
//! stick list entirely.

use vstd::prelude::*;
use vstd::string::StrSliceExecFns;
use vstd::string::StringExecFns;

use crate::model::RamStick;
use crate::text::contains_ci;
use crate::text::opt_str_view;
use crate::text::eq_ignore_ascii;
use crate::text::extract_speed;
use crate::text::lower_seq;
use crate::text::spec_speed_val;
use crate::text::str_contains_ci;
use crate::text::str_eq;
use crate::text::trim_seq;
use crate::text::trim_str;

verus! {

/// Cleaning of a firmware string: trim ASCII whitespace, then discard
/// placeholder values (empty, case-insensitive "unknown"/"none"/"not
/// specified", anything containing "empty", or a literal "0").
pub open spec fn spec_clean(s: Seq<char>) -> Option<Seq<char>> {
    let t = trim_seq(s);
    if t.len() == 0 || lower_seq(t) == lower_seq("unknown"@) || lower_seq(t) == lower_seq("none"@)
        || lower_seq(t) == lower_seq("not specified"@) || contains_ci(t, "empty"@) || t == "0"@ {
        None
    } else {
        Some(t)
    }
}

/// Clean one firmware string field.
pub fn clean_field(s: &str) -> (r: Option<String>)
    ensures
        opt_str_view(r) == spec_clean(s@),
{
    let t = trim_str(s);
    if t.unicode_len() == 0 || eq_ignore_ascii(t, "unknown") || eq_ignore_ascii(t, "none")
        || eq_ignore_ascii(t, "not specified") || str_contains_ci(t, "empty") || str_eq(t, "0") {
        None
    } else {
        Some(t.to_owned())
    }
}

/// The manufacturer name for a raw JEDEC code: specific 3-4 hex-digit
/// codes, matched case-insensitively by substring, map to well-known
/// vendors; unmatched codes pass through verbatim.
pub open spec fn spec_map_ram_manufacturer(s: Seq<char>) -> Seq<char> {
    if contains_ci(s, "0198"@) {
        "Kingston"@
    } else if contains_ci(s, "04CB"@) {
        "ADATA"@
    } else if contains_ci(s, "00AD"@) || contains_ci(s, "80AD"@) {
        "SK Hynix"@
    } else if contains_ci(s, "00CE"@) || contains_ci(s, "80CE"@) {
        "Samsung"@
    } else if contains_ci(s, "012F"@) || contains_ci(s, "812F"@) {
        "Micron"@
    } else if contains_ci(s, "029E"@) || contains_ci(s, "829E"@) {
        "Corsair"@
    } else if contains_ci(s, "0423"@) || contains_ci(s, "8423"@) {
        "Crucial"@
    } else if contains_ci(s, "059B"@) || contains_ci(s, "859B"@) {
        "Crucial"@
    } else {
        s
    }
}

/// Translate a raw JEDEC manufacturer code to a vendor name.
pub fn map_ram_manufacturer(id: &str) -> (r: String)
    ensures
        r@ == spec_map_ram_manufacturer(id@),
{
    if str_contains_ci(id, "0198") {
        String::from_str("Kingston")
    } else if str_contains_ci(id, "04CB") {
        String::from_str("ADATA")
    } else if str_contains_ci(id, "00AD") || str_contains_ci(id, "80AD") {
        String::from_str("SK Hynix")
    } else if str_contains_ci(id, "00CE") || str_contains_ci(id, "80CE") {
        String::from_str("Samsung")
    } else if str_contains_ci(id, "012F") || str_contains_ci(id, "812F") {
        String::from_str("Micron")
    } else if str_contains_ci(id, "029E") || str_contains_ci(id, "829E") {
        String::from_str("Corsair")
    } else if str_contains_ci(id, "0423") || str_contains_ci(id, "8423") {
        String::from_str("Crucial")
    } else if str_contains_ci(id, "059B") || str_contains_ci(id, "859B") {
        String::from_str("Crucial")
    } else {
        id.to_owned()
    }
}

/// One raw memory-device structure as read from the firmware table:
/// the three identity strings and, when the table carried one, the raw
/// rendering of the configured speed field.
#[derive(Debug, Clone, PartialEq, Eq)]
pub struct MemoryDeviceRecord {
    pub manufacturer: String,
    pub part_number: String,
    pub serial_number: String,
    pub speed_raw: Option<String>,
}

/// The speed field a raw speed rendering yields: digits extracted and
/// read as one number, with zero (no digits, overflow, or literally
/// zero) counting as unknown.
pub open spec fn spec_speed_field(sr: Option<Seq<char>>) -> Option<u16> {
    match sr {
        None => None,
        Some(s) => if spec_speed_val(s) > 0 {
            Some(spec_speed_val(s) as u16)
        } else {
            None
        },
    }
}

/// A speed that parses to zero counts as unknown: the speed field is
/// never a present zero.
pub proof fn lemma_speed_never_zero(sr: Option<Seq<char>>)
    ensures
        spec_speed_field(sr) != Some(0u16),
{
}

/// The view of one stick: manufacturer, part number, serial, speed.
pub open spec fn stick_view(s: RamStick) -> (
    Option<Seq<char>>,
    Option<Seq<char>>,
    Option<Seq<char>>,
    Option<u16>,
) {
    (opt_str_view(s.manufacturer), opt_str_view(s.part_number), opt_str_view(s.serial_number), s.speed)
}

/// The stick a record yields: `None` when the manufacturer cleans away,
/// otherwise the cleaned and translated fields.
pub open spec fn spec_stick_of_record(rec: MemoryDeviceRecord) -> Option<
    (Option<Seq<char>>, Option<Seq<char>>, Option<Seq<char>>, Option<u16>),
> {
    match spec_clean(rec.manufacturer@) {
        None => None,
        Some(m) => Some(
            (
                Some(spec_map_ram_manufacturer(m)),
                spec_clean(rec.part_number@),
                spec_clean(rec.serial_number@),
                spec_speed_field(opt_str_view(rec.speed_raw)),
            ),
        ),
    }
}

/// The stick list a record sequence yields: records kept in order, those
/// whose manufacturer cleans away excluded entirely.
pub open spec fn sticks_model(recs: Seq<MemoryDeviceRecord>) -> Seq<
    (Option<Seq<char>>, Option<Seq<char>>, Option<Seq<char>>, Option<u16>),
>
    decreases recs.len(),
{
    if recs.len() == 0 {
        Seq::empty()
    } else {
        let rest = sticks_model(recs.drop_last());
        match spec_stick_of_record(recs.last()) {
            Some(v) => rest.push(v),
            None => rest,
        }
    }
}

proof fn lemma_sticks_model_push(recs: Seq<MemoryDeviceRecord>, rec: MemoryDeviceRecord)
    ensures
        sticks_model(recs.push(rec)) == match spec_stick_of_record(rec) {
            Some(v) => sticks_model(recs).push(v),
            None => sticks_model(recs),
        },
{
    let q = recs.push(rec);
    assert(q.last() == rec);
    assert(q.drop_last() =~= recs);
}

/// Build the stick for one memory-device record, when it has one.
pub fn stick_from_record(rec: &MemoryDeviceRecord) -> (r: Option<RamStick>)
    ensures
        match r {
            Some(s) => spec_stick_of_record(*rec) == Some(stick_view(s)),
            None => spec_stick_of_record(*rec) == None::<
                (Option<Seq<char>>, Option<Seq<char>>, Option<Seq<char>>, Option<u16>),
            >,
        },
{
    let m = clean_field(rec.manufacturer.as_str());
    match m {
        None => None,
        Some(m) => {
            let speed: Option<u16> = match &rec.speed_raw {
                None => None,
                Some(sr) => {
                    let v = extract_speed(sr.as_str());
                    if v > 0 {
                        Some(v)
                    } else {
                        None
                    }
                },
            };
            Some(
                RamStick {
                    manufacturer: Some(map_ram_manufacturer(m.as_str())),
                    part_number: clean_field(rec.part_number.as_str()),
                    serial_number: clean_field(rec.serial_number.as_str()),
                    speed,
                },
            )
        },
    }
}

/// Build the stick list for a sequence of memory-device records.
pub fn build_ram_sticks(recs: &Vec<MemoryDeviceRecord>) -> (r: Vec<RamStick>)
    ensures
        r@.map_values(|s: RamStick| stick_view(s)) == sticks_model(recs@),
{
    let mut out: Vec<RamStick> = Vec::new();
    let mut i: usize = 0;
    proof {
        assert(out@.map_values(|s: RamStick| stick_view(s)) =~= sticks_model(recs@.take(0)));
    }
    while i < recs.len()
        invariant
            0 <= i <= recs.len(),
            out@.map_values(|s: RamStick| stick_view(s)) == sticks_model(recs@.take(i as int)),
        decreases recs.len() - i,
    {
        let rec = &recs[i];
        proof {
            assert(recs@.take(i as int).push(recs@[i as int]) =~= recs@.take(i + 1));
            lemma_sticks_model_push(recs@.take(i as int), recs@[i as int]);
        }
        match stick_from_record(rec) {
            Some(s) => {
                let ghost prev = out@;
                out.push(s);
                proof {
                    assert(out@.map_values(|s: RamStick| stick_view(s)) =~= prev.map_values(
                        |s: RamStick| stick_view(s),
                    ).push(stick_view(s)));
                }
            },
            None => {},
        }
        i = i + 1;
    }
    proof {
        assert(recs@.take(recs@.len() as int) =~= recs@);
    }
    out
}

/// A record never yields more than one stick: the list is never longer
/// than the record sequence.
pub proof fn lemma_sticks_at_most_records(recs: Seq<MemoryDeviceRecord>)
    ensures
        sticks_model(recs).len() <= recs.len(),
    decreases recs.len(),
{
    if recs.len() > 0 {
        lemma_sticks_at_most_records(recs.drop_last());
    }
}

/// A record whose manufacturer cleans to a placeholder is excluded
/// entirely: the stick list is then strictly shorter than the record
/// sequence.
pub proof fn lemma_excluded_record_shrinks_count(recs: Seq<MemoryDeviceRecord>, i: int)
    requires
        0 <= i < recs.len(),
        spec_clean(recs[i].manufacturer@) is None,
    ensures
        sticks_model(recs).len() < recs.len(),
    decreases recs.len(),
{
    if i == recs.len() - 1 {
        lemma_sticks_at_most_records(recs.drop_last());
    } else {
        lemma_excluded_record_shrinks_count(recs.drop_last(), i);
    }
}

} // verus!
