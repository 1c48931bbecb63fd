//! The vendor/device database: an in-memory index built from the PCI ID
//! text registry. The format is line-oriented and tab-depth-significant:
//! blank lines, `#` comments and class-definition lines (leading `C`)
//! are skipped; an untabbed line starts a vendor record, filed under a
//! sentinel device id as a vendor-only fallback; a line with exactly one
//! leading tab is a device record under the current vendor; deeper lines
//! (subsystems) are not modeled.

use std::collections::HashMap;
use vstd::prelude::*;
use vstd::string::StrSliceExecFns;

use crate::text::opt_str_view;
use crate::text::parse_hex_u16;
use crate::text::spec_parse_hex_u16;
use crate::text::split_first_space;
use crate::text::split_rest;
use crate::text::split_token;
use crate::text::trim_seq;
use crate::text::trim_str;

verus! {

broadcast use vstd::std_specs::hash::group_hash_axioms;

/// The device id under which a vendor-only fallback entry is filed.
pub const SENTINEL_DEVICE: u16 = 0xFFFF;

/// The names attached to one database entry: vendor name, device name.
pub type EntryView = (Option<Seq<char>>, Option<Seq<char>>);

/// The parser state after some lines: the current vendor's id and name,
/// and the entries inserted so far.
pub type DbState = (Option<u16>, Option<Seq<char>>, Map<u32, EntryView>);

/// The key under which a `(vendor, device)` pair is filed.
pub open spec fn db_key(v: u16, d: u16) -> u32 {
    ((v as int) * 0x10000 + (d as int)) as u32
}

/// The key for a `(vendor, device)` pair.
pub fn key_of(v: u16, d: u16) -> (r: u32)
    ensures
        r == db_key(v, d),
{
    (v as u32) * 0x10000 + (d as u32)
}

/// The views of one stored entry's names.
pub open spec fn pair_view(p: (Option<String>, Option<String>)) -> EntryView {
    (opt_str_view(p.0), opt_str_view(p.1))
}

/// The view-level contents of the backing table.
pub open spec fn map_view(m: Map<u32, (Option<String>, Option<String>)>) -> Map<u32, EntryView> {
    Map::new(|k: u32| m.dom().contains(k), |k: u32| pair_view(m[k]))
}

proof fn lemma_map_view_insert(
    m: Map<u32, (Option<String>, Option<String>)>,
    k: u32,
    v: (Option<String>, Option<String>),
)
    ensures
        map_view(m.insert(k, v)) == map_view(m).insert(k, pair_view(v)),
{
    assert(map_view(m.insert(k, v)) =~= map_view(m).insert(k, pair_view(v)));
}

/// How one registry line changes the parser state. Blank, comment,
/// class and subsystem lines change nothing. A device line (one leading
/// tab) inserts an entry under the current vendor when its id token
/// parses and a name follows. An untabbed line whose id token parses and
/// whose name follows becomes the current vendor and files its
/// vendor-only fallback entry.
pub open spec fn spec_db_line(st: DbState, l: Seq<char>) -> DbState {
    if trim_seq(l).len() == 0 || (l.len() > 0 && (l[0] == '#' || l[0] == 'C')) {
        st
    } else if l.len() >= 2 && l[0] == '\t' && l[1] == '\t' {
        st
    } else if l.len() >= 1 && l[0] == '\t' {
        match st.0 {
            None => st,
            Some(vid) => {
                let content = trim_seq(l);
                match spec_parse_hex_u16(split_token(content)) {
                    None => st,
                    Some(did) => match split_rest(content) {
                        None => st,
                        Some(name) => (
                            st.0,
                            st.1,
                            st.2.insert(db_key(vid, did), (st.1, Some(trim_seq(name)))),
                        ),
                    },
                }
            },
        }
    } else {
        match spec_parse_hex_u16(split_token(l)) {
            None => st,
            Some(vid) => match split_rest(l) {
                None => st,
                Some(name) => (
                    Some(vid),
                    Some(trim_seq(name)),
                    st.2.insert(db_key(vid, SENTINEL_DEVICE), (Some(trim_seq(name)), None)),
                ),
            },
        }
    }
}

/// The parser state after all of `lines`.
pub open spec fn spec_db(lines: Seq<Seq<char>>) -> DbState
    decreases lines.len(),
{
    if lines.len() == 0 {
        (None::<u16>, None::<Seq<char>>, Map::<u32, EntryView>::empty())
    } else {
        spec_db_line(spec_db(lines.drop_last()), lines.last())
    }
}

/// The database `lines` yields.
pub open spec fn spec_db_map(lines: Seq<Seq<char>>) -> Map<u32, EntryView> {
    spec_db(lines).2
}

proof fn lemma_spec_db_push(lines: Seq<Seq<char>>, l: Seq<char>)
    ensures
        spec_db(lines.push(l)) == spec_db_line(spec_db(lines), l),
{
    let q = lines.push(l);
    assert(q.last() == l);
    assert(q.drop_last() =~= lines);
}

/// What a lookup of `(v, d)` yields from database `m`: the exact
/// entry's names on a hit; on a miss, the vendor-only fallback entry's
/// vendor name with no device name; otherwise no names at all.
pub open spec fn spec_lookup(m: Map<u32, EntryView>, v: u16, d: u16) -> EntryView {
    if m.contains_key(db_key(v, d)) {
        m[db_key(v, d)]
    } else if m.contains_key(db_key(v, SENTINEL_DEVICE)) {
        (m[db_key(v, SENTINEL_DEVICE)].0, None)
    } else {
        (None, None)
    }
}

fn clone_opt_string(o: &Option<String>) -> (r: Option<String>)
    ensures
        opt_str_view(r) == opt_str_view(*o),
{
    match o {
        Some(s) => Some(s.clone()),
        None => None,
    }
}

/// The in-memory vendor/device index.
pub struct PciDb {
    map: HashMap<u32, (Option<String>, Option<String>)>,
}

impl View for PciDb {
    type V = Map<u32, EntryView>;

    closed spec fn view(&self) -> Map<u32, EntryView> {
        map_view(self.map@)
    }
}

impl PciDb {
    /// The empty database: every lookup degrades to raw ids.
    pub fn empty() -> (db: PciDb)
        ensures
            db@ == Map::<u32, EntryView>::empty(),
    {
        let db = PciDb { map: HashMap::new() };
        proof {
            assert(db@ =~= Map::<u32, EntryView>::empty());
        }
        db
    }

    /// Parse the lines of a PCI ID registry file.
    pub fn parse(lines: &Vec<String>) -> (db: PciDb)
        ensures
            db@ == spec_db_map(lines@.map_values(|s: String| s@)),
    {
        let ghost ls = lines@.map_values(|s: String| s@);
        let mut map: HashMap<u32, (Option<String>, Option<String>)> = HashMap::new();
        let mut cur_vid: Option<u16> = None;
        let mut cur_vname: Option<String> = None;
        proof {
            assert(ls.take(0) =~= Seq::<Seq<char>>::empty());
            assert(map_view(map@) =~= Map::<u32, EntryView>::empty());
        }
        let mut i: usize = 0;
        while i < lines.len()
            invariant
                0 <= i <= lines@.len(),
                ls == lines@.map_values(|s: String| s@),
                cur_vid == spec_db(ls.take(i as int)).0,
                opt_str_view(cur_vname) == spec_db(ls.take(i as int)).1,
                map_view(map@) == spec_db(ls.take(i as int)).2,
            decreases lines@.len() - i,
        {
            let ghost st = spec_db(ls.take(i as int));
            let l: &str = lines[i].as_str();
            proof {
                assert(l@ == ls[i as int]);
                assert(ls.take(i as int).push(l@) =~= ls.take(i + 1));
                lemma_spec_db_push(ls.take(i as int), l@);
            }
            let t = trim_str(l);
            let n = l.unicode_len();
            let skip = t.unicode_len() == 0 || (n > 0 && (l.get_char(0) == '#' || l.get_char(0)
                == 'C')) || (n >= 2 && l.get_char(0) == '\t' && l.get_char(1) == '\t');
            if skip {
            } else if n >= 1 && l.get_char(0) == '\t' {
                match cur_vid {
                    None => {},
                    Some(vid) => {
                        let (tok, rest) = split_first_space(t);
                        match parse_hex_u16(tok) {
                            None => {},
                            Some(did) => match rest {
                                None => {},
                                Some(name) => {
                                    let key = key_of(vid, did);
                                    let value = (
                                        clone_opt_string(&cur_vname),
                                        Some(trim_str(name).to_owned()),
                                    );
                                    let ghost old_map = map@;
                                    map.insert(key, value);
                                    proof {
                                        lemma_map_view_insert(old_map, key, value);
                                    }
                                },
                            },
                        }
                    },
                }
            } else {
                let (tok, rest) = split_first_space(l);
                match parse_hex_u16(tok) {
                    None => {},
                    Some(vid) => match rest {
                        None => {},
                        Some(name) => {
                            let vn = trim_str(name).to_owned();
                            let key = key_of(vid, SENTINEL_DEVICE);
                            let value = (Some(vn.clone()), None::<String>);
                            cur_vid = Some(vid);
                            cur_vname = Some(vn);
                            let ghost old_map = map@;
                            map.insert(key, value);
                            proof {
                                lemma_map_view_insert(old_map, key, value);
                            }
                        },
                    },
                }
            }
            i = i + 1;
        }
        proof {
            assert(ls.take(lines@.len() as int) =~= ls);
        }
        PciDb { map }
    }

    /// Resolve the names for a `(vendor, device)` pair: the exact entry
    /// when the pair is known; otherwise the vendor-only fallback's
    /// vendor name, with the device name left unresolved.
    pub fn lookup(&self, vendor_id: u16, device_id: u16) -> (r: (Option<String>, Option<String>))
        ensures
            (opt_str_view(r.0), opt_str_view(r.1)) == spec_lookup(self@, vendor_id, device_id),
    {
        let key = key_of(vendor_id, device_id);
        match self.map.get(&key) {
            Some(v) => (clone_opt_string(&v.0), clone_opt_string(&v.1)),
            None => {
                let fkey = key_of(vendor_id, SENTINEL_DEVICE);
                match self.map.get(&fkey) {
                    Some(v) => (clone_opt_string(&v.0), None),
                    None => (None, None),
                }
            },
        }
    }
}

} // verus!
