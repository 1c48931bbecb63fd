//! CPU record building: cache geometry turned into size labels, and the
//! per-logical-core records assembled from the sampler's readings. Cache
//! data is per-package; its labels are broadcast identically onto every
//! logical core's record, an accepted simplification.

use vstd::prelude::*;
use vstd::string::StringExecFns;

use crate::model::CpuInfo;
use crate::text::dec_str;
use crate::text::opt_str_view;
use crate::text::u64_to_dec;

verus! {

/// One cache description from the processor's identification
/// instructions: level and geometry.
#[derive(Debug, Clone, PartialEq, Eq)]
pub struct CacheParamSample {
    pub level: u8,
    pub ways: u64,
    pub partitions: u64,
    pub line_size: u64,
    pub sets: u64,
}

/// The cache size in kibibytes: ways times partitions times line size
/// times sets, divided down.
pub open spec fn spec_size_kb(p: CacheParamSample) -> int {
    (p.ways * p.partitions * p.line_size * p.sets) / 1024
}

/// Whether the size product fits the machine word, step by step.
pub open spec fn size_product_fits(p: CacheParamSample) -> bool {
    &&& p.ways * p.partitions <= u64::MAX
    &&& p.ways * p.partitions * p.line_size <= u64::MAX
    &&& p.ways * p.partitions * p.line_size * p.sets <= u64::MAX
}

/// The label for one cache: its size in kibibytes, then " KB".
pub open spec fn spec_cache_label(p: CacheParamSample) -> Seq<char> {
    dec_str(spec_size_kb(p)) + " KB"@
}

/// The three labels a cache parameter list yields: each entry of level
/// 1, 2 or 3 sets its level's label; later entries overwrite earlier
/// ones; other levels are ignored.
pub open spec fn spec_cache_labels(ps: Seq<CacheParamSample>) -> (
    Option<Seq<char>>,
    Option<Seq<char>>,
    Option<Seq<char>>,
)
    decreases ps.len(),
{
    if ps.len() == 0 {
        (None, None, None)
    } else {
        let st = spec_cache_labels(ps.drop_last());
        let p = ps.last();
        if p.level == 1 {
            (Some(spec_cache_label(p)), st.1, st.2)
        } else if p.level == 2 {
            (st.0, Some(spec_cache_label(p)), st.2)
        } else if p.level == 3 {
            (st.0, st.1, Some(spec_cache_label(p)))
        } else {
            st
        }
    }
}

proof fn lemma_cache_labels_push(ps: Seq<CacheParamSample>, p: CacheParamSample)
    ensures
        spec_cache_labels(ps.push(p)) == ({
            let st = spec_cache_labels(ps);
            if p.level == 1 {
                (Some(spec_cache_label(p)), st.1, st.2)
            } else if p.level == 2 {
                (st.0, Some(spec_cache_label(p)), st.2)
            } else if p.level == 3 {
                (st.0, st.1, Some(spec_cache_label(p)))
            } else {
                st
            }
        }),
{
    let q = ps.push(p);
    assert(q.last() == p);
    assert(q.drop_last() =~= ps);
}

/// Compute one cache's size in kibibytes.
pub fn cache_size_kb(p: &CacheParamSample) -> (r: u64)
    requires
        size_product_fits(*p),
    ensures
        r == spec_size_kb(*p),
{
    p.ways * p.partitions * p.line_size * p.sets / 1024
}

/// Render one cache's label.
pub fn cache_label(p: &CacheParamSample) -> (r: String)
    requires
        size_product_fits(*p),
    ensures
        r@ == spec_cache_label(*p),
{
    let kb = cache_size_kb(p);
    u64_to_dec(kb).concat(" KB")
}

/// Fold a cache parameter list into the three per-level labels. An
/// empty list (the probe unavailable or unsupported) leaves all three
/// `None`.
pub fn cache_labels(params: &Vec<CacheParamSample>) -> (r: (
    Option<String>,
    Option<String>,
    Option<String>,
))
    requires
        forall|i: int| 0 <= i < params@.len() ==> size_product_fits(#[trigger] params@[i]),
    ensures
        (opt_str_view(r.0), opt_str_view(r.1), opt_str_view(r.2)) == spec_cache_labels(params@),
{
    let mut l1: Option<String> = None;
    let mut l2: Option<String> = None;
    let mut l3: Option<String> = None;
    proof {
        assert(params@.take(0) =~= Seq::<CacheParamSample>::empty());
    }
    let mut i: usize = 0;
    while i < params.len()
        invariant
            0 <= i <= params@.len(),
            forall|k: int| 0 <= k < params@.len() ==> size_product_fits(#[trigger] params@[k]),
            (opt_str_view(l1), opt_str_view(l2), opt_str_view(l3)) == spec_cache_labels(
                params@.take(i as int),
            ),
        decreases params@.len() - i,
    {
        let p = &params[i];
        proof {
            assert(params@.take(i as int).push(params@[i as int]) =~= params@.take(i + 1));
            lemma_cache_labels_push(params@.take(i as int), params@[i as int]);
        }
        if p.level == 1 {
            l1 = Some(cache_label(p));
        } else if p.level == 2 {
            l2 = Some(cache_label(p));
        } else if p.level == 3 {
            l3 = Some(cache_label(p));
        }
        i = i + 1;
    }
    proof {
        assert(params@.take(params@.len() as int) =~= params@);
    }
    (l1, l2, l3)
}

/// One logical CPU as read from the sampler.
#[derive(Debug, Clone, PartialEq, Eq)]
pub struct CpuSample {
    pub model: String,
    pub vendor_id: String,
    /// Clock frequency in MHz.
    pub frequency: u64,
    /// Instantaneous usage in hundredths of a percent.
    pub usage_centi: u32,
}

fn clone_opt_string(o: &Option<String>) -> (r: Option<String>)
    ensures
        opt_str_view(r) == opt_str_view(*o),
{
    match o {
        Some(s) => Some(s.clone()),
        None => None,
    }
}

/// Build the per-logical-core records: each sample keeps its own model,
/// vendor id, frequency and usage, while the package-level vendor name,
/// physical core count and the three cache labels are broadcast onto
/// every record.
pub fn build_cpu_infos(
    samples: &Vec<CpuSample>,
    vendor_name: &str,
    cores: usize,
    l1: &Option<String>,
    l2: &Option<String>,
    l3: &Option<String>,
) -> (r: Vec<CpuInfo>)
    ensures
        r@.len() == samples@.len(),
        forall|i: int|
            0 <= i < samples@.len() ==> {
                let e = #[trigger] r@[i];
                &&& e.model@ == samples@[i].model@
                &&& e.vendor_id@ == samples@[i].vendor_id@
                &&& e.brand@ == vendor_name@
                &&& e.cores == cores
                &&& e.frequency == samples@[i].frequency
                &&& e.usage_centi == samples@[i].usage_centi
                &&& opt_str_view(e.l1_cache) == opt_str_view(*l1)
                &&& opt_str_view(e.l2_cache) == opt_str_view(*l2)
                &&& opt_str_view(e.l3_cache) == opt_str_view(*l3)
            },
{
    let mut out: Vec<CpuInfo> = Vec::new();
    let mut i: usize = 0;
    while i < samples.len()
        invariant
            0 <= i <= samples@.len(),
            out@.len() == i,
            forall|k: int|
                0 <= k < i ==> {
                    let e = #[trigger] out@[k];
                    &&& e.model@ == samples@[k].model@
                    &&& e.vendor_id@ == samples@[k].vendor_id@
                    &&& e.brand@ == vendor_name@
                    &&& e.cores == cores
                    &&& e.frequency == samples@[k].frequency
                    &&& e.usage_centi == samples@[k].usage_centi
                    &&& opt_str_view(e.l1_cache) == opt_str_view(*l1)
                    &&& opt_str_view(e.l2_cache) == opt_str_view(*l2)
                    &&& opt_str_view(e.l3_cache) == opt_str_view(*l3)
                },
        decreases samples@.len() - i,
    {
        let s = &samples[i];
        out.push(
            CpuInfo {
                model: s.model.clone(),
                vendor_id: s.vendor_id.clone(),
                brand: vendor_name.to_owned(),
                cores,
                frequency: s.frequency,
                usage_centi: s.usage_centi,
                l1_cache: clone_opt_string(l1),
                l2_cache: clone_opt_string(l2),
                l3_cache: clone_opt_string(l3),
            },
        );
        i = i + 1;
    }
    out
}

} // verus!
