//! The live session: a state machine over a fixed set of view tabs,
//! owning a mutable working copy of one report. Input either quits,
//! navigates (wrapping both directions), or does nothing; each refresh
//! patches only the cheap, fast-changing fields in place — CPU usage
//! and frequency by core index, the memory counters, the uptime, and
//! the network counters by interface name — while everything captured
//! at session start stays as it is.

use vstd::prelude::*;

use crate::model::CpuInfo;
use crate::model::HardwareReport;
use crate::model::NetworkInfo;
use crate::model::RamInfo;
use crate::text::str_eq;

verus! {

/// Number of view tabs in the live session: Overview, CPU & RAM,
/// Storage & Network, Peripherals.
pub const TAB_COUNT: usize = 4;

/// The tab index after `tab`, wrapping from the last tab back to the first.
pub fn next_tab(tab: usize) -> (r: usize)
    requires
        tab < TAB_COUNT,
    ensures
        r < TAB_COUNT,
        r == if tab + 1 < TAB_COUNT { (tab + 1) as usize } else { 0usize },
{
    (tab + 1) % TAB_COUNT
}

/// The tab index before `tab`, wrapping from the first tab to the last.
pub fn prev_tab(tab: usize) -> (r: usize)
    requires
        tab < TAB_COUNT,
    ensures
        r < TAB_COUNT,
        r == if tab > 0 { (tab - 1) as usize } else { (TAB_COUNT - 1) as usize },
{
    if tab > 0 {
        tab - 1
    } else {
        TAB_COUNT - 1
    }
}

/// One input the session reacts to, as decoded from a key press.
#[derive(Copy, Clone, Debug, PartialEq, Eq, Structural)]
pub enum SessionInput {
    /// A quit key ends the session.
    Quit,
    /// Go to the next tab, wrapping to the first.
    NextTab,
    /// Go to the previous tab, wrapping to the last.
    PrevTab,
    /// Jump straight to a tab.
    SelectTab(usize),
    /// Any other key changes nothing.
    Other,
}

/// The tab that is active after `input` arrives on tab `tab`.
pub open spec fn spec_tab_after(tab: int, input: SessionInput) -> int {
    match input {
        SessionInput::Quit => tab,
        SessionInput::NextTab => if tab + 1 < TAB_COUNT { tab + 1 } else { 0 },
        SessionInput::PrevTab => if tab > 0 { tab - 1 } else { TAB_COUNT - 1 },
        SessionInput::SelectTab(t) => if t < TAB_COUNT { t as int } else { tab },
        SessionInput::Other => tab,
    }
}

/// Navigation wraps forward: from the last tab, "next" goes to the
/// first tab.
pub proof fn lemma_tab_wraps_forward()
    ensures
        spec_tab_after(TAB_COUNT - 1, SessionInput::NextTab) == 0,
{
}

/// Navigation wraps backward: from the first tab, "previous" goes to
/// the last tab.
pub proof fn lemma_tab_wraps_backward()
    ensures
        spec_tab_after(0, SessionInput::PrevTab) == TAB_COUNT - 1,
{
}

/// One logical core's refreshed readings.
#[derive(Debug, Clone, PartialEq, Eq)]
pub struct CpuMetricSample {
    /// Instantaneous usage in hundredths of a percent.
    pub usage_centi: u32,
    /// Clock frequency in MHz.
    pub frequency: u64,
}

/// One interface's refreshed counters.
#[derive(Debug, Clone, PartialEq, Eq)]
pub struct NetMetricSample {
    pub name: String,
    pub received: u64,
    pub transmitted: u64,
}

/// One refresh pass's readings: only the cheap, fast-changing fields.
#[derive(Debug, Clone, PartialEq, Eq)]
pub struct RefreshSample {
    pub cpus: Vec<CpuMetricSample>,
    pub used_memory: u64,
    pub free_memory: u64,
    pub used_swap: u64,
    pub uptime: u64,
    pub networks: Vec<NetMetricSample>,
}

/// A core's record with the refreshed usage and frequency patched in;
/// every identity field stays.
pub open spec fn cpu_refreshed(e: CpuInfo, s: CpuMetricSample) -> CpuInfo {
    CpuInfo { usage_centi: s.usage_centi, frequency: s.frequency, ..e }
}

/// The position of the first sample whose interface name is `name`, or
/// -1 when no sample carries it.
pub open spec fn net_match_idx(nets: Seq<NetMetricSample>, name: Seq<char>) -> int
    decreases nets.len(),
{
    if nets.len() == 0 {
        -1
    } else if nets[0].name@ == name {
        0
    } else if net_match_idx(nets.drop_first(), name) == -1 {
        -1
    } else {
        net_match_idx(nets.drop_first(), name) + 1
    }
}

/// An interface's record after a refresh: counters overwritten from the
/// first sample with the same name, or untouched when the refreshed
/// sample no longer carries the interface.
pub open spec fn net_refreshed(e: NetworkInfo, nets: Seq<NetMetricSample>) -> NetworkInfo {
    let j = net_match_idx(nets, e.name@);
    if j >= 0 {
        NetworkInfo { received: nets[j].received, transmitted: nets[j].transmitted, ..e }
    } else {
        e
    }
}

proof fn lemma_net_match_at(nets: Seq<NetMetricSample>, name: Seq<char>, j: int)
    requires
        0 <= j < nets.len(),
        nets[j].name@ == name,
        forall|k: int| 0 <= k < j ==> nets[k].name@ != name,
    ensures
        net_match_idx(nets, name) == j,
    decreases j,
{
    if j > 0 {
        let t = nets.drop_first();
        assert(forall|k: int| 0 <= k < j - 1 ==> t[k].name@ != name);
        lemma_net_match_at(t, name, j - 1);
    }
}

proof fn lemma_net_match_absent(nets: Seq<NetMetricSample>, name: Seq<char>)
    requires
        forall|k: int| 0 <= k < nets.len() ==> nets[k].name@ != name,
    ensures
        net_match_idx(nets, name) == -1,
    decreases nets.len(),
{
    if nets.len() > 0 {
        lemma_net_match_absent(nets.drop_first(), name);
    }
}

/// An interface present in the refreshed sample updates in place, by
/// name, from the first sample that carries its name.
pub proof fn lemma_present_interface_updated(e: NetworkInfo, nets: Seq<NetMetricSample>, j: int)
    requires
        0 <= j < nets.len(),
        nets[j].name@ == e.name@,
        forall|k: int| 0 <= k < j ==> nets[k].name@ != e.name@,
    ensures
        net_refreshed(e, nets) == (NetworkInfo {
            received: nets[j].received,
            transmitted: nets[j].transmitted,
            ..e
        }),
{
    lemma_net_match_at(nets, e.name@, j);
}

/// An interface absent from the refreshed sample retains its last known
/// values unchanged.
pub proof fn lemma_absent_interface_unchanged(e: NetworkInfo, nets: Seq<NetMetricSample>)
    requires
        forall|k: int| 0 <= k < nets.len() ==> nets[k].name@ != e.name@,
    ensures
        net_refreshed(e, nets) == e,
{
    lemma_net_match_absent(nets, e.name@);
}

/// Patch each core's usage and frequency by index; cores beyond the
/// sample list, and every identity field, stay as they were.
fn refresh_cpus(cpus: &mut Vec<CpuInfo>, samples: &Vec<CpuMetricSample>)
    ensures
        final(cpus)@.len() == old(cpus)@.len(),
        forall|i: int|
            0 <= i < old(cpus)@.len() ==> #[trigger] final(cpus)@[i] == (if i < samples@.len() {
                cpu_refreshed(old(cpus)@[i], samples@[i])
            } else {
                old(cpus)@[i]
            }),
{
    let mut i: usize = 0;
    while i < samples.len()
        invariant
            0 <= i <= samples@.len(),
            cpus@.len() == old(cpus)@.len(),
            forall|k: int|
                0 <= k < old(cpus)@.len() ==> #[trigger] cpus@[k] == (if k < i && k
                    < samples@.len() {
                    cpu_refreshed(old(cpus)@[k], samples@[k])
                } else {
                    old(cpus)@[k]
                }),
        decreases samples@.len() - i,
    {
        if i < cpus.len() {
            let usage = samples[i].usage_centi;
            let freq = samples[i].frequency;
            let e = &mut cpus[i];
            e.usage_centi = usage;
            e.frequency = freq;
        }
        i = i + 1;
    }
}

/// Patch each interface's counters from the first sample with the same
/// name; interfaces the refreshed sample no longer carries stay as they
/// were.
fn refresh_networks(nets: &mut Vec<NetworkInfo>, samples: &Vec<NetMetricSample>)
    ensures
        final(nets)@.len() == old(nets)@.len(),
        forall|i: int|
            0 <= i < old(nets)@.len() ==> #[trigger] final(nets)@[i] == net_refreshed(
                old(nets)@[i],
                samples@,
            ),
{
    let mut i: usize = 0;
    while i < nets.len()
        invariant
            0 <= i <= nets@.len(),
            nets@.len() == old(nets)@.len(),
            forall|k: int|
                i <= k < old(nets)@.len() ==> #[trigger] nets@[k] == old(nets)@[k],
            forall|k: int|
                0 <= k < i ==> #[trigger] nets@[k] == net_refreshed(old(nets)@[k], samples@),
        decreases nets@.len() - i,
    {
        let mut j: usize = 0;
        while j < samples.len() && !str_eq(samples[j].name.as_str(), nets[i].name.as_str())
            invariant
                0 <= i < nets@.len(),
                0 <= j <= samples@.len(),
                forall|k: int| 0 <= k < j ==> samples@[k].name@ != nets@[i as int].name@,
            decreases samples@.len() - j,
        {
            j = j + 1;
        }
        if j < samples.len() {
            proof {
                lemma_net_match_at(samples@, nets@[i as int].name@, j as int);
            }
            let rx = samples[j].received;
            let tx = samples[j].transmitted;
            let e = &mut nets[i];
            e.received = rx;
            e.transmitted = tx;
        } else {
            proof {
                lemma_net_match_absent(samples@, nets@[i as int].name@);
            }
        }
        i = i + 1;
    }
}

/// The live session's state: the working copy of the report and the
/// active tab.
pub struct App {
    pub report: HardwareReport,
    pub active_tab: usize,
}

impl App {
    /// Well-formedness: the active tab is one of the view tabs.
    pub open spec fn wf(&self) -> bool {
        self.active_tab < TAB_COUNT
    }

    /// Start a session on a report snapshot, on the first tab.
    pub fn new(report: HardwareReport) -> (a: App)
        ensures
            a.wf(),
            a.report == report,
            a.active_tab == 0,
    {
        App { report, active_tab: 0 }
    }

    /// React to one input: a quit input ends the session, navigation
    /// moves the active tab (wrapping both directions), anything else
    /// changes nothing. The working copy is never touched by input.
    pub fn handle_input(&mut self, input: SessionInput) -> (quit: bool)
        requires
            old(self).wf(),
        ensures
            final(self).wf(),
            final(self).report == old(self).report,
            quit == (input == SessionInput::Quit),
            final(self).active_tab == spec_tab_after(old(self).active_tab as int, input),
    {
        match input {
            SessionInput::Quit => true,
            SessionInput::NextTab => {
                self.active_tab = next_tab(self.active_tab);
                false
            },
            SessionInput::PrevTab => {
                self.active_tab = prev_tab(self.active_tab);
                false
            },
            SessionInput::SelectTab(t) => {
                if t < TAB_COUNT {
                    self.active_tab = t;
                }
                false
            },
            SessionInput::Other => false,
        }
    }

    /// Apply one refresh pass to the working copy: CPU usage and
    /// frequency by core index, the memory counters, the uptime, and
    /// the network counters by interface name. Everything captured once
    /// at session start — identity, storage topology, USB, PCI,
    /// motherboard, battery, memory-stick details — stays as it is.
    pub fn update_metrics(&mut self, sample: &RefreshSample)
        ensures
            final(self).active_tab == old(self).active_tab,
            final(self).report.os_name == old(self).report.os_name,
            final(self).report.os_version == old(self).report.os_version,
            final(self).report.kernel_version == old(self).report.kernel_version,
            final(self).report.hostname == old(self).report.hostname,
            final(self).report.uptime == sample.uptime,
            final(self).report.cpu@.len() == old(self).report.cpu@.len(),
            forall|i: int|
                0 <= i < old(self).report.cpu@.len() ==> #[trigger] final(self).report.cpu@[i] == (
                if i < sample.cpus@.len() {
                    cpu_refreshed(old(self).report.cpu@[i], sample.cpus@[i])
                } else {
                    old(self).report.cpu@[i]
                }),
            final(self).report.ram == (RamInfo {
                used: sample.used_memory,
                free: sample.free_memory,
                swap_used: sample.used_swap,
                ..old(self).report.ram
            }),
            final(self).report.network@.len() == old(self).report.network@.len(),
            forall|i: int|
                0 <= i < old(self).report.network@.len()
                    ==> #[trigger] final(self).report.network@[i] == net_refreshed(
                    old(self).report.network@[i],
                    sample.networks@,
                ),
            final(self).report.storage == old(self).report.storage,
            final(self).report.usb == old(self).report.usb,
            final(self).report.pci == old(self).report.pci,
            final(self).report.motherboard == old(self).report.motherboard,
            final(self).report.battery == old(self).report.battery,
    {
        refresh_cpus(&mut self.report.cpu, &sample.cpus);
        self.report.ram.used = sample.used_memory;
        self.report.ram.free = sample.free_memory;
        self.report.ram.swap_used = sample.used_swap;
        self.report.uptime = sample.uptime;
        refresh_networks(&mut self.report.network, &sample.networks);
    }
}

} // verus!
