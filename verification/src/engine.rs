//! The telemetry engine: orders the acquisition backends, lets exactly
//! one of them supply each tick's device list, and maintains the
//! per-device utilization history windows.
//!
//! A tick is driven as a small phase machine. The caller first offers
//! the counter backend's poll; if it reported at least one device the
//! tick is complete and no other backend is consulted. Otherwise the
//! engine asks for a delta-backend snapshot, then — when that yields
//! nothing — for a filesystem scrape. Offers made in the wrong phase
//! leave the engine untouched, so a tick settled by one backend cannot
//! be disturbed by another.

use vstd::prelude::*;

use crate::counter::CounterBackend;
use crate::delta::{
    activity_sum, busy_sum, delta_of, first_power_mw, model_name, pick_temperature, util_from,
    first_temp, AppleGpuMetrics, ChannelSample, DeltaSession,
};
use crate::gpu::{all_wf, has_name, name_present, GpuInfo};
use crate::history::{HistoryBuffer, HISTORY_LEN};
use crate::sysfs::{scan_devices, scan_result, SysfsDeviceRaw};

verus! {

/// Where a tick stands: settled, or waiting for the next backend in
/// priority order to be offered.
#[derive(Clone, Copy, Debug, PartialEq, Eq, Structural)]
pub enum TickPhase {
    Idle,
    AwaitDelta,
    AwaitName,
    AwaitSysfs,
}

/// A fresh, pre-zeroed utilization window.
pub open spec fn zeros_window() -> Seq<u32> {
    Seq::new(HISTORY_LEN as nat, |i: int| 0u32)
}

/// How one tick's commit rolls the history windows forward: every
/// window covering a committed reading takes that reading's
/// utilization as its newest sample (a newly discovered slot gets a
/// pre-zeroed window first), and windows beyond the committed list
/// keep their content.
pub open spec fn history_rolled(
    oldh: Seq<HistoryBuffer<u32>>,
    newh: Seq<HistoryBuffer<u32>>,
    readings: Seq<GpuInfo>,
) -> bool {
    &&& newh.len() == if readings.len() > oldh.len() {
        readings.len() as int
    } else {
        oldh.len() as int
    }
    &&& forall|i: int|
        0 <= i < readings.len() && i < oldh.len() ==> #[trigger] newh[i]@ == oldh[i]@.drop_first()
            .push(readings[i].utilization)
    &&& forall|i: int|
        oldh.len() <= i < readings.len() ==> #[trigger] newh[i]@ == zeros_window().drop_first()
            .push(readings[i].utilization)
    &&& forall|i: int| readings.len() <= i < oldh.len() ==> #[trigger] newh[i] == oldh[i]
}

/// The engine: the counter backend's one-time initialization handle,
/// the delta session's baseline state, the current device list, and
/// one fixed-capacity utilization window per device slot.
pub struct GpuEngine {
    pub counter: CounterBackend,
    pub session: DeltaSession,
    pub phase: TickPhase,
    pub pending: Option<AppleGpuMetrics>,
    pub gpus: Vec<GpuInfo>,
    pub util_history: Vec<HistoryBuffer<u32>>,
}

impl GpuEngine {
    /// Every reading is clamped, and every history window holds
    /// exactly its fixed capacity of samples — one window per device
    /// slot, kept across ticks.
    pub open spec fn wf(&self) -> bool {
        &&& all_wf(self.gpus@)
        &&& (match self.pending {
            Some(m) => m.utilization <= 100,
            None => true,
        })
        &&& self.util_history@.len() >= self.gpus@.len()
        &&& forall|i: int|
            0 <= i < self.util_history@.len() ==> {
                &&& (#[trigger] self.util_history@[i]).wf()
                &&& self.util_history@[i].capacity() == HISTORY_LEN
            }
    }

    pub open spec fn phase(&self) -> TickPhase {
        self.phase
    }

    /// The delta session's stored baseline, if any.
    pub open spec fn baseline(&self) -> Option<Seq<ChannelSample>> {
        self.session.baseline()
    }

    /// The reading parked while the engine waits for a resolved
    /// device name.
    pub open spec fn pending(&self) -> Option<AppleGpuMetrics> {
        self.pending
    }

    pub open spec fn counter_available(&self) -> bool {
        self.counter.available()
    }

    /// An engine whose counter backend probes the host once, now.
    pub fn new() -> (r: Self)
        ensures
            r.wf(),
            r.phase() is Idle,
            r.baseline() is None,
            r.pending() is None,
            r.gpus@.len() == 0,
            r.util_history@.len() == 0,
    {
        GpuEngine {
            counter: CounterBackend::new(),
            session: DeltaSession::new(),
            phase: TickPhase::Idle,
            pending: None,
            gpus: Vec::new(),
            util_history: Vec::new(),
        }
    }

    /// An engine for a host known to lack the counter API; its counter
    /// polls always come back empty.
    pub fn without_counter() -> (r: Self)
        ensures
            r.wf(),
            r.phase() is Idle,
            r.baseline() is None,
            r.pending() is None,
            r.gpus@.len() == 0,
            r.util_history@.len() == 0,
            !r.counter_available(),
    {
        GpuEngine {
            counter: CounterBackend::unavailable(),
            session: DeltaSession::new(),
            phase: TickPhase::Idle,
            pending: None,
            gpus: Vec::new(),
            util_history: Vec::new(),
        }
    }

    /// Poll the counter backend; empty when it never initialized.
    pub fn sample_counter(&self) -> (r: Vec<GpuInfo>)
        ensures
            all_wf(r@),
            !self.counter_available() ==> r@.len() == 0,
    {
        self.counter.sample()
    }

    /// Install `readings` as the tick's device list and roll every
    /// covered window forward by one sample, creating pre-zeroed
    /// windows for newly discovered device slots. Windows beyond the
    /// new list keep their content.
    fn commit(&mut self, readings: Vec<GpuInfo>)
        requires
            old(self).wf(),
            all_wf(readings@),
        ensures
            final(self).wf(),
            final(self).gpus@ == readings@,
            final(self).phase() == old(self).phase(),
            final(self).baseline() == old(self).baseline(),
            final(self).pending() == old(self).pending(),
            final(self).counter_available() == old(self).counter_available(),
            history_rolled(old(self).util_history@, final(self).util_history@, readings@),
    {
        let n = readings.len();
        let mut i: usize = 0;
        while i < n
            invariant
                i <= n,
                n == readings@.len(),
                all_wf(readings@),
                self.counter == old(self).counter,
                self.session == old(self).session,
                self.phase == old(self).phase,
                self.pending == old(self).pending,
                self.gpus == old(self).gpus,
                old(self).wf(),
                self.util_history@.len() == if i > old(self).util_history@.len() {
                    i as int
                } else {
                    old(self).util_history@.len() as int
                },
                forall|k: int|
                    0 <= k < self.util_history@.len() ==> {
                        &&& (#[trigger] self.util_history@[k]).wf()
                        &&& self.util_history@[k].capacity() == HISTORY_LEN
                    },
                forall|k: int|
                    0 <= k < i && k < old(self).util_history@.len()
                        ==> #[trigger] self.util_history@[k]@ == old(self).util_history@[k]@.drop_first().push(readings@[k].utilization),
                forall|k: int|
                    old(self).util_history@.len() <= k < i
                        ==> #[trigger] self.util_history@[k]@ == zeros_window().drop_first()
                        .push(readings@[k].utilization),
                forall|k: int|
                    i <= k < old(self).util_history@.len()
                        ==> #[trigger] self.util_history@[k] == old(self).util_history@[k],
            decreases n - i,
        {
            if i >= self.util_history.len() {
                let fresh = HistoryBuffer::new_filled(HISTORY_LEN, 0u32);
                proof {
                    assert(fresh@ =~= zeros_window());
                }
                self.util_history.push(fresh);
            }
            let v = readings[i].utilization;
            self.util_history[i].push(v);
            i = i + 1;
        }
        self.gpus = readings;
    }

    /// Offer the counter backend's poll for a new tick. A non-empty
    /// poll settles the tick — the device list is installed and no
    /// further backend will be consulted — and a tick already under
    /// way is abandoned either way. An empty poll opens the fallback
    /// sequence.
    pub fn begin_tick(&mut self, counter: Vec<GpuInfo>) -> (used: bool)
        requires
            old(self).wf(),
            all_wf(counter@),
        ensures
            final(self).wf(),
            final(self).baseline() == old(self).baseline(),
            final(self).counter_available() == old(self).counter_available(),
            final(self).pending() is None,
            used == (counter@.len() > 0),
            counter@.len() > 0 ==> final(self).phase() is Idle && final(self).gpus@
                == counter@ && history_rolled(
                old(self).util_history@,
                final(self).util_history@,
                counter@,
            ),
            counter@.len() == 0 ==> final(self).phase() is AwaitDelta && final(self).gpus@
                == old(self).gpus@ && final(self).util_history@ == old(self).util_history@,
    {
        self.pending = None;
        if counter.len() > 0 {
            self.commit(counter);
            self.phase = TickPhase::Idle;
            true
        } else {
            self.phase = TickPhase::AwaitDelta;
            false
        }
    }

    /// Whether the engine is waiting for a delta-backend snapshot.
    pub fn needs_delta(&self) -> (r: bool)
        ensures
            r == (self.phase() is AwaitDelta),
    {
        self.phase == TickPhase::AwaitDelta
    }

    /// Whether the engine is waiting for a resolved device name.
    pub fn needs_name(&self) -> (r: bool)
        ensures
            r == (self.phase() is AwaitName),
    {
        self.phase == TickPhase::AwaitName
    }

    /// Whether the engine is waiting for a filesystem scrape.
    pub fn needs_sysfs(&self) -> (r: bool)
        ensures
            r == (self.phase() is AwaitSysfs),
    {
        self.phase == TickPhase::AwaitSysfs
    }

    /// Offer the delta backend's absolute counter snapshot, with the
    /// raw temperature candidates from the registry walk. Outside the
    /// delta phase this is a no-op, so a tick the counter backend
    /// settled stays untouched. An absent snapshot, or a first
    /// snapshot that only primes the baseline, passes the tick on to
    /// the scrape backend. A computed reading settles the tick —
    /// unless its device name needs resolving, which parks it until
    /// `provide_gpu_name`.
    pub fn offer_delta(
        &mut self,
        snapshot: Option<Vec<ChannelSample>>,
        temp_candidates: &Vec<i64>,
    )
        requires
            old(self).wf(),
        ensures
            final(self).wf(),
            final(self).counter_available() == old(self).counter_available(),
            !(old(self).phase() is AwaitDelta) ==> *final(self) == *old(self),
            old(self).phase() is AwaitDelta ==> match snapshot {
                None => final(self).phase() is AwaitSysfs && final(self).baseline() == old(self).baseline() && final(self).gpus@ == old(self).gpus@ && final(self).util_history@ == old(self).util_history@,
                Some(snap) => final(self).baseline() == Some(snap@) && match old(self).baseline() {
                    None => final(self).phase() is AwaitSysfs && final(self).gpus@ == old(self).gpus@ && final(self).util_history@ == old(self).util_history@,
                    Some(prev) => {
                        let d = delta_of(prev, snap@);
                        let util = util_from(busy_sum(d), activity_sum(d));
                        let temp = match first_temp(temp_candidates@) {
                            Some(t) => t,
                            None => 0,
                        };
                        let nm = match model_name(d) {
                            Some(n) => n,
                            None => "Apple GPU"@,
                        };
                        if nm == "Apple GPU"@ {

                            &&& final(self).phase() is AwaitName
                            &&& final(self).gpus@ == old(self).gpus@
                            &&& final(self).util_history@ == old(self).util_history@
                            &&& match final(self).pending() {
                                Some(m) => m.utilization as int == util && m.temperature
                                    as int == temp && m.power_mw == first_power_mw(d),
                                None => false,
                            }
                        } else {
                            &&& final(self).phase() is Idle
                            &&& final(self).gpus@.len() == 1
                            &&& final(self).gpus@[0].name@ == nm
                            &&& final(self).gpus@[0].utilization as int == util
                            &&& final(self).gpus@[0].temperature as int == temp
                            &&& final(self).gpus@[0].memory_used == 0
                            &&& final(self).gpus@[0].memory_total == 0
                            &&& final(self).gpus@[0].fan_speed is None
                            &&& final(self).gpus@[0].power_usage == first_power_mw(d)
                            &&& final(self).gpus@[0].power_limit is None
                            &&& history_rolled(
                                old(self).util_history@,
                                final(self).util_history@,
                                final(self).gpus@,
                            )
                        }
                    },
                },
            },
    {
        if !matches!(self.phase, TickPhase::AwaitDelta) {
            return;
        }
        let snap = match snapshot {
            Some(s) => s,
            None => {
                self.phase = TickPhase::AwaitSysfs;
                return;
            },
        };
        let metrics = self.session.sample(snap);
        match metrics {
            None => {
                self.phase = TickPhase::AwaitSysfs;
            },
            Some(mut m) => {
                m.temperature = pick_temperature(temp_candidates);
                if crate::text::str_eq(m.gpu_name.as_str(), "Apple GPU") {
                    proof {
                        assert(m.gpu_name@ == "Apple GPU"@);
                    }
                    self.pending = Some(m);
                    self.phase = TickPhase::AwaitName;
                } else {
                    let reading = GpuInfo {
                        name: m.gpu_name,
                        temperature: m.temperature,
                        utilization: m.utilization,
                        memory_used: 0,
                        memory_total: 0,
                        fan_speed: None,
                        power_usage: m.power_mw,
                        power_limit: None,
                    };
                    let mut readings: Vec<GpuInfo> = Vec::new();
                    readings.push(reading);
                    self.commit(readings);
                    self.phase = TickPhase::Idle;
                }
            },
        }
    }

    /// Resolve the parked delta reading with an externally supplied
    /// device name and settle the tick. Outside the name phase this is
    /// a no-op.
    pub fn provide_gpu_name(&mut self, name: String)
        requires
            old(self).wf(),
        ensures
            final(self).wf(),
            final(self).baseline() == old(self).baseline(),
            final(self).counter_available() == old(self).counter_available(),
            !(old(self).phase() is AwaitName) ==> *final(self) == *old(self),
            old(self).phase() is AwaitName ==> match old(self).pending() {
                Some(m) => {
                    &&& final(self).phase() is Idle
                    &&& final(self).pending() is None
                    &&& final(self).gpus@.len() == 1
                    &&& final(self).gpus@[0].name@ == name@
                    &&& final(self).gpus@[0].utilization == m.utilization
                    &&& final(self).gpus@[0].temperature == m.temperature
                    &&& final(self).gpus@[0].memory_used == 0
                    &&& final(self).gpus@[0].memory_total == 0
                    &&& final(self).gpus@[0].fan_speed is None
                    &&& final(self).gpus@[0].power_usage == m.power_mw
                    &&& final(self).gpus@[0].power_limit is None
                    &&& history_rolled(
                        old(self).util_history@,
                        final(self).util_history@,
                        final(self).gpus@,
                    )
                },
                None => final(self).phase() is Idle && final(self).pending() is None && final(self).gpus@.len() == 0,
            },
    {
        if !matches!(self.phase, TickPhase::AwaitName) {
            return;
        }
        let pending = self.pending.take();
        match pending {
            Some(m) => {
                let mut readings: Vec<GpuInfo> = Vec::new();
                readings.push(GpuInfo {
                    name,
                    temperature: m.temperature,
                    utilization: m.utilization,
                    memory_used: 0,
                    memory_total: 0,
                    fan_speed: None,
                    power_usage: m.power_mw,
                    power_limit: None,
                });
                self.commit(readings);
                self.phase = TickPhase::Idle;
            },
            None => {
                let readings: Vec<GpuInfo> = Vec::new();
                self.commit(readings);
                self.phase = TickPhase::Idle;
            },
        }
    }

    /// Offer the filesystem scrape for the tick: the listing tool's
    /// output (absent where the tool is missing) and the raw device
    /// entries (absent where the kernel exposes no device tree).
    /// Outside the scrape phase this is a no-op. The resolved,
    /// deduplicated readings — possibly none, the valid "no device"
    /// steady state — settle the tick.
    pub fn offer_sysfs(&mut self, listing: Option<&str>, devices: Option<&Vec<SysfsDeviceRaw>>)
        requires
            old(self).wf(),
        ensures
            final(self).wf(),
            final(self).baseline() == old(self).baseline(),
            final(self).counter_available() == old(self).counter_available(),
            !(old(self).phase() is AwaitSysfs) ==> *final(self) == *old(self),
            old(self).phase() is AwaitSysfs ==> final(self).phase() is Idle && match devices {
                None => final(self).gpus@.len() == 0 && final(self).util_history@ == old(self).util_history@,
                Some(devs) => crate::gpu::views(final(self).gpus@) == scan_result(
                    match listing {
                        Some(t) => Some(t@),
                        None => None,
                    },
                    devs@,
                ) && crate::gpu::distinct_names(final(self).gpus@) && history_rolled(
                    old(self).util_history@,
                    final(self).util_history@,
                    final(self).gpus@,
                ),
            },
    {
        if !matches!(self.phase, TickPhase::AwaitSysfs) {
            return;
        }
        match devices {
            None => {
                let readings: Vec<GpuInfo> = Vec::new();
                self.commit(readings);
            },
            Some(devs) => {
                let readings = scan_devices(listing, devs);
                self.commit(readings);
            },
        }
        self.phase = TickPhase::Idle;
    }

    /// Register a device known only by name — the platform fallback
    /// when no backend could produce a reading. A name already present
    /// is left alone, so repeated registration of the same device
    /// yields exactly one entry; a new name gains a name-only reading
    /// and a pre-zeroed history window.
    pub fn add_fallback_device(&mut self, name: String)
        requires
            old(self).wf(),
        ensures
            final(self).wf(),
            final(self).phase() == old(self).phase(),
            final(self).baseline() == old(self).baseline(),
            final(self).pending() == old(self).pending(),
            final(self).counter_available() == old(self).counter_available(),
            has_name(old(self).gpus@, name@) ==> final(self).gpus@ == old(self).gpus@ && final(self).util_history@ == old(self).util_history@,
            !has_name(old(self).gpus@, name@) ==> {
                &&& final(self).gpus@.len() == old(self).gpus@.len() + 1
                &&& final(self).gpus@.subrange(0, old(self).gpus@.len() as int) == old(self).gpus@
                &&& final(self).gpus@.last().name@ == name@
                &&& final(self).gpus@.last().utilization == 0
                &&& final(self).gpus@.last().temperature == 0
                &&& final(self).gpus@.last().memory_used == 0
                &&& final(self).gpus@.last().memory_total == 0
                &&& final(self).gpus@.last().fan_speed is None
                &&& final(self).gpus@.last().power_usage is None
                &&& final(self).gpus@.last().power_limit is None
            },
    {
        if name_present(&self.gpus, name.as_str()) {
            return;
        }
        self.gpus.push(GpuInfo {
            name,
            temperature: 0,
            utilization: 0,
            memory_used: 0,
            memory_total: 0,
            fan_speed: None,
            power_usage: None,
            power_limit: None,
        });
        if self.util_history.len() < self.gpus.len() {
            self.util_history.push(HistoryBuffer::new_filled(HISTORY_LEN, 0u32));
        }
        proof {
            assert(self.gpus@.subrange(0, old(self).gpus@.len() as int) =~= old(self).gpus@);
        }
    }

    /// Whether any device is currently tracked.
    pub fn has_gpu(&self) -> (r: bool)
        ensures
            r == (self.gpus@.len() > 0),
    {
        self.gpus.len() > 0
    }
}

} // verus!
