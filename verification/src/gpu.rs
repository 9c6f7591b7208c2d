//! The per-device telemetry reading and helpers shared by every
//! acquisition backend.

use vstd::prelude::*;

use crate::text::str_eq;

verus! {

/// One device's telemetry for one tick. A zero temperature means
/// "unknown"; a zero memory pair means unified or unavailable memory;
/// the optional fields are absent where the source exposes nothing.
pub struct GpuInfo {
    pub name: String,
    pub temperature: u32,
    pub utilization: u32,
    pub memory_used: u64,
    pub memory_total: u64,
    pub fan_speed: Option<u32>,
    pub power_usage: Option<u32>,
    pub power_limit: Option<u32>,
}

/// The mathematical content of a reading: the name as characters, the
/// numeric fields as integers.
pub struct GpuInfoView {
    pub name: Seq<char>,
    pub temperature: int,
    pub utilization: int,
    pub memory_used: int,
    pub memory_total: int,
    pub fan_speed: Option<u32>,
    pub power_usage: Option<u32>,
    pub power_limit: Option<u32>,
}

impl View for GpuInfo {
    type V = GpuInfoView;

    open spec fn view(&self) -> GpuInfoView {
        GpuInfoView {
            name: self.name@,
            temperature: self.temperature as int,
            utilization: self.utilization as int,
            memory_used: self.memory_used as int,
            memory_total: self.memory_total as int,
            fan_speed: self.fan_speed,
            power_usage: self.power_usage,
            power_limit: self.power_limit,
        }
    }
}

/// The readings' mathematical content, in order.
pub open spec fn views(s: Seq<GpuInfo>) -> Seq<GpuInfoView> {
    s.map_values(|g: GpuInfo| g@)
}

/// Some reading among the views carries this name.
pub open spec fn view_has_name(s: Seq<GpuInfoView>, n: Seq<char>) -> bool {
    exists|i: int| 0 <= i < s.len() && #[trigger] s[i].name == n
}

/// `has_name` over the readings and over their views agree.
pub proof fn lemma_has_name_views(s: Seq<GpuInfo>, n: Seq<char>)
    ensures
        has_name(s, n) == view_has_name(views(s), n),
{
    if has_name(s, n) {
        let i = choose|i: int| 0 <= i < s.len() && #[trigger] s[i].name@ == n;
        assert(views(s)[i].name == n);
    }
    if view_has_name(views(s), n) {
        let i = choose|i: int| 0 <= i < views(s).len() && #[trigger] views(s)[i].name == n;
        assert(s[i].name@ == n);
    }
}

impl GpuInfo {
    /// Every reading carries a utilization already clamped to a
    /// percentage.
    pub open spec fn wf(&self) -> bool {
        self.utilization <= 100
    }
}

/// All readings in the list are well formed.
pub open spec fn all_wf(s: Seq<GpuInfo>) -> bool {
    forall|i: int| 0 <= i < s.len() ==> #[trigger] s[i].wf()
}

/// No two readings share a resolved display name.
pub open spec fn distinct_names(s: Seq<GpuInfo>) -> bool {
    forall|i: int, j: int| 0 <= i < j < s.len() ==> s[i].name@ != s[j].name@
}

/// Some reading in the list already carries this name.
pub open spec fn has_name(s: Seq<GpuInfo>, n: Seq<char>) -> bool {
    exists|i: int| 0 <= i < s.len() && #[trigger] s[i].name@ == n
}

/// Whether a reading named `name` is already in `gpus`.
pub fn name_present(gpus: &Vec<GpuInfo>, name: &str) -> (r: bool)
    ensures
        r == has_name(gpus@, name@),
{
    let mut i: usize = 0;
    let mut found: bool = false;
    while i < gpus.len()
        invariant
            i <= gpus@.len(),
            found == exists|k: int| 0 <= k < i && #[trigger] gpus@[k].name@ == name@,
        decreases gpus@.len() - i,
    {
        if str_eq(gpus[i].name.as_str(), name) {
            found = true;
        }
        i = i + 1;
    }
    found
}

/// Clamp a raw percentage into `[0, 100]`.
pub open spec fn clamp100(v: int) -> int {
    if v < 0 {
        0
    } else if v > 100 {
        100
    } else {
        v
    }
}

/// Clamp a raw percentage reading into `[0, 100]`.
pub fn clamp_pct(v: u32) -> (r: u32)
    ensures
        r == clamp100(v as int),
        r <= 100,
{
    if v > 100 {
        100
    } else {
        v
    }
}

} // verus!
