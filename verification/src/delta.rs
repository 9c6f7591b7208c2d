//! Delta accounting over a subscription to grouped, cumulative
//! telemetry counters: keeps the previous absolute snapshot, derives
//! per-channel deltas, and folds activity channels into a utilization
//! percentage, with a model-name, power and frequency scan on the side.

use vstd::prelude::*;

use crate::text::{
    chars_of, contains_at, contains_seq, find_char, first_char_from, first_nl,
    lemma_first_char_from_eq, lemma_first_nl_eq, lemma_rskip_space_eq, lemma_skip_space_eq,
    lines_of, starts_with_at, starts_with_seq, str_eq, strip_cr, substring_string, trim_at,
    trim_seq,
};

verus! {

/// One channel record of a counter snapshot: identity is the
/// (group, subgroup, name) triple, the value is the cumulative counter
/// (or, after delta computation, the difference of two counters).
pub struct ChannelSample {
    pub group: String,
    pub subgroup: String,
    pub name: String,
    pub value: i64,
}

/// Metrics computed from one snapshot delta.
pub struct AppleGpuMetrics {
    pub gpu_name: String,
    pub utilization: u32,
    pub temperature: u32,
    pub power_mw: Option<u32>,
    pub freq_mhz: Option<u32>,
}

/// `a + b` held inside the `i64` range.
pub open spec fn sat_add(a: int, b: int) -> int {
    if a + b > i64::MAX {
        i64::MAX as int
    } else if a + b < i64::MIN {
        i64::MIN as int
    } else {
        a + b
    }
}

/// `a - b` held inside the `i64` range.
pub open spec fn sat_sub(a: int, b: int) -> int {
    if a - b > i64::MAX {
        i64::MAX as int
    } else if a - b < i64::MIN {
        i64::MIN as int
    } else {
        a - b
    }
}

/// Saturating add, so that absurd counter values degrade to a pinned
/// extreme instead of aborting the sampler.
pub fn sat_add_i64(a: i64, b: i64) -> (r: i64)
    ensures
        r as int == sat_add(a as int, b as int),
{
    let s: i128 = a as i128 + b as i128;
    if s > i64::MAX as i128 {
        i64::MAX
    } else if s < i64::MIN as i128 {
        i64::MIN
    } else {
        s as i64
    }
}

/// Saturating subtract; see `sat_add_i64`.
pub fn sat_sub_i64(a: i64, b: i64) -> (r: i64)
    ensures
        r as int == sat_sub(a as int, b as int),
{
    let s: i128 = a as i128 - b as i128;
    if s > i64::MAX as i128 {
        i64::MAX
    } else if s < i64::MIN as i128 {
        i64::MIN
    } else {
        s as i64
    }
}

/// An activity channel: the ones whose deltas make up the utilization
/// accounting.
pub open spec fn is_activity(c: ChannelSample) -> bool {
    c.group@ == "GPU"@ && c.subgroup@ == "GPU Activity"@
}

/// The busy/active naming heuristic. A channel matching it counts
/// toward both the busy and the total accumulator, which caps the
/// achievable ratio below 100 whenever several such channels exist; the
/// observed counter interface behaves this way and the accounting keeps
/// it.
pub open spec fn is_busy_name(n: Seq<char>) -> bool {
    contains_seq(n, "Busy"@) || contains_seq(n, "active"@)
}

/// Sum of all activity-channel deltas, saturating in `i64`.
pub open spec fn activity_sum(s: Seq<ChannelSample>) -> int
    decreases s.len(),
{
    if s.len() == 0 {
        0
    } else if is_activity(s.last()) {
        sat_add(activity_sum(s.drop_last()), s.last().value as int)
    } else {
        activity_sum(s.drop_last())
    }
}

/// Sum of the activity-channel deltas whose name matches the busy
/// heuristic, saturating in `i64`.
pub open spec fn busy_sum(s: Seq<ChannelSample>) -> int
    decreases s.len(),
{
    if s.len() == 0 {
        0
    } else if is_activity(s.last()) && is_busy_name(s.last().name@) {
        sat_add(busy_sum(s.drop_last()), s.last().value as int)
    } else {
        busy_sum(s.drop_last())
    }
}

/// Utilization from a busy and a total delta: the busy share of the
/// total as a percentage, clamped to `[0, 100]`; zero when the total
/// is not positive, so an idle or empty interval never divides by zero.
pub open spec fn util_from(busy: int, total: int) -> int {
    if total > 0 {
        crate::gpu::clamp100(busy * 100 / total)
    } else {
        0
    }
}

/// The utilization a delta interval yields is a percentage — between
/// 0 and 100 — whatever the raw counters were, negative and
/// over-range deltas included.
pub proof fn lemma_utilization_in_range(busy: int, total: int)
    ensures
        0 <= util_from(busy, total) <= 100,
{
}

/// Compute `util_from` on the accumulated deltas.
pub fn utilization_pct(busy: i64, total: i64) -> (r: u32)
    ensures
        r as int == util_from(busy as int, total as int),
        r <= 100,
{
    if total > 0 && busy > 0 {
        let q: u128 = busy as u128 * 100 / (total as u128);
        if q >= 100 {
            100
        } else {
            q as u32
        }
    } else {
        proof {
            if total > 0 {
                assert(busy <= 0);
                assert(busy * 100 <= 0) by (nonlinear_arith)
                    requires
                        busy <= 0,
                ;
                assert(busy * 100 / total as int <= 0) by (nonlinear_arith)
                    requires
                        busy * 100 <= 0,
                        total > 0,
                ;
            }
        }
        0
    }
}

/// A channel whose name can stand in for the device model.
pub open spec fn is_model_name(c: ChannelSample) -> bool {
    c.group@ == "GPU"@ && c.name@.len() > 0 && (starts_with_seq(c.name@, "Apple"@)
        || starts_with_seq(c.name@, "M"@))
}

/// The first channel name usable as a device model name, if any.
pub open spec fn model_name(s: Seq<ChannelSample>) -> Option<Seq<char>>
    decreases s.len(),
{
    if s.len() == 0 {
        None
    } else if model_name(s.drop_last()) is Some {
        model_name(s.drop_last())
    } else if is_model_name(s.last()) {
        Some(s.last().name@)
    } else {
        None
    }
}

/// A channel carrying a positive power reading for the device class.
pub open spec fn is_power(c: ChannelSample) -> bool {
    c.group@ == "Energy Model"@ && contains_seq(c.name@, "GPU"@) && c.value > 0
}

/// The first positive power value, in milliwatts, if any.
pub open spec fn first_power_mw(s: Seq<ChannelSample>) -> Option<u32>
    decreases s.len(),
{
    if s.len() == 0 {
        None
    } else if first_power_mw(s.drop_last()) is Some {
        first_power_mw(s.drop_last())
    } else if is_power(s.last()) {
        Some(s.last().value as u32)
    } else {
        None
    }
}

/// A channel carrying a positive core-clock reading.
pub open spec fn is_freq(c: ChannelSample) -> bool {
    c.group@ == "GPU"@ && contains_seq(c.name@, "Core Clock"@) && c.value > 0
}

/// The last positive core-clock value, in megahertz, if any.
pub open spec fn last_freq_mhz(s: Seq<ChannelSample>) -> Option<u32>
    decreases s.len(),
{
    if s.len() == 0 {
        None
    } else if is_freq(s.last()) {
        Some(s.last().value as u32)
    } else {
        last_freq_mhz(s.drop_last())
    }
}

/// Derive the tick's metrics from one list of channel deltas. The
/// temperature is not part of the delta; it stays zero here and the
/// caller merges in the separate temperature lookup.
pub fn parse_channels(channels: &Vec<ChannelSample>) -> (m: AppleGpuMetrics)
    ensures
        m.utilization as int == util_from(busy_sum(channels@), activity_sum(channels@)),
        m.utilization <= 100,
        m.temperature == 0,
        m.power_mw == first_power_mw(channels@),
        m.freq_mhz == last_freq_mhz(channels@),
        match model_name(channels@) {
            Some(n) => m.gpu_name@ == n,
            None => m.gpu_name@ == "Apple GPU"@,
        },
{
    let needle_busy = chars_of("Busy");
    let needle_active = chars_of("active");
    let needle_gpu = chars_of("GPU");
    let needle_clock = chars_of("Core Clock");
    let prefix_apple = chars_of("Apple");
    let prefix_m = chars_of("M");

    let mut busy: i64 = 0;
    let mut total: i64 = 0;
    let mut power: Option<u32> = None;
    let mut freq: Option<u32> = None;
    let mut name: Option<String> = None;

    let mut i: usize = 0;
    while i < channels.len()
        invariant
            i <= channels@.len(),
            needle_busy@ == "Busy"@,
            needle_active@ == "active"@,
            needle_gpu@ == "GPU"@,
            needle_clock@ == "Core Clock"@,
            prefix_apple@ == "Apple"@,
            prefix_m@ == "M"@,
            busy as int == busy_sum(channels@.subrange(0, i as int)),
            total as int == activity_sum(channels@.subrange(0, i as int)),
            power == first_power_mw(channels@.subrange(0, i as int)),
            freq == last_freq_mhz(channels@.subrange(0, i as int)),
            match model_name(channels@.subrange(0, i as int)) {
                Some(n) => name is Some && name->0@ == n,
                None => name is None,
            },
        decreases channels@.len() - i,
    {
        let ghost pre = channels@.subrange(0, i as int);
        let ghost pre1 = channels@.subrange(0, i + 1);
        proof {
            assert(pre1.drop_last() =~= pre);
            assert(pre1.last() == channels@[i as int]);
        }
        let c = &channels[i];
        let name_chars = chars_of(c.name.as_str());
        let group_is_gpu = str_eq(c.group.as_str(), "GPU");

        if group_is_gpu && str_eq(c.subgroup.as_str(), "GPU Activity") {
            if contains_at(&name_chars, 0, name_chars.len(), &needle_busy) || contains_at(
                &name_chars,
                0,
                name_chars.len(),
                &needle_active,
            ) {
                busy = sat_add_i64(busy, c.value);
            }
            total = sat_add_i64(total, c.value);
        }

        if group_is_gpu && contains_at(&name_chars, 0, name_chars.len(), &needle_clock)
            && c.value > 0 {
            freq = Some(#[verifier::truncate] (c.value as u32));
        }

        if power.is_none() && str_eq(c.group.as_str(), "Energy Model") && contains_at(
            &name_chars,
            0,
            name_chars.len(),
            &needle_gpu,
        ) && c.value > 0 {
            power = Some(#[verifier::truncate] (c.value as u32));
        }

        if name.is_none() && group_is_gpu && name_chars.len() > 0 && (starts_with_at(
            &name_chars,
            0,
            name_chars.len(),
            &prefix_apple,
        ) || starts_with_at(&name_chars, 0, name_chars.len(), &prefix_m)) {
            name = Some(c.name.clone());
        }

        proof {
            assert(name_chars@.subrange(0, name_chars@.len() as int) =~= c.name@);
        }
        i = i + 1;
    }
    proof {
        assert(channels@.subrange(0, channels@.len() as int) =~= channels@);
    }

    let gpu_name: String = match name {
        Some(n) => n,
        None => "Apple GPU".to_owned(),
    };
    let utilization = utilization_pct(busy, total);
    AppleGpuMetrics { gpu_name, utilization, temperature: 0, power_mw: power, freq_mhz: freq }
}

/// `c` is the channel identified by the (group, subgroup, name) triple.
pub open spec fn key_matches(c: ChannelSample, g: Seq<char>, sg: Seq<char>, n: Seq<char>) -> bool {
    c.group@ == g && c.subgroup@ == sg && c.name@ == n
}

/// The value of the first channel in `s` with the given identity.
pub open spec fn find_val(s: Seq<ChannelSample>, g: Seq<char>, sg: Seq<char>, n: Seq<char>) -> Option<
    int,
>
    decreases s.len(),
{
    if s.len() == 0 {
        None
    } else if find_val(s.drop_last(), g, sg, n) is Some {
        find_val(s.drop_last(), g, sg, n)
    } else if key_matches(s.last(), g, sg, n) {
        Some(s.last().value as int)
    } else {
        None
    }
}

/// The baseline counter for a channel identity: its value in the
/// previous snapshot, or zero for a channel seen for the first time.
pub open spec fn base_val(s: Seq<ChannelSample>, g: Seq<char>, sg: Seq<char>, n: Seq<char>) -> int {
    match find_val(s, g, sg, n) {
        Some(v) => v,
        None => 0,
    }
}

/// The channel-wise difference of two absolute snapshots: every channel
/// of `cur`, with its counter replaced by the saturating difference
/// against its baseline in `prev`.
pub open spec fn delta_of(prev: Seq<ChannelSample>, cur: Seq<ChannelSample>) -> Seq<ChannelSample> {
    Seq::new(
        cur.len(),
        |i: int|
            ChannelSample {
                group: cur[i].group,
                subgroup: cur[i].subgroup,
                name: cur[i].name,
                value: sat_sub(
                    cur[i].value as int,
                    base_val(prev, cur[i].group@, cur[i].subgroup@, cur[i].name@),
                ) as i64,
            },
    )
}

/// The baseline counter of the channel with this identity, if any.
fn find_baseline_val(prev: &Vec<ChannelSample>, g: &str, sg: &str, n: &str) -> (r: Option<i64>)
    ensures
        find_val(prev@, g@, sg@, n@) == match r {
            Some(v) => Some(v as int),
            None => None::<int>,
        },
{
    let mut r: Option<i64> = None;
    let mut i: usize = 0;
    while i < prev.len()
        invariant
            i <= prev@.len(),
            find_val(prev@.subrange(0, i as int), g@, sg@, n@) == match r {
                Some(v) => Some(v as int),
                None => None::<int>,
            },
        decreases prev@.len() - i,
    {
        let ghost pre = prev@.subrange(0, i as int);
        let ghost pre1 = prev@.subrange(0, i + 1);
        proof {
            assert(pre1.drop_last() =~= pre);
            assert(pre1.last() == prev@[i as int]);
        }
        let c = &prev[i];
        if r.is_none() && str_eq(c.group.as_str(), g) && str_eq(c.subgroup.as_str(), sg)
            && str_eq(c.name.as_str(), n) {
            r = Some(c.value);
        }
        i = i + 1;
    }
    proof {
        assert(prev@.subrange(0, prev@.len() as int) =~= prev@);
    }
    r
}

/// Channel-wise saturating difference of two absolute snapshots.
pub fn compute_delta(prev: &Vec<ChannelSample>, cur: &Vec<ChannelSample>) -> (d: Vec<ChannelSample>)
    ensures
        d@ == delta_of(prev@, cur@),
{
    let mut d: Vec<ChannelSample> = Vec::new();
    let mut i: usize = 0;
    while i < cur.len()
        invariant
            i <= cur@.len(),
            d@ =~= delta_of(prev@, cur@).subrange(0, i as int),
        decreases cur@.len() - i,
    {
        let c = &cur[i];
        let base: i64 = match find_baseline_val(prev, c.group.as_str(), c.subgroup.as_str(),
            c.name.as_str()) {
            Some(v) => v,
            None => 0,
        };
        let entry = ChannelSample {
            group: c.group.clone(),
            subgroup: c.subgroup.clone(),
            name: c.name.clone(),
            value: sat_sub_i64(c.value, base),
        };
        proof {
            assert(entry == delta_of(prev@, cur@)[i as int]);
        }
        d.push(entry);
        i = i + 1;
    }
    proof {
        assert(d@ =~= delta_of(prev@, cur@));
    }
    d
}

/// The stateful side of delta sampling: the previous absolute snapshot,
/// absent until the first sample comes in. The opaque subscription
/// handle itself lives with the caller that owns the foreign interface;
/// this state machine only ever sees plain channel records.
pub struct DeltaSession {
    baseline: Option<Vec<ChannelSample>>,
}

impl DeltaSession {
    /// The stored baseline snapshot, if one exists.
    pub closed spec fn baseline(&self) -> Option<Seq<ChannelSample>> {
        match self.baseline {
            Some(b) => Some(b@),
            None => None,
        }
    }

    /// A fresh session holds no baseline, so its first sample cannot
    /// produce a reading.
    pub fn new() -> (s: Self)
        ensures
            s.baseline() is None,
    {
        DeltaSession { baseline: None }
    }

    pub fn has_baseline(&self) -> (r: bool)
        ensures
            r == (self.baseline() is Some),
    {
        self.baseline.is_some()
    }

    /// Feed the next absolute snapshot. The first call only stores the
    /// baseline and reports nothing; every later call computes the
    /// delta against the stored baseline and derives the tick's
    /// metrics. The baseline is replaced by the new snapshot
    /// unconditionally, so a degenerate snapshot perturbs at most one
    /// tick.
    pub fn sample(&mut self, current: Vec<ChannelSample>) -> (r: Option<AppleGpuMetrics>)
        ensures
            final(self).baseline() == Some(current@),
            old(self).baseline() is None ==> r is None,
            (match old(self).baseline() {
                Some(prev) => {
                    let d = delta_of(prev, current@);
                    match r {
                        Some(m) => {
                            &&& m.utilization as int == util_from(busy_sum(d), activity_sum(d))
                            &&& m.utilization <= 100
                            &&& m.temperature == 0
                            &&& m.power_mw == first_power_mw(d)
                            &&& m.freq_mhz == last_freq_mhz(d)
                            &&& (match model_name(d) {
                                Some(n) => m.gpu_name@ == n,
                                None => m.gpu_name@ == "Apple GPU"@,
                            })
                        },
                        None => false,
                    }
                },
                None => true,
            }),
    {
        let prev = self.baseline.take();
        let r = match &prev {
            Some(p) => {
                let deltas = compute_delta(p, &current);
                Some(parse_channels(&deltas))
            },
            None => None,
        };
        self.baseline = Some(current);
        r
    }
}

/// What one stripped line of the system description tool's output
/// yields: on a line carrying the model-key marker, the text between
/// the third and fourth quote (or from the third quote to the trimmed
/// line's end), nothing otherwise.
pub open spec fn profiler_stripped_model(sc: Seq<char>) -> Option<Seq<char>> {
    let t = trim_seq(sc);
    if !contains_seq(t, "sppci_model"@) {
        None
    } else {
        let q1 = first_char_from(t, '"', 0);
        if q1 == t.len() {
            None
        } else {
            let q2 = first_char_from(t, '"', q1 + 1);
            if q2 == t.len() {
                None
            } else {
                let q3 = first_char_from(t, '"', q2 + 1);
                if q3 == t.len() {
                    None
                } else {
                    let q4 = first_char_from(t, '"', q3 + 1);
                    Some(t.subrange(q3 + 1, q4))
                }
            }
        }
    }
}

/// What one raw line yields, line-iterator carriage-return handling
/// included.
pub open spec fn profiler_line_model(l: Seq<char>) -> Option<Seq<char>> {
    profiler_stripped_model(strip_cr(l))
}

/// The first line that yields a model name wins.
pub open spec fn profiler_model_lines(ls: Seq<Seq<char>>) -> Option<Seq<char>>
    decreases ls.len(),
{
    if ls.len() == 0 {
        None
    } else {
        match profiler_line_model(ls.first()) {
            Some(m) => Some(m),
            None => profiler_model_lines(ls.drop_first()),
        }
    }
}

/// The device model named in the system description tool's output.
pub open spec fn profiler_model_of(text: Seq<char>) -> Option<Seq<char>> {
    profiler_model_lines(lines_of(text))
}

/// Resolve one stripped line of the tool's output; `h` holds the
/// characters of `text`, and `[lo, hi)` bounds the line with its line
/// break already removed.
fn parse_profiler_line(text: &str, h: &Vec<char>, lo: usize, hi: usize) -> (r: Option<String>)
    requires
        h@ == text@,
        lo <= hi <= h@.len(),
    ensures
        match profiler_stripped_model(h@.subrange(lo as int, hi as int)) {
            Some(m) => r is Some && r->0@ == m,
            None => r is None,
        },
{
    let ghost l = h@.subrange(lo as int, hi as int);
    let (a, b) = trim_at(h, lo, hi);
    let ghost t = trim_seq(l);
    proof {
        if a < b {
            assert forall|j: int| 0 <= j < a - lo implies crate::text::is_space(l[j]) by {
                assert(l[j] == h@[lo + j]);
            }
            assert forall|j: int| b - lo <= j < l.len() implies crate::text::is_space(l[j]) by {
                assert(l[j] == h@[lo + j]);
            }
            assert(!crate::text::is_space(l[a - lo]));
            assert(!crate::text::is_space(l[b - lo - 1]));
            lemma_skip_space_eq(l, 0, a - lo);
            lemma_rskip_space_eq(l, b - lo, l.len() as int);
            assert(t =~= h@.subrange(a as int, b as int));
        } else {
            assert forall|j: int| 0 <= j < l.len() implies crate::text::is_space(l[j]) by {
                assert(l[j] == h@[lo + j]);
            }
            lemma_skip_space_eq(l, 0, l.len() as int);
            lemma_rskip_space_eq(l, 0, l.len() as int);
            assert(t =~= Seq::<char>::empty());
            assert(h@.subrange(a as int, b as int) =~= Seq::<char>::empty());
        }
        assert(t == h@.subrange(a as int, b as int));
    }
    let marker = chars_of("sppci_model");
    if !contains_at(h, a, b, &marker) {
        return None;
    }
    let q1: usize = match find_char(h, a, b, '"') {
        Some(q) => q,
        None => {
            proof {
                lemma_first_char_from_eq(t, '"', 0, t.len() as int);
            }
            return None;
        },
    };
    proof {
        lemma_first_char_from_eq(t, '"', 0, q1 - a);
    }
    let q2: usize = match find_char(h, q1 + 1, b, '"') {
        Some(q) => q,
        None => {
            proof {
                lemma_first_char_from_eq(t, '"', q1 - a + 1, t.len() as int);
            }
            return None;
        },
    };
    proof {
        lemma_first_char_from_eq(t, '"', q1 - a + 1, q2 - a);
    }
    let q3: usize = match find_char(h, q2 + 1, b, '"') {
        Some(q) => q,
        None => {
            proof {
                lemma_first_char_from_eq(t, '"', q2 - a + 1, t.len() as int);
            }
            return None;
        },
    };
    proof {
        lemma_first_char_from_eq(t, '"', q2 - a + 1, q3 - a);
    }
    let q4: usize = match find_char(h, q3 + 1, b, '"') {
        Some(q) => {
            proof {
                lemma_first_char_from_eq(t, '"', q3 - a + 1, q - a);
            }
            q
        },
        None => {
            proof {
                lemma_first_char_from_eq(t, '"', q3 - a + 1, t.len() as int);
            }
            b
        },
    };
    let name = substring_string(text, q3 + 1, q4);
    proof {
        assert(text@.subrange(q3 + 1, q4 as int) =~= t.subrange(q3 - a + 1, q4 - a));
    }
    Some(name)
}

/// Pull the device model out of the system description tool's output:
/// the second quoted field of the first line naming the model key.
pub fn parse_profiler_model(text: &str) -> (r: Option<String>)
    ensures
        match profiler_model_of(text@) {
            Some(m) => r is Some && r->0@ == m,
            None => r is None,
        },
{
    let h = chars_of(text);
    let n = h.len();
    let mut p: usize = 0;
    proof {
        assert(h@.subrange(0, n as int) =~= h@);
    }
    while p < n
        invariant
            p <= n,
            n == h@.len(),
            h@ == text@,
            profiler_model_lines(lines_of(h@.subrange(p as int, n as int))) == profiler_model_of(
                text@,
            ),
        decreases n - p,
    {
        let ghost suffix = h@.subrange(p as int, n as int);
        let k: usize = match find_char(&h, p, n, '\n') {
            Some(k) => k,
            None => n,
        };
        proof {
            lemma_first_nl_eq(suffix, 0, k - p);
        }
        let e: usize = if k > p && h[k - 1] == '\r' {
            k - 1
        } else {
            k
        };
        let ghost line = suffix.subrange(0, k - p);
        let ghost rest_lines = if k < n {
            lines_of(suffix.subrange(k - p + 1, suffix.len() as int))
        } else {
            Seq::<Seq<char>>::empty()
        };
        proof {
            if k < n {
                assert(lines_of(suffix) == seq![line] + lines_of(
                    suffix.subrange(k - p + 1, suffix.len() as int),
                ));
                assert((seq![line] + rest_lines).drop_first() =~= rest_lines);
                assert((seq![line] + rest_lines).first() == line);
                assert(suffix.subrange(k - p + 1, suffix.len() as int) =~= h@.subrange(
                    k + 1,
                    n as int,
                ));
            } else {
                assert(first_nl(suffix, 0) == suffix.len());
                assert(line =~= suffix);
                assert(lines_of(suffix) == seq![suffix]);
                assert(seq![suffix].drop_first() =~= rest_lines);
                assert(h@.subrange(n as int, n as int) =~= Seq::<char>::empty());
            }
            assert(strip_cr(line) =~= h@.subrange(p as int, e as int));
        }
        let found = parse_profiler_line(text, &h, p, e);
        if found.is_some() {
            return found;
        }
        if k < n {
            p = k + 1;
        } else {
            p = n;
        }
    }
    proof {
        assert(h@.subrange(n as int, n as int) =~= Seq::<char>::empty());
    }
    None
}

/// The unit heuristic for a raw temperature value: readings above 1000
/// are taken as centi-degrees and scaled down; smaller readings are
/// taken as whole degrees.
pub open spec fn temp_adjust(v: int) -> int {
    if v > 1000 {
        v / 100
    } else {
        v
    }
}

/// A raw value is plausible when its adjusted reading lands strictly
/// between 0 and 150 degrees.
pub open spec fn temp_plausible(v: int) -> bool {
    0 < temp_adjust(v) < 150
}

/// The first plausible adjusted temperature among the candidates.
pub open spec fn first_temp(s: Seq<i64>) -> Option<int>
    decreases s.len(),
{
    if s.len() == 0 {
        None
    } else if first_temp(s.drop_last()) is Some {
        first_temp(s.drop_last())
    } else if temp_plausible(s.last() as int) {
        Some(temp_adjust(s.last() as int))
    } else {
        None
    }
}

/// Pick the device temperature from raw registry candidates, walked in
/// order: the first value plausible under the unit heuristic wins, and
/// zero stands for "unknown" when none is.
pub fn pick_temperature(candidates: &Vec<i64>) -> (t: u32)
    ensures
        t as int == match first_temp(candidates@) {
            Some(v) => v,
            None => 0,
        },
        t < 150,
{
    let mut r: Option<u32> = None;
    let mut i: usize = 0;
    while i < candidates.len()
        invariant
            i <= candidates@.len(),
            match first_temp(candidates@.subrange(0, i as int)) {
                Some(v) => r is Some && r->0 as int == v && r->0 < 150,
                None => r is None,
            },
        decreases candidates@.len() - i,
    {
        let ghost pre = candidates@.subrange(0, i as int);
        let ghost pre1 = candidates@.subrange(0, i + 1);
        proof {
            assert(pre1.drop_last() =~= pre);
            assert(pre1.last() == candidates@[i as int]);
        }
        if r.is_none() {
            let c: i64 = candidates[i];
            let d: i64 = if c > 1000 {
                ((c as u64) / 100) as i64
            } else {
                c
            };
            if 0 < d && d < 150 {
                r = Some(d as u32);
            }
        }
        i = i + 1;
    }
    proof {
        assert(candidates@.subrange(0, candidates@.len() as int) =~= candidates@);
    }
    match r {
        Some(v) => v,
        None => 0,
    }
}

} // verus!
