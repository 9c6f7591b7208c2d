//! The kernel-filesystem scrape backend: cross-references a text
//! device listing (slot to product name), per-device counter files and
//! a sensor subdirectory, tolerating each source's absence
//! independently, and deduplicates devices by resolved display name.

use vstd::prelude::*;

use crate::gpu::{
    all_wf, clamp100, clamp_pct, distinct_names, has_name, lemma_has_name_views, name_present,
    view_has_name, views, GpuInfo, GpuInfoView,
};
use crate::text::{
    chars_of, contains_at, contains_seq, find_at, find_char, find_sub, first_nl,
    lemma_find_at_none, lemma_find_at_some, lemma_first_nl_eq, lemma_skip_space_eq,
    lemma_token_end_eq, lines_of, match_at, parse_u32_trimmed, parse_u64_trimmed, parsed_u32,
    parsed_u64, skip_space, starts_with_at, starts_with_seq, str_eq, strip_all, strip_all_at,
    strip_cr, substring_string, token_end, trim_seq,
};
use vstd::string::StringExecFns;

verus! {

/// One line of the device listing, resolved to a PCI slot and the
/// product name behind it.
pub struct PciEntry {
    pub slot: String,
    pub product: String,
}

/// A listing line that describes a display device.
pub open spec fn pci_relevant(l: Seq<char>) -> bool {
    contains_seq(l, "VGA"@) || contains_seq(l, "3D"@) || contains_seq(l, "Display"@)
}

/// What one listing line resolves to: the leading whitespace-delimited
/// token as the slot, and the text after the second ": " separator as
/// the product name (after the first, when there is no second). Lines
/// without a display marker, without a token or without a separator
/// resolve to nothing.
pub open spec fn parsed_pci_line(l: Seq<char>) -> Option<(Seq<char>, Seq<char>)> {
    if !pci_relevant(l) {
        None
    } else {
        let a = skip_space(l, 0);
        if a == l.len() {
            None
        } else {
            let b = token_end(l, a);
            match find_at(l, ": "@, 0) {
                Some(p1) => {
                    let name = l.subrange(p1 + 2, l.len() as int);
                    let prod = match find_at(l, ": "@, p1 + 2) {
                        Some(p2) => l.subrange(p2 + 2, l.len() as int),
                        None => name,
                    };
                    Some((l.subrange(a, b), prod))
                },
                None => None,
            }
        }
    }
}

/// Resolve one listing line; `h` holds the characters of `text`.
fn parse_pci_line(text: &str, h: &Vec<char>, lo: usize, hi: usize) -> (r: Option<PciEntry>)
    requires
        h@ == text@,
        lo <= hi <= h@.len(),
    ensures
        match parsed_pci_line(h@.subrange(lo as int, hi as int)) {
            Some(sp) => r is Some && r->0.slot@ == sp.0 && r->0.product@ == sp.1,
            None => r is None,
        },
{
    let ghost l = h@.subrange(lo as int, hi as int);
    proof {
        reveal_strlit(": ");
    }
    let n_vga = chars_of("VGA");
    let n_3d = chars_of("3D");
    let n_disp = chars_of("Display");
    let n_sep = chars_of(": ");

    if !(contains_at(h, lo, hi, &n_vga) || contains_at(h, lo, hi, &n_3d) || contains_at(
        h,
        lo,
        hi,
        &n_disp,
    )) {
        return None;
    }

    let mut a: usize = lo;
    while a < hi && (h[a] == ' ' || h[a] == '\t' || h[a] == '\n' || h[a] == '\r')
        invariant
            lo <= a <= hi <= h@.len(),
            forall|j: int| lo <= j < a ==> crate::text::is_space(h@[j]),
        decreases hi - a,
    {
        a = a + 1;
    }
    proof {
        lemma_skip_space_eq(l, 0, a - lo);
    }
    if a == hi {
        return None;
    }
    let mut b: usize = a;
    while b < hi && !(h[b] == ' ' || h[b] == '\t' || h[b] == '\n' || h[b] == '\r')
        invariant
            a <= b <= hi <= h@.len(),
            forall|j: int| a <= j < b ==> !crate::text::is_space(h@[j]),
        decreases hi - b,
    {
        b = b + 1;
    }
    proof {
        lemma_token_end_eq(l, a - lo, b - lo);
    }

    let p1: usize = match find_sub(h, lo, hi, &n_sep) {
        Some(p) => p,
        None => {
            proof {
                assert forall|j: int| 0 <= j implies !match_at(l, ": "@, j) by {
                    if 0 <= j && j + 2 <= l.len() {
                        assert(!match_at(h@, n_sep@, lo + j));
                        assert(l.subrange(j, j + 2) =~= h@.subrange(lo + j, lo + j + 2));
                    }
                }
                lemma_find_at_none(l, ": "@, 0);
            }
            return None;
        },
    };
    proof {
        assert(l.subrange(p1 - lo, p1 - lo + 2) =~= h@.subrange(p1 as int, p1 + 2));
        assert(match_at(l, ": "@, p1 - lo));
        assert forall|j: int| 0 <= j < p1 - lo implies !match_at(l, ": "@, j) by {
            if j + 2 <= l.len() {
                assert(!match_at(h@, n_sep@, lo + j));
                assert(l.subrange(j, j + 2) =~= h@.subrange(lo + j, lo + j + 2));
            }
        }
        lemma_find_at_some(l, ": "@, 0, p1 - lo);
    }

    let name_lo: usize = p1 + 2;
    let prod_lo: usize = match find_sub(h, name_lo, hi, &n_sep) {
        Some(p2) => {
            proof {
                assert(l.subrange(p2 - lo, p2 - lo + 2) =~= h@.subrange(p2 as int, p2 + 2));
                assert(match_at(l, ": "@, p2 - lo));
                assert forall|j: int| name_lo - lo <= j < p2 - lo implies !match_at(l, ": "@, j) by {
                    if j + 2 <= l.len() {
                        assert(!match_at(h@, n_sep@, lo + j));
                        assert(l.subrange(j, j + 2) =~= h@.subrange(lo + j, lo + j + 2));
                    }
                }
                lemma_find_at_some(l, ": "@, name_lo - lo, p2 - lo);
            }
            p2 + 2
        },
        None => {
            proof {
                assert forall|j: int| name_lo - lo <= j implies !match_at(l, ": "@, j) by {
                    if j + 2 <= l.len() {
                        assert(!match_at(h@, n_sep@, lo + j));
                        assert(l.subrange(j, j + 2) =~= h@.subrange(lo + j, lo + j + 2));
                    }
                }
                lemma_find_at_none(l, ": "@, name_lo - lo);
            }
            name_lo
        },
    };

    let slot = substring_string(text, a, b);
    let product = substring_string(text, prod_lo, hi);
    proof {
        assert(text@.subrange(a as int, b as int) =~= l.subrange(a - lo, b - lo));
        assert(text@.subrange(prod_lo as int, hi as int) =~= l.subrange(
            prod_lo - lo,
            l.len() as int,
        ));
    }
    Some(PciEntry { slot, product })
}

/// The listing lines resolved in order, line breaks handled as the
/// line iterator handles them.
pub open spec fn pci_of_lines(ls: Seq<Seq<char>>) -> Seq<(Seq<char>, Seq<char>)>
    decreases ls.len(),
{
    if ls.len() == 0 {
        Seq::empty()
    } else {
        let rest = pci_of_lines(ls.drop_first());
        match parsed_pci_line(strip_cr(ls.first())) {
            Some(e) => seq![e] + rest,
            None => rest,
        }
    }
}

/// The slot-to-product map a device listing resolves to.
pub open spec fn pci_entries_of(text: Seq<char>) -> Seq<(Seq<char>, Seq<char>)> {
    pci_of_lines(lines_of(text))
}

/// The entries' character-level content.
pub open spec fn entry_views(es: Seq<PciEntry>) -> Seq<(Seq<char>, Seq<char>)> {
    es.map_values(|e: PciEntry| (e.slot@, e.product@))
}

/// Build the slot-to-product map from the listing tool's output:
/// every line holding a display marker contributes its leading slot
/// token and the text after its second ": " separator.
pub fn parse_pci_listing(text: &str) -> (r: Vec<PciEntry>)
    ensures
        entry_views(r@) == pci_entries_of(text@),
{
    let h = chars_of(text);
    let n = h.len();
    let mut out: Vec<PciEntry> = Vec::new();
    let mut p: usize = 0;
    proof {
        assert(entry_views(out@) =~= Seq::<(Seq<char>, Seq<char>)>::empty());
        assert(h@.subrange(0, n as int) =~= h@);
    }
    while p < n
        invariant
            p <= n,
            n == h@.len(),
            h@ == text@,
            entry_views(out@) + pci_of_lines(lines_of(h@.subrange(p as int, n as int)))
                =~= pci_entries_of(text@),
        decreases n - p,
    {
        let ghost suffix = h@.subrange(p as int, n as int);
        let k: usize = match find_char(&h, p, n, '\n') {
            Some(k) => k,
            None => n,
        };
        proof {
            lemma_first_nl_eq(suffix, 0, k - p);
        }
        let e: usize = if k > p && h[k - 1] == '\r' {
            k - 1
        } else {
            k
        };
        let ghost line = suffix.subrange(0, k - p);
        proof {
            if k < n {
                assert(lines_of(suffix) == seq![line] + lines_of(
                    suffix.subrange(k - p + 1, suffix.len() as int),
                ));
            } else {
                assert(first_nl(suffix, 0) == suffix.len());
                assert(line =~= suffix);
                assert(lines_of(suffix) == seq![suffix]);
            }
            assert(strip_cr(line) =~= h@.subrange(p as int, e as int));
        }
        let parsed = parse_pci_line(text, &h, p, e);
        let ghost old_out = out@;
        let ghost pv: Option<(Seq<char>, Seq<char>)> = match parsed {
            Some(ref entry) => Some((entry.slot@, entry.product@)),
            None => None,
        };
        match parsed {
            Some(entry) => {
                out.push(entry);
            },
            None => {},
        }
        proof {
            let rest_lines = if k < n {
                lines_of(suffix.subrange(k - p + 1, suffix.len() as int))
            } else {
                Seq::<Seq<char>>::empty()
            };
            if k < n {
                assert((seq![line] + rest_lines).drop_first() =~= rest_lines);
                assert((seq![line] + rest_lines).first() == line);
            } else {
                assert(seq![suffix].drop_first() =~= rest_lines);
            }
            assert(pci_of_lines(lines_of(suffix)) == (match parsed_pci_line(strip_cr(line)) {
                Some(ev) => seq![ev] + pci_of_lines(rest_lines),
                None => pci_of_lines(rest_lines),
            }));
            match pv {
                Some(ev) => {
                    assert(entry_views(out@) =~= entry_views(old_out) + seq![ev]);
                    assert(parsed_pci_line(strip_cr(line)) == Some(ev));
                },
                None => {},
            }
            if k < n {
                assert(suffix.subrange(k - p + 1, suffix.len() as int) =~= h@.subrange(
                    k + 1,
                    n as int,
                ));
            } else {
                assert(h@.subrange(n as int, n as int) =~= Seq::<char>::empty());
                assert(pci_of_lines(lines_of(h@.subrange(n as int, n as int)))
                    =~= Seq::<(Seq<char>, Seq<char>)>::empty());
            }
        }
        if k < n {
            p = k + 1;
        } else {
            p = n;
        }
    }
    proof {
        assert(h@.subrange(n as int, n as int) =~= Seq::<char>::empty());
        assert(entry_views(out@) =~= pci_entries_of(text@));
    }
    out
}

/// What the slot line of a uevent file resolves to: the first line
/// starting with the slot key, with the key and any bus-domain prefix
/// stripped.
pub open spec fn slot_of_lines(ls: Seq<Seq<char>>) -> Option<Seq<char>>
    decreases ls.len(),
{
    if ls.len() == 0 {
        None
    } else {
        let l0 = strip_cr(ls.first());
        if starts_with_seq(l0, "PCI_SLOT_NAME="@) {
            Some(strip_all(strip_all(l0, "PCI_SLOT_NAME="@), "0000:"@))
        } else {
            slot_of_lines(ls.drop_first())
        }
    }
}

/// The PCI slot a uevent file names, if any.
pub open spec fn uevent_slot(content: Seq<char>) -> Option<Seq<char>> {
    slot_of_lines(lines_of(content))
}

/// Read the PCI slot out of a uevent file: the first line starting
/// with the slot key, with the key and any leading bus-domain prefix
/// stripped from the value.
pub fn parse_uevent_slot(content: &str) -> (r: Option<String>)
    ensures
        match uevent_slot(content@) {
            Some(s) => r is Some && r->0@ == s,
            None => r is None,
        },
{
    proof {
        reveal_strlit("PCI_SLOT_NAME=");
        reveal_strlit("0000:");
    }
    let key = chars_of("PCI_SLOT_NAME=");
    let domain = chars_of("0000:");
    let h = chars_of(content);
    let n = h.len();
    let mut p: usize = 0;
    proof {
        assert(h@.subrange(0, n as int) =~= h@);
    }
    while p < n
        invariant
            p <= n,
            n == h@.len(),
            h@ == content@,
            key@ == "PCI_SLOT_NAME="@,
            key@.len() >= 1,
            domain@ == "0000:"@,
            domain@.len() >= 1,
            slot_of_lines(lines_of(h@.subrange(p as int, n as int))) == uevent_slot(content@),
        decreases n - p,
    {
        let ghost suffix = h@.subrange(p as int, n as int);
        let k: usize = match find_char(&h, p, n, '\n') {
            Some(k) => k,
            None => n,
        };
        proof {
            lemma_first_nl_eq(suffix, 0, k - p);
        }
        let e: usize = if k > p && h[k - 1] == '\r' {
            k - 1
        } else {
            k
        };
        let ghost line = suffix.subrange(0, k - p);
        let ghost rest_lines = if k < n {
            lines_of(suffix.subrange(k - p + 1, suffix.len() as int))
        } else {
            Seq::<Seq<char>>::empty()
        };
        proof {
            if k < n {
                assert(lines_of(suffix) == seq![line] + lines_of(
                    suffix.subrange(k - p + 1, suffix.len() as int),
                ));
                assert((seq![line] + rest_lines).drop_first() =~= rest_lines);
                assert((seq![line] + rest_lines).first() == line);
                assert(suffix.subrange(k - p + 1, suffix.len() as int) =~= h@.subrange(
                    k + 1,
                    n as int,
                ));
            } else {
                assert(first_nl(suffix, 0) == suffix.len());
                assert(line =~= suffix);
                assert(lines_of(suffix) == seq![suffix]);
                assert(seq![suffix].drop_first() =~= rest_lines);
                assert(h@.subrange(n as int, n as int) =~= Seq::<char>::empty());
            }
            assert(strip_cr(line) =~= h@.subrange(p as int, e as int));
        }
        if starts_with_at(&h, p, e, &key) {
            let a1 = strip_all_at(&h, p, e, &key);
            let a2 = strip_all_at(&h, a1, e, &domain);
            proof {
                assert(slot_of_lines(lines_of(suffix)) == Some(
                    strip_all(strip_all(strip_cr(line), "PCI_SLOT_NAME="@), "0000:"@),
                ));
                assert(h@.subrange(a2 as int, e as int) == strip_all(
                    strip_all(strip_cr(line), "PCI_SLOT_NAME="@),
                    "0000:"@,
                ));
                assert(content@.subrange(a2 as int, e as int) == h@.subrange(
                    a2 as int,
                    e as int,
                ));
            }
            return Some(substring_string(content, a2, e));
        }
        if k < n {
            p = k + 1;
        } else {
            p = n;
        }
    }
    proof {
        assert(h@.subrange(n as int, n as int) =~= Seq::<char>::empty());
    }
    None
}

/// Raw contents of one sensor subdirectory entry: its temperature and
/// power files, where they exist.
pub struct HwmonRaw {
    pub temp_input: Option<String>,
    pub power_average: Option<String>,
}

/// What one directory entry of the kernel device tree offers: the
/// entry's name, whether it has a device subdirectory, and the raw
/// contents of the counter files, each independently absent where the
/// kernel exposes nothing.
pub struct SysfsDeviceRaw {
    pub dir_name: String,
    pub device_present: bool,
    pub uevent: Option<String>,
    pub busy_percent: Option<String>,
    pub vram_used: Option<String>,
    pub vram_total: Option<String>,
    pub hwmon: Vec<HwmonRaw>,
}

/// The temperature one sensor entry yields: its temperature file
/// parsed as a number and scaled from milli-degrees to degrees.
pub open spec fn entry_temp(h: HwmonRaw) -> Option<int> {
    match h.temp_input {
        Some(s) => match parsed_u32(trim_seq(s@)) {
            Some(v) => Some(v as int / 1000),
            None => None,
        },
        None => None,
    }
}

/// The first sensor entry with a readable temperature wins.
pub open spec fn first_hwmon_temp(hs: Seq<HwmonRaw>) -> Option<int>
    decreases hs.len(),
{
    if hs.len() == 0 {
        None
    } else if first_hwmon_temp(hs.drop_last()) is Some {
        first_hwmon_temp(hs.drop_last())
    } else {
        entry_temp(hs.last())
    }
}

/// The power one sensor entry yields: its power file parsed as a
/// number and scaled from microwatts to milliwatts.
pub open spec fn entry_power(h: HwmonRaw) -> Option<u32> {
    match h.power_average {
        Some(s) => match parsed_u64(trim_seq(s@)) {
            Some(v) => Some((v / 1000) as u32),
            None => None,
        },
        None => None,
    }
}

/// The first sensor entry with a readable power draw wins.
pub open spec fn first_hwmon_power(hs: Seq<HwmonRaw>) -> Option<u32>
    decreases hs.len(),
{
    if hs.len() == 0 {
        None
    } else if first_hwmon_power(hs.drop_last()) is Some {
        first_hwmon_power(hs.drop_last())
    } else {
        entry_power(hs.last())
    }
}

/// Scan the sensor entries for the first readable temperature.
fn hwmon_temperature(hs: &Vec<HwmonRaw>) -> (r: Option<u32>)
    ensures
        match first_hwmon_temp(hs@) {
            Some(v) => r is Some && r->0 as int == v,
            None => r is None,
        },
{
    let mut r: Option<u32> = None;
    let mut i: usize = 0;
    while i < hs.len()
        invariant
            i <= hs@.len(),
            match first_hwmon_temp(hs@.subrange(0, i as int)) {
                Some(v) => r is Some && r->0 as int == v,
                None => r is None,
            },
        decreases hs@.len() - i,
    {
        let ghost pre = hs@.subrange(0, i as int);
        let ghost pre1 = hs@.subrange(0, i + 1);
        proof {
            assert(pre1.drop_last() =~= pre);
            assert(pre1.last() == hs@[i as int]);
        }
        if r.is_none() {
            match &hs[i].temp_input {
                Some(s) => {
                    match parse_u32_trimmed(s.as_str()) {
                        Some(v) => {
                            r = Some(v / 1000);
                        },
                        None => {},
                    }
                },
                None => {},
            }
        }
        i = i + 1;
    }
    proof {
        assert(hs@.subrange(0, hs@.len() as int) =~= hs@);
    }
    r
}


/// Scan the sensor entries for the first readable power draw.
fn hwmon_power(hs: &Vec<HwmonRaw>) -> (r: Option<u32>)
    ensures
        r == first_hwmon_power(hs@),
{
    let mut r: Option<u32> = None;
    let mut i: usize = 0;
    while i < hs.len()
        invariant
            i <= hs@.len(),
            r == first_hwmon_power(hs@.subrange(0, i as int)),
        decreases hs@.len() - i,
    {
        let ghost pre = hs@.subrange(0, i as int);
        let ghost pre1 = hs@.subrange(0, i + 1);
        proof {
            assert(pre1.drop_last() =~= pre);
            assert(pre1.last() == hs@[i as int]);
        }
        if r.is_none() {
            match &hs[i].power_average {
                Some(s) => {
                    match parse_u64_trimmed(s.as_str()) {
                        Some(v) => {
                            r = Some(#[verifier::truncate] ((v / 1000) as u32));
                        },
                        None => {},
                    }
                },
                None => {},
            }
        }
        i = i + 1;
    }
    proof {
        assert(hs@.subrange(0, hs@.len() as int) =~= hs@);
    }
    r
}

/// The product name the listing maps a slot to: the first entry whose
/// slot matches.
pub open spec fn lookup_product(es: Seq<(Seq<char>, Seq<char>)>, slot: Seq<char>) -> Option<
    Seq<char>,
>
    decreases es.len(),
{
    if es.len() == 0 {
        None
    } else if lookup_product(es.drop_last(), slot) is Some {
        lookup_product(es.drop_last(), slot)
    } else if es.last().0 == slot {
        Some(es.last().1)
    } else {
        None
    }
}

/// Look a slot up in the resolved listing entries.
fn lookup_product_exec(es: &Vec<PciEntry>, slot: &str) -> (r: Option<String>)
    ensures
        match lookup_product(entry_views(es@), slot@) {
            Some(p) => r is Some && r->0@ == p,
            None => r is None,
        },
{
    let mut r: Option<String> = None;
    let mut i: usize = 0;
    while i < es.len()
        invariant
            i <= es@.len(),
            match lookup_product(entry_views(es@.subrange(0, i as int)), slot@) {
                Some(p) => r is Some && r->0@ == p,
                None => r is None,
            },
        decreases es@.len() - i,
    {
        let ghost pre = entry_views(es@.subrange(0, i as int));
        let ghost pre1 = entry_views(es@.subrange(0, i + 1));
        proof {
            assert(pre1.drop_last() =~= pre);
            assert(pre1.last() == (es@[i as int].slot@, es@[i as int].product@));
        }
        if r.is_none() && str_eq(es[i].slot.as_str(), slot) {
            r = Some(es[i].product.clone());
        }
        i = i + 1;
    }
    proof {
        assert(entry_views(es@.subrange(0, es@.len() as int)) =~= entry_views(es@));
    }
    r
}

/// A directory entry that names a primary device node: the fixed
/// prefix with no connector-suffix marker.
pub open spec fn is_primary_name(dir: Seq<char>) -> bool {
    starts_with_seq(dir, "card"@) && (forall|j: int| 0 <= j < dir.len() ==> dir[j] != '-')
}

/// The synthesized display name for a device the listing cannot name.
pub open spec fn fallback_name(dir: Seq<char>) -> Seq<char> {
    "GPU ("@ + dir + ")"@
}

/// The display name a raw device entry resolves to: the product name
/// its uevent slot maps to in the listing, or the synthesized fallback
/// when the slot or the mapping is missing.
pub open spec fn device_name_of(es: Seq<(Seq<char>, Seq<char>)>, d: SysfsDeviceRaw) -> Seq<char> {
    match d.uevent {
        Some(u) => match uevent_slot(u@) {
            Some(slot) => match lookup_product(es, slot) {
                Some(p) => p,
                None => fallback_name(d.dir_name@),
            },
            None => fallback_name(d.dir_name@),
        },
        None => fallback_name(d.dir_name@),
    }
}

/// The utilization a raw entry's counter file yields, clamped to a
/// percentage; an unreadable or missing file yields zero.
pub open spec fn busy_pct_of(d: SysfsDeviceRaw) -> int {
    match d.busy_percent {
        Some(s) => match parsed_u32(trim_seq(s@)) {
            Some(v) => clamp100(v as int),
            None => 0,
        },
        None => 0,
    }
}

/// The used device memory a raw entry yields, in bytes; zero where
/// missing.
pub open spec fn vram_used_of(d: SysfsDeviceRaw) -> int {
    match d.vram_used {
        Some(s) => match parsed_u64(trim_seq(s@)) {
            Some(v) => v as int,
            None => 0,
        },
        None => 0,
    }
}

/// The total device memory a raw entry yields, in bytes; zero where
/// missing.
pub open spec fn vram_total_of(d: SysfsDeviceRaw) -> int {
    match d.vram_total {
        Some(s) => match parsed_u64(trim_seq(s@)) {
            Some(v) => v as int,
            None => 0,
        },
        None => 0,
    }
}

/// The temperature a raw entry's sensors yield; zero for unknown.
pub open spec fn temp_of(d: SysfsDeviceRaw) -> int {
    match first_hwmon_temp(d.hwmon@) {
        Some(t) => t,
        None => 0,
    }
}

/// The whole reading one raw device entry resolves to. Every field
/// falls back independently, so a missing memory counter leaves the
/// utilization and temperature untouched.
pub open spec fn device_reading(es: Seq<(Seq<char>, Seq<char>)>, d: SysfsDeviceRaw) -> GpuInfoView {
    GpuInfoView {
        name: device_name_of(es, d),
        temperature: temp_of(d),
        utilization: busy_pct_of(d),
        memory_used: vram_used_of(d),
        memory_total: vram_total_of(d),
        fan_speed: None,
        power_usage: first_hwmon_power(d.hwmon@),
        power_limit: None,
    }
}

/// The scan's outcome: primary device entries resolved in order, each
/// appended only when no earlier entry resolved to the same display
/// name.
pub open spec fn scan_rec(
    es: Seq<(Seq<char>, Seq<char>)>,
    devs: Seq<SysfsDeviceRaw>,
    acc: Seq<GpuInfoView>,
) -> Seq<GpuInfoView>
    decreases devs.len(),
{
    if devs.len() == 0 {
        acc
    } else {
        let d = devs.first();
        let acc1 = if d.device_present && is_primary_name(d.dir_name@) && !view_has_name(
            acc,
            device_name_of(es, d),
        ) {
            acc.push(device_reading(es, d))
        } else {
            acc
        };
        scan_rec(es, devs.drop_first(), acc1)
    }
}

/// What a whole scrape resolves to, given the listing tool's output
/// (or its absence, which leaves the slot map empty).
pub open spec fn scan_result(listing: Option<Seq<char>>, devs: Seq<SysfsDeviceRaw>) -> Seq<
    GpuInfoView,
> {
    scan_rec(
        match listing {
            Some(t) => pci_entries_of(t),
            None => Seq::empty(),
        },
        devs,
        Seq::empty(),
    )
}

/// Resolve one raw device entry into a reading, against the resolved
/// listing entries.
fn build_device(es: &Vec<PciEntry>, d: &SysfsDeviceRaw) -> (g: GpuInfo)
    ensures
        g@ == device_reading(entry_views(es@), *d),
        g.wf(),
{
    let name: String = {
        let looked: Option<String> = match &d.uevent {
            Some(u) => match parse_uevent_slot(u.as_str()) {
                Some(slot) => lookup_product_exec(es, slot.as_str()),
                None => None,
            },
            None => None,
        };
        match looked {
            Some(p) => p,
            None => {
                let mut nm: String = "GPU (".to_owned();
                nm.append(d.dir_name.as_str());
                nm.append(")");
                nm
            },
        }
    };
    let utilization: u32 = match &d.busy_percent {
        Some(s) => match parse_u32_trimmed(s.as_str()) {
            Some(v) => clamp_pct(v),
            None => 0,
        },
        None => 0,
    };
    let memory_used: u64 = match &d.vram_used {
        Some(s) => match parse_u64_trimmed(s.as_str()) {
            Some(v) => v,
            None => 0,
        },
        None => 0,
    };
    let memory_total: u64 = match &d.vram_total {
        Some(s) => match parse_u64_trimmed(s.as_str()) {
            Some(v) => v,
            None => 0,
        },
        None => 0,
    };
    let temperature: u32 = match hwmon_temperature(&d.hwmon) {
        Some(t) => t,
        None => 0,
    };
    let power_usage: Option<u32> = hwmon_power(&d.hwmon);
    GpuInfo {
        name,
        temperature,
        utilization,
        memory_used,
        memory_total,
        fan_speed: None,
        power_usage,
        power_limit: None,
    }
}

/// One scrape pass: build the slot-to-product map from the listing
/// tool's output (absent tool, empty map), keep the primary device
/// entries, resolve each to a reading with per-field fallbacks, and
/// deduplicate by resolved display name.
pub fn scan_devices(listing: Option<&str>, devices: &Vec<SysfsDeviceRaw>) -> (r: Vec<GpuInfo>)
    ensures
        views(r@) == scan_result(
            match listing {
                Some(t) => Some(t@),
                None => None,
            },
            devices@,
        ),
        all_wf(r@),
        distinct_names(r@),
{
    let entries: Vec<PciEntry> = match listing {
        Some(t) => parse_pci_listing(t),
        None => Vec::new(),
    };
    let ghost esv = entry_views(entries@);
    proof {
        if listing is None {
            assert(esv =~= Seq::<(Seq<char>, Seq<char>)>::empty());
        }
    }
    let card = chars_of("card");
    let mut out: Vec<GpuInfo> = Vec::new();
    let mut i: usize = 0;
    proof {
        assert(views(out@) =~= Seq::<GpuInfoView>::empty());
        assert(devices@.subrange(0, devices@.len() as int) =~= devices@);
    }
    while i < devices.len()
        invariant
            i <= devices@.len(),
            esv == entry_views(entries@),
            card@ == "card"@,
            all_wf(out@),
            distinct_names(out@),
            scan_rec(esv, devices@.subrange(i as int, devices@.len() as int), views(out@))
                == scan_rec(esv, devices@, Seq::empty()),
        decreases devices@.len() - i,
    {
        let ghost rest = devices@.subrange(i as int, devices@.len() as int);
        proof {
            assert(rest.first() == devices@[i as int]);
            assert(rest.drop_first() =~= devices@.subrange(i + 1, devices@.len() as int));
        }
        let d = &devices[i];
        let mut keep: bool = false;
        if d.device_present {
            let dir = chars_of(d.dir_name.as_str());
            let dn = dir.len();
            if starts_with_at(&dir, 0, dn, &card) && find_char(&dir, 0, dn, '-').is_none() {
                keep = true;
                proof {
                    assert(dir@.subrange(0, dn as int) =~= dir@);
                    assert(is_primary_name(d.dir_name@));
                }
            } else {
                proof {
                    assert(dir@.subrange(0, dn as int) =~= dir@);
                    assert(!is_primary_name(d.dir_name@));
                }
            }
        }
        if keep {
            let g = build_device(&entries, d);
            let ghost old_out = out@;
            let present = name_present(&out, g.name.as_str());
            proof {
                lemma_has_name_views(old_out, g.name@);
                assert(g@.name == device_name_of(esv, *d));
            }
            if !present {
                out.push(g);
                proof {
                    assert(views(out@) =~= views(old_out).push(
                        device_reading(esv, devices@[i as int]),
                    ));
                    assert forall|a: int, b: int|
                        0 <= a < b < out@.len() implies out@[a].name@ != out@[b].name@ by {
                        if b == out@.len() - 1 {
                            assert(!has_name(old_out, out@[b].name@));
                            assert(old_out[a].name@ != out@[b].name@);
                        }
                    }
                }
            }
        }
        i = i + 1;
    }
    proof {
        assert(devices@.subrange(devices@.len() as int, devices@.len() as int)
            =~= Seq::<SysfsDeviceRaw>::empty());
    }
    out
}

} // verus!
