//! Human-readable formatting of durations and byte counts, built from
//! a verified decimal renderer instead of the formatting machinery.

use vstd::prelude::*;
use vstd::string::StringExecFns;

verus! {

pub const KB: u64 = 1024;

pub const MB: u64 = 1024 * 1024;

pub const GB: u64 = 1024 * 1024 * 1024;

pub const TB: u64 = 1024 * 1024 * 1024 * 1024;

/// The decimal digit character for a value below ten.
pub open spec fn digit_char(d: nat) -> char {
    if d == 0 {
        '0'
    } else if d == 1 {
        '1'
    } else if d == 2 {
        '2'
    } else if d == 3 {
        '3'
    } else if d == 4 {
        '4'
    } else if d == 5 {
        '5'
    } else if d == 6 {
        '6'
    } else if d == 7 {
        '7'
    } else if d == 8 {
        '8'
    } else {
        '9'
    }
}

/// The decimal rendering of a number, most significant digit first.
pub open spec fn dec_str(n: nat) -> Seq<char>
    decreases n,
{
    if n < 10 {
        seq![digit_char(n)]
    } else {
        dec_str(n / 10).push(digit_char(n % 10))
    }
}

fn digit_str(d: u64) -> (r: &'static str)
    requires
        d < 10,
    ensures
        r@ =~= seq![digit_char(d as nat)],
{
    let r: &'static str = match d {
        0 => "0",
        1 => "1",
        2 => "2",
        3 => "3",
        4 => "4",
        5 => "5",
        6 => "6",
        7 => "7",
        8 => "8",
        _ => "9",
    };
    proof {
        reveal_strlit("0");
        reveal_strlit("1");
        reveal_strlit("2");
        reveal_strlit("3");
        reveal_strlit("4");
        reveal_strlit("5");
        reveal_strlit("6");
        reveal_strlit("7");
        reveal_strlit("8");
        reveal_strlit("9");
    }
    r
}

/// Render a number in decimal.
pub fn u64_to_string(n: u64) -> (r: String)
    ensures
        r@ == dec_str(n as nat),
    decreases n,
{
    if n < 10 {
        digit_str(n).to_owned()
    } else {
        let mut s = u64_to_string(n / 10);
        s.append(digit_str(n % 10));
        proof {
            assert(s@ =~= dec_str((n / 10) as nat).push(digit_char((n % 10) as nat)));
        }
        s
    }
}

/// What a duration renders to: days, hours and minutes, the leading
/// zero fields left off.
pub open spec fn duration_str(secs: nat) -> Seq<char> {
    let days = secs / 86400;
    let hours = (secs % 86400) / 3600;
    let mins = (secs % 3600) / 60;
    if days > 0 {
        dec_str(days) + "d "@ + dec_str(hours) + "h "@ + dec_str(mins) + "m"@
    } else if hours > 0 {
        dec_str(hours) + "h "@ + dec_str(mins) + "m"@
    } else {
        dec_str(mins) + "m"@
    }
}

/// Render a duration in seconds as days, hours and minutes.
pub fn format_duration(secs: u64) -> (r: String)
    ensures
        r@ == duration_str(secs as nat),
{
    let days = secs / 86400;
    let hours = (secs % 86400) / 3600;
    let mins = (secs % 3600) / 60;
    if days > 0 {
        let mut s = u64_to_string(days);
        s.append("d ");
        s.append(u64_to_string(hours).as_str());
        s.append("h ");
        s.append(u64_to_string(mins).as_str());
        s.append("m");
        s
    } else if hours > 0 {
        let mut s = u64_to_string(hours);
        s.append("h ");
        s.append(u64_to_string(mins).as_str());
        s.append("m");
        s
    } else {
        let mut s = u64_to_string(mins);
        s.append("m");
        s
    }
}

/// A byte count scaled against a unit, in tenths, rounded to the
/// nearest tenth with ties to the even tenth.
pub open spec fn scaled_tenths(b: nat, u: nat) -> nat
    recommends
        u >= 2,
{
    let t = b * 10 / u;
    let r = b * 10 % u;
    if 2 * r > u || (2 * r == u && t % 2 == 1) {
        t + 1
    } else {
        t
    }
}

/// The "whole.tenth" rendering of a scaled byte count.
pub open spec fn scaled_str(b: nat, u: nat) -> Seq<char>
    recommends
        u >= 2,
{
    let t = scaled_tenths(b, u);
    dec_str(t / 10) + "."@ + dec_str(t % 10)
}

/// What a byte count renders to: scaled against the largest unit it
/// reaches, with one decimal place, or as plain bytes below a
/// kibibyte.
pub open spec fn bytes_str(b: nat) -> Seq<char> {
    if b >= TB {
        scaled_str(b, TB as nat) + " TB"@
    } else if b >= GB {
        scaled_str(b, GB as nat) + " GB"@
    } else if b >= MB {
        scaled_str(b, MB as nat) + " MB"@
    } else if b >= KB {
        scaled_str(b, KB as nat) + " KB"@
    } else {
        dec_str(b) + " B"@
    }
}

/// Render `b` scaled against `u` with one decimal place.
fn scaled_string(b: u64, u: u64) -> (r: String)
    requires
        u >= 2,
    ensures
        r@ == scaled_str(b as nat, u as nat),
{
    let wide: u128 = b as u128 * 10;
    let t0: u128 = wide / (u as u128);
    let rem: u128 = wide % (u as u128);
    let t: u128 = if 2 * rem > u as u128 || (2 * rem == u as u128 && t0 % 2 == 1) {
        t0 + 1
    } else {
        t0
    };
    proof {
        assert(t == scaled_tenths(b as nat, u as nat));
        vstd::arithmetic::div_mod::lemma_div_nonincreasing(wide as int, u as int);
        assert(t <= wide + 1);
    }
    let whole: u64 = (t / 10) as u64;
    let tenth: u64 = (t % 10) as u64;
    let mut s = u64_to_string(whole);
    s.append(".");
    s.append(u64_to_string(tenth).as_str());
    s
}

/// Render a byte count with its largest reached unit and one decimal
/// place.
pub fn format_bytes(bytes: u64) -> (r: String)
    ensures
        r@ == bytes_str(bytes as nat),
{
    if bytes >= TB {
        let mut s = scaled_string(bytes, TB);
        s.append(" TB");
        s
    } else if bytes >= GB {
        let mut s = scaled_string(bytes, GB);
        s.append(" GB");
        s
    } else if bytes >= MB {
        let mut s = scaled_string(bytes, MB);
        s.append(" MB");
        s
    } else if bytes >= KB {
        let mut s = scaled_string(bytes, KB);
        s.append(" KB");
        s
    } else {
        let mut s = u64_to_string(bytes);
        s.append(" B");
        s
    }
}

} // verus!
