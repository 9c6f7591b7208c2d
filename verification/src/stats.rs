//! Host statistics data carried from the sampling layer to the
//! display layer, and the aggregation the tick performs on it.

use vstd::prelude::*;

verus! {

/// One network interface's counters for the current tick.
pub struct NetworkInterface {
    pub name: String,
    pub received: u64,
    pub transmitted: u64,
    pub packets_in: u64,
    pub packets_out: u64,
    pub errors_in: u64,
    pub errors_out: u64,
    pub mac_address: String,
}

/// `a + b` held inside the `u64` range.
pub open spec fn sat_add_u64(a: int, b: int) -> int {
    if a + b > u64::MAX {
        u64::MAX as int
    } else {
        a + b
    }
}

/// The interfaces' received bytes summed, saturating in `u64`.
pub open spec fn rx_sum(s: Seq<NetworkInterface>) -> int
    decreases s.len(),
{
    if s.len() == 0 {
        0
    } else {
        sat_add_u64(rx_sum(s.drop_last()), s.last().received as int)
    }
}

/// The interfaces' transmitted bytes summed, saturating in `u64`.
pub open spec fn tx_sum(s: Seq<NetworkInterface>) -> int
    decreases s.len(),
{
    if s.len() == 0 {
        0
    } else {
        sat_add_u64(tx_sum(s.drop_last()), s.last().transmitted as int)
    }
}

/// Total bytes received and transmitted over all interfaces this
/// tick; the sums saturate rather than abort on absurd counters.
pub fn network_totals(interfaces: &Vec<NetworkInterface>) -> (r: (u64, u64))
    ensures
        r.0 as int == rx_sum(interfaces@),
        r.1 as int == tx_sum(interfaces@),
{
    let mut rx: u64 = 0;
    let mut tx: u64 = 0;
    let mut i: usize = 0;
    while i < interfaces.len()
        invariant
            i <= interfaces@.len(),
            rx as int == rx_sum(interfaces@.subrange(0, i as int)),
            tx as int == tx_sum(interfaces@.subrange(0, i as int)),
        decreases interfaces@.len() - i,
    {
        let ghost pre = interfaces@.subrange(0, i as int);
        let ghost pre1 = interfaces@.subrange(0, i + 1);
        proof {
            assert(pre1.drop_last() =~= pre);
            assert(pre1.last() == interfaces@[i as int]);
        }
        let d = &interfaces[i];
        rx = if rx > u64::MAX - d.received {
            u64::MAX
        } else {
            rx + d.received
        };
        tx = if tx > u64::MAX - d.transmitted {
            u64::MAX
        } else {
            tx + d.transmitted
        };
        i = i + 1;
    }
    proof {
        assert(interfaces@.subrange(0, interfaces@.len() as int) =~= interfaces@);
    }
    (rx, tx)
}

} // verus!
