use sysmon::history::{HistoryBuffer, HISTORY_LEN};

#[test]
fn window_starts_full() {
    let buf: HistoryBuffer<u32> = HistoryBuffer::new_filled(HISTORY_LEN, 0);
    assert_eq!(buf.len(), HISTORY_LEN);
    for i in 0..HISTORY_LEN {
        assert_eq!(buf.get(i), 0);
    }
}

#[test]
fn push_evicts_oldest_and_keeps_length() {
    let mut buf: HistoryBuffer<u32> = HistoryBuffer::new_filled(3, 0);
    buf.push(7);
    assert_eq!(buf.len(), 3);
    assert_eq!(buf.to_vec(), vec![0, 0, 7]);
    buf.push(8);
    buf.push(9);
    buf.push(10);
    assert_eq!(buf.len(), 3);
    assert_eq!(buf.to_vec(), vec![8, 9, 10]);
}

#[test]
fn length_constant_over_any_tick_sequence() {
    // the length invariant: after any number of pushes the window
    // still holds exactly its capacity
    let mut buf: HistoryBuffer<u64> = HistoryBuffer::new_filled(HISTORY_LEN, 0);
    for tick in 0..500u64 {
        buf.push(tick % 101);
        assert_eq!(buf.len(), HISTORY_LEN);
    }
    assert_eq!(buf.get(HISTORY_LEN - 1), 499 % 101);
}

#[test]
fn float_windows_for_display_series() {
    let mut buf: HistoryBuffer<f64> = HistoryBuffer::new_filled(4, 0.0);
    buf.push(12.5);
    assert_eq!(buf.len(), 4);
    assert_eq!(buf.to_vec(), vec![0.0, 0.0, 0.0, 12.5]);
}
