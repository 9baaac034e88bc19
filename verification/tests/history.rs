use pulse::history::{HistoryWindow, MetricsHistory, RingBuffer, MAX_HISTORY, PROCESS_HISTORY_LEN};

#[test]
fn new_ring_is_full_of_the_fill_value() {
    let ring: RingBuffer<f64> = RingBuffer::new(4, 0.0);
    assert_eq!(ring.len(), 4);
    assert_eq!(ring.capacity(), 4);
    assert_eq!(ring.as_slice(), vec![0.0; 4]);
    assert_eq!(ring.latest(), 0.0);
}

#[test]
fn push_at_capacity_drops_the_oldest() {
    let mut ring: RingBuffer<u32> = RingBuffer::new(3, 0);
    ring.push(1);
    ring.push(2);
    ring.push(3);
    assert_eq!(ring.as_slice(), vec![1, 2, 3]);
    ring.push(4);
    assert_eq!(ring.as_slice(), vec![2, 3, 4]);
    assert_eq!(ring.len(), 3);
    assert_eq!(ring.latest(), 4);
}

#[test]
fn last_n_is_the_newest_suffix() {
    let mut ring: RingBuffer<u32> = RingBuffer::new(5, 0);
    for v in 1..=5 {
        ring.push(v);
    }
    assert_eq!(ring.last_n(2), vec![4, 5]);
    assert_eq!(ring.last_n(0), Vec::<u32>::new());
    assert_eq!(ring.last_n(9), vec![1, 2, 3, 4, 5]);
}

#[test]
fn clear_refills_the_ring() {
    let mut ring: RingBuffer<u32> = RingBuffer::new(2, 7);
    ring.push(1);
    ring.clear();
    assert_eq!(ring.as_slice(), vec![7, 7]);
}

#[test]
fn zero_capacity_ring_keeps_the_latest_value() {
    let mut ring: RingBuffer<u32> = RingBuffer::new(0, 0);
    assert_eq!(ring.len(), 0);
    assert_eq!(ring.latest(), 0);
    ring.push(5);
    ring.push(6);
    assert_eq!(ring.as_slice(), vec![6]);
}

#[test]
fn windows_cycle_and_count_samples() {
    assert_eq!(HistoryWindow::FiveMin.next(), HistoryWindow::FifteenMin);
    assert_eq!(HistoryWindow::FifteenMin.next(), HistoryWindow::OneHour);
    assert_eq!(HistoryWindow::OneHour.next(), HistoryWindow::FiveMin);
    assert_eq!(HistoryWindow::FiveMin.label(), "5m");
    assert_eq!(HistoryWindow::FifteenMin.label(), "15m");
    assert_eq!(HistoryWindow::OneHour.label(), "1h");
    assert_eq!(HistoryWindow::FiveMin.sample_count(), 600);
    assert_eq!(HistoryWindow::FifteenMin.sample_count(), 1800);
    assert_eq!(HistoryWindow::OneHour.sample_count(), MAX_HISTORY);
}

#[test]
fn metrics_history_starts_full_of_zeros() {
    let h: MetricsHistory<f64> = MetricsHistory::new(3, 0.0);
    assert_eq!(h.cpu_per_core.len(), 3);
    assert_eq!(h.cpu_global.len(), MAX_HISTORY);
    assert_eq!(h.net_rx.latest(), 0.0);
    assert!(h.process_cpu.is_empty());
    assert_eq!(h.window, HistoryWindow::FiveMin);
}

#[test]
fn windowed_data_follows_the_window() {
    let mut h: MetricsHistory<u32> = MetricsHistory::new(1, 0);
    for v in 0..700u32 {
        h.cpu_global.push(v);
    }
    let w = h.windowed_data(&h.cpu_global);
    assert_eq!(w.len(), 600);
    assert_eq!(w[599], 699);
    assert_eq!(w[0], 100);
    h.window = HistoryWindow::OneHour;
    assert_eq!(h.windowed_data(&h.cpu_global).len(), MAX_HISTORY);
}

#[test]
fn process_history_starts_with_zeros_and_is_pruned() {
    let mut h: MetricsHistory<u32> = MetricsHistory::new(1, 0);
    h.record_process_cpu(10, 5);
    h.record_process_cpu(10, 6);
    h.record_process_cpu(20, 1);
    let ring = &h.process_cpu[&10];
    assert_eq!(ring.len(), PROCESS_HISTORY_LEN);
    assert_eq!(ring.last_n(2), vec![5, 6]);
    h.prune_processes(&[20, 30]);
    assert!(!h.process_cpu.contains_key(&10));
    assert!(h.process_cpu.contains_key(&20));
    assert_eq!(h.process_cpu.len(), 1);
}

#[test]
fn core_samples_go_to_their_cores() {
    let mut h: MetricsHistory<u32> = MetricsHistory::new(2, 0);
    h.record_cpu_cores(&[3, 4, 5]);
    assert_eq!(h.cpu_per_core[0].latest(), 3);
    assert_eq!(h.cpu_per_core[1].latest(), 4);
    h.record_cpu_cores(&[9]);
    assert_eq!(h.cpu_per_core[0].latest(), 9);
    assert_eq!(h.cpu_per_core[1].latest(), 4);
}

#[test]
fn fresh_histories_have_full_capacity() {
    let mut h: MetricsHistory<u64> = MetricsHistory::new(4, 0);
    for ring in [&h.cpu_global, &h.memory_ratio, &h.swap_ratio, &h.net_rx, &h.net_tx, &h.disk_read, &h.disk_write] {
        assert_eq!(ring.capacity(), MAX_HISTORY);
        assert_eq!(ring.len(), MAX_HISTORY);
    }
    assert_eq!(h.cpu_per_core.len(), 4);
    assert!(h.cpu_per_core.iter().all(|r| r.capacity() == MAX_HISTORY));
    h.record_process_cpu(9, 50);
    let ring = &h.process_cpu[&9];
    assert_eq!(ring.capacity(), PROCESS_HISTORY_LEN);
    assert_eq!(ring.latest(), 50);
    h.record_process_cpu(9, 60);
    let ring = &h.process_cpu[&9];
    assert_eq!(ring.capacity(), PROCESS_HISTORY_LEN);
    assert_eq!(ring.len(), PROCESS_HISTORY_LEN);
    assert_eq!(ring.as_slice()[PROCESS_HISTORY_LEN - 2..], [50, 60]);
}
