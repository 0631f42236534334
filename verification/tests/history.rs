use taskmon::history::History;

#[test]
fn history_keeps_last_capacity_samples() {
    let mut h: History<u64> = History::new(3);
    for v in 1..=5u64 {
        h.push(v);
    }
    assert_eq!(h.len(), 3);
    assert_eq!(*h.snapshot(), vec![3, 4, 5]);
}

#[test]
fn history_below_capacity_keeps_everything() {
    let mut h: History<u64> = History::new(3);
    h.push(1);
    h.push(2);
    assert_eq!(h.len(), 2);
    assert_eq!(*h.snapshot(), vec![1, 2]);
}

#[test]
fn history_at_capacity_evicts_oldest() {
    let mut h: History<u64> = History::new(2);
    h.push(10);
    h.push(20);
    h.push(30);
    assert_eq!(*h.snapshot(), vec![20, 30]);
}

#[test]
fn zero_capacity_history_stays_empty() {
    let mut h: History<u64> = History::new(0);
    h.push(7);
    h.push(8);
    assert_eq!(h.len(), 0);
    assert_eq!(*h.snapshot(), Vec::<u64>::new());
}

#[test]
fn history_reports_capacity() {
    let h: History<u64> = History::new(60);
    assert_eq!(h.capacity(), 60);
    assert_eq!(h.len(), 0);
}
