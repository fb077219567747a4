use ariel_ml::latency::{LatencyRecorder, OP_LATENCY_SLOTS};

#[test]
fn new_recorder_is_empty() {
    let r = LatencyRecorder::new();
    assert_eq!(r.next_slot_index(), 0);
    assert_eq!(r.ops_latency(), [0u64; 16]);
    assert!(!r.is_full());
    assert_eq!(r.ops_latency_sum(), Some(0));
}

#[test]
fn begin_keeps_start_time_in_next_slot() {
    let mut r = LatencyRecorder::new();
    r.begin_record_op_latency(1_000);
    assert_eq!(r.next_slot_index(), 0);
    assert_eq!(r.slot(0), 1_000);
}

#[test]
fn begin_then_end_records_elapsed_time() {
    let mut r = LatencyRecorder::new();
    r.begin_record_op_latency(1_000);
    r.end_record_op_latency(1_250);
    assert_eq!(r.slot(0), 250);
    assert_eq!(r.next_slot_index(), 1);
    r.begin_record_op_latency(2_000);
    r.end_record_op_latency(2_007);
    assert_eq!(r.slot(0), 250);
    assert_eq!(r.slot(1), 7);
    assert_eq!(r.next_slot_index(), 2);
    assert_eq!(r.ops_latency_sum(), Some(257));
}

#[test]
fn end_without_begin_measures_from_zero() {
    let mut r = LatencyRecorder::new();
    r.end_record_op_latency(42);
    assert_eq!(r.slot(0), 42);
    assert_eq!(r.next_slot_index(), 1);
}

#[test]
fn sum_counts_an_open_start_time() {
    let mut r = LatencyRecorder::new();
    r.begin_record_op_latency(10);
    r.end_record_op_latency(15);
    r.begin_record_op_latency(100);
    assert_eq!(r.ops_latency_sum(), Some(105));
}

#[test]
fn recorder_fills_after_all_slots() {
    let mut r = LatencyRecorder::new();
    for i in 0..OP_LATENCY_SLOTS {
        let t = (i as u64) * 100;
        r.begin_record_op_latency(t);
        r.end_record_op_latency(t + i as u64 + 1);
    }
    assert!(r.is_full());
    assert_eq!(r.next_slot_index(), OP_LATENCY_SLOTS);
    let expected: Vec<u64> = (1..=16).collect();
    assert_eq!(r.ops_latency().to_vec(), expected);
    assert_eq!(r.ops_latency_sum(), Some(136));
}

#[test]
fn sum_that_overflows_is_none() {
    let mut r = LatencyRecorder::new();
    r.begin_record_op_latency(0);
    r.end_record_op_latency(u64::MAX);
    r.begin_record_op_latency(0);
    r.end_record_op_latency(1);
    assert_eq!(r.ops_latency_sum(), None);
}

#[test]
fn sum_at_the_limit_fits() {
    let mut r = LatencyRecorder::new();
    r.end_record_op_latency(u64::MAX - 1);
    r.end_record_op_latency(1);
    assert_eq!(r.ops_latency_sum(), Some(u64::MAX));
}

#[test]
fn next_slot_counts_only_ends() {
    let mut r = LatencyRecorder::new();
    r.begin_record_op_latency(5);
    r.begin_record_op_latency(7);
    assert_eq!(r.next_slot_index(), 0);
    r.end_record_op_latency(9);
    assert_eq!(r.next_slot_index(), 1);
    r.end_record_op_latency(3);
    r.end_record_op_latency(4);
    assert_eq!(r.next_slot_index(), 3);
    assert_eq!(r.ops_latency()[..3].to_vec(), vec![2u64, 3, 4]);
}
