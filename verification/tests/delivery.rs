use std::collections::VecDeque;
use sensor_sniffer::delivery::{after_send_attempt, take_batch, wrap_packet_delivery, SendStep};
use sensor_sniffer::tester::generate_random_packet;

#[test]
fn batches_come_from_the_front_in_order() {
    let mut q: VecDeque<u32> = (1..=5).collect();
    let first = take_batch(&mut q, 2);
    assert_eq!(first, vec![1, 2]);
    let second = take_batch(&mut q, 2);
    assert_eq!(second, vec![3, 4]);
    let third = take_batch(&mut q, 2);
    assert_eq!(third, vec![5]);
    assert!(q.is_empty());
    assert!(take_batch(&mut q, 3).is_empty());
}

#[test]
fn huge_batch_empties_queue() {
    let mut q: VecDeque<u32> = (1..=3).collect();
    assert_eq!(take_batch(&mut q, usize::MAX), vec![1, 2, 3]);
    assert!(q.is_empty());
}

#[test]
fn retry_schedule() {
    assert_eq!(after_send_attempt(0, true), SendStep::Delivered);
    assert_eq!(after_send_attempt(0, false), SendStep::Retry { retries: 1, delay_ms: 500 });
    assert_eq!(after_send_attempt(1, false), SendStep::Retry { retries: 2, delay_ms: 1000 });
    assert_eq!(after_send_attempt(2, false), SendStep::GiveUp);
    assert_eq!(after_send_attempt(2, true), SendStep::Delivered);
}

#[test]
fn delivery_wraps_packets() {
    let packets = vec![generate_random_packet(1, 0), generate_random_packet(2, 0)];
    let d = wrap_packet_delivery(packets, 7, 1_700_000_000);
    assert_eq!(d.serial_id, 7);
    assert_eq!(d.timestamp, 1_700_000_000);
    assert_eq!(d.packets.len(), 2);
}
