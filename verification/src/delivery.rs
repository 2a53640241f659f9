//! Delivering packets to the backend: the batches taken from the front of
//! the packet queue, the deliveries that carry them, and the retrying of a
//! failed send.

use vstd::prelude::*;
use std::collections::VecDeque;
use crate::packet::BLEPacket;

verus! {

/// How many times a message is sent before it is given up.
pub const MAX_RETRIES: u64 = 3;
/// The wait after the first failed send, in milliseconds; the wait grows
/// by this much with each further failure.
pub const RETRY_DELAY_MS: u64 = 500;

/// The smaller of two integers.
pub open spec fn min_int(a: int, b: int) -> int {
    if a <= b {
        a
    } else {
        b
    }
}

/// Takes up to `count` items from the front of the queue, in queue order;
/// the rest of the queue stays, in order.
pub fn take_batch<T>(queue: &mut VecDeque<T>, count: usize) -> (res: Vec<T>)
    ensures
        res@ == old(queue)@.take(min_int(count as int, old(queue)@.len() as int)),
        final(queue)@ == old(queue)@.skip(min_int(count as int, old(queue)@.len() as int)),
{
    let mut res: Vec<T> = Vec::new();
    let mut taken: usize = 0;
    while taken < count
        invariant
            taken <= count,
            taken <= old(queue)@.len(),
            res@ == old(queue)@.take(taken as int),
            queue@ == old(queue)@.skip(taken as int),
        decreases count - taken,
    {
        match queue.pop_front() {
            Some(item) => {
                res.push(item);
                taken = taken + 1;
                assert(res@ =~= old(queue)@.take(taken as int));
                assert(queue@ =~= old(queue)@.skip(taken as int));
            },
            None => {
                assert(min_int(count as int, old(queue)@.len() as int) == taken);
                return res;
            },
        }
    }
    res
}

/// A batch of packets as it is delivered to the backend.
#[derive(Clone, Debug)]
pub struct PacketDelivery {
    /// The serial number of the sensor.
    pub serial_id: u32,
    /// When the batch was sent, in seconds since the Unix epoch.
    pub timestamp: u64,
    /// The packets, oldest first.
    pub packets: Vec<BLEPacket>,
}

/// Wraps a batch of packets with the sensor's serial number and the time
/// of sending.
pub fn wrap_packet_delivery(packets: Vec<BLEPacket>, serial_id: u32, timestamp: u64) -> (res: PacketDelivery)
    ensures
        res.serial_id == serial_id,
        res.timestamp == timestamp,
        res.packets@ == packets@,
{
    PacketDelivery { timestamp, serial_id, packets }
}

/// What to do after an attempt to send a message.
#[derive(PartialEq, Eq, Structural, Debug, Clone, Copy)]
pub enum SendStep {
    /// The message was sent.
    Delivered,
    /// Wait `delay_ms` milliseconds, then send again; `retries` sends have failed.
    Retry { retries: u64, delay_ms: u64 },
    /// The message is given up.
    GiveUp,
}

/// The step after an attempt, when `retries` earlier attempts had failed.
pub open spec fn send_step(retries: u64, sent: bool) -> SendStep {
    if sent {
        SendStep::Delivered
    } else if retries + 1 >= MAX_RETRIES {
        SendStep::GiveUp
    } else {
        SendStep::Retry { retries: (retries + 1) as u64, delay_ms: (RETRY_DELAY_MS * (retries + 1)) as u64 }
    }
}

/// Decides what follows an attempt to send: done when it was sent; else,
/// counting this failure, give up after [`MAX_RETRIES`] failures or wait
/// [`RETRY_DELAY_MS`] times the number of failures and try again.
pub fn after_send_attempt(retries: u64, sent: bool) -> (res: SendStep)
    requires
        retries < MAX_RETRIES,
    ensures
        res == send_step(retries, sent),
{
    if sent {
        SendStep::Delivered
    } else {
        let failures = retries + 1;
        if failures >= MAX_RETRIES {
            SendStep::GiveUp
        } else {
            SendStep::Retry { retries: failures, delay_ms: RETRY_DELAY_MS * failures }
        }
    }
}

/// A message whose every send fails is sent exactly [`MAX_RETRIES`] times:
/// after the k-th failure (k below the limit) the sender waits
/// `k * RETRY_DELAY_MS` ms and tries again, and after the last it gives up;
/// a send that succeeds always ends the delivery.
pub proof fn lemma_retry_schedule()
    ensures
        forall|k: u64|
            0 <= k < MAX_RETRIES - 1 ==> #[trigger] send_step(k, false) == (SendStep::Retry {
                retries: (k + 1) as u64,
                delay_ms: (RETRY_DELAY_MS * (k + 1)) as u64,
            }),
        send_step((MAX_RETRIES - 1) as u64, false) == SendStep::GiveUp,
        forall|k: u64|
            0 <= k < 2 ==> #[trigger] send_step(k, false) == (SendStep::Retry {
                retries: (k + 1) as u64,
                delay_ms: (500 * (k + 1)) as u64,
            }),
        send_step(2, false) == SendStep::GiveUp,
        forall|k: u64| 0 <= k < MAX_RETRIES ==> #[trigger] send_step(k, true) == SendStep::Delivered,
{
}

/// A batch and what is left in the queue make up the queue as it was, and
/// the batch holds `count` items unless the queue held fewer.
pub proof fn lemma_batch_split<T>(queue: Seq<T>, count: nat)
    ensures
        queue.take(min_int(count as int, queue.len() as int)) + queue.skip(
            min_int(count as int, queue.len() as int),
        ) == queue,
        queue.take(min_int(count as int, queue.len() as int)).len() == if count <= queue.len() {
            count as int
        } else {
            queue.len() as int
        },
{
    assert(queue.take(min_int(count as int, queue.len() as int)) + queue.skip(
        min_int(count as int, queue.len() as int),
    ) =~= queue);
}

} // verus!

verus! {

/// When the queue is due for delivery (it holds at least a batch, see
/// `sniffer::batch_ready`), the batch taken from it is full: exactly
/// `batch_size_of(packet_buffer_size)` packets, the oldest ones.
pub proof fn lemma_due_batch_is_full<T>(queue: Seq<T>, packet_buffer_size: i32)
    requires
        queue.len() >= crate::sniffer::batch_size_of(packet_buffer_size),
    ensures
        ({
            let n = min_int(crate::sniffer::batch_size_of(packet_buffer_size), queue.len() as int);
            &&& n == crate::sniffer::batch_size_of(packet_buffer_size)
            &&& queue.take(n).len() == n
            &&& forall|i: int| 0 <= i < n ==> #[trigger] queue.take(n)[i] == queue[i]
        }),
{
}

} // verus!
