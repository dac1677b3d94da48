use vstd::prelude::*;

use crossbeam_channel::{Receiver, Sender};

use crate::stats::CaptureStats;
use crate::types::VideoFrame;

verus! {

#[verifier::external_type_specification]
#[verifier::external_body]
#[verifier::reject_recursive_types(T)]
pub struct ExSender<T>(Sender<T>);

#[verifier::external_type_specification]
#[verifier::external_body]
#[verifier::reject_recursive_types(T)]
pub struct ExReceiver<T>(Receiver<T>);

/// Frames the channel between the capture thread and the presenter holds.
pub const FRAME_SLOTS: usize = 1;

/// The number of messages the channel with these two ends was made to
/// hold.
pub uninterp spec fn capacity_of(ends: (Sender<VideoFrame>, Receiver<VideoFrame>)) -> nat;

/// Relies on crossbeam_channel::bounded: a new channel that holds at most
/// `cap` messages, with its two ends.
#[verifier::external_body]
fn bounded_channel(cap: usize) -> (r: (Sender<VideoFrame>, Receiver<VideoFrame>))
    ensures
        capacity_of(r) == cap,
{
    crossbeam_channel::bounded(cap)
}

/// A new single-slot frame channel, sending end first.
pub fn frame_channel() -> (r: (Sender<VideoFrame>, Receiver<VideoFrame>))
    ensures
        capacity_of(r) == 1,
{
    bounded_channel(FRAME_SLOTS)
}

/// Relies on Sender::try_send: it never blocks, and a frame it does not
/// take (the slot is full or the consumer is gone) comes back unchanged
/// in the error, which `into_inner` hands out.
#[verifier::external_body]
fn try_send(tx: &Sender<VideoFrame>, frame: VideoFrame) -> (r: Result<(), VideoFrame>)
    ensures
        r matches Err(back) ==> back == frame,
{
    match tx.try_send(frame) {
        Ok(()) => Ok(()),
        Err(e) => Err(e.into_inner()),
    }
}

/// Relies on Receiver::try_recv: it never blocks; a frame where one was
/// queued, nothing otherwise.
#[verifier::external_body]
fn try_recv(rx: &Receiver<VideoFrame>) -> (r: Option<VideoFrame>) {
    rx.try_recv().ok()
}

/// How a frame went into the single-slot channel.
#[derive(Clone, Copy, Debug, PartialEq, Eq, Structural)]
pub enum Delivery {
    /// The slot was free and took the frame.
    Sent,
    /// The slot was full: the stale frame was drained and this one took
    /// its place.
    Replaced,
    /// The slot refused the frame even after draining (consumer gone, or
    /// a race with it).
    Lost,
}

/// What the producer does once its first send is answered: where the slot
/// refused the frame it drains the stale one, and counts that as a drop
/// when statistics are on. Returns (drain, count a drop).
pub open spec fn after_first_send(first_taken: bool, stats_on: bool) -> (bool, bool) {
    (!first_taken, !first_taken && stats_on)
}

pub fn delivery_step(first_taken: bool, stats_on: bool) -> (r: (bool, bool))
    ensures
        r == after_first_send(first_taken, stats_on),
{
    (!first_taken, !first_taken && stats_on)
}

/// How a delivery ended, from whether the first send and the resend after
/// draining were taken.
pub open spec fn delivery_outcome(first_taken: bool, resend_taken: bool) -> Delivery {
    if first_taken {
        Delivery::Sent
    } else if resend_taken {
        Delivery::Replaced
    } else {
        Delivery::Lost
    }
}

pub fn delivery_result(first_taken: bool, resend_taken: bool) -> (r: Delivery)
    ensures
        r == delivery_outcome(first_taken, resend_taken),
{
    if first_taken {
        Delivery::Sent
    } else if resend_taken {
        Delivery::Replaced
    } else {
        Delivery::Lost
    }
}

/// What `publish` did: how the frame went in, whether the stale frame was
/// drained, and whether a drop was counted.
#[derive(Clone, Copy, Debug, PartialEq, Eq, Structural)]
pub struct DeliveryReport {
    pub outcome: Delivery,
    pub drained: bool,
    pub drop_counted: bool,
}

/// Hands a frame to the consumer without ever blocking: where the slot
/// still holds an undrained frame, the producer drains it itself, counts
/// a drop when `stats_on`, and puts the fresh frame in. Whether the slot
/// was free is up to the channel; given that, the report is fixed: the
/// stale frame is drained exactly when the first send was refused, and a
/// drop is counted exactly when it was drained with statistics on.
pub fn publish(
    tx: &Sender<VideoFrame>,
    drain: &Receiver<VideoFrame>,
    stats: &CaptureStats,
    stats_on: bool,
    frame: VideoFrame,
) -> (r: DeliveryReport)
    ensures
        r.drained == (r.outcome != Delivery::Sent),
        r.drop_counted == (r.drained && stats_on),
{
    let first = try_send(tx, frame);
    let first_taken = first.is_ok();
    let (drain_slot, count_drop) = delivery_step(first_taken, stats_on);
    let resend_taken = match first {
        Ok(()) => false,
        Err(back) => {
            if drain_slot {
                let _stale = try_recv(drain);
            }
            if count_drop {
                stats.on_drop_enabled();
            }
            try_send(tx, back).is_ok()
        },
    };
    let outcome = delivery_result(first_taken, resend_taken);
    DeliveryReport { outcome, drained: drain_slot, drop_counted: count_drop }
}

/// The newest undrained frame, or nothing; never blocks.
pub fn try_take_latest_frame(rx: &Receiver<VideoFrame>) -> (r: Option<VideoFrame>) {
    try_recv(rx)
}

/// The single-slot channel as one producer and one consumer see it when
/// they take turns: what the slot holds, the drops counted and the
/// frames the consumer took.
pub struct SlotModel<T> {
    pub slot: Option<T>,
    pub sent: nat,
    pub drops: nat,
    pub observed: nat,
}

/// One step of the discipline: a send, or a poll by the consumer.
pub enum SlotEvent<T> {
    Send(T),
    Poll,
}

pub open spec fn empty_slot<T>() -> SlotModel<T> {
    SlotModel { slot: None, sent: 0, drops: 0, observed: 0 }
}

/// A send puts the frame in the slot; a frame it displaces is a drop.
/// A poll takes what the slot holds. A send is what `publish` does to the
/// channel while the consumer does not poll during the call (with
/// statistics on, each displaced frame is one `on_drop_enabled`); a poll
/// is `try_take_latest_frame`.
pub open spec fn slot_step<T>(s: SlotModel<T>, e: SlotEvent<T>) -> SlotModel<T> {
    match e {
        SlotEvent::Send(f) => SlotModel {
            slot: Some(f),
            sent: s.sent + 1,
            drops: if s.slot is Some {
                s.drops + 1
            } else {
                s.drops
            },
            observed: s.observed,
        },
        SlotEvent::Poll => match s.slot {
            Some(_) => SlotModel { slot: None, observed: s.observed + 1, ..s },
            None => s,
        },
    }
}

pub open spec fn slot_run<T>(events: Seq<SlotEvent<T>>) -> SlotModel<T>
    decreases events.len(),
{
    if events.len() == 0 {
        empty_slot()
    } else {
        slot_step(slot_run(events.drop_last()), events.last())
    }
}

/// Index of the last send among the events, -1 where there is none.
pub open spec fn last_send<T>(events: Seq<SlotEvent<T>>) -> int
    decreases events.len(),
{
    if events.len() == 0 {
        -1
    } else if events.last() is Send {
        events.len() - 1
    } else {
        last_send(events.drop_last())
    }
}

/// Every frame sent is either still in the slot, taken by the consumer,
/// or counted as a drop; and a frame in the slot is the last one sent.
pub proof fn lemma_slot_accounting<T>(events: Seq<SlotEvent<T>>)
    ensures
        slot_run(events).drops + slot_run(events).observed + (if slot_run(events).slot is Some {
            1int
        } else {
            0
        }) == slot_run(events).sent,
        slot_run(events).slot matches Some(f) ==> last_send(events) >= 0 && events[last_send(
            events,
        )] == SlotEvent::Send(f),
        -1 <= last_send(events) < events.len(),
    decreases events.len(),
{
    if events.len() > 0 {
        let d = events.drop_last();
        lemma_slot_accounting(d);
        if !(events.last() is Send) && last_send(d) >= 0 {
            assert(events[last_send(d)] == d[last_send(d)]);
        }
    }
}

/// A send into the model slot makes the decisions of `delivery_step` and
/// `delivery_result`: the first send is taken exactly when the slot is
/// free; otherwise the stale frame is drained, counted as a drop, and the
/// fresh frame takes its place (the resend into the drained slot is
/// taken), so the delivery is `Replaced`.
pub proof fn lemma_publish_is_slot_send<T>(s: SlotModel<T>, f: T)
    ensures
        ({
            let first_taken = s.slot is None;
            let (drained, counted) = after_first_send(first_taken, true);
            let next = slot_step(s, SlotEvent::Send(f));
            &&& drained == (s.slot is Some)
            &&& next.drops == s.drops + (if counted {
                1nat
            } else {
                0nat
            })
            &&& next.slot == Some(f)
            &&& delivery_outcome(first_taken, true) == (if s.slot is None {
                Delivery::Sent
            } else {
                Delivery::Replaced
            })
        }),
{
}

/// N frames sent faster than the consumer drains, then one poll: the
/// consumer sees exactly the last frame sent, and the drop count is N
/// minus the frames it observed.
pub proof fn lemma_latest_frame_wins<T>(frames: Seq<T>)
    requires
        frames.len() > 0,
    ensures
        ({
            let sends = Seq::new(frames.len(), |i: int| SlotEvent::Send(frames[i]));
            let before = slot_run(sends);
            let after = slot_run(sends.push(SlotEvent::Poll));
            &&& before.slot == Some(frames.last())
            &&& after.slot is None
            &&& after.observed == 1
            &&& after.drops == frames.len() - after.observed
        }),
{
    let sends = Seq::new(frames.len(), |i: int| SlotEvent::Send(frames[i]));
    lemma_slot_accounting(sends);
    assert(sends.push(SlotEvent::Poll).drop_last() =~= sends);
    lemma_sends_only(frames, frames.len() as int);
    assert(sends.subrange(0, frames.len() as int) =~= sends);
}

proof fn lemma_sends_only<T>(frames: Seq<T>, n: int)
    requires
        0 <= n <= frames.len(),
    ensures
        ({
            let run = slot_run(Seq::new(frames.len(), |i: int| SlotEvent::Send(frames[i])).subrange(0, n));
            &&& run.sent == n
            &&& run.observed == 0
            &&& n > 0 ==> run.slot == Some(frames[n - 1])
        }),
    decreases n,
{
    let sends = Seq::new(frames.len(), |i: int| SlotEvent::Send(frames[i]));
    if n > 0 {
        lemma_sends_only(frames, n - 1);
        assert(sends.subrange(0, n).drop_last() =~= sends.subrange(0, n - 1));
    }
}

} // verus!
