//! The fixed-capacity `heapless` collections that carry switch events between the scan
//! and the MIDI task.
use vstd::prelude::*;

use crate::constants::NUM_SWITCHES;
use crate::switch::SwitchEvent;

verus! {

#[verifier::external_type_specification]
#[verifier::external_body]
#[verifier::reject_recursive_types(T)]
pub struct ExHeaplessQueue<T, const N: usize>(heapless::spsc::Queue<T, N>);

#[verifier::external_type_specification]
#[verifier::external_body]
#[verifier::reject_recursive_types(T)]
pub struct ExHeaplessVec<T, const N: usize>(heapless::Vec<T, N>);

/// Items the event queue can hold: `heapless` queues hold one item fewer than their 64 slots.
pub const EVENT_QUEUE_CAPACITY: usize = 63;
/// Events one scan can collect.
pub const PENDING_CAPACITY: usize = 32;

/// A switch index with the event it raised.
pub type IndexedEvent = (usize, SwitchEvent);

/// What a push into a full collection hands back.
pub type PushResult = Result<(), IndexedEvent>;

/// Queue from the scan to the MIDI task.
pub type EventQueue = heapless::spsc::Queue<IndexedEvent, 64>;

/// Events collected during one scan.
pub type PendingEvents = heapless::Vec<IndexedEvent, 32>;

/// The items of an event queue, front first.
pub uninterp spec fn queue_items(q: EventQueue) -> Seq<IndexedEvent>;

/// The items of a pending-event vector, in push order.
pub uninterp spec fn pending_items(v: PendingEvents) -> Seq<IndexedEvent>;

/// `heapless::spsc::Queue::new`: a queue holding no item.
#[verifier::external_body]
fn queue_new() -> (q: EventQueue)
    ensures
        queue_items(q) == Seq::<IndexedEvent>::empty(),
{
    heapless::spsc::Queue::new()
}

/// Whether every event in `items` names one of the switches.
pub open spec fn indices_in_range(items: Seq<IndexedEvent>) -> bool {
    forall|i: int| 0 <= i < items.len() ==> (#[trigger] items[i]).0 < NUM_SWITCHES
}

/// An empty event queue, ready for the scan to fill and the MIDI task to drain.
pub fn empty_event_queue() -> (q: EventQueue)
    ensures
        queue_items(q) == Seq::<IndexedEvent>::empty(),
        indices_in_range(queue_items(q)),
{
    queue_new()
}

/// `heapless::spsc::Queue::enqueue`: appends `item` at the back while fewer than N - 1
/// items are held, and otherwise hands it back untouched.
#[verifier::external_body]
pub(crate) fn enqueue_event(q: &mut EventQueue, item: IndexedEvent) -> (r: PushResult)
    ensures
        queue_items(*old(q)).len() < EVENT_QUEUE_CAPACITY ==> r is Ok && queue_items(*final(q))
            == queue_items(*old(q)).push(item),
        queue_items(*old(q)).len() >= EVENT_QUEUE_CAPACITY ==> r == PushResult::Err(item)
            && queue_items(*final(q)) == queue_items(*old(q)),
        queue_items(*final(q)).len() <= EVENT_QUEUE_CAPACITY,
{
    q.enqueue(item)
}

/// `heapless::spsc::Queue::dequeue`: removes and returns the front item, `None` when empty.
#[verifier::external_body]
pub(crate) fn dequeue_event(q: &mut EventQueue) -> (r: Option<IndexedEvent>)
    ensures
        queue_items(*old(q)).len() == 0 ==> r is None && queue_items(*final(q)) == queue_items(
            *old(q),
        ),
        queue_items(*old(q)).len() > 0 ==> r == Some(queue_items(*old(q))[0]) && queue_items(
            *final(q),
        ) == queue_items(*old(q)).drop_first(),
        queue_items(*final(q)).len() <= EVENT_QUEUE_CAPACITY,
{
    q.dequeue()
}

/// `heapless::Vec::new`: an empty vector.
#[verifier::external_body]
pub(crate) fn new_pending() -> (v: PendingEvents)
    ensures
        pending_items(v) == Seq::<IndexedEvent>::empty(),
{
    heapless::Vec::new()
}

/// `heapless::Vec::push`: appends `item` while fewer than N items are held, and otherwise
/// hands it back untouched.
#[verifier::external_body]
pub(crate) fn push_pending(v: &mut PendingEvents, item: IndexedEvent) -> (r: PushResult)
    ensures
        pending_items(*old(v)).len() < PENDING_CAPACITY ==> r is Ok && pending_items(*final(v))
            == pending_items(*old(v)).push(item),
        pending_items(*old(v)).len() >= PENDING_CAPACITY ==> r == PushResult::Err(item)
            && pending_items(*final(v)) == pending_items(*old(v)),
        pending_items(*final(v)).len() <= PENDING_CAPACITY,
{
    v.push(item)
}

/// `heapless::Vec`'s by-value iterator, collected: the items in push order.
#[verifier::external_body]
pub(crate) fn pending_into_vec(v: PendingEvents) -> (items: Vec<IndexedEvent>)
    ensures
        items@ == pending_items(v),
{
    v.into_iter().collect()
}

} // verus!
