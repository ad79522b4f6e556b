//! The control bridge: a bounded FIFO conduit of note events between the
//! control plane (producer) and the render step (consumer).
//!
//! The queue is bounded and never blocks on either side: a push onto a
//! full queue drops the newest event (the one being pushed) and reports
//! it, and a poll on an empty queue returns nothing immediately. The
//! backing storage is allocated once at construction, so the consumer
//! side never allocates. Sharing between the two sides is the caller's
//! concern (the surrounding process puts the bridge behind a lock that
//! is held only for these constant-time calls).

use vstd::prelude::*;
use std::collections::VecDeque;

use crate::event::NoteEvent;

verus! {

/// Capacity of the bridge; events pushed beyond it are dropped newest-first.
pub const BRIDGE_CAPACITY: usize = 64;

/// The single-producer, single-consumer note-event queue.
pub struct ControlBridge {
    queue: VecDeque<NoteEvent>,
}

impl View for ControlBridge {
    type V = Seq<NoteEvent>;

    closed spec fn view(&self) -> Seq<NoteEvent> {
        self.queue@
    }
}

impl ControlBridge {
    /// An empty bridge with its storage preallocated.
    pub fn new() -> (bridge: ControlBridge)
        ensures
            bridge@ == Seq::<NoteEvent>::empty(),
    {
        ControlBridge { queue: VecDeque::with_capacity(BRIDGE_CAPACITY) }
    }

    /// Number of events waiting.
    pub fn len(&self) -> (n: usize)
        ensures
            n == self@.len(),
    {
        self.queue.len()
    }

    /// Producer side: enqueue one event without blocking.
    ///
    /// Returns whether the event was accepted; on a full queue the new
    /// event is dropped (drop-newest policy) and the queue is unchanged.
    pub fn push(&mut self, event: NoteEvent) -> (accepted: bool)
        ensures
            old(self)@.len() < BRIDGE_CAPACITY ==> {
                &&& accepted
                &&& final(self)@ == old(self)@.push(event)
            },
            old(self)@.len() >= BRIDGE_CAPACITY ==> {
                &&& !accepted
                &&& final(self)@ == old(self)@
            },
    {
        if self.queue.len() < BRIDGE_CAPACITY {
            self.queue.push_back(event);
            true
        } else {
            false
        }
    }

    /// Consumer side: return the oldest event if one is queued, otherwise
    /// nothing, immediately. No event is ever delivered twice.
    pub fn poll(&mut self) -> (event: Option<NoteEvent>)
        ensures
            old(self)@.len() == 0 ==> {
                &&& event is None
                &&& final(self)@ == old(self)@
            },
            old(self)@.len() > 0 ==> {
                &&& event == Some(old(self)@[0])
                &&& final(self)@ == old(self)@.drop_first()
            },
    {
        self.queue.pop_front()
    }
}

/// Law: events pass the bridge in FIFO order, one per poll, none
/// duplicated and none reordered. For any three events pushed into an
/// empty queue, the queue's contents deliver exactly those events in
/// push order and then nothing.
pub proof fn lemma_bridge_fifo(
    s: Seq<NoteEvent>,
    a: NoteEvent,
    b: NoteEvent,
    c: NoteEvent,
)
    requires
        s.len() == 0,
    ensures
        s.push(a).push(b).push(c)[0] == a,
        s.push(a).push(b).push(c).drop_first() == s.push(b).push(c),
        s.push(b).push(c)[0] == b,
        s.push(b).push(c).drop_first() == s.push(c),
        s.push(c)[0] == c,
        s.push(c).drop_first() == s,
{
    assert(s.push(a).push(b).push(c).drop_first() =~= s.push(b).push(c));
    assert(s.push(b).push(c).drop_first() =~= s.push(c));
    assert(s.push(c).drop_first() =~= s);
}

} // verus!
