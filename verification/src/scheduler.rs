//! The event scheduler: it hands the events of a block to the tracker when
//! their sample has come.

use vstd::prelude::*;
use crate::event::{in_order, is_due, Event};
use crate::smoother::Retarget;
use crate::tracker::NoteTracker;

verus! {

/// Where a dispatch at the sample `index` stops that starts at the event
/// `from`: at the first event from there on that is not due yet, or behind the
/// last event.
pub open spec fn due_end<T>(events: Seq<Event<T>>, from: nat, index: nat) -> nat
    decreases events.len() - from,
{
    if from < events.len() && is_due(events[from as int], index) {
        due_end(events, from + 1, index)
    } else {
        from
    }
}

/// The events that a dispatch at the sample `index` hands on when it starts at
/// the event `from`.
pub open spec fn due_span<T>(events: Seq<Event<T>>, from: nat, index: nat) -> Seq<Event<T>> {
    if from <= events.len() {
        events.subrange(from as int, due_end(events, from, index) as int)
    } else {
        Seq::empty()
    }
}

/// A dispatch stops within the events, every event it passes is due, and the
/// event it stops at is not.
pub proof fn lemma_due_end<T>(events: Seq<Event<T>>, from: nat, index: nat)
    requires
        from <= events.len(),
    ensures
        from <= due_end(events, from, index) <= events.len(),
        forall|k: int|
            from <= k < due_end(events, from, index) ==> is_due(#[trigger] events[k], index),
        due_end(events, from, index) < events.len() ==> !is_due(
            events[due_end(events, from, index) as int],
            index,
        ),
    decreases events.len() - from,
{
    if from < events.len() && is_due(events[from as int], index) {
        lemma_due_end(events, from + 1, index);
    }
}

/// A dispatch that starts where an earlier one at the same sample has passed
/// stops where that one stops.
pub proof fn lemma_due_end_resumes<T>(events: Seq<Event<T>>, from: nat, mid: nat, index: nat)
    requires
        from <= mid <= due_end(events, from, index),
    ensures
        due_end(events, mid, index) == due_end(events, from, index),
    decreases mid - from,
{
    if from < mid {
        assert(from < events.len() && is_due(events[from as int], index)) by {
            if !(from < events.len() && is_due(events[from as int], index)) {
                assert(due_end(events, from, index) == from);
            }
        }
        lemma_due_end_resumes(events, from + 1, mid, index);
    }
}

/// What is due at a sample is due at every later one: a later dispatch from
/// the same event gets at least as far.
pub proof fn lemma_due_end_grows<T>(events: Seq<Event<T>>, from: nat, index: nat, later: nat)
    requires
        index <= later,
    ensures
        due_end(events, from, index) <= due_end(events, from, later),
        from <= due_end(events, from, index),
    decreases events.len() - from,
{
    if from < events.len() && is_due(events[from as int], index) {
        lemma_due_end_grows(events, from + 1, index, later);
    } else if from < events.len() && is_due(events[from as int], later) {
        lemma_due_end_grows(events, from + 1, later, later);
    }
}

/// Events that stand in the order of their offsets are handed on when they are
/// due, all of them and no others: a dispatch from the start of the block
/// stops behind the last event that is due.
pub proof fn lemma_due_end_in_order<T>(events: Seq<Event<T>>, index: nat)
    requires
        in_order(events),
    ensures
        due_end(events, 0, index) <= events.len(),
        forall|k: int|
            0 <= k < events.len() ==> (k < due_end(events, 0, index) <==> is_due(
                #[trigger] events[k],
                index,
            )),
{
    lemma_due_end(events, 0, index);
    let end = due_end(events, 0, index);
    assert forall|k: int| 0 <= k < events.len() implies (k < end <==> is_due(
        #[trigger] events[k],
        index,
    )) by {
        if k >= end {
            assert(events[end as int].sample_offset <= events[k].sample_offset);
        }
    }
}

/// The place of the scheduler among the events of the current block.
#[derive(Clone, Copy, Debug, PartialEq, Eq)]
pub struct EventScheduler {
    cursor: usize,
}

impl View for EventScheduler {
    type V = nat;

    /// The number of events of the block that were handed on.
    closed spec fn view(&self) -> nat {
        self.cursor as nat
    }
}

impl EventScheduler {
    /// A scheduler at the start of a block.
    pub fn new() -> (scheduler: Self)
        ensures
            scheduler@ == 0,
    {
        EventScheduler { cursor: 0 }
    }

    /// The number of events of the block that were handed on.
    pub fn cursor(&self) -> (cursor: usize)
        ensures
            cursor == self@,
    {
        self.cursor
    }

    /// Starts a new block: no event of it was handed on yet.
    pub fn begin_block(&mut self)
        ensures
            final(self)@ == 0,
    {
        self.cursor = 0;
    }

    /// Hands to the tracker, in their order, the events that are due at the
    /// sample `index` and were not handed on before, and stops at the first
    /// that is not due. Gives back the amplitude target that stands after
    /// them, if one of them set one.
    pub fn dispatch<T: Copy>(
        &mut self,
        events: &[Event<T>],
        index: u32,
        tracker: &mut NoteTracker<T>,
        sample_rate: u32,
    ) -> (retarget: Option<Retarget<T>>)
        ensures
            final(self)@ == due_end(events@, old(self)@, index as nat),
            final(tracker)@ == old(tracker)@.after_all(
                due_span(events@, old(self)@, index as nat),
                sample_rate,
            ),
            retarget == old(tracker)@.last_retarget(
                due_span(events@, old(self)@, index as nat),
                sample_rate,
            ),
            final(tracker)@.wf(),
    {
        let ghost start = self.cursor as int;
        let ghost before = tracker@;
        let mut retarget: Option<Retarget<T>> = None;
        proof {
            use_type_invariant(&*tracker);
        }
        if self.cursor > events.len() {
            return None;
        }
        assert(events@.subrange(start, start) =~= Seq::<Event<T>>::empty());
        while self.cursor < events.len() && events[self.cursor].sample_offset <= index
            invariant
                0 <= start <= self.cursor <= events.len(),
                due_end(events@, start as nat, index as nat) == due_end(
                    events@,
                    self.cursor as nat,
                    index as nat,
                ),
                tracker@ == before.after_all(
                    events@.subrange(start, self.cursor as int),
                    sample_rate,
                ),
                retarget == before.last_retarget(
                    events@.subrange(start, self.cursor as int),
                    sample_rate,
                ),
                tracker@.wf(),
            decreases events.len() - self.cursor,
        {
            let event = events[self.cursor];
            proof {
                let span = events@.subrange(start, self.cursor as int + 1);
                assert(span.drop_last() =~= events@.subrange(start, self.cursor as int));
                assert(span.last() == event);
            }
            match tracker.apply(&event, sample_rate) {
                Some(new_target) => {
                    retarget = Some(new_target);
                },
                None => {},
            }
            self.cursor = self.cursor + 1;
        }
        retarget
    }
}

} // verus!
