//! Note events as the host delivers them for one block.

use vstd::prelude::*;

verus! {

/// What a note event announces.
#[derive(Clone, Copy, Debug, PartialEq, Eq)]
pub enum EventKind {
    /// A key went down: `value` is its velocity.
    NoteOn,
    /// A key went up: `value` is its release velocity, which nothing reads.
    NoteOff,
    /// The pressure on a key changed: `value` is the new pressure.
    PolyPressure,
}

/// One note event. `sample_offset` is the sample of the block at which the
/// event takes effect; `value` lies between nothing and full level.
#[derive(Debug, PartialEq)]
pub struct Event<T> {
    pub kind: EventKind,
    pub note: u8,
    pub value: T,
    pub sample_offset: u32,
}

impl<T: Copy> Clone for Event<T> {
    fn clone(&self) -> (copy: Self)
        ensures
            copy == *self,
    {
        *self
    }
}

impl<T: Copy> Copy for Event<T> {

}

impl<T: Copy> Event<T> {
    /// A key going down at `sample_offset`, with its velocity.
    pub fn note_on(sample_offset: u32, note: u8, velocity: T) -> (event: Self)
        ensures
            event == (Event { kind: EventKind::NoteOn, note, value: velocity, sample_offset }),
    {
        Event { kind: EventKind::NoteOn, note, value: velocity, sample_offset }
    }

    /// A key going up at `sample_offset`, with its release velocity.
    pub fn note_off(sample_offset: u32, note: u8, velocity: T) -> (event: Self)
        ensures
            event == (Event { kind: EventKind::NoteOff, note, value: velocity, sample_offset }),
    {
        Event { kind: EventKind::NoteOff, note, value: velocity, sample_offset }
    }

    /// A change of the pressure on a key at `sample_offset`.
    pub fn poly_pressure(sample_offset: u32, note: u8, pressure: T) -> (event: Self)
        ensures
            event == (Event {
                kind: EventKind::PolyPressure,
                note,
                value: pressure,
                sample_offset,
            }),
    {
        Event { kind: EventKind::PolyPressure, note, value: pressure, sample_offset }
    }
}

/// Whether the events stand in the order of their sample offsets, as a host
/// delivers them. Events at one offset keep the order they arrived in.
pub open spec fn in_order<T>(events: Seq<Event<T>>) -> bool {
    forall|i: int, j: int|
        0 <= i <= j < events.len() ==> events[i].sample_offset <= events[j].sample_offset
}

/// Whether the event takes effect at the sample `index` or before it.
pub open spec fn is_due<T>(event: Event<T>, index: nat) -> bool {
    event.sample_offset <= index
}

} // verus!
