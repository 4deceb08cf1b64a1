//! The note tracker: one voice, and the last key pressed owns it.

use vstd::prelude::*;
use crate::event::{Event, EventKind};
use crate::smoother::{
    lemma_ramp_steps_is_ceiling,
    ramp_steps,
    Motion,
    Retarget,
    Smoother,
    SmootherState,
};

verus! {

/// What the tracker knows: the note that was pressed last, if any was, the
/// amplitude on its way to the level that note asked for, and the level that
/// counts as silence.
pub struct NoteState<T> {
    pub held: Option<u8>,
    pub amplitude: SmootherState<T>,
    pub silence: T,
}

impl<T> NoteState<T> {
    /// The tracker before any key was pressed: no note, amplitude at rest on
    /// silence.
    pub open spec fn idle(silence: T, time_ms: u32) -> Self {
        NoteState { held: None, amplitude: SmootherState::resting(silence, time_ms), silence }
    }

    /// While no note was ever pressed the voice is shut: the amplitude rests
    /// on silence.
    pub open spec fn wf(self) -> bool {
        self.held is None ==> self.amplitude == SmootherState::resting(
            self.silence,
            self.amplitude.time_ms,
        )
    }

    /// Whether the event takes effect. A key going down always does; a release
    /// or a pressure change only for the note that is held.
    pub open spec fn hears(self, event: Event<T>) -> bool {
        event.kind is NoteOn || self.held == Some(event.note)
    }

    /// The level that the event sends the amplitude to.
    pub open spec fn level_of(self, event: Event<T>) -> T {
        match event.kind {
            EventKind::NoteOn => event.value,
            EventKind::NoteOff => self.silence,
            EventKind::PolyPressure => event.value,
        }
    }

    /// The tracker after the event. Only a key going down changes the held
    /// note, and a release leaves it in place while the amplitude fades.
    pub open spec fn after(self, event: Event<T>, sample_rate: u32) -> Self {
        if self.hears(event) {
            NoteState {
                held: if event.kind is NoteOn {
                    Some(event.note)
                } else {
                    self.held
                },
                amplitude: self.amplitude.retargeted(self.level_of(event), sample_rate),
                silence: self.silence,
            }
        } else {
            self
        }
    }

    /// The new amplitude target that the event brings, if it takes effect.
    pub open spec fn retarget_by(self, event: Event<T>, sample_rate: u32) -> Option<Retarget<T>> {
        if self.hears(event) {
            Some(self.amplitude.retarget(self.level_of(event), sample_rate))
        } else {
            None
        }
    }

    /// The tracker after all the events, first to last.
    pub open spec fn after_all(self, events: Seq<Event<T>>, sample_rate: u32) -> Self
        decreases events.len(),
    {
        if events.len() == 0 {
            self
        } else {
            self.after_all(events.drop_last(), sample_rate).after(events.last(), sample_rate)
        }
    }

    /// The amplitude target that stands after all the events: that of the last
    /// event that took effect, if one did.
    pub open spec fn last_retarget(self, events: Seq<Event<T>>, sample_rate: u32) -> Option<
        Retarget<T>,
    >
        decreases events.len(),
    {
        if events.len() == 0 {
            None
        } else {
            let before = self.after_all(events.drop_last(), sample_rate);
            if before.hears(events.last()) {
                before.retarget_by(events.last(), sample_rate)
            } else {
                self.last_retarget(events.drop_last(), sample_rate)
            }
        }
    }

    /// The tracker one sample later, with nothing heard in between.
    pub open spec fn ticked(self) -> Self {
        NoteState { amplitude: self.amplitude.stepped(), ..self }
    }

    /// Whether two trackers differ at most in how far the amplitude has come
    /// on its ramp: the held note and the amplitude's target are the same.
    pub open spec fn same_voice(self, other: Self) -> bool {
        &&& self.held == other.held
        &&& self.silence == other.silence
        &&& self.amplitude.target == other.amplitude.target
        &&& self.amplitude.time_ms == other.amplitude.time_ms
    }
}

/// The tracker of a single voice.
#[derive(Debug, PartialEq)]
pub struct NoteTracker<T> {
    held: Option<u8>,
    amplitude: Smoother<T>,
    silence: T,
}

impl<T: Copy> Clone for NoteTracker<T> {
    fn clone(&self) -> (copy: Self)
        ensures
            copy == *self,
    {
        *self
    }
}

impl<T: Copy> Copy for NoteTracker<T> {

}

impl<T> View for NoteTracker<T> {
    type V = NoteState<T>;

    closed spec fn view(&self) -> NoteState<T> {
        NoteState { held: self.held, amplitude: self.amplitude@, silence: self.silence }
    }
}

impl<T> NoteTracker<T> {
    /// Holds of every tracker there is.
    #[verifier::type_invariant]
    pub open spec fn shut_while_idle(self) -> bool {
        self@.wf()
    }
}

impl<T: Copy> NoteTracker<T> {
    /// A tracker with no note held, whose amplitude rests on `silence` and
    /// takes `time_ms` milliseconds for each change of level.
    pub fn new(silence: T, time_ms: u32) -> (tracker: Self)
        ensures
            tracker@ == NoteState::idle(silence, time_ms),
    {
        NoteTracker { held: None, amplitude: Smoother::new(silence, time_ms), silence }
    }

    /// Takes one event in, at `sample_rate` hertz, and hands back the new
    /// amplitude target if the event set one.
    pub fn apply(&mut self, event: &Event<T>, sample_rate: u32) -> (retarget: Option<Retarget<T>>)
        ensures
            final(self)@ == old(self)@.after(*event, sample_rate),
            retarget == old(self)@.retarget_by(*event, sample_rate),
            final(self)@.wf(),
    {
        proof {
            use_type_invariant(&*self);
        }
        let heard = match event.kind {
            EventKind::NoteOn => true,
            _ => match self.held {
                Some(note) => note == event.note,
                None => false,
            },
        };
        if !heard {
            return None;
        }
        let level = match event.kind {
            EventKind::NoteOff => self.silence,
            _ => event.value,
        };
        let held = match event.kind {
            EventKind::NoteOn => Some(event.note),
            _ => self.held,
        };
        let mut amplitude = self.amplitude;
        let retarget = amplitude.set_target(level, sample_rate);
        *self = NoteTracker { held, amplitude, silence: self.silence };
        Some(retarget)
    }

    /// The note that was pressed last, whose pitch the voice sounds at; none
    /// before the first key went down.
    pub fn held_note(&self) -> (held: Option<u8>)
        ensures
            held == self@.held,
    {
        self.held
    }

    /// The level that the amplitude moves towards.
    pub fn amplitude_target(&self) -> (target: T)
        ensures
            target == self@.amplitude.target,
    {
        self.amplitude.target()
    }

    /// Advances the amplitude by one sample and says what it does in it. To be
    /// called once for each sample.
    pub fn current_amplitude(&mut self) -> (motion: Motion<T>)
        ensures
            motion == old(self)@.amplitude.motion(),
            final(self)@ == old(self)@.ticked(),
            final(self)@.wf(),
    {
        proof {
            use_type_invariant(&*self);
        }
        let mut amplitude = self.amplitude;
        let motion = amplitude.next();
        *self = NoteTracker { held: self.held, amplitude, silence: self.silence };
        motion
    }

    /// Lets go of the note and puts the amplitude to rest on silence.
    pub fn reset(&mut self)
        ensures
            final(self)@ == NoteState::idle(old(self)@.silence, old(self)@.amplitude.time_ms),
    {
        let mut amplitude = self.amplitude;
        amplitude.reset(self.silence);
        *self = NoteTracker { held: None, amplitude, silence: self.silence };
    }
}

/// Events leave the level of silence and the ramp time as they were.
pub proof fn lemma_after_all_keeps_settings<T>(
    s: NoteState<T>,
    events: Seq<Event<T>>,
    sample_rate: u32,
)
    ensures
        s.after_all(events, sample_rate).silence == s.silence,
        s.after_all(events, sample_rate).amplitude.time_ms == s.amplitude.time_ms,
    decreases events.len(),
{
    if events.len() > 0 {
        lemma_after_all_keeps_settings(s, events.drop_last(), sample_rate);
    }
}

/// The voice stays shut for as long as no key went down: neither events nor
/// samples break [`NoteState::wf`].
pub proof fn lemma_wf_is_kept<T>(s: NoteState<T>, events: Seq<Event<T>>, sample_rate: u32)
    requires
        s.wf(),
    ensures
        s.after_all(events, sample_rate).wf(),
        s.ticked().wf(),
    decreases events.len(),
{
    if events.len() > 0 {
        lemma_wf_is_kept(s, events.drop_last(), sample_rate);
    }
}

/// Hearing two runs of events one after the other is hearing them as one.
pub proof fn lemma_after_all_joins<T>(
    s: NoteState<T>,
    first: Seq<Event<T>>,
    second: Seq<Event<T>>,
    sample_rate: u32,
)
    ensures
        s.after_all(first + second, sample_rate) == s.after_all(first, sample_rate).after_all(
            second,
            sample_rate,
        ),
    decreases second.len(),
{
    if second.len() == 0 {
        assert(first + second =~= first);
    } else {
        lemma_after_all_joins(s, first, second.drop_last(), sample_rate);
        assert((first + second).drop_last() =~= first + second.drop_last());
        assert((first + second).last() == second.last());
    }
}

/// How far a ramp has come does not change what is heard: trackers with the
/// same voice have the same voice after the same events, and the passing of
/// a sample leaves the voice as it is.
pub proof fn lemma_same_voice_is_kept<T>(
    a: NoteState<T>,
    b: NoteState<T>,
    events: Seq<Event<T>>,
    sample_rate: u32,
)
    requires
        a.same_voice(b),
    ensures
        a.after_all(events, sample_rate).same_voice(b.after_all(events, sample_rate)),
        a.ticked().same_voice(b),
    decreases events.len(),
{
    if events.len() > 0 {
        lemma_same_voice_is_kept(a, b, events.drop_last(), sample_rate);
    }
}

/// The amplitude target that is reported is the one in force: after the
/// events the amplitude is at the start of the ramp to that target. Where none
/// is reported, the events have left the tracker as it was.
pub proof fn lemma_last_retarget_stands<T>(
    s: NoteState<T>,
    events: Seq<Event<T>>,
    sample_rate: u32,
)
    ensures
        match s.last_retarget(events, sample_rate) {
            Some(retarget) => {
                &&& s.after_all(events, sample_rate).amplitude.target == retarget.target
                &&& s.after_all(events, sample_rate).amplitude.steps_left == retarget.steps
                &&& retarget.steps == ramp_steps(sample_rate, s.amplitude.time_ms)
            },
            None => s.after_all(events, sample_rate) == s,
        },
    decreases events.len(),
{
    if events.len() > 0 {
        lemma_last_retarget_stands(s, events.drop_last(), sample_rate);
        lemma_after_all_keeps_settings(s, events.drop_last(), sample_rate);
        lemma_ramp_steps_is_ceiling(sample_rate, s.amplitude.time_ms);
    }
}

/// The last key pressed owns the voice. Whatever was heard before, a key
/// going down leaves the tracker as it would have left it with nothing before:
/// the held note and the amplitude's target are those of the new key alone.
pub proof fn lemma_note_on_overrides<T>(
    s: NoteState<T>,
    earlier: Seq<Event<T>>,
    on: Event<T>,
    sample_rate: u32,
)
    requires
        on.kind is NoteOn,
    ensures
        s.after_all(earlier, sample_rate).after(on, sample_rate) == s.after(on, sample_rate),
        s.after_all(earlier.push(on), sample_rate) == s.after(on, sample_rate),
        s.after(on, sample_rate).held == Some(on.note),
        s.after(on, sample_rate).amplitude.target == on.value,
{
    lemma_after_all_keeps_settings(s, earlier, sample_rate);
    assert(earlier.push(on).drop_last() =~= earlier);
}

/// While no key ever went down nothing is heard: releases and pressure
/// changes leave the tracker as it was, and the amplitude gets no target.
pub proof fn lemma_unheard_without_note_on<T>(
    s: NoteState<T>,
    events: Seq<Event<T>>,
    sample_rate: u32,
)
    requires
        s.held is None,
        forall|i: int| 0 <= i < events.len() ==> !(#[trigger] events[i].kind is NoteOn),
    ensures
        s.after_all(events, sample_rate) == s,
        s.last_retarget(events, sample_rate) is None,
    decreases events.len(),
{
    if events.len() > 0 {
        lemma_unheard_without_note_on(s, events.drop_last(), sample_rate);
        assert(!(events[events.len() - 1].kind is NoteOn));
    }
}

} // verus!
