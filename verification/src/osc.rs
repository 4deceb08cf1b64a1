//! The block processor: it merges the events of a block into its samples and
//! plans each sample.
//!
//! For every sample of a block the oscillator hands on the events that are
//! due, then says in a [`SamplePlan`] what the sample is made of. The caller
//! keeps the three moving values, phase, amplitude and gain, and follows the
//! plan: if there is a new amplitude target, fix the amplitude's increment from
//! it; move the amplitude and the gain as their motions say; read the waveform
//! at the phase, then move the phase on by the frequency of the pitch over the
//! sample rate. The sample is the product of the waveform, the amplitude and
//! the gain, and goes to every channel alike.

use vstd::prelude::*;
use crate::event::{in_order, is_due, Event};
use crate::scheduler::{
    due_end,
    due_span,
    lemma_due_end,
    lemma_due_end_grows,
    lemma_due_end_in_order,
    lemma_due_end_resumes,
    EventScheduler,
};
use crate::smoother::{
    lemma_stepped_by,
    lemma_stepped_by_one_more,
    Motion,
    Retarget,
    Smoother,
    SmootherState,
};
use crate::tracker::{
    lemma_after_all_joins,
    lemma_after_all_keeps_settings,
    lemma_last_retarget_stands,
    lemma_same_voice_is_kept,
    lemma_unheard_without_note_on,
    lemma_wf_is_kept,
    NoteState,
    NoteTracker,
};

verus! {

/// The time in milliseconds that the amplitude takes to follow a key.
pub const AMPLITUDE_SMOOTHING_MS: u32 = 5;

/// The time in milliseconds that the gain takes to follow its control.
pub const GAIN_SMOOTHING_MS: u32 = 3;

/// The waveform that the oscillator reads at its phase.
#[derive(Clone, Copy, Debug, PartialEq, Eq)]
pub enum OscMode {
    /// The sine of the phase, one turn for one cycle.
    Sine,
}

/// What the phase does after the waveform was read.
#[derive(Clone, Copy, Debug, PartialEq, Eq)]
pub enum PhaseMove {
    /// It moves on by the frequency over the sample rate and wraps at one
    /// cycle.
    Advance,
    /// It stays, since there is no sample rate to divide by.
    Freeze,
}

/// What the processor tells its host at the end of a block.
#[derive(Clone, Copy, Debug, PartialEq, Eq)]
pub enum ProcessStatus {
    /// The oscillator has no end of its own: go on calling it.
    KeepAlive,
}

/// What one sample is made of.
#[derive(Debug, PartialEq)]
pub struct SamplePlan<T> {
    /// The note whose frequency the oscillator runs at; with none, it runs at
    /// the base frequency.
    pub pitch: Option<u8>,
    /// The waveform to read.
    pub mode: OscMode,
    /// What the phase does after the reading.
    pub phase: PhaseMove,
    /// The amplitude target that the events of this sample set, if they set
    /// one: it holds from this sample on.
    pub retarget: Option<Retarget<T>>,
    /// What the amplitude does in this sample.
    pub amplitude: Motion<T>,
    /// What the gain does in this sample.
    pub gain: Motion<T>,
}

impl<T: Copy> Clone for SamplePlan<T> {
    fn clone(&self) -> (copy: Self)
        ensures
            copy == *self,
    {
        *self
    }
}

impl<T: Copy> Copy for SamplePlan<T> {

}

/// What the oscillator is between two samples.
pub struct OscState<T> {
    /// The sample rate in hertz: 1 until a session sets it; zero stands for
    /// no rate.
    pub sample_rate: u32,
    pub mode: OscMode,
    pub notes: NoteState<T>,
    /// The number of events of the current block that were handed on.
    pub cursor: nat,
    pub gain: SmootherState<T>,
    /// The gain that a reset goes back to.
    pub rest_gain: T,
}

impl<T> OscState<T> {
    /// The oscillator as it is made: a sample rate of 1 to hold the place of
    /// the session's, no note, the amplitude at rest on `silence` and the gain
    /// at rest on `gain`.
    pub open spec fn power_on(silence: T, gain: T) -> Self {
        OscState {
            sample_rate: 1,
            mode: OscMode::Sine,
            notes: NoteState::idle(silence, AMPLITUDE_SMOOTHING_MS),
            cursor: 0,
            gain: SmootherState::resting(gain, GAIN_SMOOTHING_MS),
            rest_gain: gain,
        }
    }

    /// What holds of every oscillator: its tracker is well formed.
    pub open spec fn wf(self) -> bool {
        self.notes.wf()
    }

    /// The oscillator after a reset: as it was made, but for the sample rate
    /// and the waveform, which belong to the session.
    pub open spec fn rested(self) -> Self {
        OscState {
            notes: NoteState::idle(self.notes.silence, self.notes.amplitude.time_ms),
            cursor: 0,
            gain: SmootherState::resting(self.rest_gain, self.gain.time_ms),
            ..self
        }
    }

    /// The oscillator at the start of a block.
    pub open spec fn begun(self) -> Self {
        OscState { cursor: 0, ..self }
    }

    /// What the phase does at this sample rate.
    pub open spec fn phase_move(self) -> PhaseMove {
        if self.sample_rate > 0 {
            PhaseMove::Advance
        } else {
            PhaseMove::Freeze
        }
    }

    /// The events that are handed on at the sample `index`.
    pub open spec fn heard_at(self, events: Seq<Event<T>>, index: nat) -> Seq<Event<T>> {
        due_span(events, self.cursor, index)
    }

    /// The tracker in the sample `index`, once the events of that sample were
    /// handed to it.
    pub open spec fn notes_in(self, events: Seq<Event<T>>, index: nat) -> NoteState<T> {
        self.notes.after_all(self.heard_at(events, index), self.sample_rate)
    }

    /// The plan of the sample `index`: the events that are due are heard
    /// first, and the sample is made of what stands after them.
    pub open spec fn plan(self, events: Seq<Event<T>>, index: nat) -> SamplePlan<T> {
        SamplePlan {
            pitch: self.notes_in(events, index).held,
            mode: self.mode,
            phase: self.phase_move(),
            retarget: self.notes.last_retarget(self.heard_at(events, index), self.sample_rate),
            amplitude: self.notes_in(events, index).amplitude.motion(),
            gain: self.gain.motion(),
        }
    }

    /// The oscillator after the sample `index`: amplitude and gain have moved
    /// by one step each.
    pub open spec fn after_sample(self, events: Seq<Event<T>>, index: nat) -> Self {
        OscState {
            notes: self.notes_in(events, index).ticked(),
            cursor: due_end(events, self.cursor, index),
            gain: self.gain.stepped(),
            ..self
        }
    }

    /// The oscillator after the first `samples` samples of a block.
    pub open spec fn sampled(self, events: Seq<Event<T>>, samples: nat) -> Self
        decreases samples,
    {
        if samples == 0 {
            self
        } else {
            self.sampled(events, (samples - 1) as nat).after_sample(events, (samples - 1) as nat)
        }
    }

    /// The plan of the sample `index` of a block that starts from this state.
    pub open spec fn plan_at(self, events: Seq<Event<T>>, index: nat) -> SamplePlan<T> {
        self.begun().sampled(events, index).plan(events, index)
    }

    /// The oscillator after a block of `samples` samples.
    pub open spec fn after_block(self, events: Seq<Event<T>>, samples: nat) -> Self {
        self.begun().sampled(events, samples)
    }
}

/// Neither a sample nor a block nor a reset breaks [`OscState::wf`].
pub proof fn lemma_block_keeps_wf<T>(s: OscState<T>, events: Seq<Event<T>>, samples: nat)
    requires
        s.wf(),
    ensures
        s.after_block(events, samples).wf(),
        s.after_block(events, samples).after_sample(events, samples).wf(),
        s.rested().wf(),
    decreases samples,
{
    if samples > 0 {
        lemma_block_keeps_wf(s, events, (samples - 1) as nat);
    }
    let before = s.after_block(events, samples);
    let heard = before.heard_at(events, samples);
    lemma_wf_is_kept(before.notes, heard, before.sample_rate);
    lemma_wf_is_kept(
        before.notes.after_all(heard, before.sample_rate),
        Seq::empty(),
        before.sample_rate,
    );
}

/// A block leaves what belongs to the session as it is: the sample rate, the
/// waveform, the level of silence, the gain to rest on and the smoothing
/// times.
pub proof fn lemma_block_keeps_session<T>(s: OscState<T>, events: Seq<Event<T>>, samples: nat)
    ensures
        s.after_block(events, samples).sample_rate == s.sample_rate,
        s.after_block(events, samples).mode == s.mode,
        s.after_block(events, samples).rest_gain == s.rest_gain,
        s.after_block(events, samples).notes.silence == s.notes.silence,
        s.after_block(events, samples).notes.amplitude.time_ms == s.notes.amplitude.time_ms,
        s.after_block(events, samples).gain.time_ms == s.gain.time_ms,
    decreases samples,
{
    if samples > 0 {
        let index = (samples - 1) as nat;
        lemma_block_keeps_session(s, events, index);
        let before = s.after_block(events, index);
        lemma_after_all_keeps_settings(
            before.notes,
            before.heard_at(events, index),
            before.sample_rate,
        );
    }
}

/// The gain moves by one step in every sample, no more and no less: what a
/// block does to it is what as many steps do, and the plan of a sample has
/// the motion of the step that is its turn.
pub proof fn lemma_gain_steps_once_a_sample<T>(
    s: OscState<T>,
    events: Seq<Event<T>>,
    samples: nat,
)
    ensures
        s.after_block(events, samples).gain == s.gain.stepped_by(samples),
        s.plan_at(events, samples).gain == s.gain.stepped_by(samples).motion(),
    decreases samples,
{
    if samples > 0 {
        lemma_gain_steps_once_a_sample(s, events, (samples - 1) as nat);
        lemma_stepped_by_one_more(s.gain, (samples - 1) as nat);
    }
}

/// Within a block the scheduler keeps up with the samples: after the sample
/// `index` it has handed on the events that a dispatch from the start of the
/// block reaches at that sample. Where the events stand in the order of their
/// offsets these are all the events due by then, and no others.
pub proof fn lemma_cursor_follows_samples<T>(s: OscState<T>, events: Seq<Event<T>>, index: nat)
    ensures
        s.after_block(events, index + 1).cursor == due_end(events, 0, index),
        in_order(events) ==> forall|k: int|
            0 <= k < events.len() ==> (k < s.after_block(events, index + 1).cursor <==> is_due(
                #[trigger] events[k],
                index,
            )),
    decreases index,
{
    let before = s.after_block(events, index);
    assert(s.after_block(events, index + 1) == before.after_sample(events, index));
    if index > 0 {
        lemma_cursor_follows_samples(s, events, (index - 1) as nat);
        lemma_due_end_grows(events, 0, (index - 1) as nat, index);
        lemma_due_end_resumes(events, 0, before.cursor, index);
    }
    if in_order(events) {
        lemma_due_end_in_order(events, index);
    }
}

/// An event does not reach back. Where the events from the `kept`-th on are
/// not due before the sample `samples`, the samples before it are planned as
/// if those events were not there, and the oscillator comes to that sample in
/// the state it would have without them.
pub proof fn lemma_later_events_wait<T>(
    s: OscState<T>,
    events: Seq<Event<T>>,
    kept: nat,
    samples: nat,
)
    requires
        kept <= events.len(),
        forall|j: int| kept <= j < events.len() ==> (#[trigger] events[j]).sample_offset >= samples,
    ensures
        s.after_block(events, samples) == s.after_block(events.take(kept as int), samples),
        s.after_block(events, samples).cursor <= kept,
        forall|i: nat|
            i < samples ==> #[trigger] s.plan_at(events, i) == s.plan_at(
                events.take(kept as int),
                i,
            ),
    decreases samples,
{
    if samples > 0 {
        let index = (samples - 1) as nat;
        let fewer = events.take(kept as int);
        lemma_later_events_wait(s, events, kept, index);
        let before = s.after_block(events, index);
        lemma_span_without_later_events(events, kept, before.cursor, index);
        assert(s.after_block(events, samples) == before.after_sample(events, index));
        assert(s.after_block(fewer, samples) == before.after_sample(fewer, index));
        assert(s.plan_at(events, index) == s.plan_at(fewer, index));
        lemma_due_end(fewer, before.cursor, index);
    }
}

/// A dispatch that starts at or before the `kept`-th event, at a sample at
/// which the events from that one on are not due, hands on what it would
/// without them.
proof fn lemma_span_without_later_events<T>(
    events: Seq<Event<T>>,
    kept: nat,
    from: nat,
    index: nat,
)
    requires
        from <= kept <= events.len(),
        forall|j: int| kept <= j < events.len() ==> (#[trigger] events[j]).sample_offset > index,
    ensures
        due_end(events, from, index) == due_end(events.take(kept as int), from, index),
        due_span(events, from, index) == due_span(events.take(kept as int), from, index),
    decreases kept - from,
{
    let fewer = events.take(kept as int);
    if from < kept {
        assert(fewer[from as int] == events[from as int]);
        if is_due(events[from as int], index) {
            lemma_span_without_later_events(events, kept, from + 1, index);
        }
    }
    lemma_due_end(fewer, from, index);
    assert(due_span(events, from, index) =~= due_span(fewer, from, index));
}

/// The voice at a sample is what the events up to that sample have made of
/// it, in their order: the note that is held and the level the amplitude moves
/// to are those of the tracker the block started with after the events that
/// were handed on by then. The samples that passed in between have no part in
/// it.
pub proof fn lemma_voice_follows_events<T>(s: OscState<T>, events: Seq<Event<T>>, index: nat)
    ensures
        s.after_block(events, index + 1).notes.same_voice(
            s.notes.after_all(events.take(due_end(events, 0, index) as int), s.sample_rate),
        ),
        s.plan_at(events, index).pitch == s.notes.after_all(
            events.take(due_end(events, 0, index) as int),
            s.sample_rate,
        ).held,
    decreases index,
{
    let rate = s.sample_rate;
    lemma_block_keeps_session(s, events, index);
    let before = s.after_block(events, index);
    let end = due_end(events, 0, index);
    assert(s.after_block(events, index + 1) == before.after_sample(events, index));
    lemma_due_end(events, 0, index);
    if index > 0 {
        lemma_voice_follows_events(s, events, (index - 1) as nat);
        lemma_cursor_follows_samples(s, events, (index - 1) as nat);
        lemma_due_end_grows(events, 0, (index - 1) as nat, index);
        lemma_due_end_resumes(events, 0, before.cursor, index);
    } else {
        assert(events.take(0) =~= Seq::<Event<T>>::empty());
    }
    let passed = events.take(before.cursor as int);
    let heard = before.heard_at(events, index);
    assert(passed + heard =~= events.take(end as int));
    lemma_after_all_joins(s.notes, passed, heard, rate);
    lemma_same_voice_is_kept(before.notes, s.notes.after_all(passed, rate), heard, rate);
    lemma_same_voice_is_kept(
        before.notes.after_all(heard, rate),
        s.notes.after_all(events.take(end as int), rate),
        Seq::empty(),
        rate,
    );
}

/// The amplitude reaches the level an event sent it to with the last step
/// of its ramp, counted from the sample of the event. Where the events of the
/// sample `index` set a target and nothing more becomes due in the `later`
/// samples after it, the amplitude ramps in the samples that come before the
/// end of the ramp and is settled on the target from then on; the pitch stays
/// and no other target comes.
pub proof fn lemma_amplitude_lands<T>(
    s: OscState<T>,
    events: Seq<Event<T>>,
    index: nat,
    later: nat,
)
    requires
        s.plan_at(events, index).retarget is Some,
        due_end(events, 0, index + later) == due_end(events, 0, index),
    ensures
        s.plan_at(events, index).retarget matches Some(retarget) && s.plan_at(
            events,
            index + later,
        ).amplitude == if later + 1 < retarget.steps {
            Motion::Ramp
        } else {
            Motion::Settle(retarget.target)
        },
        later > 0 ==> s.plan_at(events, index + later).retarget is None,
        s.plan_at(events, index + later).pitch == s.plan_at(events, index).pitch,
{
    let before = s.after_block(events, index);
    let voiced = before.notes_in(events, index);
    lemma_last_retarget_stands(before.notes, before.heard_at(events, index), before.sample_rate);
    if later > 0 {
        let then = s.after_block(events, index + later);
        lemma_quiet_samples(s, events, index, later);
        lemma_stepped_by(voiced.amplitude, later);
        assert(then.heard_at(events, index + later) =~= Seq::<Event<T>>::empty());
    } else {
        assert(voiced.amplitude.stepped_by(0) == voiced.amplitude);
    }
}

/// Where nothing becomes due in the `later` samples after the sample `index`,
/// these samples only let the amplitude step on from where the events of that
/// sample left it.
proof fn lemma_quiet_samples<T>(s: OscState<T>, events: Seq<Event<T>>, index: nat, later: nat)
    requires
        later > 0,
        due_end(events, 0, index + later) == due_end(events, 0, index),
    ensures
        s.after_block(events, index + later).cursor == due_end(events, 0, index),
        due_end(events, due_end(events, 0, index), index + later) == due_end(events, 0, index),
        s.after_block(events, index + later).notes == (NoteState {
            amplitude: s.after_block(events, index).notes_in(events, index).amplitude.stepped_by(
                later,
            ),
            ..s.after_block(events, index).notes_in(events, index)
        }),
    decreases later,
{
    let end = due_end(events, 0, index);
    let voiced = s.after_block(events, index).notes_in(events, index);
    let last = (index + later - 1) as nat;
    let then = s.after_block(events, last);
    lemma_due_end(events, 0, index);
    lemma_cursor_follows_samples(s, events, last);
    lemma_due_end_resumes(events, 0, end, index + later);
    assert(s.after_block(events, index + later) == then.after_sample(events, last));
    if later == 1 {
        assert(voiced.amplitude.stepped_by(1) == voiced.amplitude.stepped()) by {
            assert(voiced.amplitude.stepped().stepped_by(0) == voiced.amplitude.stepped());
        }
    } else {
        lemma_due_end_grows(events, 0, index, last);
        lemma_due_end_grows(events, 0, last, index + later);
        lemma_quiet_samples(s, events, index, (later - 1) as nat);
        assert(then.heard_at(events, last) =~= Seq::<Event<T>>::empty());
        lemma_stepped_by_one_more(voiced.amplitude, (later - 1) as nat);
    }
}

/// Without a key there is no sound. Where no note is held at the start of a
/// block and none of its events is a key going down, the tracker stays as it
/// is through the whole block: every sample is planned with no pitch, no new
/// amplitude target, and the amplitude settled on silence.
pub proof fn lemma_silent_without_note_on<T>(s: OscState<T>, events: Seq<Event<T>>, index: nat)
    requires
        s.notes.wf(),
        s.notes.held is None,
        forall|i: int| 0 <= i < events.len() ==> !(#[trigger] events[i].kind is NoteOn),
    ensures
        s.after_block(events, index).notes == s.notes,
        s.plan_at(events, index).pitch is None,
        s.plan_at(events, index).retarget is None,
        s.plan_at(events, index).amplitude == Motion::Settle(s.notes.silence),
    decreases index,
{
    lemma_block_keeps_session(s, events, index);
    if index > 0 {
        lemma_block_keeps_session(s, events, (index - 1) as nat);
        lemma_silent_without_note_on(s, events, (index - 1) as nat);
        let earlier = s.after_block(events, (index - 1) as nat);
        lemma_unheard_in_span(s.notes, events, earlier.cursor, (index - 1) as nat, s.sample_rate);
        assert(s.notes.ticked() == s.notes);
    }
    let before = s.after_block(events, index);
    lemma_unheard_in_span(s.notes, events, before.cursor, index, s.sample_rate);
}

/// What a dispatch hands on is part of the events: where none of them is a
/// key going down and no note is held, nothing of it is heard.
proof fn lemma_unheard_in_span<T>(
    notes: NoteState<T>,
    events: Seq<Event<T>>,
    from: nat,
    index: nat,
    sample_rate: u32,
)
    requires
        notes.held is None,
        forall|i: int| 0 <= i < events.len() ==> !(#[trigger] events[i].kind is NoteOn),
    ensures
        notes.after_all(due_span(events, from, index), sample_rate) == notes,
        notes.last_retarget(due_span(events, from, index), sample_rate) is None,
{
    let span = due_span(events, from, index);
    if from <= events.len() {
        lemma_due_end(events, from, index);
        assert forall|i: int| 0 <= i < span.len() implies !(#[trigger] span[i].kind is NoteOn) by {
            assert(span[i] == events[from + i]);
        }
    }
    lemma_unheard_without_note_on(notes, span, sample_rate);
}

/// The oscillator: one voice, its place in the current block, and the gain.
#[derive(Debug, PartialEq)]
pub struct Osc<T> {
    sample_rate: u32,
    mode: OscMode,
    notes: NoteTracker<T>,
    scheduler: EventScheduler,
    gain: Smoother<T>,
    rest_gain: T,
}

impl<T> View for Osc<T> {
    type V = OscState<T>;

    closed spec fn view(&self) -> OscState<T> {
        OscState {
            sample_rate: self.sample_rate,
            mode: self.mode,
            notes: self.notes@,
            cursor: self.scheduler@,
            gain: self.gain@,
            rest_gain: self.rest_gain,
        }
    }
}

impl<T: Copy> Osc<T> {
    /// An oscillator as it is before its session starts, with a sample rate
    /// of 1 in the place of the session's. `silence` is the level of no sound,
    /// `gain` the gain it starts from.
    pub fn new(silence: T, gain: T) -> (osc: Self)
        ensures
            osc@ == OscState::power_on(silence, gain),
            osc@.wf(),
    {
        Osc {
            sample_rate: 1,
            mode: OscMode::Sine,
            notes: NoteTracker::new(silence, AMPLITUDE_SMOOTHING_MS),
            scheduler: EventScheduler::new(),
            gain: Smoother::new(gain, GAIN_SMOOTHING_MS),
            rest_gain: gain,
        }
    }

    /// Starts a session at `sample_rate` hertz; zero stands for no rate.
    /// Nothing else changes.
    pub fn initialize(&mut self, sample_rate: u32)
        ensures
            final(self)@ == (OscState { sample_rate, ..old(self)@ }),
            final(self)@.wf(),
    {
        proof {
            use_type_invariant(&self.notes);
        }
        self.sample_rate = sample_rate;
    }

    /// Goes back to the state the oscillator was made in: no note, amplitude
    /// and gain at rest where they started. The sample rate and the waveform
    /// stay.
    pub fn reset(&mut self)
        ensures
            final(self)@ == old(self)@.rested(),
            final(self)@.wf(),
    {
        self.notes.reset();
        self.scheduler.begin_block();
        self.gain.reset(self.rest_gain);
    }

    /// The sample rate in hertz: that of the session, and 1 before there is
    /// one.
    pub fn sample_rate(&self) -> (sample_rate: u32)
        ensures
            sample_rate == self@.sample_rate,
    {
        self.sample_rate
    }

    /// The waveform.
    pub fn mode(&self) -> (mode: OscMode)
        ensures
            mode == self@.mode,
    {
        self.mode
    }

    /// Chooses the waveform.
    pub fn set_mode(&mut self, mode: OscMode)
        ensures
            final(self)@ == (OscState { mode, ..old(self)@ }),
            final(self)@.wf(),
    {
        proof {
            use_type_invariant(&self.notes);
        }
        self.mode = mode;
    }

    /// The note that was pressed last, if any was.
    pub fn held_note(&self) -> (held: Option<u8>)
        ensures
            held == self@.notes.held,
    {
        self.notes.held_note()
    }

    /// Sends the gain to a new target, at the session's sample rate.
    pub fn set_gain(&mut self, target: T) -> (retarget: Retarget<T>)
        ensures
            final(self)@ == (OscState {
                gain: old(self)@.gain.retargeted(target, old(self)@.sample_rate),
                ..old(self)@
            }),
            retarget == old(self)@.gain.retarget(target, old(self)@.sample_rate),
            final(self)@.wf(),
    {
        proof {
            use_type_invariant(&self.notes);
        }
        self.gain.set_target(target, self.sample_rate)
    }

    /// Starts a new block: none of its events was handed on yet.
    pub fn begin_block(&mut self)
        ensures
            final(self)@ == old(self)@.begun(),
            final(self)@.wf(),
    {
        proof {
            use_type_invariant(&self.notes);
        }
        self.scheduler.begin_block();
    }

    /// Plans the sample `index` of the current block, whose events are
    /// `events`: hands on the events that are due, then moves amplitude and
    /// gain by one sample. To be called once for each sample, in turn.
    pub fn next_sample(&mut self, events: &[Event<T>], index: u32) -> (plan: SamplePlan<T>)
        ensures
            plan == old(self)@.plan(events@, index as nat),
            final(self)@ == old(self)@.after_sample(events@, index as nat),
            final(self)@.wf(),
    {
        let retarget = self.scheduler.dispatch(events, index, &mut self.notes, self.sample_rate);
        let pitch = self.notes.held_note();
        let amplitude = self.notes.current_amplitude();
        let gain = self.gain.next();
        let phase = if self.sample_rate > 0 {
            PhaseMove::Advance
        } else {
            PhaseMove::Freeze
        };
        SamplePlan { pitch, mode: self.mode, phase, retarget, amplitude, gain }
    }

    /// Plans a block of `block_len` samples with the events `events`, which
    /// the host has put in the order of their offsets. `plans` is emptied and
    /// then holds the plan of every sample, in turn; where it has room for
    /// `block_len` plans beforehand, nothing is allocated.
    pub fn process(
        &mut self,
        events: &[Event<T>],
        block_len: u32,
        plans: &mut Vec<SamplePlan<T>>,
    ) -> (status: ProcessStatus)
        ensures
            status == ProcessStatus::KeepAlive,
            final(self)@ == old(self)@.after_block(events@, block_len as nat),
            final(self)@.wf(),
            final(plans)@.len() == block_len,
            forall|i: int|
                0 <= i < block_len ==> #[trigger] final(plans)@[i] == old(self)@.plan_at(
                    events@,
                    i as nat,
                ),
    {
        let ghost start = self@;
        proof {
            use_type_invariant(&self.notes);
        }
        self.scheduler.begin_block();
        plans.clear();
        let mut index: u32 = 0;
        while index < block_len
            invariant
                index <= block_len,
                self@.wf(),
                self@ == start.begun().sampled(events@, index as nat),
                plans@.len() == index,
                forall|i: int|
                    0 <= i < index ==> #[trigger] plans@[i] == start.plan_at(events@, i as nat),
            decreases block_len - index,
        {
            let plan = self.next_sample(events, index);
            plans.push(plan);
            index = index + 1;
        }
        ProcessStatus::KeepAlive
    }
}

} // verus!
