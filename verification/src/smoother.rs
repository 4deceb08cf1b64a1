//! The schedule of a linear smoother.
//!
//! A smoothed value moves towards its target by a fixed increment per sample,
//! the distance to the target divided by the length of the ramp, and takes the
//! target itself with the last step: the value neither overshoots nor falls
//! short. The smoother here keeps the target and counts the steps; its owner
//! keeps the moving value and applies the [`Motion`] that each step hands out.

use vstd::prelude::*;

verus! {

/// What the owner of a smoothed value does with it for one sample.
#[derive(Debug, PartialEq)]
pub enum Motion<T> {
    /// Add the increment that was fixed when the target was set.
    Ramp,
    /// Take this value, which is the target.
    Settle(T),
}

impl<T: Copy> Clone for Motion<T> {
    fn clone(&self) -> (copy: Self)
        ensures
            copy == *self,
    {
        *self
    }
}

impl<T: Copy> Copy for Motion<T> {

}

/// A new target for a smoothed value, with the length of the ramp that leads
/// to it. With no steps the value takes the target at once. Otherwise the
/// increment of each step is the distance to the target divided by the length
/// of the ramp, which is the smoothing time times the sample rate and need not
/// be a whole number of samples: `span_milli` thousandths of a sample.
#[derive(Debug, PartialEq)]
pub struct Retarget<T> {
    pub target: T,
    /// The number of samples after which the value is on the target: the
    /// length of the ramp, rounded up.
    pub steps: u64,
    /// The length of the ramp in thousandths of a sample.
    pub span_milli: u64,
}

impl<T: Copy> Clone for Retarget<T> {
    fn clone(&self) -> (copy: Self)
        ensures
            copy == *self,
    {
        *self
    }
}

impl<T: Copy> Copy for Retarget<T> {

}

/// The length of a ramp of `time_ms` milliseconds at `sample_rate` hertz, in
/// thousandths of a sample.
pub open spec fn ramp_span(sample_rate: u32, time_ms: u32) -> nat {
    sample_rate as nat * time_ms as nat
}

/// The number of steps of a ramp of `time_ms` milliseconds at `sample_rate`
/// hertz: its length in samples, rounded up.
pub open spec fn ramp_steps(sample_rate: u32, time_ms: u32) -> nat {
    ((ramp_span(sample_rate, time_ms) + 999) / 1000) as nat
}

/// `ramp_steps` is the least number of samples that covers the length of the
/// ramp: a rate of zero, which stands for no rate, or a time of zero gives no
/// steps at all. Both the length and the steps fit the machine's numbers.
pub proof fn lemma_ramp_steps_is_ceiling(sample_rate: u32, time_ms: u32)
    ensures
        ramp_steps(sample_rate, time_ms) * 1000 >= ramp_span(sample_rate, time_ms),
        ramp_steps(sample_rate, time_ms) * 1000 < ramp_span(sample_rate, time_ms) + 1000,
        ramp_steps(sample_rate, time_ms) == 0 <==> (sample_rate == 0 || time_ms == 0),
        ramp_steps(sample_rate, time_ms) <= ramp_span(sample_rate, time_ms) <= u64::MAX,
{
    let p: nat = sample_rate as nat * time_ms as nat;
    assert(p <= 0xffff_ffff * 0xffff_ffff) by (nonlinear_arith)
        requires
            p == sample_rate as nat * time_ms as nat,
            sample_rate <= 0xffff_ffff,
            time_ms <= 0xffff_ffff,
    ;
    assert(p == 0 <==> (sample_rate == 0 || time_ms == 0)) by (nonlinear_arith)
        requires
            p == sample_rate as nat * time_ms as nat,
    ;
}

/// Computes the length of a ramp in thousandths of a sample, see
/// [`ramp_span`].
pub fn ramp_span_milli(sample_rate: u32, time_ms: u32) -> (span: u64)
    ensures
        span == ramp_span(sample_rate, time_ms),
        span <= 0xffff_ffff * 0xffff_ffff,
{
    let rate: u64 = sample_rate as u64;
    let time: u64 = time_ms as u64;
    assert(rate * time <= 0xffff_ffff * 0xffff_ffff) by (nonlinear_arith)
        requires
            rate <= 0xffff_ffff,
            time <= 0xffff_ffff,
    ;
    rate * time
}

/// Computes the number of steps of a ramp, see [`ramp_steps`].
pub fn ramp_len(sample_rate: u32, time_ms: u32) -> (steps: u64)
    ensures
        steps == ramp_steps(sample_rate, time_ms),
{
    (ramp_span_milli(sample_rate, time_ms) + 999) / 1000
}

/// What a smoother is: the target it moves towards, the steps of the ramp that
/// are still to come, and the time that each new ramp is given.
pub struct SmootherState<T> {
    pub target: T,
    pub steps_left: nat,
    pub time_ms: u32,
}

impl<T> SmootherState<T> {
    /// The smoother at rest on `value`.
    pub open spec fn resting(value: T, time_ms: u32) -> Self {
        SmootherState { target: value, steps_left: 0, time_ms }
    }

    /// The smoother after it was given a new target at `sample_rate` hertz.
    pub open spec fn retargeted(self, target: T, sample_rate: u32) -> Self {
        SmootherState { target, steps_left: ramp_steps(sample_rate, self.time_ms), ..self }
    }

    /// The new target as the owner of the value is told of it.
    pub open spec fn retarget(self, target: T, sample_rate: u32) -> Retarget<T> {
        Retarget {
            target,
            steps: ramp_steps(sample_rate, self.time_ms) as u64,
            span_milli: ramp_span(sample_rate, self.time_ms) as u64,
        }
    }

    /// What the value does in the next sample: it ramps while more than one
    /// step is left, and is on the target otherwise.
    pub open spec fn motion(self) -> Motion<T> {
        if self.steps_left > 1 {
            Motion::Ramp
        } else {
            Motion::Settle(self.target)
        }
    }

    /// The smoother one sample later.
    pub open spec fn stepped(self) -> Self {
        SmootherState {
            steps_left: if self.steps_left > 0 {
                (self.steps_left - 1) as nat
            } else {
                0
            },
            ..self
        }
    }

    /// The smoother `samples` samples later.
    pub open spec fn stepped_by(self, samples: nat) -> Self
        decreases samples,
    {
        if samples == 0 {
            self
        } else {
            self.stepped().stepped_by((samples - 1) as nat)
        }
    }

    /// The smoother after its value and target were both set to `value`.
    pub open spec fn snapped(self, value: T) -> Self {
        SmootherState { target: value, steps_left: 0, ..self }
    }

    /// Whether the value is on the target and stays there.
    pub open spec fn settled(self) -> bool {
        self.steps_left == 0
    }
}

/// Stepping only counts down: after `samples` samples the target is what it
/// was and the steps left are fewer by `samples`, or none.
pub proof fn lemma_stepped_by<T>(s: SmootherState<T>, samples: nat)
    ensures
        s.stepped_by(samples).target == s.target,
        s.stepped_by(samples).time_ms == s.time_ms,
        s.stepped_by(samples).steps_left == if samples <= s.steps_left {
            s.steps_left - samples
        } else {
            0
        },
    decreases samples,
{
    if samples > 0 {
        lemma_stepped_by(s.stepped(), (samples - 1) as nat);
    }
}

/// Stepping sample by sample is the same from either end.
pub proof fn lemma_stepped_by_one_more<T>(s: SmootherState<T>, samples: nat)
    ensures
        s.stepped_by(samples).stepped() == s.stepped_by(samples + 1),
{
    lemma_stepped_by(s, samples);
    lemma_stepped_by(s, samples + 1);
}

/// A value that was given a target reaches it with the last step of the ramp
/// and not before: of the motions that follow the new target, those before the
/// `ramp_steps`-th are ramps, and that one and all later ones settle the value
/// on the target. Where the ramp has no steps, the first motion settles it.
pub proof fn lemma_ramp_lands<T>(s: SmootherState<T>, target: T, sample_rate: u32, earlier: nat)
    ensures
        s.retargeted(target, sample_rate).stepped_by(earlier).motion() == if earlier + 1
            < ramp_steps(sample_rate, s.time_ms) {
            Motion::Ramp
        } else {
            Motion::Settle(target)
        },
        earlier >= ramp_steps(sample_rate, s.time_ms) ==> s.retargeted(
            target,
            sample_rate,
        ).stepped_by(earlier).settled(),
{
    lemma_stepped_by(s.retargeted(target, sample_rate), earlier);
}

/// The schedule of one smoothed value.
#[derive(Debug, PartialEq)]
pub struct Smoother<T> {
    target: T,
    steps_left: u64,
    time_ms: u32,
}

impl<T: Copy> Clone for Smoother<T> {
    fn clone(&self) -> (copy: Self)
        ensures
            copy == *self,
    {
        *self
    }
}

impl<T: Copy> Copy for Smoother<T> {

}

impl<T> View for Smoother<T> {
    type V = SmootherState<T>;

    closed spec fn view(&self) -> SmootherState<T> {
        SmootherState {
            target: self.target,
            steps_left: self.steps_left as nat,
            time_ms: self.time_ms,
        }
    }
}

impl<T: Copy> Smoother<T> {
    /// A smoother at rest on `value`, whose ramps take `time_ms` milliseconds.
    pub fn new(value: T, time_ms: u32) -> (smoother: Self)
        ensures
            smoother@ == SmootherState::resting(value, time_ms),
    {
        Smoother { target: value, steps_left: 0, time_ms }
    }

    /// The value that the smoother moves towards.
    pub fn target(&self) -> (target: T)
        ensures
            target == self@.target,
    {
        self.target
    }

    /// The steps of the current ramp that are still to come.
    pub fn steps_left(&self) -> (steps: u64)
        ensures
            steps == self@.steps_left,
    {
        self.steps_left
    }

    /// Whether the value is on the target and stays there.
    pub fn is_settled(&self) -> (settled: bool)
        ensures
            settled == self@.settled(),
    {
        self.steps_left == 0
    }

    /// Sets the value to move towards and starts a ramp of the smoother's time
    /// at `sample_rate` hertz. A rate of zero, which stands for no rate, gives
    /// a ramp without steps: the value takes the target at once.
    pub fn set_target(&mut self, target: T, sample_rate: u32) -> (retarget: Retarget<T>)
        ensures
            final(self)@ == old(self)@.retargeted(target, sample_rate),
            retarget == old(self)@.retarget(target, sample_rate),
            retarget.steps == ramp_steps(sample_rate, old(self)@.time_ms),
            retarget.span_milli == ramp_span(sample_rate, old(self)@.time_ms),
    {
        let span_milli = ramp_span_milli(sample_rate, self.time_ms);
        let steps = ramp_len(sample_rate, self.time_ms);
        self.target = target;
        self.steps_left = steps;
        Retarget { target, steps, span_milli }
    }

    /// Advances the schedule by one sample and says what the value does in it.
    pub fn next(&mut self) -> (motion: Motion<T>)
        ensures
            motion == old(self)@.motion(),
            final(self)@ == old(self)@.stepped(),
    {
        if self.steps_left > 1 {
            self.steps_left = self.steps_left - 1;
            Motion::Ramp
        } else {
            self.steps_left = 0;
            Motion::Settle(self.target)
        }
    }

    /// Puts value and target on `value` at once, ending any ramp.
    pub fn reset(&mut self, value: T)
        ensures
            final(self)@ == old(self)@.snapped(value),
    {
        self.target = value;
        self.steps_left = 0;
    }
}

} // verus!
