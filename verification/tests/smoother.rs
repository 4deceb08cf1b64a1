use blush::smoother::{ramp_len, ramp_span_milli, Motion, Retarget, Smoother};

#[test]
fn ramp_len_rounds_up() {
    assert_eq!(ramp_len(44100, 5), 221);
    assert_eq!(ramp_len(44100, 3), 133);
    assert_eq!(ramp_len(48000, 5), 240);
    assert_eq!(ramp_len(96000, 10), 960);
    assert_eq!(ramp_len(1001, 1), 2);
    assert_eq!(ramp_len(1000, 1), 1);
    assert_eq!(ramp_len(999, 1), 1);
    assert_eq!(ramp_len(1, 1), 1);
}

#[test]
fn ramp_len_is_zero_without_rate_or_time() {
    assert_eq!(ramp_len(0, 5), 0);
    assert_eq!(ramp_len(44100, 0), 0);
    assert_eq!(ramp_len(0, 0), 0);
}

#[test]
fn ramp_len_fits_at_the_limits() {
    assert_eq!(ramp_len(u32::MAX, u32::MAX), 18446744065119618);
    assert_eq!(ramp_len(u32::MAX, 1), 4294968);
    assert_eq!(ramp_len(1, u32::MAX), 4294968);
    assert_eq!(ramp_span_milli(u32::MAX, u32::MAX), 18446744065119617025);
}

#[test]
fn ramp_span_is_rate_times_time() {
    assert_eq!(ramp_span_milli(44100, 5), 220500);
    assert_eq!(ramp_span_milli(44100, 3), 132300);
    assert_eq!(ramp_span_milli(1, 5), 5);
    assert_eq!(ramp_span_milli(0, 5), 0);
    assert_eq!(ramp_span_milli(44100, 0), 0);
}

#[test]
fn new_smoother_rests_on_its_value() {
    let mut smoother = Smoother::new(0.25f32, 5);
    assert_eq!(smoother.target(), 0.25);
    assert_eq!(smoother.steps_left(), 0);
    assert!(smoother.is_settled());
    assert_eq!(smoother.next(), Motion::Settle(0.25));
    assert!(smoother.is_settled());
}

#[test]
fn set_target_starts_a_ramp() {
    let mut smoother = Smoother::new(0.0f32, 5);
    let retarget = smoother.set_target(1.0, 44100);
    assert_eq!(retarget, Retarget { target: 1.0, steps: 221, span_milli: 220500 });
    assert_eq!(smoother.target(), 1.0);
    assert_eq!(smoother.steps_left(), 221);
    assert!(!smoother.is_settled());
}

#[test]
fn smoother_lands_with_the_last_step() {
    let mut smoother = Smoother::new(0.0f32, 5);
    smoother.set_target(1.0, 44100);
    for left in (1..=220u64).rev() {
        assert_eq!(smoother.next(), Motion::Ramp);
        assert_eq!(smoother.steps_left(), left);
    }
    assert_eq!(smoother.next(), Motion::Settle(1.0));
    assert!(smoother.is_settled());
    assert_eq!(smoother.next(), Motion::Settle(1.0));
    assert!(smoother.is_settled());
}

#[test]
fn smoothed_value_converges_without_overshoot() {
    let mut smoother = Smoother::new(0.0f32, 5);
    let mut value = 0.0f32;
    let retarget = smoother.set_target(1.0, 44100);
    assert_eq!(retarget.steps, 221);
    assert_eq!(retarget.span_milli, 220500);
    let increment = (retarget.target - value) / (retarget.span_milli as f32 / 1000.0);
    assert_eq!(increment, 1.0 / 220.5);
    for call in 1..=221 {
        let before = value;
        match smoother.next() {
            Motion::Ramp => value += increment,
            Motion::Settle(target) => value = target,
        }
        assert!(value >= before);
        assert!(value <= 1.0);
        if call < 221 {
            assert!(value < 1.0);
        }
    }
    assert_eq!(value, 1.0);
}

#[test]
fn ramp_of_one_step_lands_at_once() {
    let mut smoother = Smoother::new(0.0f32, 5);
    let retarget = smoother.set_target(0.5, 100);
    assert_eq!(retarget, Retarget { target: 0.5, steps: 1, span_milli: 500 });
    assert_eq!(smoother.next(), Motion::Settle(0.5));
    assert!(smoother.is_settled());
}

#[test]
fn target_without_sample_rate_is_taken_at_once() {
    let mut smoother = Smoother::new(0.0f32, 5);
    let retarget = smoother.set_target(0.75, 0);
    assert_eq!(retarget, Retarget { target: 0.75, steps: 0, span_milli: 0 });
    assert!(smoother.is_settled());
    assert_eq!(smoother.next(), Motion::Settle(0.75));
    assert_eq!(smoother.next(), Motion::Settle(0.75));
}

#[test]
fn new_target_restarts_the_ramp() {
    let mut smoother = Smoother::new(0.0f32, 3);
    smoother.set_target(1.0, 1000);
    assert_eq!(smoother.steps_left(), 3);
    assert_eq!(smoother.next(), Motion::Ramp);
    assert_eq!(smoother.steps_left(), 2);
    let retarget = smoother.set_target(0.5, 2000);
    assert_eq!(retarget, Retarget { target: 0.5, steps: 6, span_milli: 6000 });
    assert_eq!(smoother.steps_left(), 6);
    for _ in 0..5 {
        assert_eq!(smoother.next(), Motion::Ramp);
    }
    assert_eq!(smoother.next(), Motion::Settle(0.5));
}

#[test]
fn smoother_reset_ends_the_ramp() {
    let mut smoother = Smoother::new(0.0f32, 5);
    smoother.set_target(1.0, 44100);
    smoother.next();
    smoother.reset(0.125);
    assert_eq!(smoother.target(), 0.125);
    assert!(smoother.is_settled());
    assert_eq!(smoother.next(), Motion::Settle(0.125));
    let retarget = smoother.set_target(1.0, 44100);
    assert_eq!(retarget.steps, 221);
}

#[test]
fn smoother_copies_are_independent() {
    let mut smoother = Smoother::new(0u32, 2);
    smoother.set_target(9, 1000);
    let mut copy = smoother.clone();
    assert_eq!(copy, smoother);
    assert_eq!(copy.next(), Motion::Ramp);
    assert_eq!(copy.steps_left(), 1);
    assert_eq!(smoother.steps_left(), 2);
}
