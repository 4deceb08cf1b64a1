use blush::event::Event;
use blush::scheduler::EventScheduler;
use blush::smoother::Retarget;
use blush::tracker::NoteTracker;

#[test]
fn new_scheduler_starts_at_the_first_event() {
    assert_eq!(EventScheduler::new().cursor(), 0);
}

#[test]
fn dispatch_hands_on_what_is_due() {
    let events = [
        Event::note_on(0, 60, 0.5f32),
        Event::note_on(4, 62, 0.6),
        Event::note_on(4, 64, 0.7),
        Event::note_on(9, 65, 0.8),
    ];
    let mut scheduler = EventScheduler::new();
    let mut tracker = NoteTracker::new(0.0f32, 5);

    let first = scheduler.dispatch(&events, 0, &mut tracker, 44100);
    assert_eq!(first, Some(Retarget { target: 0.5, steps: 221, span_milli: 220500 }));
    assert_eq!(scheduler.cursor(), 1);
    assert_eq!(tracker.held_note(), Some(60));

    for index in 1..4 {
        assert_eq!(scheduler.dispatch(&events, index, &mut tracker, 44100), None);
        assert_eq!(scheduler.cursor(), 1);
        assert_eq!(tracker.held_note(), Some(60));
    }

    let both = scheduler.dispatch(&events, 4, &mut tracker, 44100);
    assert_eq!(both, Some(Retarget { target: 0.7, steps: 221, span_milli: 220500 }));
    assert_eq!(scheduler.cursor(), 3);
    assert_eq!(tracker.held_note(), Some(64));

    assert_eq!(scheduler.dispatch(&events, 8, &mut tracker, 44100), None);
    assert_eq!(scheduler.cursor(), 3);

    let last = scheduler.dispatch(&events, 9, &mut tracker, 44100);
    assert_eq!(last, Some(Retarget { target: 0.8, steps: 221, span_milli: 220500 }));
    assert_eq!(scheduler.cursor(), 4);
    assert_eq!(tracker.held_note(), Some(65));

    assert_eq!(scheduler.dispatch(&events, 10, &mut tracker, 44100), None);
    assert_eq!(scheduler.cursor(), 4);
}

#[test]
fn dispatch_catches_up_on_skipped_samples() {
    let events = [
        Event::note_on(1, 60, 0.5f32),
        Event::note_on(2, 62, 0.6),
        Event::note_on(30, 64, 0.7),
    ];
    let mut scheduler = EventScheduler::new();
    let mut tracker = NoteTracker::new(0.0f32, 5);
    let retarget = scheduler.dispatch(&events, 20, &mut tracker, 44100);
    assert_eq!(retarget, Some(Retarget { target: 0.6, steps: 221, span_milli: 220500 }));
    assert_eq!(scheduler.cursor(), 2);
    assert_eq!(tracker.held_note(), Some(62));
}

#[test]
fn events_at_one_offset_keep_their_order() {
    let events = [
        Event::note_on(5, 60, 0.5f32),
        Event::note_off(5, 60, 0.0),
        Event::note_on(5, 64, 0.25),
        Event::poly_pressure(5, 64, 0.75),
    ];
    let mut scheduler = EventScheduler::new();
    let mut tracker = NoteTracker::new(0.0f32, 5);
    let retarget = scheduler.dispatch(&events, 5, &mut tracker, 44100);
    assert_eq!(retarget, Some(Retarget { target: 0.75, steps: 221, span_milli: 220500 }));
    assert_eq!(scheduler.cursor(), 4);
    assert_eq!(tracker.held_note(), Some(64));
    assert_eq!(tracker.amplitude_target(), 0.75);
}

#[test]
fn dispatch_reports_the_last_event_that_was_heard() {
    let events = [
        Event::note_on(0, 60, 0.5f32),
        Event::note_off(0, 61, 0.0),
        Event::poly_pressure(0, 62, 0.9),
    ];
    let mut scheduler = EventScheduler::new();
    let mut tracker = NoteTracker::new(0.0f32, 5);
    let retarget = scheduler.dispatch(&events, 0, &mut tracker, 44100);
    assert_eq!(retarget, Some(Retarget { target: 0.5, steps: 221, span_milli: 220500 }));
    assert_eq!(scheduler.cursor(), 3);
    assert_eq!(tracker.held_note(), Some(60));
}

#[test]
fn dispatch_of_unheard_events_moves_only_the_cursor() {
    let events = [Event::note_off(0, 60, 0.0f32), Event::poly_pressure(1, 60, 0.9)];
    let mut scheduler = EventScheduler::new();
    let mut tracker = NoteTracker::new(0.0f32, 5);
    assert_eq!(scheduler.dispatch(&events, 1, &mut tracker, 44100), None);
    assert_eq!(scheduler.cursor(), 2);
    assert_eq!(tracker, NoteTracker::new(0.0f32, 5));
}

#[test]
fn dispatch_stops_at_the_first_event_not_due() {
    let events = [
        Event::note_on(0, 60, 0.5f32),
        Event::note_on(7, 62, 0.6),
        Event::note_on(3, 64, 0.7),
    ];
    let mut scheduler = EventScheduler::new();
    let mut tracker = NoteTracker::new(0.0f32, 5);
    scheduler.dispatch(&events, 3, &mut tracker, 44100);
    assert_eq!(scheduler.cursor(), 1);
    assert_eq!(tracker.held_note(), Some(60));
    scheduler.dispatch(&events, 7, &mut tracker, 44100);
    assert_eq!(scheduler.cursor(), 3);
    assert_eq!(tracker.held_note(), Some(64));
}

#[test]
fn dispatch_without_events_does_nothing() {
    let events: [Event<f32>; 0] = [];
    let mut scheduler = EventScheduler::new();
    let mut tracker = NoteTracker::new(0.0f32, 5);
    assert_eq!(scheduler.dispatch(&events, 100, &mut tracker, 44100), None);
    assert_eq!(scheduler.cursor(), 0);
}

#[test]
fn cursor_behind_the_events_is_left_alone() {
    let long = [
        Event::note_on(0, 60, 0.5f32),
        Event::note_on(0, 62, 0.6),
        Event::note_on(0, 64, 0.7),
    ];
    let short = [Event::note_on(0, 72, 0.9f32)];
    let mut scheduler = EventScheduler::new();
    let mut tracker = NoteTracker::new(0.0f32, 5);
    scheduler.dispatch(&long, 0, &mut tracker, 44100);
    assert_eq!(scheduler.cursor(), 3);
    assert_eq!(scheduler.dispatch(&short, 0, &mut tracker, 44100), None);
    assert_eq!(scheduler.cursor(), 3);
    assert_eq!(tracker.held_note(), Some(64));
}

#[test]
fn begin_block_rewinds_the_cursor() {
    let first = [Event::note_on(0, 60, 0.5f32), Event::note_on(1, 62, 0.6)];
    let second = [Event::note_on(0, 72, 0.9f32)];
    let mut scheduler = EventScheduler::new();
    let mut tracker = NoteTracker::new(0.0f32, 5);
    scheduler.dispatch(&first, 63, &mut tracker, 44100);
    assert_eq!(scheduler.cursor(), 2);
    scheduler.begin_block();
    assert_eq!(scheduler.cursor(), 0);
    let retarget = scheduler.dispatch(&second, 0, &mut tracker, 44100);
    assert_eq!(retarget, Some(Retarget { target: 0.9, steps: 221, span_milli: 220500 }));
    assert_eq!(scheduler.cursor(), 1);
    assert_eq!(tracker.held_note(), Some(72));
}
