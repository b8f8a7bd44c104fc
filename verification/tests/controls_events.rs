use particles::controls::{Controls, Key};
use particles::event::{handle_event, Event, Response};

fn all_off() -> Controls {
    Controls {
        gravity: false,
        wind: false,
        speed_render_mode: false,
        proximity_render_mode: false,
        advanced_render_mode: false,
    }
}

#[test]
fn new_controls_are_all_off() {
    assert_eq!(Controls::new(), all_off());
}

#[test]
fn gravity_only_while_g_is_pressed() {
    let mut c = Controls::new();
    c.apply_key(Key::G, true);
    assert!(c.gravity);
    assert!(!c.wind);
    c.apply_key(Key::G, false);
    assert!(!c.gravity);
}

#[test]
fn any_other_key_event_stops_gravity_and_wind() {
    let mut c = Controls::new();
    c.apply_key(Key::W, true);
    assert!(c.wind);
    c.apply_key(Key::Other, false);
    assert!(!c.wind);
    c.apply_key(Key::G, true);
    c.apply_key(Key::W, true);
    assert!(!c.gravity);
    assert!(c.wind);
}

#[test]
fn render_mode_keys_pick_one_mode() {
    let mut c = Controls::new();
    c.apply_key(Key::B, true);
    assert!(c.speed_render_mode && !c.proximity_render_mode);
    c.apply_key(Key::N, false);
    assert!(!c.speed_render_mode && c.proximity_render_mode);
    c.apply_key(Key::Other, true);
    assert!(!c.speed_render_mode && c.proximity_render_mode);
    c.apply_key(Key::V, true);
    assert!(!c.speed_render_mode && !c.proximity_render_mode);
}

#[test]
fn modes_never_both_on_over_a_sequence() {
    let keys = [Key::B, Key::N, Key::B, Key::A, Key::V, Key::N, Key::G, Key::B, Key::W];
    let mut c = Controls::new();
    for (i, k) in keys.iter().enumerate() {
        c.apply_key(*k, i % 2 == 0);
        assert!(!(c.speed_render_mode && c.proximity_render_mode));
        assert!(!(c.gravity && c.wind));
    }
}

#[test]
fn advanced_mode_stays_on() {
    let mut c = Controls::new();
    c.apply_key(Key::A, false);
    assert!(c.advanced_render_mode);
    for k in [Key::G, Key::W, Key::B, Key::N, Key::V, Key::Other] {
        c.apply_key(k, true);
        assert!(c.advanced_render_mode);
    }
}

#[test]
fn close_request_exits() {
    let mut c = Controls::new();
    assert_eq!(handle_event(&mut c, Event::CloseRequested), Response::Exit);
    assert_eq!(c, all_off());
}

#[test]
fn key_event_updates_and_renders() {
    let mut c = Controls::new();
    let r = handle_event(&mut c, Event::Keyboard { key: Key::G, pressed: true });
    assert_eq!(r, Response::Render);
    assert!(c.gravity);
}

#[test]
fn deadline_and_start_render() {
    let mut c = Controls::new();
    c.apply_key(Key::B, true);
    let before = c;
    assert_eq!(handle_event(&mut c, Event::ResumeTimeReached), Response::Render);
    assert_eq!(handle_event(&mut c, Event::Init), Response::Render);
    assert_eq!(c, before);
}

#[test]
fn other_events_are_ignored() {
    let mut c = Controls::new();
    c.apply_key(Key::W, true);
    let before = c;
    for e in [Event::OtherWindowEvent, Event::OtherNewEvents, Event::Other] {
        assert_eq!(handle_event(&mut c, e), Response::Ignore);
        assert_eq!(c, before);
    }
}
