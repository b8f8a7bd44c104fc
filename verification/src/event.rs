use vstd::prelude::*;
use crate::controls::{Controls, Key};

verus! {

/// The events of the window's event loop that the simulation tells apart.
#[derive(Clone, Copy, Debug, PartialEq, Eq, Structural)]
pub enum Event {
    /// The window is asked to close.
    CloseRequested,
    /// A key was pressed or released.
    Keyboard { key: Key, pressed: bool },
    /// Any other event of the window.
    OtherWindowEvent,
    /// The loop woke up because the frame's deadline was reached.
    ResumeTimeReached,
    /// The loop has just started.
    Init,
    /// The loop woke up for any other cause.
    OtherNewEvents,
    /// Any other event.
    Other,
}

/// What the event loop does after an event.
#[derive(Clone, Copy, Debug, PartialEq, Eq, Structural)]
pub enum Response {
    /// Leave the loop.
    Exit,
    /// Wait for the next event without drawing.
    Ignore,
    /// Step the simulation, draw a frame and wake up again one frame later.
    Render,
}

/// What the loop does after `event`: it leaves on a close request, steps and
/// draws after a key event, a reached deadline or the start, and otherwise waits.
pub open spec fn response_to(event: Event) -> Response {
    match event {
        Event::CloseRequested => Response::Exit,
        Event::Keyboard { .. } => Response::Render,
        Event::ResumeTimeReached => Response::Render,
        Event::Init => Response::Render,
        _ => Response::Ignore,
    }
}

/// The switches after `event`: only a key event changes them.
pub open spec fn controls_after(c: Controls, event: Event) -> Controls {
    match event {
        Event::Keyboard { key, pressed } => c.after_key(key, pressed),
        _ => c,
    }
}

/// Handles one event of the loop: updates the switches and says what to do next.
pub fn handle_event(controls: &mut Controls, event: Event) -> (r: Response)
    ensures
        r == response_to(event),
        *final(controls) == controls_after(*old(controls), event),
        event is Keyboard ==> r == Response::Render,
        event is Keyboard ==> *final(controls) == old(controls).after_key(
            event->key,
            event->pressed,
        ),
        !(event is Keyboard) ==> *final(controls) == *old(controls),
{
    match event {
        Event::CloseRequested => Response::Exit,
        Event::Keyboard { key, pressed } => {
            controls.apply_key(key, pressed);
            Response::Render
        },
        Event::ResumeTimeReached | Event::Init => Response::Render,
        _ => Response::Ignore,
    }
}

/// Whatever the events, the two tint modes are never on together.
pub proof fn lemma_event_keeps_modes_exclusive(c: Controls, event: Event)
    requires
        c.modes_exclusive(),
    ensures
        controls_after(c, event).modes_exclusive(),
{
}

/// An event that is not drawn for leaves the switches as they were.
pub proof fn lemma_ignored_event_changes_nothing(c: Controls, event: Event)
    requires
        response_to(event) != Response::Render,
    ensures
        controls_after(c, event) == c,
{
}

/// Every key event, pressed or released, is drawn for and applies that key:
/// a release is handled like a press, and turns gravity and wind off.
pub proof fn lemma_every_key_event_renders(c: Controls, key: Key, pressed: bool)
    ensures
        response_to(Event::Keyboard { key, pressed }) == Response::Render,
        controls_after(c, Event::Keyboard { key, pressed }) == c.after_key(key, pressed),
        !controls_after(c, Event::Keyboard { key, pressed: false }).gravity,
        !controls_after(c, Event::Keyboard { key, pressed: false }).wind,
{
}

} // verus!
