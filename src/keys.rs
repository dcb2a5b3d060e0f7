use vstd::prelude::*;

use crate::session::Event;

verus! {

/// A key as the terminal reports it.
#[derive(PartialEq, Eq, Structural, Clone, Copy, Debug)]
pub enum Key {
    Char(char),
    Up,
    Down,
    Enter,
    /// Any other key.
    Other,
}

/// The operator event that a key press stands for, if any: `j` or down
/// moves down, `k` or up moves up, space toggles the mark, enter confirms
/// and `q` quits.
pub open spec fn key_event(key: Key) -> Option<Event> {
    match key {
        Key::Char('q') => Some(Event::Quit),
        Key::Char('j') | Key::Down => Some(Event::MoveDown),
        Key::Char('k') | Key::Up => Some(Event::MoveUp),
        Key::Char(' ') => Some(Event::ToggleSelect),
        Key::Enter => Some(Event::Confirm),
        _ => None,
    }
}

/// The event for a key; only presses count, releases and repeats are
/// ignored.
pub fn event_for_key(key: Key, pressed: bool) -> (r: Option<Event>)
    ensures
        r == (if pressed { key_event(key) } else { None }),
{
    if !pressed {
        return None;
    }
    match key {
        Key::Char('q') => Some(Event::Quit),
        Key::Char('j') | Key::Down => Some(Event::MoveDown),
        Key::Char('k') | Key::Up => Some(Event::MoveUp),
        Key::Char(' ') => Some(Event::ToggleSelect),
        Key::Enter => Some(Event::Confirm),
        _ => None,
    }
}

} // verus!
