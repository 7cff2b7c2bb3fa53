//! Generic GUI events and data structures: what the core consumes from
//! whatever front end hosts it.
//!
//! Drag positions and offsets are in milli display units; colour
//! channels are fixed-point values in `0 ..= CHANNEL_ONE`.
use vstd::prelude::*;

verus! {

/// Options for the GUI.
pub struct GUIOptions {}

/// Enum representing various types and sequences of key presses.
#[derive(Clone, Copy, Debug, PartialEq, Eq, Structural)]
pub enum Key {
    /// An entered key sequence with possible modifiers.
    Sequence { value: char, control: bool, alt: bool },
    /// Control key pressed by itself.
    PlainControl,
    /// Alt key pressed by itself.
    PlainAlt,
}

/// Key event.
#[derive(Clone, Copy, Debug, PartialEq, Eq, Structural)]
pub enum KeyEvent {
    /// Key press.
    Press(Key),
    /// Key release.
    Release(Key),
}

/// Drag event, in milli display units. Update and end offsets are
/// relative to the begin point.
#[derive(Clone, Copy, Debug, PartialEq, Eq, Structural)]
pub enum DragEvent {
    /// Start of a drag gesture.
    Begin(i64, i64),
    /// Update of a drag gesture.
    Update(i64, i64),
    /// End of a drag gesture.
    End(i64, i64),
}

/// An input event delivered by the host.
#[derive(Clone, Copy, Debug, PartialEq, Eq, Structural)]
pub enum Event {
    /// A key event (press or release).
    Key(KeyEvent),
    /// Drag event motion.
    Drag(DragEvent),
    /// A new colour was chosen (fixed-point channels).
    ColorUpdate { r: u32, g: u32, b: u32, a: u32 },
    /// Window resize.
    Resize,
}

/// Classify a raw key report from the host: a key that produces a
/// character becomes a sequence with its modifier flags; a bare control
/// or alt press becomes its plain marker; anything else is no key event.
pub fn parse_key(
    value: Option<char>,
    control: bool,
    alt: bool,
    control_key: bool,
    alt_key: bool,
) -> (out: Option<Key>)
    ensures
        out == match value {
            Some(v) => Some(Key::Sequence { value: v, control, alt }),
            None => if control_key {
                Some(Key::PlainControl)
            } else if alt_key {
                Some(Key::PlainAlt)
            } else {
                None
            },
        },
{
    if let Some(v) = value {
        Some(Key::Sequence { value: v, control, alt })
    } else {
        if control_key {
            Some(Key::PlainControl)
        } else if alt_key {
            Some(Key::PlainAlt)
        } else {
            None
        }
    }
}

} // verus!
