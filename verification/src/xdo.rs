//! What the automation library is asked to do.
//!
//! The calls into the automation library are made by the caller.  Here
//! stand the settings that go with them, the way a scroll is turned into
//! clicks, and the interface of a keyboard that can be driven.

use vstd::prelude::*;
use crate::keys::Key;

verus! {

/// The delay between key presses, in microseconds, unless another one is
/// set.
pub const DEFAULT_DELAY: u64 = 12000;

/// The left mouse button.
pub const MOUSEBUTTON_LEFT: u8 = 1;

/// The middle mouse button.
pub const MOUSEBUTTON_MIDDLE: u8 = 2;

/// The right mouse button.
pub const MOUSEBUTTON_RIGHT: u8 = 3;

/// The button that one notch of the wheel upwards counts as.
pub const MOUSEBUTTON_SCROLL_UP: u8 = 4;

/// The button that one notch of the wheel downwards counts as.
pub const MOUSEBUTTON_SCROLL_DOWN: u8 = 5;

/// The button that one notch of the wheel to the left counts as.
pub const MOUSEBUTTON_SCROLL_LEFT: u8 = 6;

/// The button that one notch of the wheel to the right counts as.
pub const MOUSEBUTTON_SCROLL_RIGHT: u8 = 7;

/// The fourth mouse button.
pub const MOUSEBUTTON_4: u8 = 8;

/// The fifth mouse button.
pub const MOUSEBUTTON_5: u8 = 9;

/// A scroll, as the clicks that make it up.
#[derive(Clone, Copy, Debug, PartialEq, Eq, Structural)]
pub struct Scroll {
    /// The button to click.
    pub button: u8,
    /// How many times to click it.
    pub clicks: u32,
}

/// The clicks that make up a scroll along one axis: one click for each
/// notch, on `backward` for a negative length and on `forward` otherwise.
pub open spec fn scroll_of(length: i32, backward: u8, forward: u8) -> Scroll {
    if length < 0 {
        Scroll { button: backward, clicks: (-length) as u32 }
    } else {
        Scroll { button: forward, clicks: length as u32 }
    }
}

fn scroll(length: i32, backward: u8, forward: u8) -> (scroll: Scroll)
    ensures
        scroll == scroll_of(length, backward, forward),
{
    if length < 0 {
        Scroll { button: backward, clicks: (-(length as i64)) as u32 }
    } else {
        Scroll { button: forward, clicks: length as u32 }
    }
}

/// The settings of a session with the automation library.
#[derive(Clone, Copy, Debug)]
pub struct XdoManaged {
    delay: u64,
}

impl View for XdoManaged {
    type V = u64;

    /// The delay between key presses, in microseconds.
    closed spec fn view(&self) -> u64 {
        self.delay
    }
}

impl Default for XdoManaged {
    /// The settings of a new session.
    fn default() -> (session: XdoManaged)
        ensures
            session@ == DEFAULT_DELAY,
    {
        XdoManaged { delay: DEFAULT_DELAY }
    }
}

impl XdoManaged {
    /// The delay between key presses, in microseconds.
    pub fn delay(&self) -> (delay: u64)
        ensures
            delay == self@,
    {
        self.delay
    }

    /// Sets the delay between key presses, in microseconds.
    pub fn set_delay(&mut self, delay: u64)
        ensures
            final(self)@ == delay,
    {
        self.delay = delay;
    }

    /// The clicks that scroll sideways by `length` notches: to the right
    /// for a positive length, to the left for a negative one.
    pub fn mouse_scroll_x(&self, length: i32) -> (scroll: Scroll)
        ensures
            scroll == scroll_of(length, MOUSEBUTTON_SCROLL_LEFT, MOUSEBUTTON_SCROLL_RIGHT),
    {
        self::scroll(length, MOUSEBUTTON_SCROLL_LEFT, MOUSEBUTTON_SCROLL_RIGHT)
    }

    /// The clicks that scroll by `length` notches: downwards for a positive
    /// length, upwards for a negative one.
    pub fn mouse_scroll_y(&self, length: i32) -> (scroll: Scroll)
        ensures
            scroll == scroll_of(length, MOUSEBUTTON_SCROLL_UP, MOUSEBUTTON_SCROLL_DOWN),
    {
        self::scroll(length, MOUSEBUTTON_SCROLL_UP, MOUSEBUTTON_SCROLL_DOWN)
    }
}

/// A keyboard that can be driven.
pub trait KeyboardControllable {
    /// Types the text.
    fn key_sequence(&mut self, sequence: &str);

    /// Presses the key down.
    fn key_down(&mut self, key: Key);

    /// Releases a key that was pressed down.
    fn key_up(&mut self, key: Key);

    /// Presses the key down and releases it.
    fn key_click(&mut self, key: Key);
}

} // verus!
