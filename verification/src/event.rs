//! Abstract input events delivered by the host loop.
//!
//! Platform translation is out of scope: the host hands the engine events
//! already reduced to pointer, key, text, quit and clock-tick events.

use vstd::prelude::*;

use crate::geom::Point;

verus! {

/// A set of keyboard modifiers, as a small bit set.
#[derive(Clone, Copy, Debug, PartialEq, Eq, Structural)]
pub struct KeyMod {
    pub bits: u8,
}

impl KeyMod {
    /// No modifier held.
    pub fn none() -> (km: KeyMod)
        ensures
            km.bits == 0x0u8,
    {
        KeyMod { bits: 0x0 }
    }

    /// The shift modifier.
    pub fn shift() -> (km: KeyMod)
        ensures
            km.bits == 0x1u8,
    {
        KeyMod { bits: 0x1 }
    }

    /// The alt modifier.
    pub fn alt() -> (km: KeyMod)
        ensures
            km.bits == 0x2u8,
    {
        KeyMod { bits: 0x2 }
    }

    /// The platform's command (or control) modifier.
    pub fn command() -> (km: KeyMod)
        ensures
            km.bits == 0x4u8,
    {
        KeyMod { bits: 0x4 }
    }

    /// The union of two modifier sets.
    pub fn union(self, other: KeyMod) -> (km: KeyMod)
        ensures
            km.bits == self.bits | other.bits,
    {
        KeyMod { bits: self.bits | other.bits }
    }

    /// Whether every modifier of `other` is also held in `self`.
    pub fn contains(self, other: KeyMod) -> (r: bool)
        ensures
            r == (self.bits & other.bits == other.bits),
    {
        self.bits & other.bits == other.bits
    }
}

/// One abstract input event.  Key codes are carried as plain integers;
/// what they mean is the host's business.
#[derive(Clone, Debug, PartialEq, Eq)]
pub enum Event {
    Quit,
    ClockTick,
    MouseDrag(Point),
    MouseDown(Point),
    MouseUp,
    KeyDown(i32, KeyMod),
    TextInput(String),
}

impl Event {
    /// The event with pointer coordinates shifted by `(dx, dy)`; events
    /// without a position are returned unchanged.
    pub fn translate(&self, dx: i32, dy: i32) -> (ev: Event)
        requires
            self matches Event::MouseDrag(pt) ==> i32::MIN <= pt.x + dx <= i32::MAX
                && i32::MIN <= pt.y + dy <= i32::MAX,
            self matches Event::MouseDown(pt) ==> i32::MIN <= pt.x + dx <= i32::MAX
                && i32::MIN <= pt.y + dy <= i32::MAX,
        ensures
            match *self {
                Event::MouseDrag(pt) => ev == Event::MouseDrag(
                    Point { x: (pt.x + dx) as i32, y: (pt.y + dy) as i32 },
                ),
                Event::MouseDown(pt) => ev == Event::MouseDown(
                    Point { x: (pt.x + dx) as i32, y: (pt.y + dy) as i32 },
                ),
                _ => ev == *self,
            },
    {
        match self {
            Event::MouseDrag(pt) => Event::MouseDrag(pt.offset(dx, dy)),
            Event::MouseDown(pt) => Event::MouseDown(pt.offset(dx, dy)),
            Event::Quit => Event::Quit,
            Event::ClockTick => Event::ClockTick,
            Event::MouseUp => Event::MouseUp,
            Event::KeyDown(code, km) => Event::KeyDown(*code, *km),
            Event::TextInput(text) => Event::TextInput(text.clone()),
        }
    }
}

} // verus!
