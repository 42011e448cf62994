//! The merged result of dispatching one event.
//!
//! An action carries a redraw flag, a stop flag (the event was consumed
//! and must not propagate further), the sound-effect identifiers to play
//! this tick, and an optional returned value for the caller.

use vstd::prelude::*;

verus! {

#[derive(Debug)]
pub struct Action<A> {
    pub redraw: bool,
    pub stop: bool,
    pub sounds: Vec<u32>,
    pub value: Option<A>,
}

impl<A> Action<A> {
    /// An action that asks for nothing: the event was not handled.
    pub fn ignore() -> (a: Action<A>)
        ensures
            !a.redraw,
            !a.stop,
            a.sounds@ == Seq::<u32>::empty(),
            a.value is None,
    {
        Action { redraw: false, stop: false, sounds: Vec::new(), value: None }
    }

    /// An action that asks for a redraw but lets the event propagate.
    pub fn redraw() -> (a: Action<A>)
        ensures
            a.redraw,
            !a.stop,
            a.sounds@ == Seq::<u32>::empty(),
            a.value is None,
    {
        Action { redraw: true, stop: false, sounds: Vec::new(), value: None }
    }

    /// Asks for a redraw exactly when `redraw` holds.
    pub fn redraw_if(redraw: bool) -> (a: Action<A>)
        ensures
            a.redraw == redraw,
            !a.stop,
            a.sounds@ == Seq::<u32>::empty(),
            a.value is None,
    {
        Action { redraw, stop: false, sounds: Vec::new(), value: None }
    }

    /// Whether the event must stop propagating.  A returned value always
    /// stops propagation.
    pub fn should_stop(&self) -> (r: bool)
        ensures
            r == (self.stop || self.value is Some),
    {
        self.stop || self.value.is_some()
    }

    /// Whether anyone asked for a redraw.
    pub fn should_redraw(&self) -> (r: bool)
        ensures
            r == self.redraw,
    {
        self.redraw
    }

    /// The same action, consuming the event.
    pub fn and_stop(self) -> (a: Action<A>)
        ensures
            a == (Action { stop: true, ..self }),
    {
        Action { stop: true, ..self }
    }

    /// The same action, returning `value` to the caller (and therefore
    /// consuming the event).
    pub fn and_return(self, value: A) -> (a: Action<A>)
        ensures
            a.redraw == self.redraw,
            a.stop,
            a.sounds == self.sounds,
            a.value == Some(value),
    {
        Action { stop: true, value: Some(value), ..self }
    }

    /// The same action with one more sound to play this tick.
    pub fn and_play_sound(self, sound: u32) -> (a: Action<A>)
        ensures
            a.redraw == self.redraw,
            a.stop == self.stop,
            a.sounds@ == self.sounds@.push(sound),
            a.value == self.value,
    {
        let Action { redraw, stop, mut sounds, value } = self;
        sounds.push(sound);
        Action { redraw, stop, sounds, value }
    }

    /// Adds one more sound to play this tick.
    pub fn also_play_sound(&mut self, sound: u32)
        ensures
            final(self).redraw == old(self).redraw,
            final(self).stop == old(self).stop,
            final(self).sounds@ == old(self).sounds@.push(sound),
            final(self).value == old(self).value,
    {
        self.sounds.push(sound);
    }

    /// Also asks for a redraw.
    pub fn also_redraw(&mut self)
        ensures
            *final(self) == (Action { redraw: true, ..*old(self) }),
    {
        self.redraw = true;
    }

    /// Removes and returns the returned value, leaving the rest intact.
    pub fn take_value(&mut self) -> (v: Option<A>)
        ensures
            v == old(self).value,
            final(self).value is None,
            final(self).redraw == old(self).redraw,
            final(self).stop == old(self).stop,
            final(self).sounds == old(self).sounds,
    {
        self.value.take()
    }

    /// The same action without its returned value; the stop flag is kept,
    /// so a handled event still stops propagating.
    pub fn but_no_value(self) -> (a: Action<A>)
        ensures
            a.redraw == self.redraw,
            a.stop == self.stop,
            a.sounds == self.sounds,
            a.value is None,
    {
        Action { value: None, ..self }
    }

    /// Removes and returns the sounds accumulated this tick.
    pub fn drain_sounds(&mut self) -> (s: Vec<u32>)
        ensures
            s == old(self).sounds,
            final(self).sounds@ == Seq::<u32>::empty(),
            final(self).redraw == old(self).redraw,
            final(self).stop == old(self).stop,
            final(self).value == old(self).value,
    {
        let mut sounds = Vec::new();
        core::mem::swap(&mut sounds, &mut self.sounds);
        sounds
    }

    /// Folds another action into this one: flags are or-ed, sounds are
    /// appended in order, and the first returned value wins.
    pub fn merge(&mut self, other: Action<A>)
        ensures
            final(self).redraw == (old(self).redraw || other.redraw),
            final(self).stop == (old(self).stop || other.stop),
            final(self).sounds@ == old(self).sounds@ + other.sounds@,
            final(self).value == if old(self).value is Some {
                old(self).value
            } else {
                other.value
            },
    {
        let Action { redraw, stop, mut sounds, value } = other;
        self.redraw = self.redraw || redraw;
        self.stop = self.stop || stop;
        self.sounds.append(&mut sounds);
        if self.value.is_none() {
            self.value = value;
        }
        proof {
            assert(final(self).sounds@ == old(self).sounds@ + other.sounds@);
        }
    }
}

} // verus!
