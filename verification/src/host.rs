//! The keypad and the two timers: the capabilities the interpreter reads
//! and writes, and stand-ins for them that hold a plain value.
//!
//! The interpreter never counts a timer down and never polls a key itself.
//! Whoever owns the real devices counts both timers down sixty times a
//! second and keeps the keypad current; the interpreter only samples and
//! sets them, one call at a time.

use vstd::prelude::*;

verus! {

/// The sixteen-key hexadecimal keypad.
pub trait Keypad {
    /// What this kind of keypad promises of the `key` it reports. A keypad
    /// that says nothing here promises nothing.
    open spec fn reports(&self, key: Option<u8>) -> bool {
        true
    }

    /// The key that is down right now, 0x0 to 0xF, or `None` when no key is.
    /// With several keys down the keypad picks one.
    fn get_pressed_key(&self) -> (key: Option<u8>)
        ensures
            self.reports(key),
    ;
}

/// The sound timer together with the tone it switches.
pub trait Beeper {
    /// What this kind of beeper promises of itself `after` it was started.
    /// A beeper that says nothing here promises nothing.
    open spec fn started(&self, time: u8, after: &Self) -> bool {
        true
    }

    /// Sets the countdown to `time`. The tone sounds until the countdown,
    /// which the beeper runs itself, reaches zero.
    fn start(&mut self, time: u8)
        ensures
            old(self).started(time, final(self)),
    ;
}

/// The delay timer: a byte that counts down to zero on its own.
pub trait Timer {
    /// What this kind of timer promises of itself `after` it was set. A
    /// timer that says nothing here promises nothing.
    open spec fn set_to(&self, val: u8, after: &Self) -> bool {
        true
    }

    /// What this kind of timer promises of the value it shows. A timer that
    /// says nothing here promises nothing.
    open spec fn shows(&self, val: u8) -> bool {
        true
    }

    /// Sets the countdown.
    fn set(&mut self, val: u8)
        ensures
            old(self).set_to(val, final(self)),
    ;

    /// Where the countdown stands.
    fn get(&self) -> (val: u8)
        ensures
            self.shows(val),
    ;
}

/// A keypad whose state is a field.
pub struct DebugKeypad {
    pub currently_pressed: Option<u8>,
}

impl Keypad for DebugKeypad {
    /// The key is the field.
    open spec fn reports(&self, key: Option<u8>) -> bool {
        key == self.currently_pressed
    }

    fn get_pressed_key(&self) -> (key: Option<u8>) {
        self.currently_pressed
    }
}

/// A beeper that records the last countdown it was started with.
pub struct DebugBeeper {
    pub value: u8,
}

impl Beeper for DebugBeeper {
    /// The countdown is in the field.
    open spec fn started(&self, time: u8, after: &Self) -> bool {
        after.value == time
    }

    fn start(&mut self, time: u8) {
        self.value = time;
    }
}

/// A timer that never counts down.
pub struct DebugTimer {
    pub value: u8,
}

impl Timer for DebugTimer {
    /// The value is in the field.
    open spec fn set_to(&self, val: u8, after: &Self) -> bool {
        after.value == val
    }

    /// The value is the field.
    open spec fn shows(&self, val: u8) -> bool {
        val == self.value
    }

    fn get(&self) -> (val: u8) {
        self.value
    }

    fn set(&mut self, val: u8) {
        self.value = val;
    }
}

} // verus!
