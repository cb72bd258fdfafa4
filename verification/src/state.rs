//! The interpreter: a register machine together with the host's devices.
//!
//! One call of [`State::execute`] runs one instruction. The interpreter asks
//! the machine what the instruction needs, lets the device concerned serve
//! it, and hands the answer back to the machine. It never waits: an
//! instruction that waits for a key runs again at the next step until a key
//! is down.

use vstd::prelude::*;
use crate::display::Display;
use crate::host::{Beeper, Keypad, Timer};
use crate::machine::{Chip8Error, HostReply, HostRequest, HostRequestView, Machine, MachineView};
use crate::rng::{RandomSource, RngWrapper};

verus! {

/// A machine and the devices it runs with. The devices are the host's: it
/// may draw the screen, count the timers down and change the keys between
/// any two steps. The machine is the host's too: a host that wants other
/// choices than the usual ones puts a machine of its own making in place
/// before it loads a program.
pub struct State<D: Display, T: Timer, B: Beeper, K: Keypad, R: RandomSource> {
    /// Memory, registers, program counter and stack.
    pub machine: Machine,
    /// The source of random bytes.
    pub rng: R,
    /// The screen.
    pub display: D,
    /// The delay timer.
    pub delay_timer: T,
    /// The sound timer.
    pub sound_timer: B,
    /// The keypad.
    pub keypad: K,
}

impl<D: Display, T: Timer, B: Beeper, K: Keypad> State<D, T, B, K, RngWrapper> {
    /// An interpreter with a blank machine, the given devices, and the
    /// thread's random number generator.
    pub fn new(display: D, delay_timer: T, sound_timer: B, keypad: K) -> (state: Self)
        ensures
            state.machine@ == MachineView::blank(),
            state.display == display,
            state.delay_timer == delay_timer,
            state.sound_timer == sound_timer,
            state.keypad == keypad,
    {
        State {
            machine: Machine::new(),
            rng: RngWrapper::new(),
            display,
            delay_timer,
            sound_timer,
            keypad,
        }
    }
}

impl<D: Display, T: Timer, B: Beeper, K: Keypad, R: RandomSource> State<D, T, B, K, R> {
    /// An interpreter with a blank machine, the given devices, and the given
    /// source of random bytes.
    pub fn with_rng(display: D, delay_timer: T, sound_timer: B, keypad: K, rng: R) -> (state: Self)
        ensures
            state.machine@ == MachineView::blank(),
            state.display == display,
            state.delay_timer == delay_timer,
            state.sound_timer == sound_timer,
            state.keypad == keypad,
            state.rng == rng,
    {
        State { machine: Machine::new(), rng, display, delay_timer, sound_timer, keypad }
    }

    /// Whether the two interpreters have the same devices in the same state.
    pub open spec fn same_devices(&self, other: &Self) -> bool {
        &&& self.rng == other.rng
        &&& self.display == other.display
        &&& self.delay_timer == other.delay_timer
        &&& self.sound_timer == other.sound_timer
        &&& self.keypad == other.keypad
    }

    /// Whether the devices, serving `request`, can have answered `reply` and
    /// become those of `after`. Only the device that the request names is
    /// touched, and of that device holds what its kind promises.
    pub open spec fn served(&self, request: HostRequestView, reply: HostReply, after: &Self) -> bool {
        &&& request is ClearDisplay || request is Draw || after.display == self.display
        &&& request is SetDelayTimer || after.delay_timer == self.delay_timer
        &&& request is StartSound || after.sound_timer == self.sound_timer
        &&& request is RandomByte || after.rng == self.rng
        &&& after.keypad == self.keypad
        &&& match request {
            HostRequestView::Nothing => reply == HostReply::Nothing,
            HostRequestView::ClearDisplay => {
                &&& reply == HostReply::Nothing
                &&& self.display.cleared(&after.display)
            },
            HostRequestView::Draw { sprite, x, y } => {
                &&& reply is Collision
                &&& self.display.drawn(
                    sprite,
                    sprite.len() as u8,
                    x,
                    y,
                    &after.display,
                    reply.collision(),
                )
            },
            HostRequestView::ReadKey => {
                &&& reply is Key
                &&& self.keypad.reports(reply.key())
            },
            HostRequestView::ReadDelayTimer => {
                &&& reply is Byte
                &&& self.delay_timer.shows(reply.byte())
            },
            HostRequestView::SetDelayTimer { value } => {
                &&& reply == HostReply::Nothing
                &&& self.delay_timer.set_to(value, &after.delay_timer)
            },
            HostRequestView::StartSound { value } => {
                &&& reply == HostReply::Nothing
                &&& self.sound_timer.started(value, &after.sound_timer)
            },
            HostRequestView::RandomByte => {
                &&& reply is Byte
                &&& self.rng.yields(&after.rng, reply.byte())
            },
        }
    }

    /// Loads a program and a font into the machine and gets it ready to run
    /// the program; see [`Machine::initialize`]. The devices are left alone.
    pub fn initialize(&mut self, program: &[u8], font: &[u8]) -> (result: Result<(), Chip8Error>)
        ensures
            MachineView::fits(program@, font@) ==> result is Ok && final(self).machine@
                == MachineView::loaded(program@, font@).with_quirks(old(self).machine@.quirks),
            !MachineView::fits(program@, font@) ==> result == Err::<(), Chip8Error>(
                Chip8Error::OutOfMemoryAccess,
            ) && final(self).machine@ == old(self).machine@,
            final(self).machine@.well_formed(),
            old(self).same_devices(final(self)),
    {
        self.machine.initialize(program, font)
    }

    /// Lets the device that `request` names serve it.
    fn serve(&mut self, request: HostRequest) -> (reply: HostReply)
        requires
            request matches HostRequest::Draw { sprite, .. } ==> sprite@.len() <= 0xFF,
        ensures
            old(self).served(request@, reply, final(self)),
            final(self).machine == old(self).machine,
    {
        match request {
            HostRequest::Nothing => HostReply::Nothing,
            HostRequest::ClearDisplay => {
                self.display.clear();
                HostReply::Nothing
            },
            HostRequest::Draw { sprite, x, y } => {
                let n = sprite.len() as u8;
                HostReply::Collision(self.display.modify(sprite.as_slice(), n, x, y))
            },
            HostRequest::ReadKey => HostReply::Key(self.keypad.get_pressed_key()),
            HostRequest::ReadDelayTimer => HostReply::Byte(self.delay_timer.get()),
            HostRequest::SetDelayTimer { value } => {
                self.delay_timer.set(value);
                HostReply::Nothing
            },
            HostRequest::StartSound { value } => {
                self.sound_timer.start(value);
                HostReply::Nothing
            },
            HostRequest::RandomByte => HostReply::Byte(self.rng.next_byte()),
        }
    }

    /// Executes the instruction at the program counter.
    ///
    /// The machine takes the step [`crate::machine::MachineView::step`] for
    /// the answer that the device concerned gave. An error stops the
    /// machine, and every later call reports the same error until the
    /// interpreter is initialized again.
    pub fn execute(&mut self) -> (result: Result<(), Chip8Error>)
        ensures
            exists|reply: HostReply|
                {
                    &&& old(self).served(old(self).machine@.request(), reply, final(self))
                    &&& final(self).machine@ == #[trigger] old(self).machine@.step(reply)
                },
            result == final(self).machine@.outcome(),
            final(self).machine@.well_formed(),
    {
        let request = self.machine.pending();
        let reply = self.serve(request);
        self.machine.step(reply)
    }
}

} // verus!
