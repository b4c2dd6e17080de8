//! The decisions of the host loop: what an input event does to the machine
//! and what one display frame runs.

use vstd::prelude::*;
use crate::drivers::input_driver::{keypad_index, process_input, Key};
use crate::fault::Fault;
use crate::machine::{Chip8, MachineState};
use crate::semantics::{frame_spec, run_cycles, tick_spec, Outcome};

verus! {

/// An event of the host, as far as the loop cares.
#[derive(Clone, Copy, Debug, PartialEq, Eq, Structural)]
pub enum HostEvent {
    /// The host asks the session to end.
    Quit,
    /// A keyboard key went down.
    KeyDown(Key),
    /// A keyboard key went up.
    KeyUp(Key),
    /// Anything else.
    Other,
}

/// Whether the host loop goes on after an event.
#[derive(Clone, Copy, Debug, PartialEq, Eq, Structural)]
pub enum LoopControl {
    Continue,
    Stop,
}

/// Whether an event ends the session: a quit request, or the escape key
/// going down.
pub open spec fn event_stops(event: HostEvent) -> bool {
    event == HostEvent::Quit || event == HostEvent::KeyDown(Key::Escape)
}

/// The state after an event: a key of the pad going down or up is recorded,
/// every other event leaves the machine alone.
pub open spec fn after_event(s: MachineState, event: HostEvent) -> MachineState {
    match event {
        HostEvent::KeyDown(key) => match keypad_index(key) {
            Some(k) => s.with_key(k as int, true),
            None => s,
        },
        HostEvent::KeyUp(key) => match keypad_index(key) {
            Some(k) => s.with_key(k as int, false),
            None => s,
        },
        _ => s,
    }
}

impl Chip8 {
    /// Applies one host event and tells whether the loop goes on.
    pub fn handle_event(&mut self, event: HostEvent) -> (control: LoopControl)
        ensures
            final(self)@ == after_event(old(self)@, event),
            final(self).wf() == old(self).wf(),
            control == (if event_stops(event) {
                LoopControl::Stop
            } else {
                LoopControl::Continue
            }),
    {
        match event {
            HostEvent::Quit => LoopControl::Stop,
            HostEvent::KeyDown(Key::Escape) => LoopControl::Stop,
            HostEvent::KeyDown(key) => {
                if let Some(k) = process_input(key) {
                    self.keypress(k, true);
                }
                LoopControl::Continue
            },
            HostEvent::KeyUp(key) => {
                if let Some(k) = process_input(key) {
                    self.keypress(k, false);
                }
                LoopControl::Continue
            },
            HostEvent::Other => LoopControl::Continue,
        }
    }

    /// Runs one display frame: `ticks_per_frame` cycles, then one step of
    /// the timers.
    ///
    /// The frame ends at the first cycle that ends in a fault; the timers
    /// then stay as they are. The outcome is the one that `frame_spec` gives
    /// for the random bytes that the cycles drew.
    pub fn run_frame(&mut self, ticks_per_frame: usize) -> (r: Result<(), Fault>)
        ensures
            exists|randoms: Seq<u8>|
                {
                    &&& randoms.len() <= ticks_per_frame
                    &&& r is Ok ==> randoms.len() == ticks_per_frame
                    &&& (Outcome { state: final(self)@, result: r }) =~= #[trigger] frame_spec(
                        old(self)@,
                        randoms,
                    )
                },
            final(self).wf() == old(self).wf(),
    {
        let ghost mut randoms: Seq<u8> = Seq::empty();
        let mut i: usize = 0;
        while i < ticks_per_frame
            invariant
                i <= ticks_per_frame,
                self.wf() == old(self).wf(),
                randoms.len() == i,
                (Outcome { state: self@, result: Ok(()) }) =~= run_cycles(old(self)@, randoms),
            decreases ticks_per_frame - i,
        {
            let ghost before: MachineState = self@;
            let r = self.tick();
            proof {
                let random: u8 = choose|random: u8|
                    (Outcome { state: self@, result: r }) =~= #[trigger] tick_spec(before, random);
                let longer: Seq<u8> = randoms.push(random);
                assert(longer.drop_last() =~= randoms);
                assert(longer.last() == random);
                assert(run_cycles(old(self)@, longer) =~= tick_spec(before, random));
                randoms = longer;
            }
            match r {
                Ok(unit) => {
                    assert(unit == ());
                },
                Err(fault) => {
                    assert((Outcome { state: self@, result: r }) =~= frame_spec(
                        old(self)@,
                        randoms,
                    ));
                    return Err(fault);
                },
            }
            i += 1;
        }
        self.tick_timers();
        assert((Outcome { state: self@, result: Ok(()) }) =~= frame_spec(old(self)@, randoms));
        Ok(())
    }
}

} // verus!
