//! Displays of sixteen LEDs: shift registers of a fixed width.

use crate::config::ShiftRegisterConfig;
use crate::error::RobotError;
use crate::robot::Robot;
use crate::state::{ShiftRegisterState, ShiftRegisterStateView};
use vstd::prelude::*;

verus! {

/// Wiring of one display of sixteen LEDs.
#[derive(Clone, Copy, Debug, PartialEq, Eq)]
pub struct LEDDisplayConfig {
    pub channel: u8,
    pub initial_state: [bool; 16],
    pub clock_pin: u8,
    pub data_pin: u8,
}

/// Value of one display of sixteen LEDs.
#[derive(Clone, Copy, Debug, PartialEq, Eq)]
pub struct LEDDisplayState {
    pub channel: u8,
    pub state: [bool; 16],
}

impl View for LEDDisplayState {
    type V = ShiftRegisterStateView;

    /// The display as a shift register of sixteen bits.
    open spec fn view(&self) -> ShiftRegisterStateView {
        ShiftRegisterStateView { channel: self.channel, state: self.state@ }
    }
}

/// The sixteen bits of a display, as a bit vector.
fn bits_of(leds: &[bool; 16]) -> (bits: Vec<bool>)
    ensures
        bits@ == leds@,
{
    let mut bits: Vec<bool> = Vec::new();
    let mut i: usize = 0;
    while i < 16
        invariant
            i <= 16,
            bits@ == leds@.take(i as int),
        decreases 16 - i,
    {
        bits.push(leds[i]);
        assert(bits@ =~= leds@.take(i + 1));
        i += 1;
    }
    assert(leds@.take(16) =~= leds@);
    bits
}

impl LEDDisplayConfig {
    /// The wiring of the display as that of a shift register of sixteen
    /// bits.
    pub fn to_shift_register(&self) -> (config: ShiftRegisterConfig)
        ensures
            config.channel == self.channel,
            config.initial_state@ == self.initial_state@,
            config.clock_pin == self.clock_pin,
            config.data_pin == self.data_pin,
    {
        ShiftRegisterConfig {
            channel: self.channel,
            initial_state: bits_of(&self.initial_state),
            clock_pin: self.clock_pin,
            data_pin: self.data_pin,
        }
    }
}

impl<'a> From<&'a LEDDisplayConfig> for LEDDisplayState {
    /// The value of the display at startup: its initial bits.
    fn from(config: &'a LEDDisplayConfig) -> (state: LEDDisplayState) {
        LEDDisplayState { channel: config.channel, state: config.initial_state }
    }
}

impl<'a> vstd::std_specs::convert::FromSpecImpl<&'a LEDDisplayConfig> for LEDDisplayState {
    open spec fn obeys_from_spec() -> bool {
        true
    }

    open spec fn from_spec(config: &'a LEDDisplayConfig) -> LEDDisplayState {
        LEDDisplayState { channel: config.channel, state: config.initial_state }
    }
}

impl LEDDisplayState {
    /// The value of the display as that of a shift register of sixteen bits.
    pub fn to_shift_register(&self) -> (state: ShiftRegisterState)
        ensures
            state@ == self@,
    {
        ShiftRegisterState { channel: self.channel, state: bits_of(&self.state) }
    }

    /// The value of a shift register as that of a display, if the register
    /// has sixteen bits.
    pub fn from_shift_register(state: &ShiftRegisterState) -> (r: Option<LEDDisplayState>)
        ensures
            r is Some <==> state.state@.len() == 16,
            r matches Some(display) ==> display@ == state@,
    {
        if state.state.len() != 16 {
            return None;
        }
        let mut leds: [bool; 16] = [false; 16];
        let mut i: usize = 0;
        while i < 16
            invariant
                i <= 16,
                state.state@.len() == 16,
                forall|j: int| 0 <= j < i ==> leds@[j] == state.state@[j],
            decreases 16 - i,
        {
            leds[i] = state.state[i];
            i += 1;
        }
        assert(leds@ =~= state.state@);
        Some(LEDDisplayState { channel: state.channel, state: leds })
    }
}

impl Robot {
    /// Replaces the bits of one display of sixteen LEDs; nothing else
    /// changes. A command for a channel that the robot does not have is
    /// refused, and so is one for a shift register that has not sixteen
    /// bits; a refused command changes nothing.
    pub fn update_led_display(&mut self, led_display: LEDDisplayState) -> (r: Result<
        (),
        RobotError,
    >)
        requires
            old(self).wf(),
        ensures
            final(self).wf(),
            (match old(self)@.bit_serial_applied(led_display@) {
                Ok(after) => r is Ok && final(self)@ == after,
                Err(error) => r == Err::<(), RobotError>(error) && final(self)@ == old(self)@,
            }),
    {
        self.update_shift_register(led_display.to_shift_register())
    }
}

} // verus!
