//! What the engine asks its collaborators to do.

use vstd::prelude::*;

verus! {

/// Level of a digital pin.
#[derive(Clone, Copy, Debug, PartialEq, Eq, Structural)]
pub enum Level {
    Low,
    High,
}

/// One write to the outputs of the robot.
#[derive(Clone, Copy, Debug, PartialEq, Eq, Structural)]
pub enum HardwareWrite {
    /// Set the frequency of the analog driver, in hertz.
    PwmFrequency { hertz: u16 },
    /// Set the duty cycle of every analog channel.
    AllPwm { on: u16, off: u16 },
    /// Set the duty cycle of one analog channel.
    Pwm { channel: u8, on: u16, off: u16 },
    /// Make a digital pin an output.
    PinOutput { pin: u8 },
    /// Drive a digital pin.
    Pin { pin: u8, level: Level },
}

/// A program to start, for the robot to say something.
#[derive(Clone, Debug, PartialEq, Eq)]
pub struct SpeechRequest {
    pub program: String,
    pub arguments: Vec<String>,
}

/// Name of the speech program.
pub const SPEECH_PROGRAM: &'static str = "espeak";

/// Option of the speech program that sets the speed.
pub const SPEECH_SPEED_OPTION: &'static str = "-s";

/// Speed of the speech, in words per minute.
pub const SPEECH_SPEED: &'static str = "120";

impl SpeechRequest {
    /// The request starts the speech program, at the speed of the robot, on
    /// the text `quip`.
    pub open spec fn says(&self, quip: Seq<char>) -> bool {
        &&& self.program@ == SPEECH_PROGRAM@
        &&& self.arguments@.len() == 3
        &&& self.arguments@[0]@ == SPEECH_SPEED_OPTION@
        &&& self.arguments@[1]@ == SPEECH_SPEED@
        &&& self.arguments@[2]@ == quip
    }

    /// The request to say `quip`.
    pub fn saying(quip: String) -> (request: SpeechRequest)
        ensures
            request.says(quip@),
    {
        let mut arguments: Vec<String> = Vec::new();
        arguments.push(SPEECH_SPEED_OPTION.to_owned());
        arguments.push(SPEECH_SPEED.to_owned());
        arguments.push(quip);
        SpeechRequest { program: SPEECH_PROGRAM.to_owned(), arguments }
    }
}

/// Frequency at which the analog driver runs, in hertz.
pub const PWM_FREQUENCY_HERTZ: u16 = 60;

/// The level of the data line for one bit of a shift register: the line is
/// wired inverted, so a set bit drives it low.
pub open spec fn data_level(bit: bool) -> Level {
    if bit {
        Level::Low
    } else {
        Level::High
    }
}

/// The write at place `k` of the writes that shift `data` out over the two
/// pins. Three writes serve one bit: the data line, the clock line up, the
/// clock line down. The last bit of `data` is served first.
pub open spec fn shift_out_write(data: Seq<bool>, clock_pin: u8, data_pin: u8, k: int)
    -> HardwareWrite {
    let bit = data[data.len() - 1 - k / 3];
    if k % 3 == 0 {
        HardwareWrite::Pin { pin: data_pin, level: data_level(bit) }
    } else if k % 3 == 1 {
        HardwareWrite::Pin { pin: clock_pin, level: Level::High }
    } else {
        HardwareWrite::Pin { pin: clock_pin, level: Level::Low }
    }
}

/// The writes that shift `data` out over the two pins.
pub open spec fn shift_out(data: Seq<bool>, clock_pin: u8, data_pin: u8) -> Seq<HardwareWrite> {
    Seq::new(3 * data.len(), |k: int| shift_out_write(data, clock_pin, data_pin, k))
}

/// The bits that a sequence of writes puts on the data line `data_pin`, in
/// the order in which they leave.
pub open spec fn emitted_bits(writes: Seq<HardwareWrite>, data_pin: u8) -> Seq<bool>
    decreases writes.len(),
{
    if writes.len() == 0 {
        Seq::empty()
    } else {
        let rest = emitted_bits(writes.drop_last(), data_pin);
        match writes.last() {
            HardwareWrite::Pin { pin, level } if pin == data_pin => rest.push(level == Level::Low),
            _ => rest,
        }
    }
}

/// The writes that shift `data` out over the two pins, last bit first: for
/// each bit the data line is set, then the clock line goes up and down.
pub fn bitbang(data: &Vec<bool>, clock_pin: u8, data_pin: u8) -> (writes: Vec<HardwareWrite>)
    ensures
        writes@ == shift_out(data@, clock_pin, data_pin),
{
    let mut writes: Vec<HardwareWrite> = Vec::new();
    let mut i: usize = data.len();
    while i > 0
        invariant
            i <= data@.len(),
            writes@.len() == 3 * (data@.len() - i),
            forall|k: int|
                0 <= k < writes@.len() ==> #[trigger] writes@[k] == shift_out_write(
                    data@,
                    clock_pin,
                    data_pin,
                    k,
                ),
        decreases i,
    {
        i -= 1;
        let level = if data[i] {
            Level::Low
        } else {
            Level::High
        };
        writes.push(HardwareWrite::Pin { pin: data_pin, level });
        writes.push(HardwareWrite::Pin { pin: clock_pin, level: Level::High });
        writes.push(HardwareWrite::Pin { pin: clock_pin, level: Level::Low });
    }
    assert(writes@ =~= shift_out(data@, clock_pin, data_pin));
    writes
}

/// Shifting a bit vector out puts its bits on the data line in reverse
/// order, provided the clock line is another pin than the data line.
pub proof fn lemma_shift_out_reverses(data: Seq<bool>, clock_pin: u8, data_pin: u8)
    requires
        clock_pin != data_pin,
    ensures
        emitted_bits(shift_out(data, clock_pin, data_pin), data_pin) == data.reverse(),
    decreases data.len(),
{
    let writes = shift_out(data, clock_pin, data_pin);
    if data.len() == 0 {
        assert(data.reverse() =~= Seq::<bool>::empty());
    } else {
        let tail = data.subrange(1, data.len() as int);
        let shorter = shift_out(tail, clock_pin, data_pin);
        lemma_shift_out_reverses(tail, clock_pin, data_pin);
        let without_down = writes.drop_last();
        let without_up = without_down.drop_last();
        assert(without_up.drop_last() =~= shorter);
        assert(writes.last() == shift_out_write(data, clock_pin, data_pin, 3 * data.len() - 1));
        assert(without_down.last() == shift_out_write(
            data,
            clock_pin,
            data_pin,
            3 * data.len() - 2,
        ));
        assert(without_up.last() == shift_out_write(data, clock_pin, data_pin, 3 * data.len() - 3));
        assert(emitted_bits(without_down, data_pin) == emitted_bits(without_up, data_pin));
        assert(emitted_bits(without_up, data_pin) == emitted_bits(shorter, data_pin).push(data[0]));
        assert(tail.reverse().push(data[0]) =~= data.reverse());
    }
}

} // verus!
