//! Run-time values of the channels, and the commands that change them.

use crate::config::{PWMChannelConfig, RobotConfig, ShiftRegisterConfig};
use crate::position::Position;
use vstd::prelude::*;

verus! {

/// Value of one analog channel.
#[derive(Clone, Copy, Debug, PartialEq, Eq)]
pub struct PWMChannelState {
    pub channel: u8,
    /// Position of the channel; `None` for a channel that is de-energized.
    pub position: Option<Position>,
}

/// Value of one shift register.
#[derive(Clone, Debug, PartialEq, Eq)]
pub struct ShiftRegisterState {
    pub channel: u8,
    pub state: Vec<bool>,
}

/// Something for the robot to say.
#[derive(Clone, Debug, PartialEq, Eq)]
pub struct RobotSpeak {
    pub quip: String,
}

/// The state of every channel of a robot.
#[derive(Clone, Debug, PartialEq, Eq)]
pub struct RobotState {
    pub pwm_channels: Vec<PWMChannelState>,
    pub shift_registers: Vec<ShiftRegisterState>,
}

/// A command of a remote controller.
#[derive(Clone, Debug, PartialEq, Eq)]
pub enum Command {
    /// Move an analog channel, or de-energize it.
    SetAnalog(PWMChannelState),
    /// Replace the bits of a shift register.
    SetBitSerial(ShiftRegisterState),
    /// Say something.
    Speak(RobotSpeak),
}

/// A shift register value as a mathematical value.
pub struct ShiftRegisterStateView {
    pub channel: u8,
    pub state: Seq<bool>,
}

/// A robot state as a mathematical value.
pub struct RobotStateView {
    pub pwm_channels: Seq<PWMChannelState>,
    pub shift_registers: Seq<ShiftRegisterStateView>,
}

/// A command as a mathematical value.
pub enum CommandView {
    SetAnalog(PWMChannelState),
    SetBitSerial(ShiftRegisterStateView),
    Speak(Seq<char>),
}

impl View for ShiftRegisterState {
    type V = ShiftRegisterStateView;

    open spec fn view(&self) -> ShiftRegisterStateView {
        ShiftRegisterStateView { channel: self.channel, state: self.state@ }
    }
}

impl View for RobotSpeak {
    type V = Seq<char>;

    open spec fn view(&self) -> Seq<char> {
        self.quip@
    }
}

impl View for RobotState {
    type V = RobotStateView;

    open spec fn view(&self) -> RobotStateView {
        RobotStateView {
            pwm_channels: self.pwm_channels@,
            shift_registers: Seq::new(
                self.shift_registers@.len(),
                |i: int| self.shift_registers@[i]@,
            ),
        }
    }
}

impl CommandView {
    /// The position of the command, if it has one, lies between zero and
    /// one.
    pub open spec fn in_range(self) -> bool {
        self matches CommandView::SetAnalog(state) ==> state.in_range()
    }
}

impl View for Command {
    type V = CommandView;

    open spec fn view(&self) -> CommandView {
        match self {
            Command::SetAnalog(state) => CommandView::SetAnalog(*state),
            Command::SetBitSerial(state) => CommandView::SetBitSerial(state@),
            Command::Speak(speak) => CommandView::Speak(speak@),
        }
    }
}

impl PWMChannelState {
    /// The position of the channel, if it has one, lies between zero and
    /// one, as that of every channel value that the program holds does.
    pub open spec fn in_range(self) -> bool {
        self.position matches Some(position) ==> position.in_unit_interval()
    }

    /// The value of the channel of `config` at startup.
    pub open spec fn initial(config: PWMChannelConfig) -> PWMChannelState {
        PWMChannelState { channel: config.channel, position: Some(config.initial_position) }
    }
}

impl<'a> From<&'a PWMChannelConfig> for PWMChannelState {
    /// The value of the channel at startup: its initial position.
    fn from(config: &'a PWMChannelConfig) -> (state: PWMChannelState) {
        PWMChannelState { channel: config.channel, position: Some(config.initial_position) }
    }
}

impl<'a> vstd::std_specs::convert::FromSpecImpl<&'a PWMChannelConfig> for PWMChannelState {
    open spec fn obeys_from_spec() -> bool {
        true
    }

    open spec fn from_spec(config: &'a PWMChannelConfig) -> PWMChannelState {
        PWMChannelState::initial(*config)
    }
}

impl ShiftRegisterStateView {
    /// The value of the register of `config` at startup.
    pub open spec fn initial(config: ShiftRegisterConfig) -> ShiftRegisterStateView {
        ShiftRegisterStateView { channel: config.channel, state: config.initial_state@ }
    }
}

/// A copy of a bit vector.
pub fn copy_bits(bits: &Vec<bool>) -> (copy: Vec<bool>)
    ensures
        copy@ == bits@,
{
    let mut copy: Vec<bool> = Vec::new();
    let mut i: usize = 0;
    while i < bits.len()
        invariant
            i <= bits@.len(),
            copy@ == bits@.take(i as int),
        decreases bits@.len() - i,
    {
        copy.push(bits[i]);
        assert(copy@ =~= bits@.take(i + 1));
        i += 1;
    }
    assert(bits@.take(bits@.len() as int) =~= bits@);
    copy
}

impl ShiftRegisterState {
    /// The value of the register at startup: the initial bits of its
    /// configuration.
    pub fn from_config(config: &ShiftRegisterConfig) -> (state: ShiftRegisterState)
        ensures
            state@ == ShiftRegisterStateView::initial(*config),
    {
        ShiftRegisterState { channel: config.channel, state: copy_bits(&config.initial_state) }
    }

    /// A copy of the value.
    pub fn duplicate(&self) -> (copy: ShiftRegisterState)
        ensures
            copy@ == self@,
    {
        ShiftRegisterState { channel: self.channel, state: copy_bits(&self.state) }
    }
}

impl RobotStateView {
    /// Every position of the state lies between zero and one.
    pub open spec fn in_range(self) -> bool {
        forall|i: int|
            0 <= i < self.pwm_channels.len() ==> (#[trigger] self.pwm_channels[i]).in_range()
    }

    /// The state of a robot at startup: every channel at the initial value
    /// of its configuration.
    pub open spec fn initial(config: RobotConfig) -> RobotStateView {
        RobotStateView {
            pwm_channels: Seq::new(
                config.pwm_channels@.len(),
                |i: int| PWMChannelState::initial(config.pwm_channels@[i]),
            ),
            shift_registers: Seq::new(
                config.shift_registers@.len(),
                |i: int| ShiftRegisterStateView::initial(config.shift_registers@[i]),
            ),
        }
    }
}

impl RobotState {
    /// The state of a robot at startup.
    pub fn from_config(config: &RobotConfig) -> (state: RobotState)
        ensures
            state@ == RobotStateView::initial(*config),
    {
        let mut pwm_channels: Vec<PWMChannelState> = Vec::new();
        let mut i: usize = 0;
        while i < config.pwm_channels.len()
            invariant
                i <= config.pwm_channels@.len(),
                pwm_channels@.len() == i,
                forall|j: int|
                    0 <= j < i ==> #[trigger] pwm_channels@[j] == PWMChannelState::initial(
                        config.pwm_channels@[j],
                    ),
            decreases config.pwm_channels@.len() - i,
        {
            pwm_channels.push(PWMChannelState::from(&config.pwm_channels[i]));
            i += 1;
        }
        let mut shift_registers: Vec<ShiftRegisterState> = Vec::new();
        let mut k: usize = 0;
        while k < config.shift_registers.len()
            invariant
                k <= config.shift_registers@.len(),
                shift_registers@.len() == k,
                forall|j: int|
                    0 <= j < k ==> (#[trigger] shift_registers@[j])@
                        == ShiftRegisterStateView::initial(config.shift_registers@[j]),
            decreases config.shift_registers@.len() - k,
        {
            shift_registers.push(ShiftRegisterState::from_config(&config.shift_registers[k]));
            k += 1;
        }
        let state = RobotState { pwm_channels, shift_registers };
        assert(state@.pwm_channels =~= RobotStateView::initial(*config).pwm_channels);
        assert(state@.shift_registers =~= RobotStateView::initial(*config).shift_registers);
        state
    }

    /// A copy of the state.
    pub fn snapshot(&self) -> (copy: RobotState)
        ensures
            copy@ == self@,
    {
        let mut pwm_channels: Vec<PWMChannelState> = Vec::new();
        let mut i: usize = 0;
        while i < self.pwm_channels.len()
            invariant
                i <= self.pwm_channels@.len(),
                pwm_channels@ == self.pwm_channels@.take(i as int),
            decreases self.pwm_channels@.len() - i,
        {
            pwm_channels.push(self.pwm_channels[i]);
            assert(pwm_channels@ =~= self.pwm_channels@.take(i + 1));
            i += 1;
        }
        assert(self.pwm_channels@.take(self.pwm_channels@.len() as int) =~= self.pwm_channels@);
        let mut shift_registers: Vec<ShiftRegisterState> = Vec::new();
        let mut k: usize = 0;
        while k < self.shift_registers.len()
            invariant
                k <= self.shift_registers@.len(),
                shift_registers@.len() == k,
                forall|j: int|
                    0 <= j < k ==> (#[trigger] shift_registers@[j])@ == self.shift_registers@[j]@,
            decreases self.shift_registers@.len() - k,
        {
            shift_registers.push(self.shift_registers[k].duplicate());
            k += 1;
        }
        let copy = RobotState { pwm_channels, shift_registers };
        assert(copy@.shift_registers =~= self@.shift_registers);
        copy
    }
}

} // verus!
