//! The engine: one robot, its configuration and its state.

use crate::clock::{Timestamp, NANOS_PER_SECOND};
use crate::config::{PWMChannelConfig, RobotConfig};
use crate::error::{ChannelError, ProtocolError, RobotError};
use crate::mapper::{pwm_value, pwm_value_from_config_and_state};
use crate::output::{
    bitbang, shift_out, HardwareWrite, Level, SpeechRequest, PWM_FREQUENCY_HERTZ,
};
use crate::state::{
    Command, CommandView, PWMChannelState, RobotSpeak, RobotState, RobotStateView,
    ShiftRegisterState, ShiftRegisterStateView,
};
use crate::wire::{decode_command, decoded_command, Json, JsonView};
use vstd::prelude::*;

verus! {

/// A robot as a mathematical value.
pub struct RobotModel {
    pub config: RobotConfig,
    pub state: RobotStateView,
    /// For each analog channel, when it last got a command.
    pub last_activity: Seq<Timestamp>,
}

impl RobotModel {
    /// The state fits the configuration: the configuration is valid, every
    /// channel of it has its value, under its own number, and every shift
    /// register has the width that it started with.
    pub open spec fn wf(self) -> bool {
        &&& self.config.valid()
        &&& self.state.pwm_channels.len() == self.config.pwm_channels@.len()
        &&& self.last_activity.len() == self.config.pwm_channels@.len()
        &&& forall|i: int|
            0 <= i < self.state.pwm_channels.len() ==> (
            #[trigger] self.state.pwm_channels[i]).channel == i
        &&& self.state.shift_registers.len() == self.config.shift_registers@.len()
        &&& forall|i: int|
            0 <= i < self.state.shift_registers.len() ==> {
                &&& (#[trigger] self.state.shift_registers[i]).channel == i
                &&& self.state.shift_registers[i].state.len()
                    == self.config.shift_registers@[i].initial_state@.len()
            }
    }

    /// The robot at startup: every channel at its initial value, and last
    /// active at `now`.
    pub open spec fn start(config: RobotConfig, now: Timestamp) -> RobotModel {
        RobotModel {
            config,
            state: RobotStateView::initial(config),
            last_activity: Seq::new(config.pwm_channels@.len(), |i: int| now),
        }
    }

    /// The robot after the analog channel `command.channel` got the
    /// position of `command` at `now`.
    pub open spec fn set_analog(self, command: PWMChannelState, now: Timestamp) -> RobotModel {
        let index = command.channel as int;
        RobotModel {
            config: self.config,
            state: RobotStateView {
                pwm_channels: self.state.pwm_channels.update(
                    index,
                    PWMChannelState {
                        channel: self.state.pwm_channels[index].channel,
                        position: command.position,
                    },
                ),
                shift_registers: self.state.shift_registers,
            },
            last_activity: self.last_activity.update(index, now),
        }
    }

    /// The robot after the shift register `command.channel` got the bits of
    /// `command`.
    pub open spec fn set_bit_serial(self, command: ShiftRegisterStateView) -> RobotModel {
        let index = command.channel as int;
        RobotModel {
            config: self.config,
            state: RobotStateView {
                pwm_channels: self.state.pwm_channels,
                shift_registers: self.state.shift_registers.update(
                    index,
                    ShiftRegisterStateView {
                        channel: self.state.shift_registers[index].channel,
                        state: command.state,
                    },
                ),
            },
            last_activity: self.last_activity,
        }
    }

    /// What a command for an analog channel leads to: the robot after it, or
    /// the error for a channel that the robot does not have.
    pub open spec fn analog_applied(self, command: PWMChannelState, now: Timestamp) -> Result<
        RobotModel,
        RobotError,
    > {
        if command.channel < self.state.pwm_channels.len() {
            Ok(self.set_analog(command, now))
        } else {
            Err(RobotError::ChannelError(ChannelError { channel: command.channel }))
        }
    }

    /// What a command for a shift register leads to: the robot after it, the
    /// error for a channel that the robot does not have, or else the error
    /// for a bit vector of another length than the register.
    pub open spec fn bit_serial_applied(self, command: ShiftRegisterStateView) -> Result<
        RobotModel,
        RobotError,
    > {
        if command.channel >= self.state.shift_registers.len() {
            Err(RobotError::ChannelError(ChannelError { channel: command.channel }))
        } else if command.state.len()
            != self.state.shift_registers[command.channel as int].state.len() {
            Err(RobotError::ProtocolError(ProtocolError::StateLength { channel: command.channel }))
        } else {
            Ok(self.set_bit_serial(command))
        }
    }

    /// What a command leads to: the robot after it, or the error with which
    /// it is refused. To say something changes nothing.
    pub open spec fn applied(self, command: CommandView, now: Timestamp) -> Result<
        RobotModel,
        RobotError,
    > {
        match command {
            CommandView::SetAnalog(state) => self.analog_applied(state, now),
            CommandView::SetBitSerial(state) => self.bit_serial_applied(state),
            CommandView::Speak(_) => Ok(self),
        }
    }

    /// What a document leads to: what the command leads to that it stands
    /// for, or the error with which it is refused as no command.
    pub open spec fn received(self, document: JsonView, now: Timestamp) -> Result<
        RobotModel,
        RobotError,
    > {
        match decoded_command(document) {
            Ok(command) => self.applied(command, now),
            Err(error) => Err(RobotError::ProtocolError(error)),
        }
    }

    /// What the robot is to say on a command: the quip of a command to
    /// speak, if the robot is enabled.
    pub open spec fn spoken(self, command: CommandView) -> Option<Seq<char>> {
        match command {
            CommandView::Speak(quip) if self.config.enable => Some(quip),
            _ => None,
        }
    }

    /// The analog channel `index` is due to idle at `now`: it has an idle
    /// time, it is energized, and more than its idle time has passed since
    /// it last got a command.
    pub open spec fn idles(self, index: int, now: Timestamp) -> bool {
        &&& self.config.pwm_channels@[index].idle_after_seconds matches Some(seconds)
        &&& self.state.pwm_channels[index].position is Some
        &&& now.later_by_more_than(self.last_activity[index], seconds)
    }

    /// The robot after the idle check at `now`: every analog channel that is
    /// due to idle is de-energized, and nothing else changes.
    pub open spec fn idle_checked(self, now: Timestamp) -> RobotModel {
        RobotModel {
            config: self.config,
            state: RobotStateView {
                pwm_channels: Seq::new(
                    self.state.pwm_channels.len(),
                    |i: int|
                        if self.idles(i, now) {
                            PWMChannelState {
                                channel: self.state.pwm_channels[i].channel,
                                position: None,
                            }
                        } else {
                            self.state.pwm_channels[i]
                        },
                ),
                shift_registers: self.state.shift_registers,
            },
            last_activity: self.last_activity,
        }
    }

    /// The write that commits the analog channel `index`.
    pub open spec fn pwm_write(self, index: int) -> HardwareWrite {
        HardwareWrite::Pwm {
            channel: index as u8,
            on: 0,
            off: pwm_value(self.config.pwm_channels@[index], self.state.pwm_channels[index]) as u16,
        }
    }

    /// The writes that commit the analog channels, in the order of their
    /// numbers; none where the robot is not enabled.
    pub open spec fn pwm_writes(self) -> Seq<HardwareWrite> {
        if self.config.enable {
            Seq::new(self.state.pwm_channels.len(), |i: int| self.pwm_write(i))
        } else {
            Seq::empty()
        }
    }

    /// The writes that shift out the first `count` shift registers, in the
    /// order of their numbers.
    pub open spec fn shift_out_first(self, count: nat) -> Seq<HardwareWrite>
        decreases count,
    {
        if count == 0 {
            Seq::empty()
        } else {
            let index = count - 1;
            self.shift_out_first(index as nat) + shift_out(
                self.state.shift_registers[index].state,
                self.config.shift_registers@[index].clock_pin,
                self.config.shift_registers@[index].data_pin,
            )
        }
    }

    /// The writes that commit the shift registers; none where the robot is
    /// not enabled.
    pub open spec fn shift_register_writes(self) -> Seq<HardwareWrite> {
        if self.config.enable {
            self.shift_out_first(self.state.shift_registers.len())
        } else {
            Seq::empty()
        }
    }

    /// The writes of one refresh: the analog channels, then the shift
    /// registers.
    pub open spec fn refresh_writes(self) -> Seq<HardwareWrite> {
        self.pwm_writes() + self.shift_register_writes()
    }

    /// The writes that prepare the pins of the first `count` shift
    /// registers: both pins of each become outputs and are driven low.
    pub open spec fn init_pins_first(self, count: nat) -> Seq<HardwareWrite>
        decreases count,
    {
        if count == 0 {
            Seq::empty()
        } else {
            let index = count - 1;
            let register = self.config.shift_registers@[index];
            self.init_pins_first(index as nat) + seq![
                HardwareWrite::PinOutput { pin: register.clock_pin },
                HardwareWrite::PinOutput { pin: register.data_pin },
                HardwareWrite::Pin { pin: register.clock_pin, level: Level::Low },
                HardwareWrite::Pin { pin: register.data_pin, level: Level::Low },
            ]
        }
    }

    /// The writes that prepare the outputs at startup: the analog driver is
    /// set to its frequency and every analog channel switched off, then the
    /// pins of the shift registers are prepared. None where the robot is not
    /// enabled.
    pub open spec fn init_writes(self) -> Seq<HardwareWrite> {
        if self.config.enable {
            seq![
                HardwareWrite::PwmFrequency { hertz: PWM_FREQUENCY_HERTZ },
                HardwareWrite::AllPwm { on: 0, off: 0 },
            ] + self.init_pins_first(self.config.shift_registers@.len())
        } else {
            Seq::empty()
        }
    }
}

/// What follows from a command that the robot accepted.
#[derive(Clone, Debug, PartialEq, Eq)]
pub struct Reaction {
    /// The state after the command, for every controller to see.
    pub snapshot: RobotState,
    /// What the robot is to say, if anything.
    pub speech: Option<SpeechRequest>,
}

impl Reaction {
    /// The reaction asks to say `quip`, or nothing where there is none.
    pub open spec fn tells(&self, quip: Option<Seq<char>>) -> bool {
        match quip {
            Some(text) => self.speech matches Some(request) && request.says(text),
            None => self.speech is None,
        }
    }
}

/// A robot: its configuration, the value of each of its channels, and the
/// time at which each analog channel last got a command.
#[derive(Debug)]
pub struct Robot {
    config: RobotConfig,
    state: RobotState,
    pwm_channel_last_activity: Vec<Timestamp>,
}

impl View for Robot {
    type V = RobotModel;

    closed spec fn view(&self) -> RobotModel {
        RobotModel {
            config: self.config,
            state: self.state@,
            last_activity: self.pwm_channel_last_activity@,
        }
    }
}

impl Robot {
    /// The state of the robot fits its configuration. Every robot that this
    /// library hands out is well-formed, and stays so.
    pub open spec fn wf(&self) -> bool {
        self@.wf()
    }

    /// Whether the state of the robot fits its configuration.
    pub fn well_formed(&self) -> (ok: bool)
        ensures
            ok == self.wf(),
    {
        if self.config.validate().is_err() {
            return false;
        }
        if self.state.pwm_channels.len() != self.config.pwm_channels.len()
            || self.pwm_channel_last_activity.len() != self.config.pwm_channels.len()
            || self.state.shift_registers.len() != self.config.shift_registers.len() {
            return false;
        }
        let mut i: usize = 0;
        while i < self.state.pwm_channels.len()
            invariant
                i <= self@.state.pwm_channels.len(),
                forall|j: int|
                    0 <= j < i ==> (#[trigger] self@.state.pwm_channels[j]).channel == j,
            decreases self@.state.pwm_channels.len() - i,
        {
            if self.state.pwm_channels[i].channel as usize != i {
                return false;
            }
            i += 1;
        }
        let mut k: usize = 0;
        while k < self.state.shift_registers.len()
            invariant
                k <= self@.state.shift_registers.len(),
                self@.state.shift_registers.len() == self@.config.shift_registers@.len(),
                forall|j: int|
                    0 <= j < self@.state.pwm_channels.len() ==> (
                    #[trigger] self@.state.pwm_channels[j]).channel == j,
                forall|j: int|
                    0 <= j < k ==> {
                        &&& (#[trigger] self@.state.shift_registers[j]).channel == j
                        &&& self@.state.shift_registers[j].state.len()
                            == self@.config.shift_registers@[j].initial_state@.len()
                    },
            decreases self@.state.shift_registers.len() - k,
        {
            let register = &self.state.shift_registers[k];
            assert(self@.state.shift_registers[k as int] == register@);
            if register.channel as usize != k || register.state.len()
                != self.config.shift_registers[k].initial_state.len() {
                return false;
            }
            k += 1;
        }
        true
    }

    /// The configuration of the robot.
    pub fn config(&self) -> (config: &RobotConfig)
        ensures
            *config == self@.config,
    {
        &self.config
    }

    /// The state of the robot.
    pub fn state(&self) -> (state: &RobotState)
        ensures
            state@ == self@.state,
    {
        &self.state
    }

    /// For each analog channel, when it last got a command.
    pub fn last_activity(&self) -> (last_activity: &Vec<Timestamp>)
        ensures
            last_activity@ == self@.last_activity,
    {
        &self.pwm_channel_last_activity
    }

    /// A robot with the given configuration, at startup, with `now` for the
    /// current time. An invalid configuration is refused.
    pub fn new_at(config: RobotConfig, now: Timestamp) -> (r: Result<Robot, RobotError>)
        ensures
            r is Ok <==> config.valid(),
            r matches Ok(robot) ==> robot@ == RobotModel::start(config, now) && robot.wf(),
            r matches Err(error) ==> error matches RobotError::ConfigError(fault)
                && config.first_fault(fault),
    {
        match config.validate() {
            Err(fault) => Err(RobotError::ConfigError(fault)),
            Ok(()) => {
                let state = RobotState::from_config(&config);
                let mut pwm_channel_last_activity: Vec<Timestamp> = Vec::new();
                let mut i: usize = 0;
                while i < config.pwm_channels.len()
                    invariant
                        i <= config.pwm_channels@.len(),
                        pwm_channel_last_activity@.len() == i,
                        forall|j: int| 0 <= j < i ==> pwm_channel_last_activity@[j] == now,
                    decreases config.pwm_channels@.len() - i,
                {
                    pwm_channel_last_activity.push(now);
                    i += 1;
                }
                assert(pwm_channel_last_activity@ =~= RobotModel::start(config, now).last_activity);
                let robot = Robot { config, state, pwm_channel_last_activity };
                Ok(robot)
            },
        }
    }

    /// A robot with the given configuration, at startup by the system clock.
    /// An invalid configuration is refused.
    pub fn new(config: RobotConfig) -> (r: Result<Robot, RobotError>)
        ensures
            r is Ok <==> config.valid(),
            r matches Ok(robot) ==> robot.wf() && exists|now: Timestamp|
                robot@ == #[trigger] RobotModel::start(config, now),
            r matches Err(error) ==> error matches RobotError::ConfigError(fault)
                && config.first_fault(fault),
    {
        let now = Timestamp::now();
        Robot::new_at(config, now)
    }

    /// Sets the position of one analog channel, with `now` for the current
    /// time. The channel keeps its number and is last active at `now`; no
    /// other channel changes. A command for a channel that the robot does
    /// not have is refused, and changes nothing.
    pub fn update_pwm_channel_at(&mut self, pwm_channel: PWMChannelState, now: Timestamp) -> (r:
        Result<(), RobotError>)
        requires
            old(self).wf(),
        ensures
            final(self).wf(),
            r is Ok <==> pwm_channel.channel < old(self)@.state.pwm_channels.len(),
            (match old(self)@.analog_applied(pwm_channel, now) {
                Ok(after) => r is Ok && final(self)@ == after,
                Err(error) => r == Err::<(), RobotError>(error) && final(self)@ == old(self)@,
            }),
            r is Err ==> r == Err::<(), RobotError>(
                RobotError::ChannelError(ChannelError { channel: pwm_channel.channel }),
            ) && final(self)@ == old(self)@,
            r is Ok ==> final(self)@.state.pwm_channels[pwm_channel.channel as int].position
                == pwm_channel.position,
            r is Ok ==> forall|i: int|
                0 <= i < old(self)@.state.pwm_channels.len() && i != pwm_channel.channel
                    ==> final(self)@.state.pwm_channels[i] == old(self)@.state.pwm_channels[i],
            final(self)@.state.shift_registers == old(self)@.state.shift_registers,
    {
        let index: usize = pwm_channel.channel as usize;
        if index >= self.state.pwm_channels.len() {
            Err(RobotError::ChannelError(ChannelError { channel: pwm_channel.channel }))
        } else {
            self.state.pwm_channels[index].position = pwm_channel.position;
            self.pwm_channel_last_activity[index] = now;
            assert(self@.state.pwm_channels =~= old(self)@.set_analog(
                pwm_channel,
                now,
            ).state.pwm_channels);
            assert(self@.state.shift_registers =~= old(self)@.state.shift_registers);
            Ok(())
        }
    }

    /// Sets the position of one analog channel, which is then last active
    /// at the reading of the system clock; no other channel changes. A
    /// command for a channel that the robot does not have is refused, and
    /// changes nothing.
    pub fn update_pwm_channel(&mut self, pwm_channel: PWMChannelState) -> (r: Result<
        (),
        RobotError,
    >)
        requires
            old(self).wf(),
        ensures
            final(self).wf(),
            r is Ok <==> pwm_channel.channel < old(self)@.state.pwm_channels.len(),
            exists|now: Timestamp|
                (match #[trigger] old(self)@.analog_applied(pwm_channel, now) {
                    Ok(after) => r is Ok && final(self)@ == after,
                    Err(error) => r == Err::<(), RobotError>(error) && final(self)@ == old(self)@,
                }),
            r is Err ==> r == Err::<(), RobotError>(
                RobotError::ChannelError(ChannelError { channel: pwm_channel.channel }),
            ) && final(self)@ == old(self)@,
            r is Ok ==> final(self)@.state.pwm_channels[pwm_channel.channel as int].position
                == pwm_channel.position,
            r is Ok ==> forall|i: int|
                0 <= i < old(self)@.state.pwm_channels.len() && i != pwm_channel.channel
                    ==> final(self)@.state.pwm_channels[i] == old(self)@.state.pwm_channels[i],
            final(self)@.state.shift_registers == old(self)@.state.shift_registers,
    {
        let now = Timestamp::now();
        self.update_pwm_channel_at(pwm_channel, now)
    }

    /// Replaces the bits of one shift register; nothing else changes. A
    /// command for a channel that the robot does not have is refused, and so
    /// is one whose bit vector has another length than the register; a
    /// refused command changes nothing.
    pub fn update_shift_register(&mut self, shift_register: ShiftRegisterState) -> (r: Result<
        (),
        RobotError,
    >)
        requires
            old(self).wf(),
        ensures
            final(self).wf(),
            (match old(self)@.bit_serial_applied(shift_register@) {
                Ok(after) => r is Ok && final(self)@ == after,
                Err(error) => r == Err::<(), RobotError>(error) && final(self)@ == old(self)@,
            }),
            shift_register.channel >= old(self)@.state.shift_registers.len() ==> r == Err::<
                (),
                RobotError,
            >(RobotError::ChannelError(ChannelError { channel: shift_register.channel })),
            r is Err ==> final(self)@ == old(self)@,
            r is Ok ==> final(self)@.state.shift_registers[shift_register.channel as int].state
                == shift_register.state@,
            r is Ok ==> forall|i: int|
                0 <= i < old(self)@.state.shift_registers.len() && i != shift_register.channel
                    ==> final(self)@.state.shift_registers[i] == old(
                    self,
                )@.state.shift_registers[i],
            final(self)@.state.pwm_channels == old(self)@.state.pwm_channels,
            final(self)@.last_activity == old(self)@.last_activity,
    {
        let index: usize = shift_register.channel as usize;
        if index >= self.state.shift_registers.len() {
            Err(RobotError::ChannelError(ChannelError { channel: shift_register.channel }))
        } else if shift_register.state.len() != self.state.shift_registers[index].state.len() {
            Err(
                RobotError::ProtocolError(
                    ProtocolError::StateLength { channel: shift_register.channel },
                ),
            )
        } else {
            self.state.shift_registers[index].state = shift_register.state;
            assert(self@.state.shift_registers =~= old(self)@.set_bit_serial(
                shift_register@,
            ).state.shift_registers);
            Ok(())
        }
    }

    /// The request to say `robot_speak`, if the robot is enabled.
    pub fn robot_speak(&self, robot_speak: RobotSpeak) -> (r: Option<SpeechRequest>)
        ensures
            r is Some <==> self@.config.enable,
            r matches Some(request) ==> request.says(robot_speak@),
    {
        if self.config.enable {
            Some(SpeechRequest::saying(robot_speak.quip))
        } else {
            None
        }
    }

    /// Computes the output value of a channel from its calibration and its
    /// value.
    pub fn pwm_value_from_config_and_state(
        &self,
        config: &PWMChannelConfig,
        state: &PWMChannelState,
    ) -> (val: u16)
        ensures
            val == pwm_value(*config, *state),
    {
        pwm_value_from_config_and_state(config, state)
    }

    /// Runs the idle check at `now` over the analog channels and computes
    /// the writes that commit them. A channel that idles is committed as
    /// de-energized by the same call.
    pub fn refresh_pwm_channels(&mut self, now: Timestamp) -> (writes: Vec<HardwareWrite>)
        requires
            old(self).wf(),
        ensures
            final(self).wf(),
            final(self)@ == old(self)@.idle_checked(now),
            writes@ == final(self)@.pwm_writes(),
    {
        let ghost before = self@;
        let ghost after = self@.idle_checked(now);
        let mut writes: Vec<HardwareWrite> = Vec::new();
        let mut i: usize = 0;
        while i < self.state.pwm_channels.len()
            invariant
                before.wf(),
                after == before.idle_checked(now),
                self.wf(),
                self@.config == before.config,
                self@.last_activity == before.last_activity,
                self@.state.shift_registers == before.state.shift_registers,
                self@.state.pwm_channels.len() == before.state.pwm_channels.len(),
                i <= self@.state.pwm_channels.len(),
                forall|j: int|
                    0 <= j < i ==> #[trigger] self@.state.pwm_channels[j]
                        == after.state.pwm_channels[j],
                forall|j: int|
                    i <= j < self@.state.pwm_channels.len() ==> (
                    #[trigger] self@.state.pwm_channels[j]) == before.state.pwm_channels[j],
                self@.config.enable ==> writes@.len() == i,
                !self@.config.enable ==> writes@.len() == 0,
                forall|j: int|
                    0 <= j < writes@.len() ==> #[trigger] writes@[j] == after.pwm_write(j),
            decreases self@.state.pwm_channels.len() - i,
        {
            let idle = match self.config.pwm_channels[i].idle_after_seconds {
                None => false,
                Some(seconds) => self.state.pwm_channels[i].position.is_some()
                    && now.is_later_by_more_than(self.pwm_channel_last_activity[i], seconds),
            };
            assert(idle == before.idles(i as int, now));
            if idle {
                self.state.pwm_channels[i].position = None;
            }
            if self.config.enable {
                let val: u16 = pwm_value_from_config_and_state(
                    &self.config.pwm_channels[i],
                    &self.state.pwm_channels[i],
                );
                writes.push(HardwareWrite::Pwm { channel: i as u8, on: 0, off: val });
            }
            i += 1;
        }
        assert(self@.state.pwm_channels =~= after.state.pwm_channels);
        assert(writes@ =~= after.pwm_writes());
        writes
    }

    /// Computes the writes that shift every shift register out.
    pub fn refresh_shift_registers(&self) -> (writes: Vec<HardwareWrite>)
        requires
            self.wf(),
        ensures
            writes@ == self@.shift_register_writes(),
    {
        let mut writes: Vec<HardwareWrite> = Vec::new();
        if self.config.enable {
            let mut i: usize = 0;
            while i < self.state.shift_registers.len()
                invariant
                    self.wf(),
                    i <= self@.state.shift_registers.len(),
                    writes@ == self@.shift_out_first(i as nat),
                decreases self@.state.shift_registers.len() - i,
            {
                let mut part = bitbang(
                    &self.state.shift_registers[i].state,
                    self.config.shift_registers[i].clock_pin,
                    self.config.shift_registers[i].data_pin,
                );
                writes.append(&mut part);
                i += 1;
            }
        }
        writes
    }

    /// One refresh, with `now` for the current time: the idle check, then
    /// the writes that commit the analog channels and, after them, the shift
    /// registers. A robot that is not enabled writes nothing.
    pub fn refresh_at(&mut self, now: Timestamp) -> (writes: Vec<HardwareWrite>)
        requires
            old(self).wf(),
        ensures
            final(self).wf(),
            final(self)@ == old(self)@.idle_checked(now),
            writes@ == final(self)@.refresh_writes(),
    {
        let mut writes = self.refresh_pwm_channels(now);
        let mut registers = self.refresh_shift_registers();
        writes.append(&mut registers);
        writes
    }

    /// One refresh at the reading of the system clock.
    pub fn refresh(&mut self) -> (writes: Vec<HardwareWrite>)
        requires
            old(self).wf(),
        ensures
            final(self).wf(),
            exists|now: Timestamp| final(self)@ == #[trigger] old(self)@.idle_checked(now),
            writes@ == final(self)@.refresh_writes(),
    {
        let now = Timestamp::now();
        self.refresh_at(now)
    }

    /// Computes the writes that prepare the outputs at startup.
    pub fn init_hardware(&self) -> (writes: Vec<HardwareWrite>)
        requires
            self.wf(),
        ensures
            writes@ == self@.init_writes(),
    {
        let mut writes: Vec<HardwareWrite> = Vec::new();
        if self.config.enable {
            writes.push(HardwareWrite::PwmFrequency { hertz: PWM_FREQUENCY_HERTZ });
            writes.push(HardwareWrite::AllPwm { on: 0, off: 0 });
            let ghost head = writes@;
            let mut i: usize = 0;
            while i < self.config.shift_registers.len()
                invariant
                    i <= self@.config.shift_registers@.len(),
                    self.config == self@.config,
                    writes@ == head + self@.init_pins_first(i as nat),
                decreases self@.config.shift_registers@.len() - i,
            {
                let clock_pin: u8 = self.config.shift_registers[i].clock_pin;
                let data_pin: u8 = self.config.shift_registers[i].data_pin;
                writes.push(HardwareWrite::PinOutput { pin: clock_pin });
                writes.push(HardwareWrite::PinOutput { pin: data_pin });
                writes.push(HardwareWrite::Pin { pin: clock_pin, level: Level::Low });
                writes.push(HardwareWrite::Pin { pin: data_pin, level: Level::Low });
                assert(writes@ =~= head + self@.init_pins_first((i + 1) as nat));
                i += 1;
            }
        }
        writes
    }

    /// Applies a command, with `now` for the current time. A command that is
    /// refused changes nothing. One that is accepted is answered with the
    /// state after it, for every controller to see, and with what the robot
    /// is to say.
    pub fn apply_at(&mut self, command: Command, now: Timestamp) -> (r: Result<
        Reaction,
        RobotError,
    >)
        requires
            old(self).wf(),
        ensures
            final(self).wf(),
            (match old(self)@.applied(command@, now) {
                Ok(after) => {
                    &&& final(self)@ == after
                    &&& r matches Ok(reaction)
                    &&& reaction.snapshot@ == after.state
                    &&& reaction.tells(old(self)@.spoken(command@))
                },
                Err(error) => r == Err::<Reaction, RobotError>(error) && final(self)@ == old(
                    self,
                )@,
            }),
    {
        let mut speech: Option<SpeechRequest> = None;
        match command {
            Command::SetAnalog(pwm_channel) => {
                match self.update_pwm_channel_at(pwm_channel, now) {
                    Ok(()) => {},
                    Err(error) => {
                        return Err(error);
                    },
                }
            },
            Command::SetBitSerial(shift_register) => {
                match self.update_shift_register(shift_register) {
                    Ok(()) => {},
                    Err(error) => {
                        return Err(error);
                    },
                }
            },
            Command::Speak(robot_speak) => {
                speech = self.robot_speak(robot_speak);
            },
        }
        Ok(Reaction { snapshot: self.state.snapshot(), speech })
    }

    /// Applies a command at the reading of the system clock.
    pub fn apply(&mut self, command: Command) -> (r: Result<Reaction, RobotError>)
        requires
            old(self).wf(),
        ensures
            final(self).wf(),
            exists|now: Timestamp|
                (match #[trigger] old(self)@.applied(command@, now) {
                    Ok(after) => {
                        &&& final(self)@ == after
                        &&& r matches Ok(reaction)
                        &&& reaction.snapshot@ == after.state
                        &&& reaction.tells(old(self)@.spoken(command@))
                    },
                    Err(error) => r == Err::<Reaction, RobotError>(error) && final(self)@ == old(
                        self,
                    )@,
                }),
    {
        let now = Timestamp::now();
        self.apply_at(command, now)
    }

    /// Takes a document from a remote controller, with `now` for the current
    /// time: reads the command that it stands for and applies it. A document
    /// that is no command is refused, and changes nothing.
    pub fn receive_at(&mut self, document: &Json, now: Timestamp) -> (r: Result<
        Reaction,
        RobotError,
    >)
        requires
            old(self).wf(),
        ensures
            final(self).wf(),
            (match old(self)@.received(document@, now) {
                Ok(after) => {
                    &&& final(self)@ == after
                    &&& r matches Ok(reaction)
                    &&& reaction.snapshot@ == after.state
                    &&& decoded_command(document@) matches Ok(command)
                    &&& reaction.tells(old(self)@.spoken(command))
                },
                Err(error) => r == Err::<Reaction, RobotError>(error) && final(self)@ == old(
                    self,
                )@,
            }),
    {
        match decode_command(document) {
            Ok(command) => self.apply_at(command, now),
            Err(error) => Err(RobotError::ProtocolError(error)),
        }
    }

    /// Takes a document from a remote controller at the reading of the
    /// system clock.
    pub fn receive(&mut self, document: &Json) -> (r: Result<Reaction, RobotError>)
        requires
            old(self).wf(),
        ensures
            final(self).wf(),
            exists|now: Timestamp|
                (match #[trigger] old(self)@.received(document@, now) {
                    Ok(after) => {
                        &&& final(self)@ == after
                        &&& r matches Ok(reaction)
                        &&& reaction.snapshot@ == after.state
                        &&& decoded_command(document@) matches Ok(command)
                        &&& reaction.tells(old(self)@.spoken(command))
                    },
                    Err(error) => r == Err::<Reaction, RobotError>(error) && final(self)@ == old(
                        self,
                    )@,
                }),
    {
        let now = Timestamp::now();
        self.receive_at(document, now)
    }
}

/// A command that is accepted leaves the robot well-formed under the same
/// configuration: no channel comes or goes, every channel keeps its number,
/// and every shift register keeps its width.
pub proof fn lemma_commands_keep_the_robot_well_formed(
    robot: RobotModel,
    command: CommandView,
    now: Timestamp,
)
    requires
        robot.wf(),
    ensures
        robot.applied(command, now) matches Ok(after) ==> after.wf() && after.config
            == robot.config,
        robot.applied(command, now) matches Ok(after) ==> forall|i: int|
            0 <= i < robot.state.shift_registers.len() ==> (
            #[trigger] after.state.shift_registers[i]).state.len()
                == robot.state.shift_registers[i].state.len(),
{
}

/// A channel that got a command keeps the position of the command through
/// a refresh that comes no more than its idle time later, and through every
/// refresh where it has no idle time.
pub proof fn lemma_recent_command_survives(
    robot: RobotModel,
    command: PWMChannelState,
    at: Timestamp,
    now: Timestamp,
)
    requires
        robot.wf(),
        command.channel < robot.state.pwm_channels.len(),
        robot.config.pwm_channels@[command.channel as int].idle_after_seconds matches Some(seconds)
            ==> now.nanos - at.nanos <= seconds * NANOS_PER_SECOND,
    ensures
        robot.set_analog(command, at).idle_checked(
            now,
        ).state.pwm_channels[command.channel as int].position == command.position,
{
}

/// A channel with an idle time that got no command for longer than that
/// time is de-energized after the next refresh, and is committed as such by
/// that refresh.
pub proof fn lemma_stale_channel_idles(robot: RobotModel, index: int, now: Timestamp)
    requires
        robot.wf(),
        0 <= index < robot.state.pwm_channels.len(),
        robot.config.pwm_channels@[index].idle_after_seconds matches Some(seconds) && now.nanos
            - robot.last_activity[index].nanos > seconds * NANOS_PER_SECOND,
    ensures
        robot.idle_checked(now).state.pwm_channels[index].position is None,
        robot.config.enable ==> robot.idle_checked(now).refresh_writes()[index] == (
        HardwareWrite::Pwm { channel: index as u8, on: 0, off: 0 }),
{
}

/// A refresh leaves every shift register as it is, and every analog channel
/// that is not due to idle; it is no activity of any channel.
pub proof fn lemma_refresh_touches_idle_channels_only(robot: RobotModel, now: Timestamp)
    requires
        robot.wf(),
    ensures
        robot.idle_checked(now).wf(),
        robot.idle_checked(now).state.shift_registers == robot.state.shift_registers,
        robot.idle_checked(now).last_activity == robot.last_activity,
        forall|i: int|
            0 <= i < robot.state.pwm_channels.len() && !robot.idles(i, now) ==> (
            #[trigger] robot.idle_checked(now).state.pwm_channels[i])
                == robot.state.pwm_channels[i],
{
}

} // verus!
