//! Calibration and wiring of the channels, fixed at startup.

use crate::error::ConfigError;
use crate::position::Position;
use vstd::prelude::*;

verus! {

/// Calibration of one analog channel.
#[derive(Clone, Debug, PartialEq, Eq)]
pub struct PWMChannelConfig {
    /// Number of the channel: its place in the list of analog channels.
    pub channel: u8,
    pub name: String,
    /// Whether the output runs from `high` down to `low` as the position
    /// goes from zero to one.
    pub invert: bool,
    /// Output value of the lower end of the range.
    pub low: u16,
    /// Output value of the upper end of the range.
    pub high: u16,
    /// Position of the channel at startup.
    pub initial_position: Position,
    /// Seconds without a command after which the channel is de-energized;
    /// `None` for a channel that never idles.
    pub idle_after_seconds: Option<u64>,
}

/// Wiring of one shift register.
#[derive(Clone, Debug, PartialEq, Eq)]
pub struct ShiftRegisterConfig {
    /// Number of the channel: its place in the list of shift registers.
    pub channel: u8,
    /// Bits of the register at startup; their number is the width of the
    /// register.
    pub initial_state: Vec<bool>,
    pub clock_pin: u8,
    pub data_pin: u8,
}

/// The whole configuration of a robot.
#[derive(Clone, Debug, PartialEq, Eq)]
pub struct RobotConfig {
    /// Whether the outputs are driven. A robot that is not enabled keeps its
    /// state and writes nothing.
    pub enable: bool,
    pub debug: bool,
    pub pwm_channels: Vec<PWMChannelConfig>,
    pub shift_registers: Vec<ShiftRegisterConfig>,
}

impl PWMChannelConfig {
    /// The calibration with the given parts, the initial position given by
    /// its single-precision bit pattern. A pattern that stands for no number
    /// between zero and one is refused.
    pub fn new(
        channel: u8,
        name: String,
        invert: bool,
        low: u16,
        high: u16,
        initial_position: u32,
        idle_after_seconds: Option<u64>,
    ) -> (r: Result<PWMChannelConfig, ConfigError>)
        ensures
            (match Position::of_bits(initial_position) {
                Some(position) => r == Ok::<PWMChannelConfig, ConfigError>(
                    PWMChannelConfig {
                        channel,
                        name,
                        invert,
                        low,
                        high,
                        initial_position: position,
                        idle_after_seconds,
                    },
                ),
                None => r == Err::<PWMChannelConfig, ConfigError>(
                    ConfigError::InitialPosition { channel },
                ),
            }),
    {
        match Position::from_bits(initial_position) {
            Some(position) => Ok(
                PWMChannelConfig {
                    channel,
                    name,
                    invert,
                    low,
                    high,
                    initial_position: position,
                    idle_after_seconds,
                },
            ),
            None => Err(ConfigError::InitialPosition { channel }),
        }
    }

    /// The entry can stand at `index` of the list: it carries that channel
    /// number, and its range is not reversed.
    pub open spec fn valid_at(&self, index: int) -> bool {
        self.channel == index && self.low <= self.high
    }
}

impl ShiftRegisterConfig {
    /// The entry can stand at `index` of the list: it carries that channel
    /// number.
    pub open spec fn valid_at(&self, index: int) -> bool {
        self.channel == index
    }
}

impl RobotConfig {
    /// Every entry can stand where it stands.
    pub open spec fn valid(&self) -> bool {
        &&& forall|i: int|
            0 <= i < self.pwm_channels@.len() ==> (#[trigger] self.pwm_channels@[i]).valid_at(i)
        &&& forall|i: int|
            0 <= i < self.shift_registers@.len() ==> (#[trigger] self.shift_registers@[i]).valid_at(
                i,
            )
    }

    /// `error` names the first entry of the configuration that cannot stand
    /// where it stands.
    pub open spec fn first_fault(&self, error: ConfigError) -> bool {
        match error {
            ConfigError::PwmChannel { index } => {
                &&& index < self.pwm_channels@.len()
                &&& !self.pwm_channels@[index as int].valid_at(index as int)
                &&& forall|i: int|
                    0 <= i < index ==> (#[trigger] self.pwm_channels@[i]).valid_at(i)
            },
            ConfigError::InitialPosition { .. } => false,
            ConfigError::ShiftRegister { index } => {
                &&& forall|i: int|
                    0 <= i < self.pwm_channels@.len() ==> (
                    #[trigger] self.pwm_channels@[i]).valid_at(i)
                &&& index < self.shift_registers@.len()
                &&& !self.shift_registers@[index as int].valid_at(index as int)
                &&& forall|i: int|
                    0 <= i < index ==> (#[trigger] self.shift_registers@[i]).valid_at(i)
            },
        }
    }

    /// Checks the configuration, and names the first entry at fault.
    pub fn validate(&self) -> (r: Result<(), ConfigError>)
        ensures
            r is Ok <==> self.valid(),
            r matches Err(error) ==> self.first_fault(error),
    {
        let mut i: usize = 0;
        while i < self.pwm_channels.len()
            invariant
                i <= self.pwm_channels@.len(),
                forall|j: int| 0 <= j < i ==> (#[trigger] self.pwm_channels@[j]).valid_at(j),
            decreases self.pwm_channels@.len() - i,
        {
            let entry = &self.pwm_channels[i];
            if entry.channel as usize != i || entry.low > entry.high {
                return Err(ConfigError::PwmChannel { index: i });
            }
            i += 1;
        }
        let mut k: usize = 0;
        while k < self.shift_registers.len()
            invariant
                k <= self.shift_registers@.len(),
                forall|j: int|
                    0 <= j < self.pwm_channels@.len() ==> (
                    #[trigger] self.pwm_channels@[j]).valid_at(j),
                forall|j: int| 0 <= j < k ==> (#[trigger] self.shift_registers@[j]).valid_at(j),
            decreases self.shift_registers@.len() - k,
        {
            if self.shift_registers[k].channel as usize != k {
                return Err(ConfigError::ShiftRegister { index: k });
            }
            k += 1;
        }
        Ok(())
    }

    /// Builds a configuration from its parts, and checks it.
    pub fn new(
        enable: bool,
        debug: bool,
        pwm_channels: Vec<PWMChannelConfig>,
        shift_registers: Vec<ShiftRegisterConfig>,
    ) -> (r: Result<RobotConfig, ConfigError>)
        ensures
            r is Ok <==> (RobotConfig { enable, debug, pwm_channels, shift_registers }).valid(),
            r matches Ok(config) ==> config == (RobotConfig {
                enable,
                debug,
                pwm_channels,
                shift_registers,
            }),
            r matches Err(error) ==> (RobotConfig {
                enable,
                debug,
                pwm_channels,
                shift_registers,
            }).first_fault(error),
    {
        let config = RobotConfig { enable, debug, pwm_channels, shift_registers };
        match config.validate() {
            Ok(()) => Ok(config),
            Err(error) => Err(error),
        }
    }
}

} // verus!
