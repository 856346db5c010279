//! State and command engine of a small remotely controlled robot.
//!
//! The crate keeps the authoritative state of a set of analog (PWM) channels
//! and of a set of shift registers, applies the commands of remote
//! controllers to it, and computes on every refresh the writes that commit
//! the state to the outputs. It performs no input or output itself: the
//! writes, the speech requests and the snapshots it hands back are plain
//! values for the caller to carry out, and the messages it reads and writes
//! are documents for the caller to take from and turn into text.

pub mod clock;
pub mod config;
pub mod display;
pub mod error;
pub mod mapper;
pub mod output;
pub mod position;
pub mod robot;
pub mod state;
pub mod wire;

pub use clock::Timestamp;
pub use config::{PWMChannelConfig, RobotConfig, ShiftRegisterConfig};
pub use display::{LEDDisplayConfig, LEDDisplayState};
pub use error::{ChannelError, ConfigError, ProtocolError, RobotError};
pub use output::{HardwareWrite, Level, SpeechRequest};
pub use position::Position;
pub use robot::{Reaction, Robot};
pub use state::{Command, PWMChannelState, RobotSpeak, RobotState, ShiftRegisterState};
