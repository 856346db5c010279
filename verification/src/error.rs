//! Errors of the engine.

use vstd::prelude::*;
use vstd::string::StringExecFns;

verus! {

/// A command named a channel that the robot does not have.
#[derive(Clone, Copy, Debug, PartialEq, Eq, Structural)]
pub struct ChannelError {
    pub channel: u8,
}

/// The character of a decimal digit.
pub open spec fn digit(value: int) -> char {
    if value == 0 {
        '0'
    } else if value == 1 {
        '1'
    } else if value == 2 {
        '2'
    } else if value == 3 {
        '3'
    } else if value == 4 {
        '4'
    } else if value == 5 {
        '5'
    } else if value == 6 {
        '6'
    } else if value == 7 {
        '7'
    } else if value == 8 {
        '8'
    } else {
        '9'
    }
}

/// A number in decimal digits, without leading zeros.
pub open spec fn decimal(value: nat) -> Seq<char>
    decreases value,
{
    if value < 10 {
        seq![digit(value as int)]
    } else {
        decimal(value / 10).push(digit((value % 10) as int))
    }
}

/// The text of a decimal digit.
fn digit_text(value: u8) -> (text: &'static str)
    requires
        value < 10,
    ensures
        text@ == seq![digit(value as int)],
{
    proof {
        reveal_strlit("0");
        reveal_strlit("1");
        reveal_strlit("2");
        reveal_strlit("3");
        reveal_strlit("4");
        reveal_strlit("5");
        reveal_strlit("6");
        reveal_strlit("7");
        reveal_strlit("8");
        reveal_strlit("9");
    }
    let text = match value {
        0 => "0",
        1 => "1",
        2 => "2",
        3 => "3",
        4 => "4",
        5 => "5",
        6 => "6",
        7 => "7",
        8 => "8",
        _ => "9",
    };
    assert(text@ =~= seq![digit(value as int)]);
    text
}

/// What a channel error says before it names the channel.
pub const CHANNEL_ERROR_DESCRIPTION: &'static str = "Channel out of range";

impl ChannelError {
    /// What the error is, in words.
    pub fn description(&self) -> (text: &'static str)
        ensures
            text@ == CHANNEL_ERROR_DESCRIPTION@,
    {
        CHANNEL_ERROR_DESCRIPTION
    }

    /// The text of the error: what it is, a colon and a blank, and the
    /// number of the channel in decimal digits.
    pub open spec fn text(self) -> Seq<char> {
        CHANNEL_ERROR_DESCRIPTION@ + seq![':', ' '] + decimal(self.channel as nat)
    }

    /// The error as a line for the operator.
    pub fn to_string(&self) -> (line: String)
        ensures
            line@ == self.text(),
    {
        proof {
            reveal_strlit(": ");
            reveal_with_fuel(decimal, 3);
        }
        let mut line = CHANNEL_ERROR_DESCRIPTION.to_owned();
        line.append(": ");
        assert(line@ =~= CHANNEL_ERROR_DESCRIPTION@ + seq![':', ' ']);
        let channel: u8 = self.channel;
        if channel >= 100 {
            line.append(digit_text(channel / 100));
        }
        if channel >= 10 {
            line.append(digit_text((channel / 10) % 10));
        }
        line.append(digit_text(channel % 10));
        assert(line@ =~= self.text());
        line
    }
}

/// The configuration cannot be used: startup fails.
///
/// The error names the first entry at fault, analog channels before shift
/// registers.
#[derive(Clone, Copy, Debug, PartialEq, Eq, Structural)]
pub enum ConfigError {
    /// The analog channel at `index` of the list does not carry `index` as
    /// its channel number, or its `high` bound lies below its `low` bound.
    PwmChannel { index: usize },
    /// The shift register at `index` of the list does not carry `index` as
    /// its channel number.
    ShiftRegister { index: usize },
    /// The initial position of the analog channel `channel` does not lie
    /// between zero and one.
    InitialPosition { channel: u8 },
}

/// A message that the engine discards.
#[derive(Clone, Copy, Debug, PartialEq, Eq, Structural)]
pub enum ProtocolError {
    /// The document does not have the shape of a message.
    Malformed,
    /// The document has the shape of a command, under a kind that is none of
    /// the known ones.
    UnknownKind,
    /// The bit vector of a shift register command has another length than
    /// the register of that channel.
    StateLength { channel: u8 },
}

/// Any error of the engine.
#[derive(Clone, Copy, Debug, PartialEq, Eq, Structural)]
pub enum RobotError {
    ConfigError(ConfigError),
    ChannelError(ChannelError),
    ProtocolError(ProtocolError),
}

impl From<ConfigError> for RobotError {
    fn from(err: ConfigError) -> (r: RobotError) {
        RobotError::ConfigError(err)
    }
}

impl vstd::std_specs::convert::FromSpecImpl<ConfigError> for RobotError {
    open spec fn obeys_from_spec() -> bool {
        true
    }

    open spec fn from_spec(err: ConfigError) -> RobotError {
        RobotError::ConfigError(err)
    }
}

impl From<ChannelError> for RobotError {
    fn from(err: ChannelError) -> (r: RobotError) {
        RobotError::ChannelError(err)
    }
}

impl vstd::std_specs::convert::FromSpecImpl<ChannelError> for RobotError {
    open spec fn obeys_from_spec() -> bool {
        true
    }

    open spec fn from_spec(err: ChannelError) -> RobotError {
        RobotError::ChannelError(err)
    }
}

impl From<ProtocolError> for RobotError {
    fn from(err: ProtocolError) -> (r: RobotError) {
        RobotError::ProtocolError(err)
    }
}

impl vstd::std_specs::convert::FromSpecImpl<ProtocolError> for RobotError {
    open spec fn obeys_from_spec() -> bool {
        true
    }

    open spec fn from_spec(err: ProtocolError) -> RobotError {
        RobotError::ProtocolError(err)
    }
}

} // verus!
