//! From a position and a calibration to an output value.

use crate::config::PWMChannelConfig;
use crate::position::{Position, ONE_BITS};
use crate::state::PWMChannelState;
use vstd::arithmetic::power2::lemma2_to64;
use vstd::prelude::*;

verus! {

/// Width of the output range of a calibration; a reversed range has no
/// width.
pub open spec fn range(config: PWMChannelConfig) -> u16 {
    if config.high >= config.low {
        (config.high - config.low) as u16
    } else {
        0
    }
}

/// The output value of a channel: zero for a channel that is de-energized,
/// else the point of the range `low..=high` that the position marks,
/// counted from `high` downward where the calibration is inverted.
pub open spec fn pwm_value(config: PWMChannelConfig, state: PWMChannelState) -> int {
    match state.position {
        None => 0,
        Some(position) => config.low + position.scaled(range(config), config.invert),
    }
}

/// Computes the output value of a channel from its calibration and its
/// value.
pub fn pwm_value_from_config_and_state(config: &PWMChannelConfig, state: &PWMChannelState) -> (val:
    u16)
    ensures
        val == pwm_value(*config, *state),
        state.position is None ==> val == 0,
        state.position is Some && config.low <= config.high ==> config.low <= val <= config.high,
{
    match state.position {
        None => 0,
        Some(position) => {
            let range: u16 = if config.high >= config.low {
                config.high - config.low
            } else {
                0
            };
            config.low + position.scale(range, config.invert)
        },
    }
}

/// A channel that is de-energized maps to zero, whatever its calibration.
pub proof fn lemma_idle_maps_to_zero(config: PWMChannelConfig, channel: u8)
    ensures
        pwm_value(config, PWMChannelState { channel, position: None }) == 0,
{
}

/// With a calibration whose range is not reversed, position zero maps to
/// `low` and position one to `high`; inverted, zero maps to `high` and one
/// to `low`.
pub proof fn lemma_endpoints_are_exact(config: PWMChannelConfig, channel: u8)
    requires
        config.low <= config.high,
    ensures
        pwm_value(config, PWMChannelState { channel, position: Some(Position::with_bits(0)) })
            == (if config.invert {
            config.high
        } else {
            config.low
        }),
        pwm_value(
            config,
            PWMChannelState { channel, position: Some(Position::with_bits(ONE_BITS)) },
        ) == (if config.invert {
            config.low
        } else {
            config.high
        }),
{
    let width = range(config);
    let zero = Position::with_bits(0);
    let one = Position::with_bits(ONE_BITS);
    Position::lemma_with_bits(0);
    Position::lemma_with_bits(ONE_BITS);
    lemma2_to64();
    assert(zero.significand() == 0);
    assert(one.significand() == 0x80_0000);
    assert(one.shift() == 23);
    zero.lemma_scaled_zero(width);
    one.lemma_scaled_one(width);
}

/// With a calibration whose range is not reversed, a channel that is
/// energized maps into the range.
pub proof fn lemma_value_in_range(config: PWMChannelConfig, channel: u8, position: Position)
    requires
        config.low <= config.high,
        position.in_unit_interval(),
    ensures
        config.low <= pwm_value(config, PWMChannelState { channel, position: Some(position) })
            <= config.high,
{
    position.lemma_scaled_bounds(range(config), config.invert);
}

} // verus!
