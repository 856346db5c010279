use pi_robot::{
    ChannelError, HardwareWrite, PWMChannelConfig, PWMChannelState, Position, ProtocolError, Robot,
    RobotConfig, RobotError, ShiftRegisterConfig, ShiftRegisterState, Timestamp,
};

fn position(value: f32) -> Position {
    Position::from_bits(value.to_bits()).unwrap()
}

fn robot_config() -> RobotConfig {
    RobotConfig {
        debug: false,
        enable: false,
        pwm_channels: vec![
            PWMChannelConfig {
                channel: 0,
                name: "Channel 0".to_string(),
                invert: true,
                low: 100,
                high: 600,
                initial_position: position(0.0),
                idle_after_seconds: Some(60),
            },
            PWMChannelConfig {
                channel: 1,
                name: "Channel 1".to_string(),
                invert: false,
                low: 200,
                high: 500,
                initial_position: position(0.5),
                idle_after_seconds: None,
            },
        ],
        shift_registers: vec![
            ShiftRegisterConfig {
                channel: 0,
                clock_pin: 10,
                data_pin: 11,
                initial_state: vec![false, true, false, true],
            },
            ShiftRegisterConfig {
                channel: 1,
                clock_pin: 20,
                data_pin: 21,
                initial_state: vec![false, false, false, false],
            },
        ],
    }
}

fn wide_robot_config() -> RobotConfig {
    RobotConfig {
        debug: false,
        enable: false,
        pwm_channels: vec![
            PWMChannelConfig {
                channel: 0,
                name: "Channel 0".to_string(),
                invert: true,
                low: 100,
                high: 600,
                initial_position: position(0.0),
                idle_after_seconds: None,
            },
            PWMChannelConfig {
                channel: 1,
                name: "Channel 1".to_string(),
                invert: false,
                low: 200,
                high: 500,
                initial_position: position(0.5),
                idle_after_seconds: None,
            },
        ],
        shift_registers: vec![
            ShiftRegisterConfig {
                channel: 0,
                clock_pin: 10,
                data_pin: 11,
                initial_state: vec![
                    false, true, false, true, false, true, false, true, false, true, false, true,
                    false, true, false, true,
                ],
            },
            ShiftRegisterConfig {
                channel: 1,
                clock_pin: 20,
                data_pin: 21,
                initial_state: vec![
                    false, false, false, false, false, false, false, false, false, false, false,
                    false, false, false, false, false,
                ],
            },
        ],
    }
}

fn enabled(mut config: RobotConfig) -> RobotConfig {
    config.enable = true;
    config
}

#[test]
fn lib_it_constructs_a_robot_config() {
    let robot = Robot::new(robot_config()).unwrap();
    let robot_config = robot.config();
    let robot_state = robot.state();

    assert_eq!(robot_config.pwm_channels.len(), 2);
    assert_eq!(
        robot_config.pwm_channels[0],
        PWMChannelConfig {
            channel: 0,
            name: "Channel 0".to_string(),
            invert: true,
            low: 100,
            high: 600,
            initial_position: position(0.0),
            idle_after_seconds: Some(60)
        }
    );
    assert_eq!(
        robot_config.pwm_channels[1],
        PWMChannelConfig {
            channel: 1,
            name: "Channel 1".to_string(),
            invert: false,
            low: 200,
            high: 500,
            initial_position: position(0.5),
            idle_after_seconds: None
        }
    );

    assert_eq!(robot_state.pwm_channels.len(), 2);
    assert_eq!(
        robot_state.pwm_channels[0],
        PWMChannelState { channel: 0, position: Some(position(0.0)) }
    );
    assert_eq!(
        robot_state.pwm_channels[1],
        PWMChannelState { channel: 1, position: Some(position(0.5)) }
    );

    assert_eq!(robot_config.shift_registers.len(), 2);
    assert_eq!(
        robot_config.shift_registers[0],
        ShiftRegisterConfig {
            channel: 0,
            initial_state: vec![false, true, false, true],
            clock_pin: 10,
            data_pin: 11,
        }
    );
    assert_eq!(
        robot_config.shift_registers[1],
        ShiftRegisterConfig {
            channel: 1,
            initial_state: vec![false, false, false, false],
            clock_pin: 20,
            data_pin: 21,
        }
    );

    assert_eq!(robot_state.shift_registers.len(), 2);
    assert_eq!(
        robot_state.shift_registers[0],
        ShiftRegisterState { channel: 0, state: vec![false, true, false, true] }
    );
    assert_eq!(
        robot_state.shift_registers[1],
        ShiftRegisterState { channel: 1, state: vec![false, false, false, false] }
    );
}

#[test]
fn lib_it_updates_pwm_channel_state() {
    let mut robot = Robot::new(robot_config()).unwrap();

    let robot_state = robot.state().clone();
    assert_eq!(robot_state.pwm_channels[0].position, Some(position(0.0)));
    assert_eq!(robot_state.pwm_channels[1].position, Some(position(0.5)));

    robot
        .update_pwm_channel(PWMChannelState { channel: 1, position: Some(position(0.0)) })
        .unwrap();

    let robot_state = robot.state().clone();
    assert_eq!(robot_state.pwm_channels[0].position, Some(position(0.0)));
    assert_eq!(robot_state.pwm_channels[1].position, Some(position(0.0)));

    robot
        .update_pwm_channel(PWMChannelState { channel: 1, position: Some(position(1.0)) })
        .unwrap();

    let robot_state = robot.state().clone();
    assert_eq!(robot_state.pwm_channels[0].position, Some(position(0.0)));
    assert_eq!(robot_state.pwm_channels[1].position, Some(position(1.0)));
}

#[test]
fn lib_it_updates_shift_register_state() {
    let mut robot = Robot::new(robot_config()).unwrap();

    let robot_state = robot.state().clone();
    assert_eq!(robot_state.shift_registers[0].state, vec![false, true, false, true]);
    assert_eq!(robot_state.shift_registers[1].state, vec![false, false, false, false]);

    robot
        .update_shift_register(ShiftRegisterState {
            channel: 1,
            state: vec![true, true, true, true],
        })
        .unwrap();

    let robot_state = robot.state().clone();
    assert_eq!(robot_state.shift_registers[0].state, vec![false, true, false, true]);
    assert_eq!(robot_state.shift_registers[1].state, vec![true, true, true, true]);

    robot
        .update_shift_register(ShiftRegisterState {
            channel: 1,
            state: vec![false, false, false, false],
        })
        .unwrap();

    let robot_state = robot.state().clone();
    assert_eq!(robot_state.shift_registers[0].state, vec![false, true, false, true]);
    assert_eq!(robot_state.shift_registers[1].state, vec![false, false, false, false]);
}

#[test]
fn it_calculates_pwm_channel_absolute_position() {
    let robot = Robot::new(robot_config()).unwrap();

    let mut config = PWMChannelConfig {
        channel: 0,
        name: "Channel 0".to_string(),
        invert: false,
        low: 100,
        high: 600,
        initial_position: position(0.0),
        idle_after_seconds: None,
    };

    assert_eq!(
        robot.pwm_value_from_config_and_state(
            &config,
            &PWMChannelState { channel: 0, position: Some(position(0.0)) },
        ),
        100,
    );

    assert_eq!(
        robot.pwm_value_from_config_and_state(
            &config,
            &PWMChannelState { channel: 0, position: Some(position(0.5)) },
        ),
        350,
    );

    assert_eq!(
        robot.pwm_value_from_config_and_state(
            &config,
            &PWMChannelState { channel: 0, position: Some(position(1.0)) },
        ),
        600,
    );

    config.invert = true;

    assert_eq!(
        robot.pwm_value_from_config_and_state(
            &config,
            &PWMChannelState { channel: 0, position: Some(position(0.0)) },
        ),
        600,
    );

    assert_eq!(
        robot.pwm_value_from_config_and_state(
            &config,
            &PWMChannelState { channel: 0, position: Some(position(0.5)) },
        ),
        350,
    );

    assert_eq!(
        robot.pwm_value_from_config_and_state(
            &config,
            &PWMChannelState { channel: 0, position: Some(position(1.0)) },
        ),
        100,
    );

    assert_eq!(
        robot.pwm_value_from_config_and_state(
            &config,
            &PWMChannelState { channel: 0, position: None },
        ),
        0,
    );
}

#[test]
fn robot_it_constructs_a_robot_config() {
    let robot = Robot::new(wide_robot_config()).unwrap();
    let robot_state = robot.state();

    assert_eq!(robot_state.pwm_channels.len(), 2);
    assert_eq!(robot_state.pwm_channels[0].channel, 0);
    assert_eq!(robot_state.pwm_channels[0].position, Some(position(0.0)));
    assert_eq!(robot_state.pwm_channels[1].channel, 1);
    assert_eq!(robot_state.pwm_channels[1].position, Some(position(0.5)));

    assert_eq!(robot_state.shift_registers.len(), 2);
    assert_eq!(robot_state.shift_registers[0].channel, 0);
    assert_eq!(
        robot_state.shift_registers[0].state,
        [
            false, true, false, true, false, true, false, true, false, true, false, true, false,
            true, false, true
        ]
    );
    assert_eq!(robot_state.shift_registers[1].channel, 1);
    assert_eq!(
        robot_state.shift_registers[1].state,
        [
            false, false, false, false, false, false, false, false, false, false, false, false,
            false, false, false, false
        ]
    );
}

#[test]
fn robot_it_updates_pwm_channel_state() {
    let mut robot = Robot::new(wide_robot_config()).unwrap();

    let robot_state = robot.state().clone();
    assert_eq!(robot_state.pwm_channels[0].position, Some(position(0.0)));
    assert_eq!(robot_state.pwm_channels[1].position, Some(position(0.5)));

    robot
        .update_pwm_channel(PWMChannelState { channel: 1, position: Some(position(0.0)) })
        .unwrap();

    let robot_state = robot.state().clone();
    assert_eq!(robot_state.pwm_channels[0].position, Some(position(0.0)));
    assert_eq!(robot_state.pwm_channels[1].position, Some(position(0.0)));

    robot
        .update_pwm_channel(PWMChannelState { channel: 1, position: Some(position(1.0)) })
        .unwrap();

    let robot_state = robot.state().clone();
    assert_eq!(robot_state.pwm_channels[0].position, Some(position(0.0)));
    assert_eq!(robot_state.pwm_channels[1].position, Some(position(1.0)));
}

#[test]
fn robot_it_updates_shift_register_state() {
    let mut robot = Robot::new(wide_robot_config()).unwrap();

    let robot_state = robot.state().clone();
    assert_eq!(
        robot_state.shift_registers[0].state,
        [
            false, true, false, true, false, true, false, true, false, true, false, true, false,
            true, false, true
        ]
    );
    assert_eq!(
        robot_state.shift_registers[1].state,
        [
            false, false, false, false, false, false, false, false, false, false, false, false,
            false, false, false, false
        ]
    );

    robot
        .update_shift_register(ShiftRegisterState {
            channel: 1,
            state: vec![
                true, true, true, true, true, true, true, true, true, true, true, true, true, true,
                true, true,
            ],
        })
        .unwrap();

    let robot_state = robot.state().clone();
    assert_eq!(
        robot_state.shift_registers[0].state,
        [
            false, true, false, true, false, true, false, true, false, true, false, true, false,
            true, false, true
        ]
    );
    assert_eq!(
        robot_state.shift_registers[1].state,
        [
            true, true, true, true, true, true, true, true, true, true, true, true, true, true,
            true, true
        ]
    );

    robot
        .update_shift_register(ShiftRegisterState {
            channel: 1,
            state: vec![
                false, false, false, false, false, false, false, false, false, false, false, false,
                false, false, false, false,
            ],
        })
        .unwrap();

    let robot_state = robot.state().clone();
    assert_eq!(
        robot_state.shift_registers[0].state,
        [
            false, true, false, true, false, true, false, true, false, true, false, true, false,
            true, false, true
        ]
    );
    assert_eq!(
        robot_state.shift_registers[1].state,
        [
            false, false, false, false, false, false, false, false, false, false, false, false,
            false, false, false, false
        ]
    );
}

#[test]
fn set_analog_changes_exactly_one_channel() {
    let start = Timestamp::from_secs(1_000);
    let mut robot = Robot::new_at(robot_config(), start).unwrap();
    let before = robot.state().clone();

    let later = Timestamp::from_secs(1_007);
    robot
        .update_pwm_channel_at(PWMChannelState { channel: 0, position: Some(position(0.25)) }, later)
        .unwrap();

    let after = robot.state().clone();
    assert_eq!(after.pwm_channels[0], PWMChannelState { channel: 0, position: Some(position(0.25)) });
    assert_eq!(after.pwm_channels[1], before.pwm_channels[1]);
    assert_eq!(after.shift_registers, before.shift_registers);
    assert_eq!(robot.last_activity(), &vec![later, start]);
    assert!(robot.well_formed());
}

#[test]
fn set_analog_accepts_none_to_de_energize() {
    let mut robot = Robot::new_at(robot_config(), Timestamp::from_secs(0)).unwrap();
    robot
        .update_pwm_channel_at(
            PWMChannelState { channel: 1, position: None },
            Timestamp::from_secs(1),
        )
        .unwrap();
    assert_eq!(robot.state().pwm_channels[1], PWMChannelState { channel: 1, position: None });
    assert_eq!(robot.state().pwm_channels[0].position, Some(position(0.0)));
}

#[test]
fn set_analog_keeps_the_channel_number_of_the_state() {
    let mut robot = Robot::new_at(robot_config(), Timestamp::from_secs(0)).unwrap();
    robot
        .update_pwm_channel_at(
            PWMChannelState { channel: 1, position: Some(position(0.75)) },
            Timestamp::from_secs(1),
        )
        .unwrap();
    assert_eq!(robot.state().pwm_channels[1].channel, 1);
    assert_eq!(robot.state().pwm_channels[0].channel, 0);
}

#[test]
fn set_analog_out_of_range_is_refused_and_changes_nothing() {
    let start = Timestamp::from_secs(5);
    let mut robot = Robot::new_at(robot_config(), start).unwrap();
    let before = robot.state().clone();

    let refused = robot.update_pwm_channel_at(
        PWMChannelState { channel: 2, position: Some(position(1.0)) },
        Timestamp::from_secs(9),
    );
    assert_eq!(refused, Err(RobotError::ChannelError(ChannelError { channel: 2 })));
    assert_eq!(robot.state(), &before);
    assert_eq!(robot.last_activity(), &vec![start, start]);

    let refused = robot.update_pwm_channel(PWMChannelState { channel: 255, position: None });
    assert_eq!(refused, Err(RobotError::ChannelError(ChannelError { channel: 255 })));
    assert_eq!(robot.state(), &before);
    assert_eq!(robot.last_activity(), &vec![start, start]);
}

#[test]
fn set_bit_serial_out_of_range_is_refused_and_changes_nothing() {
    let mut robot = Robot::new_at(robot_config(), Timestamp::from_secs(5)).unwrap();
    let before = robot.state().clone();

    let refused = robot.update_shift_register(ShiftRegisterState {
        channel: 2,
        state: vec![true, true, true, true],
    });
    assert_eq!(refused, Err(RobotError::ChannelError(ChannelError { channel: 2 })));
    assert_eq!(robot.state(), &before);
}

#[test]
fn set_bit_serial_of_another_length_is_refused_and_changes_nothing() {
    let mut robot = Robot::new_at(robot_config(), Timestamp::from_secs(5)).unwrap();
    let before = robot.state().clone();

    let short = robot.update_shift_register(ShiftRegisterState {
        channel: 0,
        state: vec![true, true, true],
    });
    assert_eq!(
        short,
        Err(RobotError::ProtocolError(ProtocolError::StateLength { channel: 0 }))
    );
    assert_eq!(robot.state(), &before);

    let long = robot.update_shift_register(ShiftRegisterState {
        channel: 1,
        state: vec![true, true, true, true, true],
    });
    assert_eq!(
        long,
        Err(RobotError::ProtocolError(ProtocolError::StateLength { channel: 1 }))
    );
    assert_eq!(robot.state(), &before);

    let far = robot.update_shift_register(ShiftRegisterState { channel: 9, state: vec![] });
    assert_eq!(far, Err(RobotError::ChannelError(ChannelError { channel: 9 })));
}

#[test]
fn set_bit_serial_changes_exactly_one_register() {
    let start = Timestamp::from_secs(5);
    let mut robot = Robot::new_at(robot_config(), start).unwrap();
    let before = robot.state().clone();
    robot
        .update_shift_register(ShiftRegisterState {
            channel: 0,
            state: vec![true, false, false, true],
        })
        .unwrap();
    let after = robot.state();
    assert_eq!(
        after.shift_registers[0],
        ShiftRegisterState { channel: 0, state: vec![true, false, false, true] }
    );
    assert_eq!(after.shift_registers[1], before.shift_registers[1]);
    assert_eq!(after.pwm_channels, before.pwm_channels);
    assert_eq!(robot.last_activity(), &vec![start, start]);
}

#[test]
fn idle_channel_is_cleared_after_its_idle_time() {
    let start = Timestamp::from_secs(10_000);
    let mut robot = Robot::new_at(enabled(robot_config()), start).unwrap();

    let writes = robot.refresh_at(Timestamp::from_secs(10_061));
    assert_eq!(robot.state().pwm_channels[0].position, None);
    assert_eq!(robot.state().pwm_channels[1].position, Some(position(0.5)));
    assert_eq!(writes[0], HardwareWrite::Pwm { channel: 0, on: 0, off: 0 });
    assert_eq!(writes[1], HardwareWrite::Pwm { channel: 1, on: 0, off: 350 });
    assert_eq!(robot.last_activity(), &vec![start, start]);
}

#[test]
fn channel_refreshed_within_its_idle_time_holds_its_position() {
    let mut robot = Robot::new_at(enabled(robot_config()), Timestamp::from_secs(0)).unwrap();
    let at = Timestamp::from_secs(500);
    robot
        .update_pwm_channel_at(PWMChannelState { channel: 0, position: Some(position(1.0)) }, at)
        .unwrap();

    let writes = robot.refresh_at(Timestamp::from_secs(530));
    assert_eq!(robot.state().pwm_channels[0].position, Some(position(1.0)));
    assert_eq!(writes[0], HardwareWrite::Pwm { channel: 0, on: 0, off: 100 });
}

#[test]
fn idle_time_must_be_exceeded() {
    let mut robot = Robot::new_at(robot_config(), Timestamp::from_secs(100)).unwrap();

    robot.refresh_at(Timestamp::from_secs(160));
    assert_eq!(robot.state().pwm_channels[0].position, Some(position(0.0)));

    robot.refresh_at(Timestamp { nanos: 160_000_000_001 });
    assert_eq!(robot.state().pwm_channels[0].position, None);
}

#[test]
fn clock_that_ran_backwards_idles_nothing() {
    let mut robot = Robot::new_at(robot_config(), Timestamp::from_secs(1_000)).unwrap();
    robot.refresh_at(Timestamp::from_secs(3));
    assert_eq!(robot.state().pwm_channels[0].position, Some(position(0.0)));
}

#[test]
fn channel_without_idle_time_never_idles() {
    let mut robot = Robot::new_at(robot_config(), Timestamp::from_secs(0)).unwrap();
    robot.refresh_at(Timestamp { nanos: u128::MAX });
    assert_eq!(robot.state().pwm_channels[0].position, None);
    assert_eq!(robot.state().pwm_channels[1].position, Some(position(0.5)));
}

#[test]
fn command_after_idling_energizes_the_channel_again() {
    let mut robot = Robot::new_at(robot_config(), Timestamp::from_secs(0)).unwrap();
    robot.refresh_at(Timestamp::from_secs(61));
    assert_eq!(robot.state().pwm_channels[0].position, None);

    let at = Timestamp::from_secs(70);
    robot
        .update_pwm_channel_at(PWMChannelState { channel: 0, position: Some(position(0.5)) }, at)
        .unwrap();
    robot.refresh_at(Timestamp::from_secs(130));
    assert_eq!(robot.state().pwm_channels[0].position, Some(position(0.5)));
    robot.refresh_at(Timestamp::from_secs(131));
    assert_eq!(robot.state().pwm_channels[0].position, None);
}

#[test]
fn refresh_by_the_system_clock_keeps_a_fresh_robot() {
    let mut robot = Robot::new(enabled(robot_config())).unwrap();
    robot
        .update_pwm_channel(PWMChannelState { channel: 0, position: Some(position(1.0)) })
        .unwrap();
    let writes = robot.refresh();
    assert_eq!(robot.state().pwm_channels[0].position, Some(position(1.0)));
    assert_eq!(writes[0], HardwareWrite::Pwm { channel: 0, on: 0, off: 100 });
    assert_eq!(writes[1], HardwareWrite::Pwm { channel: 1, on: 0, off: 350 });
}

#[test]
fn system_clock_reads_a_time_after_the_epoch() {
    let robot = Robot::new(robot_config()).unwrap();
    let start = robot.last_activity()[0];
    assert!(start.nanos > 0);
    let now = Timestamp::now();
    assert!(now.nanos >= start.nanos);
}

#[test]
fn startup_state_maps_to_the_configured_values() {
    let mut robot = Robot::new_at(enabled(robot_config()), Timestamp::from_secs(0)).unwrap();
    let state = robot.state().clone();
    assert_eq!(
        robot.pwm_value_from_config_and_state(&robot.config().pwm_channels[0], &state.pwm_channels[0]),
        600
    );
    assert_eq!(
        robot.pwm_value_from_config_and_state(&robot.config().pwm_channels[1], &state.pwm_channels[1]),
        350
    );
    assert_eq!(state.shift_registers[0].state.len(), 4);
    assert_eq!(state.shift_registers[1].state.len(), 4);

    let writes = robot.refresh_at(Timestamp::from_secs(1));
    assert_eq!(writes[0], HardwareWrite::Pwm { channel: 0, on: 0, off: 600 });
    assert_eq!(writes[1], HardwareWrite::Pwm { channel: 1, on: 0, off: 350 });
}

#[test]
fn robot_stays_well_formed() {
    let mut robot = Robot::new_at(enabled(robot_config()), Timestamp::from_secs(0)).unwrap();
    assert!(robot.well_formed());
    robot
        .update_pwm_channel_at(PWMChannelState { channel: 1, position: None }, Timestamp::from_secs(1))
        .unwrap();
    assert!(robot.well_formed());
    robot
        .update_shift_register(ShiftRegisterState {
            channel: 1,
            state: vec![true, false, true, false],
        })
        .unwrap();
    assert!(robot.well_formed());
    assert!(robot.update_shift_register(ShiftRegisterState { channel: 1, state: vec![] }).is_err());
    assert!(robot.well_formed());
    robot.refresh_at(Timestamp::from_secs(1_000));
    assert!(robot.well_formed());
    assert!(Robot::new(wide_robot_config()).unwrap().well_formed());
}
