use pi_robot::wire::{
    decode_analog, decode_bit_serial, decode_command, decode_position, decode_speak, decode_state,
    encode_analog, encode_bit_serial, encode_command, encode_position, encode_speak, encode_state,
    Json, Member,
};
use pi_robot::{
    ChannelError, Command, PWMChannelConfig, PWMChannelState, Position, ProtocolError, Robot,
    RobotConfig, RobotError, RobotSpeak, RobotState, ShiftRegisterConfig, ShiftRegisterState,
    SpeechRequest, Timestamp,
};

fn position(value: f32) -> Position {
    Position::from_bits(value.to_bits()).unwrap()
}

fn object(members: Vec<(&str, Json)>) -> Json {
    Json::Object(
        members
            .into_iter()
            .map(|(name, value)| Member { name: name.to_string(), value })
            .collect(),
    )
}

fn single(value: f32) -> Json {
    Json::Single(value.to_bits())
}

fn state() -> RobotState {
    RobotState {
        pwm_channels: vec![
            PWMChannelState { channel: 0, position: Some(position(0.0)) },
            PWMChannelState { channel: 1, position: Some(position(0.73)) },
            PWMChannelState { channel: 2, position: None },
            PWMChannelState { channel: 3, position: Some(position(1.0)) },
        ],
        shift_registers: vec![
            ShiftRegisterState { channel: 0, state: vec![false, true, false, true] },
            ShiftRegisterState { channel: 1, state: vec![] },
        ],
    }
}

fn robot(enable: bool) -> Robot {
    let config = RobotConfig {
        enable,
        debug: false,
        pwm_channels: vec![PWMChannelConfig {
            channel: 0,
            name: "arm".to_string(),
            invert: false,
            low: 100,
            high: 600,
            initial_position: position(0.5),
            idle_after_seconds: Some(60),
        }],
        shift_registers: vec![ShiftRegisterConfig {
            channel: 0,
            clock_pin: 10,
            data_pin: 11,
            initial_state: vec![false, false],
        }],
    };
    Robot::new_at(config, Timestamp::from_secs(0)).unwrap()
}

#[test]
fn state_is_written_as_two_named_lists() {
    let written = encode_state(&RobotState {
        pwm_channels: vec![
            PWMChannelState { channel: 0, position: Some(position(0.5)) },
            PWMChannelState { channel: 1, position: None },
        ],
        shift_registers: vec![ShiftRegisterState { channel: 0, state: vec![true, false] }],
    });
    assert_eq!(
        written,
        object(vec![
            (
                "pwm_channels",
                Json::Array(vec![
                    object(vec![("channel", Json::Unsigned(0)), ("position", single(0.5))]),
                    object(vec![("channel", Json::Unsigned(1)), ("position", Json::Null)]),
                ])
            ),
            (
                "shift_registers",
                Json::Array(vec![object(vec![
                    ("channel", Json::Unsigned(0)),
                    ("state", Json::Array(vec![Json::Bool(true), Json::Bool(false)])),
                ])])
            ),
        ])
    );
}

#[test]
fn commands_are_written_under_their_kind() {
    assert_eq!(
        encode_command(&Command::SetAnalog(PWMChannelState {
            channel: 3,
            position: Some(position(0.73))
        })),
        object(vec![(
            "SetAnalog",
            object(vec![("channel", Json::Unsigned(3)), ("position", single(0.73))])
        )])
    );
    assert_eq!(
        encode_command(&Command::SetBitSerial(ShiftRegisterState {
            channel: 1,
            state: vec![true]
        })),
        object(vec![(
            "SetBitSerial",
            object(vec![("channel", Json::Unsigned(1)), ("state", Json::Array(vec![Json::Bool(true)]))])
        )])
    );
    assert_eq!(
        encode_command(&Command::Speak(RobotSpeak { quip: "beep".to_string() })),
        object(vec![("Speak", object(vec![("quip", Json::Text("beep".to_string()))]))])
    );
}

#[test]
fn state_survives_the_round_trip() {
    let state = state();
    assert_eq!(decode_state(&encode_state(&state)), Ok(state));
    let empty = RobotState { pwm_channels: vec![], shift_registers: vec![] };
    assert_eq!(decode_state(&encode_state(&empty)), Ok(empty));
}

#[test]
fn commands_survive_the_round_trip() {
    let commands = vec![
        Command::SetAnalog(PWMChannelState { channel: 255, position: Some(position(0.001)) }),
        Command::SetAnalog(PWMChannelState { channel: 0, position: None }),
        Command::SetBitSerial(ShiftRegisterState {
            channel: 7,
            state: vec![true, false, false, true, true],
        }),
        Command::SetBitSerial(ShiftRegisterState { channel: 0, state: vec![] }),
        Command::Speak(RobotSpeak { quip: "I am \"robot\" \u{1F916}".to_string() }),
        Command::Speak(RobotSpeak { quip: String::new() }),
    ];
    for command in commands {
        assert_eq!(decode_command(&encode_command(&command)), Ok(command));
    }
}

#[test]
fn parts_survive_the_round_trip() {
    for value in [None, Some(position(0.0)), Some(position(0.3)), Some(position(1.0))] {
        assert_eq!(decode_position(&encode_position(value)), Some(value));
        let analog = PWMChannelState { channel: 9, position: value };
        assert_eq!(decode_analog(&encode_analog(&analog)), Some(analog));
    }
    let register = ShiftRegisterState { channel: 2, state: vec![true, true, false] };
    assert_eq!(decode_bit_serial(&encode_bit_serial(&register)), Some(register));
    let speak = RobotSpeak { quip: "hello".to_string() };
    assert_eq!(decode_speak(&encode_speak(&speak)), Some(speak));
}

#[test]
fn whole_numbers_zero_and_one_are_positions() {
    assert_eq!(decode_position(&Json::Unsigned(0)), Some(Some(Position::zero())));
    assert_eq!(decode_position(&Json::Unsigned(1)), Some(Some(Position::one())));
    assert_eq!(decode_position(&Json::Unsigned(2)), None);
    assert_eq!(decode_position(&single(-0.0)), Some(Some(Position::zero())));
    assert_eq!(decode_position(&Json::Null), Some(None));
}

#[test]
fn positions_outside_the_unit_interval_are_malformed() {
    assert_eq!(decode_position(&single(1.5)), None);
    assert_eq!(decode_position(&single(-0.25)), None);
    assert_eq!(decode_position(&single(f32::NAN)), None);
    assert_eq!(decode_position(&Json::Bool(true)), None);
    assert_eq!(decode_position(&Json::Text("0.5".to_string())), None);
    let command = object(vec![(
        "SetAnalog",
        object(vec![("channel", Json::Unsigned(0)), ("position", single(1.0000001))]),
    )]);
    assert_eq!(decode_command(&command), Err(ProtocolError::Malformed));
}

#[test]
fn unknown_kind_is_told_from_malformed() {
    let unknown = object(vec![("Dance", object(vec![("quip", Json::Text("x".to_string()))]))]);
    assert_eq!(decode_command(&unknown), Err(ProtocolError::UnknownKind));
    let lower_case = object(vec![("speak", object(vec![("quip", Json::Text("x".to_string()))]))]);
    assert_eq!(decode_command(&lower_case), Err(ProtocolError::UnknownKind));
    let empty_kind = object(vec![("", Json::Null)]);
    assert_eq!(decode_command(&empty_kind), Err(ProtocolError::UnknownKind));
}

#[test]
fn malformed_commands_are_refused() {
    let malformed = vec![
        Json::Null,
        Json::Bool(true),
        Json::Unsigned(3),
        Json::Text("SetAnalog".to_string()),
        Json::Array(vec![]),
        object(vec![]),
        object(vec![
            ("Speak", object(vec![("quip", Json::Text("a".to_string()))])),
            ("Speak", object(vec![("quip", Json::Text("b".to_string()))])),
        ]),
        object(vec![("Speak", Json::Text("a".to_string()))]),
        object(vec![("Speak", object(vec![("quip", Json::Unsigned(1))]))]),
        object(vec![("Speak", object(vec![("text", Json::Text("a".to_string()))]))]),
        object(vec![("SetAnalog", object(vec![("channel", Json::Unsigned(0))]))]),
        object(vec![(
            "SetAnalog",
            object(vec![("position", single(0.5)), ("channel", Json::Unsigned(0))]),
        )]),
        object(vec![(
            "SetAnalog",
            object(vec![("channel", Json::Unsigned(256)), ("position", single(0.5))]),
        )]),
        object(vec![(
            "SetAnalog",
            object(vec![("channel", single(0.5)), ("position", single(0.5))]),
        )]),
        object(vec![(
            "SetAnalog",
            object(vec![
                ("channel", Json::Unsigned(0)),
                ("position", single(0.5)),
                ("extra", Json::Null),
            ]),
        )]),
        object(vec![(
            "SetBitSerial",
            object(vec![("channel", Json::Unsigned(0)), ("state", Json::Bool(true))]),
        )]),
        object(vec![(
            "SetBitSerial",
            object(vec![
                ("channel", Json::Unsigned(0)),
                ("state", Json::Array(vec![Json::Bool(true), Json::Unsigned(1)])),
            ]),
        )]),
        object(vec![(
            "SetBitSerial",
            object(vec![("channel", Json::Unsigned(0)), ("position", single(0.5))]),
        )]),
    ];
    for document in malformed {
        assert_eq!(decode_command(&document), Err(ProtocolError::Malformed), "{document:?}");
    }
}

#[test]
fn malformed_states_are_refused() {
    let malformed = vec![
        Json::Null,
        Json::Array(vec![]),
        object(vec![]),
        object(vec![("pwm_channels", Json::Array(vec![]))]),
        object(vec![
            ("shift_registers", Json::Array(vec![])),
            ("pwm_channels", Json::Array(vec![])),
        ]),
        object(vec![("pwm_channels", Json::Null), ("shift_registers", Json::Array(vec![]))]),
        object(vec![("pwm_channels", Json::Array(vec![])), ("shift_registers", Json::Null)]),
        object(vec![
            ("pwm_channels", Json::Array(vec![Json::Null])),
            ("shift_registers", Json::Array(vec![])),
        ]),
        object(vec![
            ("pwm_channels", Json::Array(vec![])),
            ("shift_registers", Json::Array(vec![object(vec![("channel", Json::Unsigned(0))])])),
        ]),
        object(vec![
            (
                "pwm_channels",
                Json::Array(vec![
                    object(vec![("channel", Json::Unsigned(0)), ("position", single(0.5))]),
                    object(vec![("channel", Json::Unsigned(1)), ("position", single(2.0))]),
                ]),
            ),
            ("shift_registers", Json::Array(vec![])),
        ]),
    ];
    for document in malformed {
        assert_eq!(decode_state(&document), Err(ProtocolError::Malformed), "{document:?}");
    }
}

#[test]
fn accepted_command_is_answered_with_the_fresh_state() {
    let mut robot = robot(true);
    let document = encode_command(&Command::SetAnalog(PWMChannelState {
        channel: 0,
        position: Some(position(0.25)),
    }));
    let at = Timestamp::from_secs(12);
    let reaction = robot.receive_at(&document, at).unwrap();
    assert_eq!(reaction.speech, None);
    assert_eq!(&reaction.snapshot, robot.state());
    assert_eq!(
        reaction.snapshot.pwm_channels,
        vec![PWMChannelState { channel: 0, position: Some(position(0.25)) }]
    );
    assert_eq!(robot.last_activity(), &vec![at]);

    let bits = Command::SetBitSerial(ShiftRegisterState { channel: 0, state: vec![true, true] });
    let reaction = robot.apply_at(bits, Timestamp::from_secs(13)).unwrap();
    assert_eq!(
        reaction.snapshot.shift_registers,
        vec![ShiftRegisterState { channel: 0, state: vec![true, true] }]
    );
    assert_eq!(reaction.speech, None);
    assert_eq!(robot.last_activity(), &vec![at]);
}

#[test]
fn speaking_changes_nothing_and_asks_for_speech() {
    let mut robot = robot(true);
    let before = robot.state().clone();
    let document = encode_command(&Command::Speak(RobotSpeak { quip: "hello".to_string() }));
    let reaction = robot.receive(&document).unwrap();
    assert_eq!(
        reaction.speech,
        Some(SpeechRequest {
            program: "espeak".to_string(),
            arguments: vec!["-s".to_string(), "120".to_string(), "hello".to_string()],
        })
    );
    assert_eq!(reaction.snapshot, before);
    assert_eq!(robot.state(), &before);

    let mut silent = self::robot(false);
    let reaction = silent.apply(Command::Speak(RobotSpeak { quip: "hello".to_string() })).unwrap();
    assert_eq!(reaction.speech, None);
    assert_eq!(&reaction.snapshot, silent.state());
}

#[test]
fn refused_documents_change_nothing() {
    let mut robot = robot(true);
    let before = robot.state().clone();

    let malformed = robot.receive_at(&Json::Null, Timestamp::from_secs(1));
    assert_eq!(malformed, Err(RobotError::ProtocolError(ProtocolError::Malformed)));

    let unknown = robot.receive(&object(vec![("Jump", Json::Null)]));
    assert_eq!(unknown, Err(RobotError::ProtocolError(ProtocolError::UnknownKind)));

    let far = encode_command(&Command::SetAnalog(PWMChannelState { channel: 1, position: None }));
    assert_eq!(
        robot.receive_at(&far, Timestamp::from_secs(2)),
        Err(RobotError::ChannelError(ChannelError { channel: 1 }))
    );

    let wide = Command::SetBitSerial(ShiftRegisterState { channel: 0, state: vec![true] });
    assert_eq!(
        robot.apply_at(wide, Timestamp::from_secs(3)),
        Err(RobotError::ProtocolError(ProtocolError::StateLength { channel: 0 }))
    );
    let far = Command::SetBitSerial(ShiftRegisterState { channel: 4, state: vec![true, true] });
    assert_eq!(
        robot.apply(far),
        Err(RobotError::ChannelError(ChannelError { channel: 4 }))
    );

    assert_eq!(robot.state(), &before);
    assert_eq!(robot.last_activity(), &vec![Timestamp::from_secs(0)]);
}
