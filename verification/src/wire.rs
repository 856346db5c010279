//! Messages between the robot and its remote controllers, as documents.

use crate::error::ProtocolError;
use crate::position::{Position, NEGATIVE_ZERO_BITS, ONE_BITS};
use crate::state::{
    Command, CommandView, PWMChannelState, RobotSpeak, RobotState, RobotStateView,
    ShiftRegisterState, ShiftRegisterStateView,
};
use vstd::prelude::*;

verus! {

/// Name under which a channel value carries its channel number.
pub const KEY_CHANNEL: &'static str = "channel";

/// Name under which an analog channel value carries its position.
pub const KEY_POSITION: &'static str = "position";

/// Name under which a shift register value carries its bits.
pub const KEY_STATE: &'static str = "state";

/// Name under which a command to speak carries its text.
pub const KEY_QUIP: &'static str = "quip";

/// Name under which a robot state carries its analog channels.
pub const KEY_PWM_CHANNELS: &'static str = "pwm_channels";

/// Name under which a robot state carries its shift registers.
pub const KEY_SHIFT_REGISTERS: &'static str = "shift_registers";

/// Kind of the command that sets an analog channel.
pub const KIND_SET_ANALOG: &'static str = "SetAnalog";

/// Kind of the command that sets a shift register.
pub const KIND_SET_BIT_SERIAL: &'static str = "SetBitSerial";

/// Kind of the command to speak.
pub const KIND_SPEAK: &'static str = "Speak";

/// A document of the wire format: a tree of named and listed values.
#[derive(Debug, PartialEq, Eq)]
pub enum Json {
    Null,
    Bool(bool),
    /// A whole number that is not negative.
    Unsigned(u64),
    /// Any other number, by the bit pattern of the nearest single-precision
    /// value.
    Single(u32),
    Text(String),
    Array(Vec<Json>),
    Object(Vec<Member>),
}

/// A named value of an object.
#[derive(Debug, PartialEq, Eq)]
pub struct Member {
    pub name: String,
    pub value: Json,
}

/// A document as a mathematical value.
pub enum JsonView {
    Null,
    Bool(bool),
    Unsigned(u64),
    Single(u32),
    Text(Seq<char>),
    Array(Seq<JsonView>),
    Object(Seq<(Seq<char>, JsonView)>),
}

/// The mathematical value of a document.
pub open spec fn json_view(document: Json) -> JsonView
    decreases document,
{
    match document {
        Json::Null => JsonView::Null,
        Json::Bool(b) => JsonView::Bool(b),
        Json::Unsigned(n) => JsonView::Unsigned(n),
        Json::Single(bits) => JsonView::Single(bits),
        Json::Text(text) => JsonView::Text(text@),
        Json::Array(items) => JsonView::Array(
            Seq::new(
                items@.len(),
                |i: int|
                    if 0 <= i < items@.len() {
                        json_view(items@[i])
                    } else {
                        JsonView::Null
                    },
            ),
        ),
        Json::Object(members) => JsonView::Object(
            Seq::new(
                members@.len(),
                |i: int|
                    if 0 <= i < members@.len() {
                        (members@[i].name@, json_view(members@[i].value))
                    } else {
                        (Seq::empty(), JsonView::Null)
                    },
            ),
        ),
    }
}

impl View for Json {
    type V = JsonView;

    open spec fn view(&self) -> JsonView {
        json_view(*self)
    }
}

/// The document of a position: null for a channel that is de-energized,
/// else the number.
pub open spec fn encoded_position(position: Option<Position>) -> JsonView {
    match position {
        None => JsonView::Null,
        Some(position) => JsonView::Single(position.bits()),
    }
}

/// The position that a document stands for, if any: null stands for a
/// channel that is de-energized, a number between zero and one for itself.
pub open spec fn decoded_position(document: JsonView) -> Option<Option<Position>> {
    match document {
        JsonView::Null => Some(None),
        JsonView::Single(bits) => match Position::of_bits(bits) {
            Some(position) => Some(Some(position)),
            None => None,
        },
        JsonView::Unsigned(number) => if number == 0 {
            Some(Some(Position::with_bits(0)))
        } else if number == 1 {
            Some(Some(Position::with_bits(ONE_BITS)))
        } else {
            None
        },
        _ => None,
    }
}

/// The document of an analog channel value: its channel number, then its
/// position.
pub open spec fn encoded_analog(state: PWMChannelState) -> JsonView {
    JsonView::Object(
        seq![
            (KEY_CHANNEL@, JsonView::Unsigned(state.channel as u64)),
            (KEY_POSITION@, encoded_position(state.position)),
        ],
    )
}

/// The analog channel value that a document stands for, if any.
pub open spec fn decoded_analog(document: JsonView) -> Option<PWMChannelState> {
    match document {
        JsonView::Object(members) => if members.len() == 2 && members[0].0 == KEY_CHANNEL@
            && members[1].0 == KEY_POSITION@ {
            match (members[0].1, decoded_position(members[1].1)) {
                (JsonView::Unsigned(channel), Some(position)) => if channel <= u8::MAX {
                    Some(PWMChannelState { channel: channel as u8, position })
                } else {
                    None
                },
                _ => None,
            }
        } else {
            None
        },
        _ => None,
    }
}

/// The documents of the bits of a shift register.
pub open spec fn encoded_bits(bits: Seq<bool>) -> Seq<JsonView> {
    Seq::new(bits.len(), |i: int| JsonView::Bool(bits[i]))
}

/// The bits that a list of documents stands for, if every one is a truth
/// value.
pub open spec fn decoded_bits(items: Seq<JsonView>) -> Option<Seq<bool>> {
    if forall|i: int| 0 <= i < items.len() ==> (#[trigger] items[i]) is Bool {
        Some(Seq::new(items.len(), |i: int| items[i]->Bool_0))
    } else {
        None
    }
}

/// The document of a shift register value: its channel number, then its
/// bits.
pub open spec fn encoded_bit_serial(state: ShiftRegisterStateView) -> JsonView {
    JsonView::Object(
        seq![
            (KEY_CHANNEL@, JsonView::Unsigned(state.channel as u64)),
            (KEY_STATE@, JsonView::Array(encoded_bits(state.state))),
        ],
    )
}

/// The shift register value that a document stands for, if any.
pub open spec fn decoded_bit_serial(document: JsonView) -> Option<ShiftRegisterStateView> {
    match document {
        JsonView::Object(members) => if members.len() == 2 && members[0].0 == KEY_CHANNEL@
            && members[1].0 == KEY_STATE@ {
            match (members[0].1, members[1].1) {
                (JsonView::Unsigned(channel), JsonView::Array(items)) => if channel <= u8::MAX {
                    match decoded_bits(items) {
                        Some(state) => Some(
                            ShiftRegisterStateView { channel: channel as u8, state },
                        ),
                        None => None,
                    }
                } else {
                    None
                },
                _ => None,
            }
        } else {
            None
        },
        _ => None,
    }
}

/// The document of something to say.
pub open spec fn encoded_speak(quip: Seq<char>) -> JsonView {
    JsonView::Object(seq![(KEY_QUIP@, JsonView::Text(quip))])
}

/// The text to say that a document stands for, if any.
pub open spec fn decoded_speak(document: JsonView) -> Option<Seq<char>> {
    match document {
        JsonView::Object(members) => if members.len() == 1 && members[0].0 == KEY_QUIP@ {
            match members[0].1 {
                JsonView::Text(quip) => Some(quip),
                _ => None,
            }
        } else {
            None
        },
        _ => None,
    }
}

/// The document of a command: its payload under its kind.
pub open spec fn encoded_command(command: CommandView) -> JsonView {
    match command {
        CommandView::SetAnalog(state) => JsonView::Object(
            seq![(KIND_SET_ANALOG@, encoded_analog(state))],
        ),
        CommandView::SetBitSerial(state) => JsonView::Object(
            seq![(KIND_SET_BIT_SERIAL@, encoded_bit_serial(state))],
        ),
        CommandView::Speak(quip) => JsonView::Object(seq![(KIND_SPEAK@, encoded_speak(quip))]),
    }
}

/// The command that a document stands for, or why it stands for none: a
/// payload under a kind that is not known, or any other document.
pub open spec fn decoded_command(document: JsonView) -> Result<CommandView, ProtocolError> {
    match document {
        JsonView::Object(members) => if members.len() == 1 {
            let kind = members[0].0;
            let payload = members[0].1;
            if kind == KIND_SET_ANALOG@ {
                match decoded_analog(payload) {
                    Some(state) => Ok(CommandView::SetAnalog(state)),
                    None => Err(ProtocolError::Malformed),
                }
            } else if kind == KIND_SET_BIT_SERIAL@ {
                match decoded_bit_serial(payload) {
                    Some(state) => Ok(CommandView::SetBitSerial(state)),
                    None => Err(ProtocolError::Malformed),
                }
            } else if kind == KIND_SPEAK@ {
                match decoded_speak(payload) {
                    Some(quip) => Ok(CommandView::Speak(quip)),
                    None => Err(ProtocolError::Malformed),
                }
            } else {
                Err(ProtocolError::UnknownKind)
            }
        } else {
            Err(ProtocolError::Malformed)
        },
        _ => Err(ProtocolError::Malformed),
    }
}

/// The analog channel values that a list of documents stands for, if every
/// one stands for one.
pub open spec fn decoded_analogs(items: Seq<JsonView>) -> Option<Seq<PWMChannelState>> {
    if forall|i: int| 0 <= i < items.len() ==> decoded_analog(#[trigger] items[i]) is Some {
        Some(Seq::new(items.len(), |i: int| decoded_analog(items[i])->Some_0))
    } else {
        None
    }
}

/// The shift register values that a list of documents stands for, if every
/// one stands for one.
pub open spec fn decoded_bit_serials(items: Seq<JsonView>) -> Option<
    Seq<ShiftRegisterStateView>,
> {
    if forall|i: int| 0 <= i < items.len() ==> decoded_bit_serial(#[trigger] items[i]) is Some {
        Some(Seq::new(items.len(), |i: int| decoded_bit_serial(items[i])->Some_0))
    } else {
        None
    }
}

/// The document of a robot state: its analog channels, then its shift
/// registers.
pub open spec fn encoded_state(state: RobotStateView) -> JsonView {
    JsonView::Object(
        seq![
            (
                KEY_PWM_CHANNELS@,
                JsonView::Array(
                    Seq::new(
                        state.pwm_channels.len(),
                        |i: int| encoded_analog(state.pwm_channels[i]),
                    ),
                ),
            ),
            (
                KEY_SHIFT_REGISTERS@,
                JsonView::Array(
                    Seq::new(
                        state.shift_registers.len(),
                        |i: int| encoded_bit_serial(state.shift_registers[i]),
                    ),
                ),
            ),
        ],
    )
}

/// The robot state that a document stands for, if any.
pub open spec fn decoded_state(document: JsonView) -> Option<RobotStateView> {
    match document {
        JsonView::Object(members) => if members.len() == 2 && members[0].0 == KEY_PWM_CHANNELS@
            && members[1].0 == KEY_SHIFT_REGISTERS@ {
            match (members[0].1, members[1].1) {
                (JsonView::Array(analogs), JsonView::Array(registers)) => match (
                    decoded_analogs(analogs),
                    decoded_bit_serials(registers),
                ) {
                    (Some(pwm_channels), Some(shift_registers)) => Some(
                        RobotStateView { pwm_channels, shift_registers },
                    ),
                    _ => None,
                },
                _ => None,
            }
        } else {
            None
        },
        _ => None,
    }
}

/// Whether a member carries the given name.
fn is_named(member: &Member, name: &str) -> (r: bool)
    ensures
        r == (member.name@ == name@),
{
    member.name == name.to_owned()
}

/// A member with the given name and value.
fn member(name: &str, value: Json) -> (m: Member)
    ensures
        m.name@ == name@,
        m.value == value,
{
    Member { name: name.to_owned(), value }
}

/// Writes a position as a document.
pub fn encode_position(position: Option<Position>) -> (document: Json)
    ensures
        document@ == encoded_position(position),
{
    match position {
        None => Json::Null,
        Some(position) => Json::Single(position.to_bits()),
    }
}

/// Reads a position from a document.
pub fn decode_position(document: &Json) -> (r: Option<Option<Position>>)
    ensures
        r == decoded_position(document@),
{
    match document {
        Json::Null => Some(None),
        Json::Single(bits) => match Position::from_bits(*bits) {
            Some(position) => Some(Some(position)),
            None => None,
        },
        Json::Unsigned(number) => if *number == 0 {
            Some(Some(Position::zero()))
        } else if *number == 1 {
            Some(Some(Position::one()))
        } else {
            None
        },
        _ => None,
    }
}

/// Writes an analog channel value as a document.
pub fn encode_analog(state: &PWMChannelState) -> (document: Json)
    ensures
        document@ == encoded_analog(*state),
{
    let mut members: Vec<Member> = Vec::new();
    members.push(member(KEY_CHANNEL, Json::Unsigned(state.channel as u64)));
    members.push(member(KEY_POSITION, encode_position(state.position)));
    let document = Json::Object(members);
    proof {
        reveal_with_fuel(json_view, 2);
        assert(document@->Object_0 =~= encoded_analog(*state)->Object_0);
    }
    document
}

/// Reads an analog channel value from a document.
pub fn decode_analog(document: &Json) -> (r: Option<PWMChannelState>)
    ensures
        r == decoded_analog(document@),
{
    proof {
        reveal_with_fuel(json_view, 2);
    }
    match document {
        Json::Object(members) => {
            if members.len() != 2 || !is_named(&members[0], KEY_CHANNEL) || !is_named(
                &members[1],
                KEY_POSITION,
            ) {
                return None;
            }
            match (&members[0].value, decode_position(&members[1].value)) {
                (Json::Unsigned(channel), Some(position)) => if *channel <= 255 {
                    Some(PWMChannelState { channel: *channel as u8, position })
                } else {
                    None
                },
                _ => None,
            }
        },
        _ => None,
    }
}

/// Writes a shift register value as a document.
pub fn encode_bit_serial(state: &ShiftRegisterState) -> (document: Json)
    ensures
        document@ == encoded_bit_serial(state@),
{
    let mut items: Vec<Json> = Vec::new();
    let mut i: usize = 0;
    while i < state.state.len()
        invariant
            i <= state.state@.len(),
            items@.len() == i,
            forall|j: int| 0 <= j < i ==> #[trigger] items@[j] == Json::Bool(state.state@[j]),
        decreases state.state@.len() - i,
    {
        items.push(Json::Bool(state.state[i]));
        i += 1;
    }
    let list = Json::Array(items);
    proof {
        reveal_with_fuel(json_view, 2);
        assert(list@->Array_0 =~= encoded_bits(state.state@));
    }
    let mut members: Vec<Member> = Vec::new();
    members.push(member(KEY_CHANNEL, Json::Unsigned(state.channel as u64)));
    members.push(member(KEY_STATE, list));
    let document = Json::Object(members);
    proof {
        assert(document@->Object_0 =~= encoded_bit_serial(state@)->Object_0);
    }
    document
}

/// Reads a shift register value from a document.
#[verifier::loop_isolation(false)]
pub fn decode_bit_serial(document: &Json) -> (r: Option<ShiftRegisterState>)
    ensures
        (match decoded_bit_serial(document@) {
            Some(view) => r matches Some(state) && state@ == view,
            None => r is None,
        }),
{
    proof {
        reveal_with_fuel(json_view, 3);
    }
    match document {
        Json::Object(members) => {
            if members.len() != 2 || !is_named(&members[0], KEY_CHANNEL) || !is_named(
                &members[1],
                KEY_STATE,
            ) {
                return None;
            }
            match (&members[0].value, &members[1].value) {
                (Json::Unsigned(channel), Json::Array(items)) => {
                    if *channel > 255 {
                        return None;
                    }
                    let ghost views = members@[1].value@->Array_0;
                    let mut state: Vec<bool> = Vec::new();
                    let mut i: usize = 0;
                    while i < items.len()
                        invariant
                            i <= items@.len(),
                            views.len() == items@.len(),
                            forall|j: int| 0 <= j < items@.len() ==> views[j] == items@[j]@,
                            state@.len() == i,
                            forall|j: int|
                                0 <= j < i ==> (#[trigger] views[j]) == JsonView::Bool(state@[j]),
                        decreases items@.len() - i,
                    {
                        match &items[i] {
                            Json::Bool(bit) => {
                                state.push(*bit);
                            },
                            _ => {
                                assert(!(views[i as int] is Bool));
                                return None;
                            },
                        }
                        i += 1;
                    }
                    assert(state@ =~= decoded_bits(views)->Some_0);
                    Some(ShiftRegisterState { channel: *channel as u8, state })
                },
                _ => None,
            }
        },
        _ => None,
    }
}

/// Writes something to say as a document.
pub fn encode_speak(speak: &RobotSpeak) -> (document: Json)
    ensures
        document@ == encoded_speak(speak@),
{
    let mut members: Vec<Member> = Vec::new();
    members.push(member(KEY_QUIP, Json::Text(speak.quip.clone())));
    let document = Json::Object(members);
    proof {
        reveal_with_fuel(json_view, 2);
        assert(document@->Object_0 =~= encoded_speak(speak@)->Object_0);
    }
    document
}

/// Reads something to say from a document.
pub fn decode_speak(document: &Json) -> (r: Option<RobotSpeak>)
    ensures
        (match decoded_speak(document@) {
            Some(quip) => r matches Some(speak) && speak@ == quip,
            None => r is None,
        }),
{
    proof {
        reveal_with_fuel(json_view, 2);
    }
    match document {
        Json::Object(members) => {
            if members.len() != 1 || !is_named(&members[0], KEY_QUIP) {
                return None;
            }
            match &members[0].value {
                Json::Text(quip) => Some(RobotSpeak { quip: quip.clone() }),
                _ => None,
            }
        },
        _ => None,
    }
}

/// Writes a command as a document.
pub fn encode_command(command: &Command) -> (document: Json)
    ensures
        document@ == encoded_command(command@),
{
    let mut members: Vec<Member> = Vec::new();
    match command {
        Command::SetAnalog(state) => {
            members.push(member(KIND_SET_ANALOG, encode_analog(state)));
        },
        Command::SetBitSerial(state) => {
            members.push(member(KIND_SET_BIT_SERIAL, encode_bit_serial(state)));
        },
        Command::Speak(speak) => {
            members.push(member(KIND_SPEAK, encode_speak(speak)));
        },
    }
    let document = Json::Object(members);
    proof {
        assert(document@->Object_0 =~= encoded_command(command@)->Object_0);
    }
    document
}

/// Reads a command from a document. A document that is one payload under
/// one kind is refused as of unknown kind where the kind is none of the
/// three; every other document that is no command is refused as malformed.
pub fn decode_command(document: &Json) -> (r: Result<Command, ProtocolError>)
    ensures
        (match decoded_command(document@) {
            Ok(view) => r matches Ok(command) && command@ == view,
            Err(error) => r == Err::<Command, ProtocolError>(error),
        }),
{
    match document {
        Json::Object(members) => {
            if members.len() != 1 {
                return Err(ProtocolError::Malformed);
            }
            let payload = &members[0].value;
            if is_named(&members[0], KIND_SET_ANALOG) {
                match decode_analog(payload) {
                    Some(state) => Ok(Command::SetAnalog(state)),
                    None => Err(ProtocolError::Malformed),
                }
            } else if is_named(&members[0], KIND_SET_BIT_SERIAL) {
                match decode_bit_serial(payload) {
                    Some(state) => Ok(Command::SetBitSerial(state)),
                    None => Err(ProtocolError::Malformed),
                }
            } else if is_named(&members[0], KIND_SPEAK) {
                match decode_speak(payload) {
                    Some(speak) => Ok(Command::Speak(speak)),
                    None => Err(ProtocolError::Malformed),
                }
            } else {
                Err(ProtocolError::UnknownKind)
            }
        },
        _ => Err(ProtocolError::Malformed),
    }
}

/// Writes a robot state as a document.
pub fn encode_state(state: &RobotState) -> (document: Json)
    ensures
        document@ == encoded_state(state@),
{
    let mut analogs: Vec<Json> = Vec::new();
    let mut i: usize = 0;
    while i < state.pwm_channels.len()
        invariant
            i <= state.pwm_channels@.len(),
            analogs@.len() == i,
            forall|j: int|
                0 <= j < i ==> (#[trigger] analogs@[j])@ == encoded_analog(state.pwm_channels@[j]),
        decreases state.pwm_channels@.len() - i,
    {
        analogs.push(encode_analog(&state.pwm_channels[i]));
        i += 1;
    }
    let mut registers: Vec<Json> = Vec::new();
    let mut k: usize = 0;
    while k < state.shift_registers.len()
        invariant
            k <= state.shift_registers@.len(),
            registers@.len() == k,
            forall|j: int|
                0 <= j < k ==> (#[trigger] registers@[j])@ == encoded_bit_serial(
                    state.shift_registers@[j]@,
                ),
        decreases state.shift_registers@.len() - k,
    {
        registers.push(encode_bit_serial(&state.shift_registers[k]));
        k += 1;
    }
    let analog_list = Json::Array(analogs);
    let register_list = Json::Array(registers);
    proof {
        let expected = encoded_state(state@)->Object_0;
        assert(analog_list@->Array_0 =~= expected[0].1->Array_0);
        assert(register_list@->Array_0 =~= expected[1].1->Array_0);
    }
    let mut members: Vec<Member> = Vec::new();
    members.push(member(KEY_PWM_CHANNELS, analog_list));
    members.push(member(KEY_SHIFT_REGISTERS, register_list));
    let document = Json::Object(members);
    proof {
        assert(document@->Object_0 =~= encoded_state(state@)->Object_0);
    }
    document
}

/// Reads a robot state from a document; any other document is refused as
/// malformed.
#[verifier::loop_isolation(false)]
pub fn decode_state(document: &Json) -> (r: Result<RobotState, ProtocolError>)
    ensures
        (match decoded_state(document@) {
            Some(view) => r matches Ok(state) && state@ == view,
            None => r == Err::<RobotState, ProtocolError>(ProtocolError::Malformed),
        }),
{
    match document {
        Json::Object(members) => {
            if members.len() != 2 || !is_named(&members[0], KEY_PWM_CHANNELS) || !is_named(
                &members[1],
                KEY_SHIFT_REGISTERS,
            ) {
                return Err(ProtocolError::Malformed);
            }
            match (&members[0].value, &members[1].value) {
                (Json::Array(analogs), Json::Array(registers)) => {
                    let ghost analog_views = members@[0].value@->Array_0;
                    let ghost register_views = members@[1].value@->Array_0;
                    let mut pwm_channels: Vec<PWMChannelState> = Vec::new();
                    let mut i: usize = 0;
                    while i < analogs.len()
                        invariant
                            i <= analogs@.len(),
                            analog_views.len() == analogs@.len(),
                            forall|j: int|
                                0 <= j < analogs@.len() ==> analog_views[j] == analogs@[j]@,
                            pwm_channels@.len() == i,
                            forall|j: int|
                                0 <= j < i ==> decoded_analog(#[trigger] analog_views[j]) == Some(
                                    pwm_channels@[j],
                                ),
                        decreases analogs@.len() - i,
                    {
                        match decode_analog(&analogs[i]) {
                            Some(state) => {
                                pwm_channels.push(state);
                            },
                            None => {
                                assert(decoded_analog(analog_views[i as int]) is None);
                                return Err(ProtocolError::Malformed);
                            },
                        }
                        i += 1;
                    }
                    let mut shift_registers: Vec<ShiftRegisterState> = Vec::new();
                    let mut k: usize = 0;
                    while k < registers.len()
                        invariant
                            k <= registers@.len(),
                            register_views.len() == registers@.len(),
                            forall|j: int|
                                0 <= j < registers@.len() ==> register_views[j] == registers@[j]@,
                            shift_registers@.len() == k,
                            forall|j: int|
                                0 <= j < k ==> decoded_bit_serial(#[trigger] register_views[j])
                                    == Some(shift_registers@[j]@),
                        decreases registers@.len() - k,
                    {
                        match decode_bit_serial(&registers[k]) {
                            Some(state) => {
                                shift_registers.push(state);
                            },
                            None => {
                                assert(decoded_bit_serial(register_views[k as int]) is None);
                                return Err(ProtocolError::Malformed);
                            },
                        }
                        k += 1;
                    }
                    let state = RobotState { pwm_channels, shift_registers };
                    proof {
                        assert(state@.pwm_channels =~= decoded_analogs(analog_views)->Some_0);
                        assert(state@.shift_registers =~= decoded_bit_serials(
                            register_views,
                        )->Some_0);
                    }
                    Ok(state)
                },
                _ => Err(ProtocolError::Malformed),
            }
        },
        _ => Err(ProtocolError::Malformed),
    }
}

/// Reading what was written of a position gives the position back.
pub proof fn lemma_position_round_trip(position: Option<Position>)
    requires
        position matches Some(p) ==> p.in_unit_interval(),
    ensures
        decoded_position(encoded_position(position)) == Some(position),
{
    if let Some(p) = position {
        Position::lemma_with_bits(p.bits());
        p.lemma_bits_determine(Position::with_bits(p.bits()));
    }
}

/// Reading what was written of an analog channel value gives the value
/// back.
pub proof fn lemma_analog_round_trip(state: PWMChannelState)
    requires
        state.in_range(),
    ensures
        decoded_analog(encoded_analog(state)) == Some(state),
{
    lemma_position_round_trip(state.position);
}

/// Reading what was written of a shift register value gives the value back.
pub proof fn lemma_bit_serial_round_trip(state: ShiftRegisterStateView)
    ensures
        decoded_bit_serial(encoded_bit_serial(state)) == Some(state),
{
    let items = encoded_bits(state.state);
    assert(decoded_bits(items)->Some_0 =~= state.state);
}

/// Reading what was written of a command gives the command back.
pub proof fn lemma_command_round_trip(command: CommandView)
    requires
        command.in_range(),
    ensures
        decoded_command(encoded_command(command)) == Ok::<CommandView, ProtocolError>(command),
{
    reveal_strlit("SetAnalog");
    reveal_strlit("SetBitSerial");
    reveal_strlit("Speak");
    assert(KIND_SET_ANALOG@.len() == 9);
    assert(KIND_SET_BIT_SERIAL@.len() == 12);
    assert(KIND_SPEAK@.len() == 5);
    match command {
        CommandView::SetAnalog(state) => {
            lemma_analog_round_trip(state);
        },
        CommandView::SetBitSerial(state) => {
            lemma_bit_serial_round_trip(state);
        },
        CommandView::Speak(_) => {},
    }
}

/// Reading what was written of a robot state gives the state back.
pub proof fn lemma_state_round_trip(state: RobotStateView)
    requires
        state.in_range(),
    ensures
        decoded_state(encoded_state(state)) == Some(state),
{
    let members = encoded_state(state)->Object_0;
    let analogs = members[0].1->Array_0;
    let registers = members[1].1->Array_0;
    assert forall|i: int| 0 <= i < analogs.len() implies decoded_analog(#[trigger] analogs[i])
        == Some(state.pwm_channels[i]) by {
        lemma_analog_round_trip(state.pwm_channels[i]);
    }
    assert forall|i: int| 0 <= i < registers.len() implies decoded_bit_serial(
        #[trigger] registers[i],
    ) == Some(state.shift_registers[i]) by {
        lemma_bit_serial_round_trip(state.shift_registers[i]);
    }
    assert(decoded_analogs(analogs)->Some_0 =~= state.pwm_channels);
    assert(decoded_bit_serials(registers)->Some_0 =~= state.shift_registers);
}

/// A position that was read from a document lies between zero and one.
pub proof fn lemma_decoded_position_in_range(document: JsonView)
    ensures
        decoded_position(document) matches Some(Some(position)) ==> position.in_unit_interval(),
{
    Position::lemma_with_bits(0);
    Position::lemma_with_bits(ONE_BITS);
    if let JsonView::Single(bits) = document {
        Position::lemma_with_bits(bits);
    }
}

/// A command that was read from a document holds no position outside the
/// unit interval.
pub proof fn lemma_decoded_command_in_range(document: JsonView)
    ensures
        decoded_command(document) matches Ok(command) ==> command.in_range(),
{
    if let JsonView::Object(members) = document {
        if members.len() == 1 {
            if let JsonView::Object(parts) = members[0].1 {
                if parts.len() == 2 {
                    lemma_decoded_position_in_range(parts[1].1);
                }
            }
        }
    }
}

/// A robot state that was read from a document holds no position outside
/// the unit interval.
pub proof fn lemma_decoded_state_in_range(document: JsonView)
    ensures
        decoded_state(document) matches Some(state) ==> state.in_range(),
{
    if let Some(state) = decoded_state(document) {
        let analogs = document->Object_0[0].1->Array_0;
        assert forall|i: int| 0 <= i < state.pwm_channels.len() implies (
        #[trigger] state.pwm_channels[i]).in_range() by {
            assert(decoded_analog(analogs[i]) is Some);
            if let JsonView::Object(parts) = analogs[i] {
                lemma_decoded_position_in_range(parts[1].1);
            }
        }
    }
}

/// The position of a document is spelled as positions are written: not as a
/// whole number, and not as negative zero.
pub open spec fn plainly_spelled(document: JsonView) -> bool {
    !(document is Unsigned) && document != JsonView::Single(NEGATIVE_ZERO_BITS)
}

/// The document of an analog channel value spells its position as positions
/// are written.
pub open spec fn analog_plainly_spelled(document: JsonView) -> bool {
    match document {
        JsonView::Object(members) => members.len() == 2 ==> plainly_spelled(members[1].1),
        _ => true,
    }
}

/// The document of a command spells its position, if it has one, as
/// positions are written.
pub open spec fn command_plainly_spelled(document: JsonView) -> bool {
    match document {
        JsonView::Object(members) => members.len() == 1 && members[0].0 == KIND_SET_ANALOG@
            ==> analog_plainly_spelled(members[0].1),
        _ => true,
    }
}

/// The document of a robot state spells every position as positions are
/// written.
pub open spec fn state_plainly_spelled(document: JsonView) -> bool {
    match document {
        JsonView::Object(members) => match members[0].1 {
            JsonView::Array(analogs) => members.len() == 2 ==> forall|i: int|
                0 <= i < analogs.len() ==> analog_plainly_spelled(#[trigger] analogs[i]),
            _ => true,
        },
        _ => true,
    }
}

/// Writing what was read of an analog channel value gives the document
/// back, where the document spells its position as positions are written.
pub proof fn lemma_analog_reading_is_faithful(document: JsonView)
    requires
        decoded_analog(document) is Some,
        analog_plainly_spelled(document),
    ensures
        encoded_analog(decoded_analog(document)->Some_0) == document,
{
    let members = document->Object_0;
    let state = decoded_analog(document)->Some_0;
    if let JsonView::Single(bits) = members[1].1 {
        Position::lemma_with_bits(bits);
    }
    assert(encoded_analog(state)->Object_0 =~= members);
}

/// Writing what was read of a shift register value gives the document back.
pub proof fn lemma_bit_serial_reading_is_faithful(document: JsonView)
    requires
        decoded_bit_serial(document) is Some,
    ensures
        encoded_bit_serial(decoded_bit_serial(document)->Some_0) == document,
{
    let members = document->Object_0;
    let state = decoded_bit_serial(document)->Some_0;
    let items = members[1].1->Array_0;
    assert(encoded_bits(state.state) =~= items);
    assert(encoded_bit_serial(state)->Object_0 =~= members);
}

/// Writing what was read of a command gives the document back, where the
/// document spells its position as positions are written.
pub proof fn lemma_command_reading_is_faithful(document: JsonView)
    requires
        decoded_command(document) is Ok,
        command_plainly_spelled(document),
    ensures
        encoded_command(decoded_command(document)->Ok_0) == document,
{
    let members = document->Object_0;
    let command = decoded_command(document)->Ok_0;
    match command {
        CommandView::SetAnalog(_) => {
            lemma_analog_reading_is_faithful(members[0].1);
        },
        CommandView::SetBitSerial(_) => {
            lemma_bit_serial_reading_is_faithful(members[0].1);
        },
        CommandView::Speak(_) => {
            assert(encoded_speak(decoded_speak(members[0].1)->Some_0)->Object_0
                =~= members[0].1->Object_0);
        },
    }
    assert(encoded_command(command)->Object_0 =~= members);
}

/// Writing what was read of a robot state gives the document back, where
/// the document spells every position as positions are written.
pub proof fn lemma_state_reading_is_faithful(document: JsonView)
    requires
        decoded_state(document) is Some,
        state_plainly_spelled(document),
    ensures
        encoded_state(decoded_state(document)->Some_0) == document,
{
    let members = document->Object_0;
    let state = decoded_state(document)->Some_0;
    let analogs = members[0].1->Array_0;
    let registers = members[1].1->Array_0;
    let written = encoded_state(state)->Object_0;
    assert forall|i: int| 0 <= i < analogs.len() implies written[0].1->Array_0[i]
        == analogs[i] by {
        assert(decoded_analog(analogs[i]) is Some);
        lemma_analog_reading_is_faithful(analogs[i]);
    }
    assert forall|i: int| 0 <= i < registers.len() implies written[1].1->Array_0[i]
        == registers[i] by {
        assert(decoded_bit_serial(registers[i]) is Some);
        lemma_bit_serial_reading_is_faithful(registers[i]);
    }
    assert(written[0].1->Array_0 =~= analogs);
    assert(written[1].1->Array_0 =~= registers);
    assert(written =~= members);
}

} // verus!
