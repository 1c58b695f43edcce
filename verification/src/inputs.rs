//! Decoding of raw HID input reports into key and encoder events.
//!
//! The device reports separate press and release events for keys and encoders and
//! one event per detent for encoder rotation. `DeviceState` remembers what is held
//! down, so that only changes are reported to OpenDeck.
use vstd::prelude::*;
use crate::layout::{ENCODER_COUNT, KEY_COUNT, hardware_button_to_opendeck};

verus! {

/// Hardware input codes of the three encoders (press) and of their rotation.
pub const ENC_TOP: u8 = 53;
pub const ENC_TOP_CCW: u8 = 80;
pub const ENC_TOP_CW: u8 = 81;
pub const ENC_MID: u8 = 51;
pub const ENC_MID_CCW: u8 = 144;
pub const ENC_MID_CW: u8 = 145;
pub const ENC_BOT: u8 = 55;
pub const ENC_BOT_CCW: u8 = 160;
pub const ENC_BOT_CW: u8 = 161;

/// Which keys and encoders are currently held down.
pub struct DeviceState {
    pub buttons: [bool; KEY_COUNT],
    pub encoders: [bool; ENCODER_COUNT],
}

/// A change reported to OpenDeck. Indices are zero-based OpenDeck indices.
#[derive(Debug, Clone, Copy, PartialEq, Eq, Structural)]
pub enum DeviceStateUpdate {
    ButtonDown(u8),
    ButtonUp(u8),
    EncoderDown(u8),
    EncoderUp(u8),
    EncoderTwist(u8, i8),
}

/// The OpenDeck message that reports an input event: keys and encoders by index, and
/// an encoder's turn in detents.
#[derive(Debug, Clone, Copy, PartialEq, Eq, Structural)]
pub enum InputMessage {
    KeyDown(u8),
    KeyUp(u8),
    EncoderDown(u8),
    EncoderUp(u8),
    EncoderChange(u8, i16),
}

/// The message for an event: one per kind, with the same index and the same turn.
pub open spec fn spec_input_message(update: DeviceStateUpdate) -> InputMessage {
    match update {
        DeviceStateUpdate::ButtonDown(k) => InputMessage::KeyDown(k),
        DeviceStateUpdate::ButtonUp(k) => InputMessage::KeyUp(k),
        DeviceStateUpdate::EncoderDown(e) => InputMessage::EncoderDown(e),
        DeviceStateUpdate::EncoderUp(e) => InputMessage::EncoderUp(e),
        DeviceStateUpdate::EncoderTwist(e, v) => InputMessage::EncoderChange(e, v as i16),
    }
}

/// Each input event is forwarded as the message of its own kind, for the same key or
/// encoder; a turn keeps its signed number of detents, so its direction is kept.
pub proof fn lemma_messages_keep_index_and_turn(i: u8, v: i8)
    ensures
        spec_input_message(DeviceStateUpdate::ButtonDown(i)) == InputMessage::KeyDown(i),
        spec_input_message(DeviceStateUpdate::ButtonUp(i)) == InputMessage::KeyUp(i),
        spec_input_message(DeviceStateUpdate::EncoderDown(i)) == InputMessage::EncoderDown(i),
        spec_input_message(DeviceStateUpdate::EncoderUp(i)) == InputMessage::EncoderUp(i),
        spec_input_message(DeviceStateUpdate::EncoderTwist(i, v)) matches InputMessage::EncoderChange(e, w)
            && e == i && w == v,
{
}

/// Chooses the OpenDeck message that forwards an input event.
pub fn input_message(update: DeviceStateUpdate) -> (r: InputMessage)
    ensures
        r == spec_input_message(update),
{
    match update {
        DeviceStateUpdate::ButtonDown(k) => InputMessage::KeyDown(k),
        DeviceStateUpdate::ButtonUp(k) => InputMessage::KeyUp(k),
        DeviceStateUpdate::EncoderDown(e) => InputMessage::EncoderDown(e),
        DeviceStateUpdate::EncoderUp(e) => InputMessage::EncoderUp(e),
        DeviceStateUpdate::EncoderTwist(e, v) => InputMessage::EncoderChange(e, v as i16),
    }
}

/// Held keys and held encoders, as two sequences of flags.
pub type HeldState = (Seq<bool>, Seq<bool>);

impl View for DeviceState {
    type V = HeldState;

    open spec fn view(&self) -> HeldState {
        (self.buttons@, self.encoders@)
    }
}

/// A raw state byte means "pressed" exactly when it is 0x01.
pub open spec fn is_pressed(raw_state: u8) -> bool {
    raw_state == 0x01
}

pub open spec fn all_released(s: HeldState) -> bool {
    &&& s.0 == Seq::new(KEY_COUNT as nat, |i: int| false)
    &&& s.1 == Seq::new(ENCODER_COUNT as nat, |i: int| false)
}

/// A key press or release: reported only when it changes the remembered state.
pub open spec fn button_transition(s: HeldState, input: u8, raw_state: u8) -> (HeldState, Option<DeviceStateUpdate>) {
    if 1 <= input <= KEY_COUNT {
        let key = (input - 1) as u8;
        let pressed = is_pressed(raw_state);
        if s.0[key as int] == pressed {
            (s, None)
        } else {
            (
                (s.0.update(key as int, pressed), s.1),
                Some(if pressed { DeviceStateUpdate::ButtonDown(key) } else { DeviceStateUpdate::ButtonUp(key) }),
            )
        }
    } else {
        (s, None)
    }
}

/// The encoder that an encoder-press input code belongs to.
pub open spec fn encoder_of_press(input: u8) -> Option<u8> {
    if input == ENC_TOP {
        Some(0u8)
    } else if input == ENC_MID {
        Some(1u8)
    } else if input == ENC_BOT {
        Some(2u8)
    } else {
        None
    }
}

/// The encoder and the direction (-1 counter-clockwise, +1 clockwise) of a rotation code.
pub open spec fn twist_of(input: u8) -> Option<(u8, i8)> {
    if input == ENC_TOP_CCW {
        Some((0u8, -1i8))
    } else if input == ENC_TOP_CW {
        Some((0u8, 1i8))
    } else if input == ENC_MID_CCW {
        Some((1u8, -1i8))
    } else if input == ENC_MID_CW {
        Some((1u8, 1i8))
    } else if input == ENC_BOT_CCW {
        Some((2u8, -1i8))
    } else if input == ENC_BOT_CW {
        Some((2u8, 1i8))
    } else {
        None
    }
}

/// An encoder press or release: reported only when it changes the remembered state.
pub open spec fn press_transition(s: HeldState, input: u8, raw_state: u8) -> (HeldState, Option<DeviceStateUpdate>) {
    match encoder_of_press(input) {
        Some(e) => {
            let pressed = is_pressed(raw_state);
            if s.1[e as int] == pressed {
                (s, None)
            } else {
                (
                    (s.0, s.1.update(e as int, pressed)),
                    Some(if pressed { DeviceStateUpdate::EncoderDown(e) } else { DeviceStateUpdate::EncoderUp(e) }),
                )
            }
        },
        None => (s, None),
    }
}

/// Any input code that is not a key: encoder press, encoder rotation, or unknown.
pub open spec fn encoder_transition(s: HeldState, input: u8, raw_state: u8) -> (HeldState, Option<DeviceStateUpdate>) {
    if encoder_of_press(input) is Some {
        press_transition(s, input, raw_state)
    } else {
        match twist_of(input) {
            Some((e, v)) => (s, Some(DeviceStateUpdate::EncoderTwist(e, v))),
            None => (s, None),
        }
    }
}

/// The effect of one decoded input event on the remembered state.
pub open spec fn input_transition(s: HeldState, input: u8, raw_state: u8) -> (HeldState, Option<DeviceStateUpdate>) {
    if 1 <= input <= KEY_COUNT {
        button_transition(s, input, raw_state)
    } else {
        encoder_transition(s, input, raw_state)
    }
}

/// True when `buf` starts with the bytes `ACK` at `offset`.
pub open spec fn has_ack_at(buf: Seq<u8>, offset: int) -> bool {
    &&& buf.len() >= offset + 3
    &&& buf[offset] == 0x41u8
    &&& buf[offset + 1] == 0x43u8
    &&& buf[offset + 2] == 0x4Bu8
}

/// The (input code, raw state) pair carried by a report. Reports start with `ACK`,
/// possibly behind a leading 0x00 report id; the pair sits at bytes 9 and 10 after
/// that id.
pub open spec fn report_event(buf: Seq<u8>) -> Option<(u8, u8)> {
    if has_ack_at(buf, 0) {
        if buf.len() < 11 {
            None
        } else {
            Some((buf[9], buf[10]))
        }
    } else if buf.len() >= 1 && buf[0] == 0u8 && has_ack_at(buf, 1) {
        if buf.len() < 12 {
            None
        } else {
            Some((buf[10], buf[11]))
        }
    } else {
        None
    }
}

/// The effect of one raw report: input code 0xFF carries no event.
pub open spec fn report_transition(s: HeldState, buf: Seq<u8>) -> (HeldState, Option<DeviceStateUpdate>) {
    match report_event(buf) {
        Some((input, raw_state)) => if input == 0xFFu8 {
            (s, None)
        } else {
            input_transition(s, input, raw_state)
        },
        None => (s, None),
    }
}

/// A held-state of the right shape: one flag per key and one per encoder.
pub open spec fn well_formed(s: HeldState) -> bool {
    s.0.len() == KEY_COUNT && s.1.len() == ENCODER_COUNT
}

/// The state of a `DeviceState` always has the right shape.
pub proof fn lemma_device_state_well_formed(state: &DeviceState)
    ensures
        well_formed(state@),
{
}

/// Every transition keeps the held-state well formed.
pub proof fn lemma_transition_preserves_shape(s: HeldState, input: u8, raw_state: u8)
    requires
        well_formed(s),
    ensures
        well_formed(input_transition(s, input, raw_state).0),
{
}

/// Feeding the same press or release twice reports it once: the second time nothing
/// is reported and nothing changes. Rotation codes are the exception, since every
/// detent is an event of its own.
pub proof fn lemma_repeat_is_silent(s: HeldState, input: u8, raw_state: u8)
    requires
        well_formed(s),
        twist_of(input) is None,
    ensures
        ({
            let (s1, _) = input_transition(s, input, raw_state);
            input_transition(s1, input, raw_state) == (s1, None::<DeviceStateUpdate>)
        }),
{
}

/// After a key event the key's flag is what the event said, every other flag is
/// unchanged, and something is reported exactly when the key's flag changed:
/// `ButtonDown(k)` when it went from released to pressed, `ButtonUp(k)` otherwise.
pub proof fn lemma_button_event_matches_state(s: HeldState, input: u8, raw_state: u8)
    requires
        well_formed(s),
        1 <= input <= KEY_COUNT,
    ensures
        ({
            let k = input - 1;
            let (s1, r) = input_transition(s, input, raw_state);
            &&& s1.0 == s.0.update(k, is_pressed(raw_state))
            &&& s1.1 == s.1
            &&& (r is Some <==> s.0[k] != is_pressed(raw_state))
            &&& (r == Some(DeviceStateUpdate::ButtonDown(k as u8)) <==> !s.0[k] && is_pressed(raw_state))
            &&& (r == Some(DeviceStateUpdate::ButtonUp(k as u8)) <==> s.0[k] && !is_pressed(raw_state))
        }),
{
    let k = input - 1;
    assert(s.0[k] == is_pressed(raw_state) ==> s.0.update(k, is_pressed(raw_state)) =~= s.0);
}

/// After an encoder press or release the encoder's flag is what the event said, every
/// other flag is unchanged, and something is reported exactly when the flag changed.
pub proof fn lemma_encoder_event_matches_state(s: HeldState, input: u8, raw_state: u8)
    requires
        well_formed(s),
        encoder_of_press(input) is Some,
    ensures
        ({
            let e = encoder_of_press(input)->0;
            let (s1, r) = input_transition(s, input, raw_state);
            &&& s1.1 == s.1.update(e as int, is_pressed(raw_state))
            &&& s1.0 == s.0
            &&& (r is Some <==> s.1[e as int] != is_pressed(raw_state))
            &&& (r == Some(DeviceStateUpdate::EncoderDown(e)) <==> !s.1[e as int] && is_pressed(raw_state))
            &&& (r == Some(DeviceStateUpdate::EncoderUp(e)) <==> s.1[e as int] && !is_pressed(raw_state))
        }),
{
    let e = encoder_of_press(input)->0;
    assert(s.1[e as int] == is_pressed(raw_state) ==> s.1.update(e as int, is_pressed(raw_state)) =~= s.1);
}

/// A rotation code always reports one detent and never changes the held state.
pub proof fn lemma_twist_is_stateless(s: HeldState, input: u8, raw_state: u8)
    requires
        twist_of(input) is Some,
    ensures
        ({
            let (e, v) = twist_of(input)->0;
            input_transition(s, input, raw_state) == (s, Some(DeviceStateUpdate::EncoderTwist(e, v)))
        }),
{
}

/// Input codes that are neither keys, encoder presses nor rotations are ignored.
pub proof fn lemma_unknown_code_ignored(s: HeldState, input: u8, raw_state: u8)
    requires
        !(1 <= input <= KEY_COUNT),
        encoder_of_press(input) is None,
        twist_of(input) is None,
    ensures
        input_transition(s, input, raw_state) == (s, None::<DeviceStateUpdate>),
{
}

/// A leading 0x00 report id in front of an `ACK` report does not change how it decodes.
pub proof fn lemma_report_id_prefix_is_transparent(s: HeldState, buf: Seq<u8>)
    requires
        has_ack_at(buf, 0),
    ensures
        report_transition(s, seq![0u8] + buf) == report_transition(s, buf),
{
    let p = seq![0u8] + buf;
    assert(!has_ack_at(p, 0));
    assert(p[1] == buf[0] && p[2] == buf[1] && p[3] == buf[2]);
    assert(has_ack_at(p, 1));
    if buf.len() >= 11 {
        assert(p[10] == buf[9] && p[11] == buf[10]);
    }
}

/// A report that carries no event (too short, unknown framing, or input code 0xFF)
/// leaves the held state as it was and reports nothing.
pub proof fn lemma_report_without_event_is_ignored(s: HeldState, buf: Seq<u8>)
    requires
        match report_event(buf) {
            Some((input, _)) => input == 0xFFu8,
            None => true,
        },
    ensures
        report_transition(s, buf) == (s, None::<DeviceStateUpdate>),
{
}

impl DeviceState {
    /// Nothing held down.
    pub fn new() -> (r: Self)
        ensures
            all_released(r@),
    {
        let r = DeviceState { buttons: [false; KEY_COUNT], encoders: [false; ENCODER_COUNT] };
        assert(r.buttons@ =~= Seq::new(KEY_COUNT as nat, |i: int| false));
        assert(r.encoders@ =~= Seq::new(ENCODER_COUNT as nat, |i: int| false));
        r
    }
}

/// Key input codes.
pub struct Buttons;

impl Buttons {
    /// Records a key press or release (input codes 1 to 15) and reports it if it changed anything.
    pub fn update(state: &mut DeviceState, input: u8, raw_state: u8) -> (r: Option<DeviceStateUpdate>)
        ensures
            (final(state)@, r) == button_transition(old(state)@, input, raw_state),
    {
        let key = match hardware_button_to_opendeck(input) {
            Some(k) => k,
            None => return None,
        };
        let pressed = raw_state == 0x01;
        let idx = key as usize;
        if state.buttons[idx] == pressed {
            return None;
        }
        state.buttons[idx] = pressed;
        proof {
            assert(final(state)@.0 =~= old(state)@.0.update(key as int, pressed));
        }
        if pressed {
            Some(DeviceStateUpdate::ButtonDown(key))
        } else {
            Some(DeviceStateUpdate::ButtonUp(key))
        }
    }
}

/// Encoder input codes.
pub struct Encoders;

impl Encoders {
    /// Handles an input code that is not a key: encoder press or release, encoder
    /// rotation; any other code is ignored.
    pub fn update(state: &mut DeviceState, input: u8, raw_state: u8) -> (r: Option<DeviceStateUpdate>)
        ensures
            (final(state)@, r) == encoder_transition(old(state)@, input, raw_state),
    {
        if input == ENC_TOP || input == ENC_MID || input == ENC_BOT {
            Self::press(state, input, raw_state)
        } else if input == ENC_TOP_CCW || input == ENC_TOP_CW || input == ENC_MID_CCW || input == ENC_MID_CW
            || input == ENC_BOT_CCW || input == ENC_BOT_CW {
            Self::twist(input)
        } else {
            None
        }
    }

    /// Records an encoder press or release and reports it if it changed anything.
    pub fn press(state: &mut DeviceState, input: u8, raw_state: u8) -> (r: Option<DeviceStateUpdate>)
        ensures
            (final(state)@, r) == press_transition(old(state)@, input, raw_state),
    {
        let encoder: u8 = if input == ENC_TOP {
            0
        } else if input == ENC_MID {
            1
        } else if input == ENC_BOT {
            2
        } else {
            return None;
        };
        let pressed = raw_state == 0x01;
        let idx = encoder as usize;
        if state.encoders[idx] == pressed {
            return None;
        }
        state.encoders[idx] = pressed;
        proof {
            assert(final(state)@.1 =~= old(state)@.1.update(encoder as int, pressed));
        }
        if pressed {
            Some(DeviceStateUpdate::EncoderDown(encoder))
        } else {
            Some(DeviceStateUpdate::EncoderUp(encoder))
        }
    }

    /// Reports one detent of rotation; rotation leaves no state behind.
    pub fn twist(input: u8) -> (r: Option<DeviceStateUpdate>)
        ensures
            r == (match twist_of(input) {
                Some((e, v)) => Some(DeviceStateUpdate::EncoderTwist(e, v)),
                None => None::<DeviceStateUpdate>,
            }),
    {
        if input == ENC_TOP_CCW {
            Some(DeviceStateUpdate::EncoderTwist(0, -1))
        } else if input == ENC_TOP_CW {
            Some(DeviceStateUpdate::EncoderTwist(0, 1))
        } else if input == ENC_MID_CCW {
            Some(DeviceStateUpdate::EncoderTwist(1, -1))
        } else if input == ENC_MID_CW {
            Some(DeviceStateUpdate::EncoderTwist(1, 1))
        } else if input == ENC_BOT_CCW {
            Some(DeviceStateUpdate::EncoderTwist(2, -1))
        } else if input == ENC_BOT_CW {
            Some(DeviceStateUpdate::EncoderTwist(2, 1))
        } else {
            None
        }
    }
}

/// Routes one decoded input event: codes 1 to 15 are keys, anything else goes to the encoders.
pub fn handle_input_event(state: &mut DeviceState, input: u8, raw_state: u8) -> (r: Option<DeviceStateUpdate>)
    ensures
        (final(state)@, r) == input_transition(old(state)@, input, raw_state),
{
    if 1 <= input && input <= 15 {
        Buttons::update(state, input, raw_state)
    } else {
        Encoders::update(state, input, raw_state)
    }
}

fn starts_with_ack(buf: &[u8], offset: usize) -> (r: bool)
    ensures
        r == has_ack_at(buf@, offset as int),
{
    offset <= buf.len() && buf.len() - offset >= 3 && buf[offset] == 0x41 && buf[offset + 1] == 0x43
        && buf[offset + 2] == 0x4B
}

/// Decodes one raw HID report and applies it to `state`, returning the change to report.
pub fn decode_input_report(state: &mut DeviceState, buf: &[u8]) -> (r: Option<DeviceStateUpdate>)
    ensures
        (final(state)@, r) == report_transition(old(state)@, buf@),
{
    if buf.len() == 0 {
        return None;
    }
    let (input, raw_state) = if starts_with_ack(buf, 0) {
        if buf.len() < 11 {
            return None;
        }
        (buf[9], buf[10])
    } else if buf[0] == 0 && starts_with_ack(buf, 1) {
        if buf.len() < 12 {
            return None;
        }
        (buf[10], buf[11])
    } else {
        return None;
    };
    if input == 0xFF {
        return None;
    }
    handle_input_event(state, input, raw_state)
}

} // verus!
