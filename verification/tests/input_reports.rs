use opendeck_m3::inputs::{DeviceState, DeviceStateUpdate, decode_input_report, handle_input_event, input_message, Buttons, Encoders, InputMessage};
use opendeck_m3::worker::poll_input;

const BUTTON_1: u8 = 1;
const ENC_TOP: u8 = 53;
const ENC_TOP_CCW: u8 = 80;
const ENC_TOP_CW: u8 = 81;
const PRESSED: u8 = 0x01;
const RELEASED: u8 = 0x00;

fn ack_report(input: u8, raw_state: u8) -> Vec<u8> {
    let mut buf = vec![0u8; 11];
    buf[0..3].copy_from_slice(b"ACK");
    buf[9] = input;
    buf[10] = raw_state;
    buf
}

fn zero_ack_report(input: u8, raw_state: u8) -> Vec<u8> {
    let mut buf = vec![0u8; 12];
    buf[1..4].copy_from_slice(b"ACK");
    buf[10] = input;
    buf[11] = raw_state;
    buf
}

#[test]
fn decodes_supported_report_layouts() {
    let mut state = DeviceState::new();
    let update = decode_input_report(&mut state, &ack_report(BUTTON_1, PRESSED));
    assert!(matches!(update, Some(DeviceStateUpdate::ButtonDown(0))));

    let mut state = DeviceState::new();
    let update = decode_input_report(&mut state, &zero_ack_report(BUTTON_1, PRESSED));
    assert!(matches!(update, Some(DeviceStateUpdate::ButtonDown(0))));
}

#[test]
fn rejects_short_or_unknown_reports() {
    let mut state = DeviceState::new();
    assert!(decode_input_report(&mut state, &[]).is_none());
    assert!(decode_input_report(&mut state, b"ACK").is_none());
    assert!(decode_input_report(&mut state, b"not-a-report").is_none());
}

#[test]
fn emits_only_when_button_state_changes() {
    let mut state = DeviceState::new();
    let first = decode_input_report(&mut state, &ack_report(BUTTON_1, PRESSED));
    assert!(matches!(first, Some(DeviceStateUpdate::ButtonDown(0))));

    let second = decode_input_report(&mut state, &ack_report(BUTTON_1, PRESSED));
    assert!(second.is_none());

    let third = decode_input_report(&mut state, &ack_report(BUTTON_1, RELEASED));
    assert!(matches!(third, Some(DeviceStateUpdate::ButtonUp(0))));
}

#[test]
fn ignores_unknown_button_codes() {
    let mut state = DeviceState::new();
    let update = decode_input_report(&mut state, &ack_report(0xAB, PRESSED));
    assert!(update.is_none());
}

#[test]
fn emits_encoder_press_and_release_transitions() {
    let mut state = DeviceState::new();
    let down = decode_input_report(&mut state, &ack_report(ENC_TOP, PRESSED));
    assert!(matches!(down, Some(DeviceStateUpdate::EncoderDown(0))));

    let repeat = decode_input_report(&mut state, &ack_report(ENC_TOP, PRESSED));
    assert!(repeat.is_none());

    let up = decode_input_report(&mut state, &ack_report(ENC_TOP, RELEASED));
    assert!(matches!(up, Some(DeviceStateUpdate::EncoderUp(0))));
}

#[test]
fn maps_rotation_direction_to_encoder_delta() {
    let mut state = DeviceState::new();
    let ccw = decode_input_report(&mut state, &ack_report(ENC_TOP_CCW, 0));
    assert!(matches!(ccw, Some(DeviceStateUpdate::EncoderTwist(0, -1))));

    let cw = decode_input_report(&mut state, &ack_report(ENC_TOP_CW, 0));
    assert!(matches!(cw, Some(DeviceStateUpdate::EncoderTwist(0, 1))));
}

#[test]
fn last_key_and_other_encoders_map_to_their_indices() {
    let mut state = DeviceState::new();
    assert_eq!(decode_input_report(&mut state, &ack_report(15, PRESSED)), Some(DeviceStateUpdate::ButtonDown(14)));
    assert_eq!(decode_input_report(&mut state, &ack_report(51, PRESSED)), Some(DeviceStateUpdate::EncoderDown(1)));
    assert_eq!(decode_input_report(&mut state, &ack_report(55, PRESSED)), Some(DeviceStateUpdate::EncoderDown(2)));
    assert_eq!(decode_input_report(&mut state, &ack_report(144, 0)), Some(DeviceStateUpdate::EncoderTwist(1, -1)));
    assert_eq!(decode_input_report(&mut state, &ack_report(145, 0)), Some(DeviceStateUpdate::EncoderTwist(1, 1)));
    assert_eq!(decode_input_report(&mut state, &ack_report(160, 0)), Some(DeviceStateUpdate::EncoderTwist(2, -1)));
    assert_eq!(decode_input_report(&mut state, &ack_report(161, 0)), Some(DeviceStateUpdate::EncoderTwist(2, 1)));
    assert!(state.buttons[14]);
    assert!(state.encoders[1] && state.encoders[2] && !state.encoders[0]);
}

#[test]
fn report_code_ff_and_short_zero_prefixed_reports_are_ignored() {
    let mut state = DeviceState::new();
    assert!(decode_input_report(&mut state, &ack_report(0xFF, PRESSED)).is_none());
    let mut short = zero_ack_report(BUTTON_1, PRESSED);
    short.truncate(11);
    assert!(decode_input_report(&mut state, &short).is_none());
    assert!(state.buttons.iter().all(|b| !b));
}

#[test]
fn pressed_only_means_state_byte_one() {
    let mut state = DeviceState::new();
    assert!(decode_input_report(&mut state, &ack_report(BUTTON_1, 0x02)).is_none());
    assert!(!state.buttons[0]);
}

#[test]
fn direct_handlers_agree_with_routing() {
    let mut state = DeviceState::new();
    assert_eq!(Buttons::update(&mut state, 16, PRESSED), None);
    assert_eq!(Buttons::update(&mut state, 0, PRESSED), None);
    assert_eq!(Encoders::update(&mut state, 3, PRESSED), None);
    assert_eq!(Encoders::press(&mut state, 80, PRESSED), None);
    assert_eq!(Encoders::twist(53), None);
    assert_eq!(Encoders::twist(81), Some(DeviceStateUpdate::EncoderTwist(0, 1)));
    assert_eq!(handle_input_event(&mut state, 2, PRESSED), Some(DeviceStateUpdate::ButtonDown(1)));
    assert_eq!(handle_input_event(&mut state, 53, PRESSED), Some(DeviceStateUpdate::EncoderDown(0)));
}

#[test]
fn worker_polls_only_successful_nonempty_reads() {
    let mut state = DeviceState::new();
    let mut buf = vec![0u8; 1024];
    buf[0..3].copy_from_slice(b"ACK");
    buf[9] = 3;
    buf[10] = PRESSED;
    assert_eq!(poll_input(&mut state, false, &buf, 11), None);
    assert_eq!(poll_input(&mut state, true, &buf, 0), None);
    assert_eq!(poll_input(&mut state, true, &buf, 2000), None);
    assert_eq!(poll_input(&mut state, true, &buf, 10), None);
    assert_eq!(poll_input(&mut state, true, &buf, 11), Some(DeviceStateUpdate::ButtonDown(2)));
}

#[test]
fn input_events_become_opendeck_messages() {
    assert_eq!(input_message(DeviceStateUpdate::ButtonDown(3)), InputMessage::KeyDown(3));
    assert_eq!(input_message(DeviceStateUpdate::ButtonUp(14)), InputMessage::KeyUp(14));
    assert_eq!(input_message(DeviceStateUpdate::EncoderDown(0)), InputMessage::EncoderDown(0));
    assert_eq!(input_message(DeviceStateUpdate::EncoderUp(2)), InputMessage::EncoderUp(2));
    assert_eq!(input_message(DeviceStateUpdate::EncoderTwist(1, -1)), InputMessage::EncoderChange(1, -1));
    assert_eq!(input_message(DeviceStateUpdate::EncoderTwist(2, 1)), InputMessage::EncoderChange(2, 1));
}
