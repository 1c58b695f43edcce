use opendeck_m3::display::{apply_image_event, ImageAction, ImageEvent, Keys};
use opendeck_m3::discovery::{device_id_from_info, device_id_or_unknown, discovered_from_info, find_device_id};
use opendeck_m3::image_cache::KeyImageCache;
use opendeck_m3::layout::{hardware_button_to_opendeck, opendeck_key_to_device, registration, Kind};
use opendeck_m3::wire::{background_header, clear_background_packet, image_data_packets};
use opendeck_m3::worker::{destroy_if_present, end_turn, firmware_version_from_buffer, handle_command, transport_worker, Command, Flow, Received, TransportCall, WorkerStep};

#[test]
fn hardware_codes_are_one_based() {
    assert_eq!(hardware_button_to_opendeck(0), None);
    assert_eq!(hardware_button_to_opendeck(1), Some(0));
    assert_eq!(hardware_button_to_opendeck(15), Some(14));
    assert_eq!(hardware_button_to_opendeck(16), None);
}

#[test]
fn opendeck_rows_are_flipped_on_the_device() {
    assert_eq!(opendeck_key_to_device(0), Some(10));
    assert_eq!(opendeck_key_to_device(4), Some(14));
    assert_eq!(opendeck_key_to_device(7), Some(7));
    assert_eq!(opendeck_key_to_device(14), Some(4));
    for k in 0..15u8 {
        let d = opendeck_key_to_device(k).unwrap();
        assert_eq!(opendeck_key_to_device(d), Some(k));
    }
}

#[test]
fn models_are_recognised_by_vendor_and_product() {
    assert_eq!(Kind::from_vid_pid(0x5548, 0x1020), Some(Kind::VsdInsideMagTranM3));
    assert_eq!(Kind::from_vid_pid(0x5548, 0x1038), Some(Kind::ActionRingMagTranM3));
    assert_eq!(Kind::from_vid_pid(0x5548, 0x1021), None);
    assert_eq!(Kind::from_vid_pid(0x1234, 0x1020), None);
    assert_eq!(Kind::VsdInsideMagTranM3.human_name(), "VSD Inside MagTran M3");
    assert_eq!(Kind::ActionRingMagTranM3.human_name(), "ActionRing MagTran M3");
    let r = registration(Kind::ActionRingMagTranM3);
    assert_eq!((r.name.as_str(), r.rows, r.columns, r.encoders, r.device_type), ("ActionRing MagTran M3", 3, 5, 3, 7));
}

#[test]
fn background_header_layout() {
    let h = background_header(3000, 0, 0, 480, 854, 0);
    assert_eq!(
        h,
        vec![0x00, b'C', b'R', b'T', 0x00, 0x00, b'B', b'G', b'P', b'I', b'C', 0x00, 0x00, 0x0B, 0xB8, 0x00, 0x00, 0x00, 0x00, 0x01, 0xE0, 0x03, 0x56, 0x00]
    );
    let h = background_header(0x1_0203_0405, 0x0102, 0x0304, 1, 2, 9);
    assert_eq!(&h[11..15], &[0x02, 0x03, 0x04, 0x05]);
    assert_eq!(&h[15..24], &[0x01, 0x02, 0x03, 0x04, 0x00, 0x01, 0x00, 0x02, 9]);
    assert_eq!(clear_background_packet(3), vec![0x00, b'C', b'R', b'T', 0x00, 0x00, b'B', b'G', b'C', b'L', b'E', 3]);
}

#[test]
fn image_data_is_cut_into_padded_reports() {
    assert!(image_data_packets(&[]).is_empty());
    let data: Vec<u8> = (0..1500u32).map(|i| (i % 251) as u8 + 1).collect();
    let packets = image_data_packets(&data);
    assert_eq!(packets.len(), 2);
    assert!(packets.iter().all(|p| p.len() == 1025 && p[0] == 0));
    assert_eq!(&packets[0][1..], &data[..1024]);
    assert_eq!(&packets[1][1..477], &data[1024..]);
    assert!(packets[1][477..].iter().all(|b| *b == 0));
    let exact = vec![7u8; 1024];
    let packets = image_data_packets(&exact);
    assert_eq!(packets.len(), 1);
    assert_eq!(&packets[0][1..], &exact[..]);
}

#[test]
fn image_events_become_display_actions() {
    let ev = |controller: Option<&str>, position: Option<u8>, image: Option<&str>| ImageEvent {
        device: "M3-1".to_string(),
        controller: controller.map(str::to_string),
        position,
        image: image.map(str::to_string),
    };
    assert_eq!(apply_image_event(ev(Some("Encoder"), Some(1), Some("x"))), ImageAction::Skip);
    assert_eq!(apply_image_event(ev(Some("Keypad"), Some(1), Some("x"))), ImageAction::SetKey(1, "x".to_string()));
    assert_eq!(apply_image_event(ev(None, Some(2), Some(""))), ImageAction::ClearKey(2));
    assert_eq!(apply_image_event(ev(None, Some(2), None)), ImageAction::ClearKey(2));
    assert_eq!(apply_image_event(ev(None, None, Some("bg"))), ImageAction::Background("bg".to_string()));
    assert_eq!(apply_image_event(ev(None, None, None)), ImageAction::ClearAllKeys);
    assert!(ev(None, None, None).is_profile_switch());
    assert!(!ev(None, None, Some("bg")).is_profile_switch());
}

#[test]
fn key_cache_remembers_and_redraws() {
    let mut keys: Keys<&str> = Keys::new();
    assert_eq!(keys.set(0, "a"), 10);
    assert_eq!(keys.set(14, "b"), 4);
    assert_eq!(keys.set(0, "c"), 10);
    assert_eq!(keys.refresh(), vec![(0, 10), (14, 4)]);
    assert_eq!(keys.get(0), Some(&"c"));
    assert_eq!(keys.clear(14), 4);
    assert_eq!(keys.refresh(), vec![(0, 10)]);
    assert_eq!(keys.clear_all(), vec![10, 11, 12, 13, 14, 5, 6, 7, 8, 9, 0, 1, 2, 3, 4]);
    assert!(keys.refresh().is_empty());
    assert_eq!(keys.get(0), None);
}

#[test]
fn image_cache_is_kept_per_serial() {
    let mut cache: KeyImageCache<u32> = KeyImageCache::new();
    cache.set_key_image("A", 3, 30);
    cache.set_key_image("A", 4, 40);
    cache.set_key_image("B", 3, 300);
    let a = cache.get_key_images("A");
    assert_eq!((a.get(&3), a.get(&4), a.get(&5)), (Some(&30), Some(&40), None));
    cache.remove_key_image("A", 3);
    cache.remove_key_image("C", 3);
    assert_eq!(cache.get_key_images("A").get(&3), None);
    assert_eq!(cache.get_key_images("B").get(&3), Some(&300));
    cache.clear_key_images("B");
    assert_eq!(cache.get_key_images("B").get(&3), None);
    assert_eq!(cache.get_key_images("A").get(&4), Some(&40));
}

#[test]
fn worker_commands_map_to_library_calls() {
    assert!(matches!(handle_command(Command::ClearKeyImage(4)), (TransportCall::ClearKey(5), Flow::Continue)));
    assert!(matches!(handle_command(Command::SetKeyImage(0, vec![1])), (TransportCall::SetKeyImageStream { key: 1, .. }, Flow::Continue)));
    assert!(matches!(handle_command(Command::Destroy), (TransportCall::DestroyDevice, Flow::Break)));
    assert!(matches!(handle_command(Command::Flush), (TransportCall::Refresh, Flow::Continue)));
    assert!(matches!(handle_command(Command::SetBrightness(40)), (TransportCall::SetKeyBrightness(40), Flow::Continue)));
    let step = transport_worker(true, Received::Disconnected);
    assert!(step.stop && matches!(step.call, Some(TransportCall::DestroyDevice)));
    let step = transport_worker(false, Received::Disconnected);
    assert!(step.stop && step.call.is_none());
    let step = transport_worker(true, Received::Timeout);
    assert!(!step.stop && step.call.is_none());
    let step = transport_worker(false, Received::Command(Command::Heartbeat));
    assert!(!step.stop && matches!(step.call, Some(TransportCall::Heartbeat)));
    assert!(destroy_if_present(true));
    assert!(!destroy_if_present(false));
}

#[test]
fn destroy_releases_only_an_open_handle() {
    let step = transport_worker(true, Received::Command(Command::Destroy));
    assert!(step.stop && matches!(step.call, Some(TransportCall::DestroyDevice)));
    let step = transport_worker(false, Received::Command(Command::Destroy));
    assert!(step.stop && step.call.is_none());
}

fn create_command() -> Command {
    Command::Create { path: "/dev/hidraw3".to_string(), vid: 0x0300, pid: 0x3004, usage_page: 65440, usage: 1 }
}

#[test]
fn successful_create_keeps_the_handle_and_polls() {
    let mut handle: Option<u32> = None;
    let step = transport_worker(false, Received::Command(create_command()));
    assert!(!step.stop);
    assert!(matches!(step.call, Some(TransportCall::CreateDevice { vid: 0x0300, pid: 0x3004, usage_page: 65440, usage: 1, .. })));
    let end = end_turn::<u32, String>(&mut handle, &step, Some(Ok(7)));
    assert_eq!(handle, Some(7));
    assert_eq!(end.create_reply, Some(Ok(())));
    assert!(end.poll);
}

#[test]
fn failed_create_keeps_the_old_handle_and_replies_the_error() {
    let mut handle: Option<u32> = None;
    let step = transport_worker(false, Received::Command(create_command()));
    let end = end_turn::<u32, String>(&mut handle, &step, Some(Err("transport_create failed".to_string())));
    assert_eq!(handle, None);
    assert_eq!(end.create_reply, Some(Err("transport_create failed".to_string())));
    assert!(!end.poll);
}

#[test]
fn worker_polls_only_with_an_open_handle_and_never_after_stopping() {
    let mut handle: Option<u32> = Some(3);
    let step = transport_worker(true, Received::Timeout);
    let end = end_turn::<u32, String>(&mut handle, &step, None);
    assert!(end.poll && end.create_reply.is_none());
    assert_eq!(handle, Some(3));

    let mut closed: Option<u32> = None;
    let step = transport_worker(false, Received::Command(Command::Heartbeat));
    let end = end_turn::<u32, String>(&mut closed, &step, None);
    assert!(!end.poll);

    let step = transport_worker(true, Received::Command(Command::Destroy));
    let end = end_turn::<u32, String>(&mut handle, &step, None);
    assert!(!end.poll);
    assert_eq!(handle, None);

    let mut handle: Option<u32> = Some(4);
    let step: WorkerStep = transport_worker(true, Received::Disconnected);
    let end = end_turn::<u32, String>(&mut handle, &step, None);
    assert!(!end.poll);
    assert_eq!(handle, None);
}

#[test]
fn firmware_version_stops_at_nul() {
    assert_eq!(firmware_version_from_buffer(b"V1.02\0\0junk"), "V1.02");
    assert_eq!(firmware_version_from_buffer(b"\0abc"), "");
    assert_eq!(firmware_version_from_buffer(b"V\xFF1"), "V\u{FFFD}1");
}

#[test]
fn device_ids_and_discovery() {
    assert_eq!(device_id_from_info(0x5548, 0x1020, Some("ABC".to_string())), Some("M3-ABC".to_string()));
    assert_eq!(device_id_from_info(0x5548, 0x1021, Some("ABC".to_string())), None);
    assert_eq!(device_id_from_info(0x5548, 0x1038, None), None);
    assert_eq!(discovered_from_info(0x5548, 0x1038, Some("Z".to_string())), Some(("M3-Z".to_string(), Kind::ActionRingMagTranM3)));
    let entries = vec![("M2-x".to_string(), Some(true)), ("M3-file".to_string(), Some(false)), ("M3-dev".to_string(), Some(true))];
    assert_eq!(find_device_id(&entries), Some("M3-dev".to_string()));
    let entries = vec![("x".to_string(), None), ("M3-dev".to_string(), Some(true))];
    assert_eq!(find_device_id(&entries), None);
    assert_eq!(device_id_or_unknown(None), "M3-unknown");
    assert_eq!(device_id_or_unknown(Some("M3-q".to_string())), "M3-q");
}
