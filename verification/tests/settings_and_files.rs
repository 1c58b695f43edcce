use opendeck_m3::config::{background_choice, default_brightness, default_keepalive_interval_secs, default_profile_retry_interval_ms, default_profile_retry_window_ms, default_settings_refresh_interval_ms, BackgroundChoice, PluginConfig};
use opendeck_m3::image_util::{background_image_format, decode_image_data_url, encode_plan, format_for_subtype, jpeg_quality, key_image_format, rotated_dimensions, ImageDecodeError, ImageFileFormat, ImageRotation};
use opendeck_m3::keyed_map::KeyedMap;
use opendeck_m3::paths::{config_path, hidraw_path_from_uevent, join_path, libtransport_candidates, opendeck_config_dir, select_libtransport, plugin_dir, profile_path, profile_store_dir, selected_profile_path};
use opendeck_m3::profile::{detect_profile_change, list, profile_watch_goes_on, selected_profile_change, strip_json_suffix, str_lt, ProfileTracker};
use opendeck_m3::settings::{background_payload_size, encode_file_as_data_url, refresh_due, refresh_map, refresh_slot, show, store_decoded, store_decoded_for};

#[test]
fn defaults_match_documented_fallbacks() {
    assert_eq!(default_keepalive_interval_secs(), 10);
    assert_eq!(default_brightness(), 100);
    assert_eq!(default_profile_retry_window_ms(), 500);
    assert_eq!(default_profile_retry_interval_ms(), 50);
    assert_eq!(default_settings_refresh_interval_ms(), 500);
    let c = PluginConfig::default();
    assert_eq!(c.keepalive_interval(), 10);
    assert_eq!(c.profile_retry_window(), 500);
    assert_eq!(c.profile_retry_interval(), 50);
    assert_eq!(c.settings_refresh_interval(), 500);
    assert!(c.base_background.is_none());
    assert!(c.profile_backgrounds.to_vec().is_empty());
}

#[test]
fn profile_background_overrides_base() {
    let mut c = PluginConfig::default();
    assert_eq!(c.background_for_profile("Work"), None);
    c.set_base("base".to_string());
    assert_eq!(c.background_for_profile("Work"), Some("base".to_string()));
    c.set_profile("Work".to_string(), "w1".to_string());
    c.set_profile("Work".to_string(), "w2".to_string());
    c.set_profile("Play".to_string(), "p".to_string());
    assert_eq!(c.background_for_profile("Work"), Some("w2".to_string()));
    assert_eq!(c.background_for_profile("Other"), Some("base".to_string()));
    assert!(c.profile_backgrounds.contains_key("Play"));
    c.clear_profile("Work");
    assert_eq!(c.background_for_profile("Work"), Some("base".to_string()));
    assert_eq!(c.background_for_profile("Play"), Some("p".to_string()));
    c.clear_base();
    assert_eq!(c.background_for_profile("Work"), None);
    assert_eq!(c.profile_backgrounds.to_vec(), vec![("Play".to_string(), "p".to_string())]);
}

#[test]
fn empty_background_clears_the_layer() {
    assert_eq!(background_choice(None), BackgroundChoice::Clear);
    assert_eq!(background_choice(Some(String::new())), BackgroundChoice::Clear);
    assert_eq!(background_choice(Some("data:x".to_string())), BackgroundChoice::Apply("data:x".to_string()));
}

#[test]
fn keyed_map_take_hands_back_values() {
    let mut m: KeyedMap<u8> = KeyedMap::new();
    m.insert("a".to_string(), 1);
    m.insert("b".to_string(), 2);
    assert_eq!(m.take("a"), Some(1));
    assert_eq!(m.take("a"), None);
    assert_eq!(m.get("b"), Some(&2));
    m.remove("b");
    assert_eq!(m.get("b"), None);
}

#[test]
fn profile_tracker_reads_back_switches() {
    let mut t = ProfileTracker::new();
    assert_eq!(t.current(Some("  Stored \n".to_string())), Some("Stored".to_string()));
    assert_eq!(t.current(None), None);
    assert_eq!(t.set("M3-1".to_string(), "Default".to_string()), None);
    assert_eq!(t.set("M3-1".to_string(), "Games".to_string()), Some("Default".to_string()));
    assert_eq!(t.get("M3-1"), Some("Games".to_string()));
    assert_eq!(t.get("M3-2"), None);
    assert_eq!(t.current(Some("Stored".to_string())), Some("Games".to_string()));
}

#[test]
fn profile_change_detection() {
    let s = |x: &str| Some(x.to_string());
    assert_eq!(detect_profile_change(s("A"), s("A")), None);
    assert_eq!(detect_profile_change(s("B"), s("A")), s("B"));
    assert_eq!(detect_profile_change(s("B"), None), s("B"));
    assert_eq!(detect_profile_change(None, s("A")), None);
}

#[test]
fn profile_names_are_sorted_case_insensitively() {
    let names: Vec<String> = ["b.json", "A.json", "readme.txt", "a.json", "C.JSON", ".json", "Zed.json"].iter().map(|s| s.to_string()).collect();
    assert_eq!(list(&names), vec!["", "A", "a", "b", "Zed"]);
    assert_eq!(strip_json_suffix("x.json"), Some("x".to_string()));
    assert_eq!(strip_json_suffix("json"), None);
    assert!(str_lt("a", "b") && str_lt("ab", "abc") && !str_lt("b", "a") && !str_lt("a", "a"));
    assert!(str_lt("Z", "a"));
}

#[test]
fn paths_join_like_unix_paths() {
    assert_eq!(join_path("/a", "b"), "/a/b");
    assert_eq!(join_path("/a/", "b"), "/a/b");
    assert_eq!(join_path("", "b"), "b");
    assert_eq!(join_path("/a", "/abs"), "/abs");
    assert_eq!(config_path("/p"), "/p/settings.json");
    assert_eq!(profile_path("/p"), "/p/active_profile");
    assert_eq!(opendeck_config_dir("/home/u/.config"), "/home/u/.config/opendeck");
    assert_eq!(profile_store_dir("/c/opendeck", "M3-1"), "/c/opendeck/profiles/M3-1");
    assert_eq!(selected_profile_path("/c/opendeck", "M3-1"), "/c/opendeck/profiles/M3-1.json");
    assert_eq!(plugin_dir(None, Some("/exe".to_string()), "/build".to_string()), "/exe");
    assert_eq!(plugin_dir(Some("/cwd".to_string()), Some("/exe".to_string()), "/build".to_string()), "/cwd");
    assert_eq!(plugin_dir(None, None, "/build".to_string()), "/build");
    assert_eq!(
        libtransport_candidates(None, Some("/bin".to_string()), "/src", "/plug"),
        vec!["/bin/libtransport.so", "/src/libtransport.so", "/plug/libtransport.so"]
    );
    assert_eq!(libtransport_candidates(Some("/x.so".to_string()), None, "/src", "/plug")[0], "/x.so");
}

#[test]
fn the_first_existing_library_is_used() {
    let c = libtransport_candidates(Some("/x.so".to_string()), Some("/bin".to_string()), "/src", "/plug");
    assert_eq!(select_libtransport(&c, &vec![false, true, true, false]), Some(1));
    assert_eq!(select_libtransport(&c, &vec![true, true, true, true]), Some(0));
    assert_eq!(select_libtransport(&c, &vec![false, false, false, true]), Some(3));
    assert_eq!(select_libtransport(&c, &vec![false, false, false, false]), None);
}

#[test]
fn uevent_names_the_hidraw_node() {
    assert_eq!(hidraw_path_from_uevent("MAJOR=241\nMINOR=3\nDEVNAME=hidraw3\n"), Some("/dev/hidraw3".to_string()));
    assert_eq!(hidraw_path_from_uevent("DEVNAME=\nDEVNAME=hidraw1"), Some("/dev/hidraw1".to_string()));
    assert_eq!(hidraw_path_from_uevent("DEVNAME=hidraw2\r\nX=1"), Some("/dev/hidraw2".to_string()));
    assert_eq!(hidraw_path_from_uevent("MAJOR=241\n"), None);
    assert_eq!(hidraw_path_from_uevent(""), None);
}

#[test]
fn image_formats_and_quality() {
    assert_eq!(rotated_dimensions((854, 480), ImageRotation::Rot270), (480, 854));
    assert_eq!(rotated_dimensions((96, 96), ImageRotation::Rot90), (96, 96));
    assert_eq!(rotated_dimensions(rotated_dimensions((854, 480), ImageRotation::Rot270), ImageRotation::Rot90), (854, 480));
    assert_eq!(jpeg_quality(96, 96), 90);
    assert_eq!(jpeg_quality(96, 95), 70);
    assert_eq!(encode_plan(key_image_format()).quality, 90);
    let bg = encode_plan(background_image_format());
    assert_eq!((bg.resize, bg.quality), ((854, 480), 70));
    assert_eq!(format_for_subtype("jpg"), Some(ImageFileFormat::Jpeg));
    assert_eq!(format_for_subtype("gif"), None);
}

#[test]
fn data_urls_unpack_into_images() {
    let ok = decode_image_data_url("data:image/png;base64,aGk=").unwrap();
    assert_eq!((ok.format, ok.bytes), (ImageFileFormat::Png, b"hi".to_vec()));
    let ok = decode_image_data_url("data:image/jpeg;base64,aGk=").unwrap();
    assert_eq!(ok.format, ImageFileFormat::Jpeg);
    assert_eq!(decode_image_data_url("not a data url").err(), Some(ImageDecodeError::ParseFailed));
    assert_eq!(decode_image_data_url("data:image/png;base64,a").err(), Some(ImageDecodeError::DecodeFailed));
    assert_eq!(decode_image_data_url("data:image/gif;base64,aGk=").err(), Some(ImageDecodeError::UnsupportedMime("image/gif".to_string())));
    assert_eq!(
        decode_image_data_url("data:image/webp;charset=x;base64,aGk=").err(),
        Some(ImageDecodeError::UnsupportedMime("image/webp;charset=x".to_string()))
    );
}

#[test]
fn decode_errors_read_as_messages() {
    assert_eq!(ImageDecodeError::ParseFailed.message(), "failed to parse data URL");
    assert_eq!(ImageDecodeError::DecodeFailed.message(), "failed to decode data URL");
    assert_eq!(ImageDecodeError::UnsupportedMime("image/gif".to_string()).message(), "unsupported image mime type: image/gif");
    let e = decode_image_data_url("data:image/gif;base64,aGk=").err().unwrap();
    assert_eq!(e.message(), "unsupported image mime type: image/gif");
}

#[test]
fn picked_files_become_data_urls() {
    assert_eq!(encode_file_as_data_url("/tmp/bg.png", b"hi"), "data:image/png;base64,aGk=");
    assert_eq!(encode_file_as_data_url("/tmp/bg.jpg", b"hi!"), "data:image/jpeg;base64,aGkh");
    assert_eq!(encode_file_as_data_url("/tmp/noext", b""), "data:image/jpeg;base64,");
    assert_eq!(encode_file_as_data_url("/tmp/a.png", b"Man"), "data:image/png;base64,TWFu");
    assert_eq!(encode_file_as_data_url("/tmp/a.png", &[0xff, 0xfe, 0x3e, 0x3f]), "data:image/png;base64,//4+Pw==");
}

#[test]
fn stored_profile_names_lose_unicode_whitespace_at_both_ends() {
    let mut t = ProfileTracker::new();
    assert_eq!(t.current(Some("\u{3000}\tGames\u{a0}\u{2029}".to_string())), Some("Games".to_string()));
    assert_eq!(t.current(Some(" a b ".to_string())), Some("a b".to_string()));
}

#[test]
fn settings_window_decisions() {
    assert!(show(false));
    assert!(!show(true));
    assert!(!refresh_due(499, 500));
    assert!(refresh_due(500, 500));
    let url = "u1".to_string();
    let mut loaded: Option<(String, u8)> = Some(("u1".to_string(), 1));
    let mut pending: Option<(String, u8)> = None;
    assert_eq!(refresh_slot(Some(&url), &mut loaded, &mut pending), None);
    assert!(loaded.is_some());
    let url2 = "u2".to_string();
    assert_eq!(refresh_slot(Some(&url2), &mut loaded, &mut pending), Some("u2".to_string()));
    assert!(loaded.is_none() && pending.is_none());
    pending = Some(("u2".to_string(), 2));
    assert_eq!(refresh_slot(Some(&url2), &mut loaded, &mut pending), None);
    assert_eq!(refresh_slot(None, &mut loaded, &mut pending), None);
    assert!(loaded.is_none() && pending.is_none());
}

#[test]
fn refresh_map_updates_each_named_slot() {
    let names = vec!["Games".to_string(), "Work".to_string(), "Music".to_string(), "Empty".to_string()];
    let mut urls: KeyedMap<String> = KeyedMap::new();
    urls.insert("Games".to_string(), "u1".to_string());
    urls.insert("Work".to_string(), "u2".to_string());
    urls.insert("Music".to_string(), "u3".to_string());
    let mut loaded: KeyedMap<(String, u8)> = KeyedMap::new();
    loaded.insert("Games".to_string(), ("u1".to_string(), 1));
    loaded.insert("Work".to_string(), ("old".to_string(), 2));
    loaded.insert("Empty".to_string(), ("gone".to_string(), 3));
    loaded.insert("Other".to_string(), ("kept".to_string(), 4));
    let mut pending: KeyedMap<(String, u8)> = KeyedMap::new();
    pending.insert("Music".to_string(), ("u3".to_string(), 5));
    pending.insert("Empty".to_string(), ("gone".to_string(), 6));

    let to_decode = refresh_map(&names, &urls, &mut loaded, &mut pending);
    assert_eq!(to_decode, vec![("Work".to_string(), "u2".to_string())]);
    assert_eq!(loaded.get("Games"), Some(&("u1".to_string(), 1)));
    assert_eq!(loaded.get("Work"), None);
    assert_eq!(loaded.get("Empty"), None);
    assert_eq!(loaded.get("Other"), Some(&("kept".to_string(), 4)));
    assert_eq!(pending.get("Music"), Some(&("u3".to_string(), 5)));
    assert_eq!(pending.get("Empty"), None);

    let mut all = loaded.into_vec();
    all.sort();
    assert_eq!(all, vec![("Games".to_string(), ("u1".to_string(), 1)), ("Other".to_string(), ("kept".to_string(), 4))]);
}

#[test]
fn background_size_counts_the_bytes_after_the_last_comma() {
    assert_eq!(background_payload_size("data:image/png;base64,aGk="), 4);
    assert_eq!(background_payload_size("a,b,cde"), 3);
    assert_eq!(background_payload_size("abc"), 3);
    assert_eq!(background_payload_size("abc,"), 0);
    assert_eq!(background_payload_size(""), 0);
    assert_eq!(background_payload_size("x,\u{e9}"), 2);
}

#[test]
fn selection_file_names_the_new_profile() {
    let text = Some(r#"{"selected_profile": "Games", "other": 1}"#.to_string());
    assert_eq!(selected_profile_change(text.clone(), None), Some("Games".to_string()));
    assert_eq!(selected_profile_change(text.clone(), Some("Default".to_string())), Some("Games".to_string()));
    assert_eq!(selected_profile_change(text, Some("Games".to_string())), None);
    assert_eq!(selected_profile_change(None, None), None);
    assert_eq!(selected_profile_change(Some("not json".to_string()), None), None);
    assert_eq!(selected_profile_change(Some(r#"{"selected_profile": 3}"#.to_string()), None), None);
    assert_eq!(selected_profile_change(Some(r#"{"profile": "Games"}"#.to_string()), None), None);
    assert_eq!(selected_profile_change(Some(r#"["selected_profile"]"#.to_string()), None), None);
}

#[test]
fn profile_watch_stops_on_change_or_after_the_window() {
    assert!(profile_watch_goes_on(false, 0, 500));
    assert!(profile_watch_goes_on(false, 499, 500));
    assert!(!profile_watch_goes_on(false, 500, 500));
    assert!(!profile_watch_goes_on(true, 0, 500));
    assert!(!profile_watch_goes_on(false, 0, 0));
}

#[test]
fn decoded_thumbnails_are_kept_and_failures_change_nothing() {
    let mut slot: Option<(String, u8)> = Some(("old".to_string(), 1));
    store_decoded(&mut slot, "new".to_string(), None);
    assert_eq!(slot, Some(("old".to_string(), 1)));
    store_decoded(&mut slot, "new".to_string(), Some(2));
    assert_eq!(slot, Some(("new".to_string(), 2)));

    let mut loaded: Option<(String, u8)> = None;
    assert_eq!(refresh_slot(Some(&"new".to_string()), &mut loaded, &mut slot), None);

    let mut pending: KeyedMap<(String, u8)> = KeyedMap::new();
    store_decoded_for(&mut pending, "Games".to_string(), "u1".to_string(), None);
    assert_eq!(pending.get("Games"), None);
    store_decoded_for(&mut pending, "Games".to_string(), "u1".to_string(), Some(9));
    assert_eq!(pending.get("Games"), Some(&("u1".to_string(), 9)));
}
