use std::hash::{Hash, Hasher};
use madalya::clock::{fmt_duration, fmt_time, now_secs, stamp};
use madalya::config::{
    Config, ConfigLoad, ConfigRead, ConfigStatus, ExampleChoice, General, PathKind,
    backup_file_name, backup_path_for, config_path_in, load_step, missing_path_message,
    path_setting, reload_applies,
};
use madalya::fingerprint::{
    ScriptSource, cache_path, fingerprint_hash, hex_string, mix_cache_name, script_fingerprint,
    thumb_file_name,
};
use madalya::logs::{LogFile, MAX_LOG_DIR_BYTES, PrunePlan, is_log_name, log_dir_in, log_file_name};
use madalya::media::{audio_track, bgra_to_rgb, pack_rows, stream_state, thumbnail_rgb};
use madalya::model::TrackState;
use madalya::steam::{LookupAction, LookupEvent, app_id_key, app_name_from_answer, details_url, lookup_step};

#[test]
fn clock_formatting() {
    assert_eq!(fmt_time(0), "0:00");
    assert_eq!(fmt_time(65_000), "1:05");
    assert_eq!(fmt_time(3_723_999), "1:02:03");
    assert_eq!(fmt_time(599_999), "9:59");
    assert_eq!(fmt_duration(36_000_000), "10:00:00");
}

#[test]
fn stamps() {
    assert_eq!(stamp(Some(1_700_000_000)), 1_700_000_000);
    assert_eq!(stamp(None), 0);
    assert!(now_secs() > 1_600_000_000);
}

#[test]
fn hex_fingerprints() {
    assert_eq!(hex_string(255), "00000000000000ff");
    assert_eq!(hex_string(u64::MAX), "ffffffffffffffff");
    let f = fingerprint_hash("/c/a.mp4", 10);
    assert_eq!(f.len(), 16);
    assert!(f.chars().all(|c| c.is_ascii_hexdigit() && !c.is_ascii_uppercase()));
    assert_eq!(f, fingerprint_hash("/c/a.mp4", 10));
    assert_ne!(f, fingerprint_hash("/c/a.mp4", 11));
    assert_ne!(f, fingerprint_hash("/c/b.mp4", 10));
    assert_eq!(thumb_file_name("/c/a.mp4", 10), format!("{f}.jpg"));
}

#[test]
fn mix_cache_names_follow_the_mixer() {
    let a = vec![TrackState::default_for(0)];
    let b = vec![TrackState { muted: true, ..TrackState::default_for(0) }];
    let na = mix_cache_name("/c/a.mp4", 1, &a);
    assert!(na.ends_with(".flac"));
    assert_ne!(na, mix_cache_name("/c/a.mp4", 1, &b));
    assert_eq!(cache_path("/cache", "/c/a.mp4", 1, &a), format!("/cache/{na}"));
}

#[test]
fn script_fingerprints() {
    assert_eq!(script_fingerprint(&ScriptSource::Missing), "none");
    assert_eq!(script_fingerprint(&ScriptSource::Unreadable), "unreadable");
    let a = script_fingerprint(&ScriptSource::Bytes(b"let x = 1;".to_vec()));
    let b = script_fingerprint(&ScriptSource::Bytes(b"let x = 2;".to_vec()));
    assert_eq!(a.len(), 16);
    assert_ne!(a, b);
}

#[test]
fn log_names() {
    assert!(is_log_name("madalya-20240101-120000-42.log"));
    assert!(!is_log_name("madalya-notes.txt"));
    assert!(!is_log_name("other-1.log"));
    assert_eq!(log_file_name("20240101-120000", 42), "madalya-20240101-120000-42.log");
    assert!(is_log_name(&log_file_name("x", 1)));
    assert_eq!(log_dir_in("/home/u/.local/state"), "/home/u/.local/state/madalya/logs");
    assert_eq!(MAX_LOG_DIR_BYTES, 100 * 1024 * 1024);
}

fn lf(name: &str, len: u64, mtime: u128) -> LogFile {
    LogFile { name: name.to_string(), len, mtime }
}

#[test]
fn pruning_deletes_oldest_logs_first() {
    let files = vec![
        lf("madalya-c.log", 50, 30),
        lf("notes.txt", 500, 1),
        lf("madalya-a.log", 50, 10),
        lf("madalya-b.log", 50, 20),
    ];
    let mut plan = PrunePlan::new(&files, 100);
    assert_eq!(plan.next_removal(), Some(2));
    plan.removed(50);
    assert_eq!(plan.next_removal(), None, "under the cap after one deletion");

    let mut failing = PrunePlan::new(&files, 100);
    assert_eq!(failing.next_removal(), Some(2));
    assert_eq!(failing.next_removal(), Some(3), "a failed deletion moves on to the next oldest");
    failing.removed(50);
    assert_eq!(failing.next_removal(), None);

    let mut small = PrunePlan::new(&files, 150);
    assert_eq!(small.next_removal(), None);
}

#[test]
fn packing_rows_drops_stride_padding() {
    let data: Vec<u8> = (0u8..24).collect();
    let out = pack_rows(&data, 1, 3, 8);
    assert_eq!(out, vec![0, 1, 2, 3, 8, 9, 10, 11, 16, 17, 18, 19]);
    assert_eq!(pack_rows(&data, 2, 0, 8), Vec::<u8>::new());
}

#[test]
fn bgra_becomes_rgb() {
    let px = [1u8, 2, 3, 255, 4, 5, 6, 255];
    assert_eq!(bgra_to_rgb(&px, 2), vec![3, 2, 1, 6, 5, 4]);
    assert_eq!(bgra_to_rgb(&px, 1), vec![3, 2, 1]);
}

#[test]
fn probed_track_labels() {
    assert_eq!(audio_track(0, Some("Game".into()), Some("en".into())).label, "Game");
    assert_eq!(audio_track(0, Some(String::new()), Some("en".into())).label, "en");
    let t = audio_track(1, None, None);
    assert_eq!(t.label, "Track 2");
    assert_eq!(t.idx, 1);
    assert_eq!(t.language, None);
}

#[test]
fn mix_stream_states() {
    let states = vec![TrackState { idx: 1, volume_bits: 0.25f64.to_bits(), muted: false }];
    assert_eq!(stream_state(&states, 1), states[0]);
    assert_eq!(stream_state(&states, 0), TrackState::default_for(0));
}

#[test]
fn steam_requests() {
    assert_eq!(app_id_key(570), "570");
    assert_eq!(app_id_key(-5), "-5");
    assert_eq!(app_id_key(i64::MIN), i64::MIN.to_string());
    assert_eq!(
        details_url("570"),
        "https://store.steampowered.com/api/appdetails?appids=570&filters=basic"
    );
    let body = r#"{"570":{"success":true,"data":{"name":"Dota 2"}}}"#;
    assert_eq!(app_name_from_answer(body, "570"), Some("Dota 2".to_string()));
    assert_eq!(app_name_from_answer(body, "571"), None);
    assert_eq!(app_name_from_answer("not json", "570"), None);
    assert_eq!(app_name_from_answer(r#"{"570":{"data":{"name":7}}}"#, "570"), None);
}

#[test]
fn settings_defaults_and_paths() {
    let c = Config::default();
    assert_eq!(c.keybinds.bindings.len(), 3);
    assert_eq!(c.general, General::default());
    assert_eq!(c.general.example_number, 42);
    assert_eq!(c.general.example_text, "hello");
    assert_eq!(c.general.example_choice, ExampleChoice::First);
    assert!(!ConfigStatus::default().readonly);
    assert_eq!(ExampleChoice::Second.name(), "Second");
    assert_eq!(ExampleChoice::Third.message(), "Third option");
    assert_eq!(ExampleChoice::from_name("First"), Some(ExampleChoice::First));
    assert_eq!(ExampleChoice::from_name("first"), None);
    assert_eq!(ExampleChoice::all().len(), 3);
    assert_eq!(config_path_in("/home/u/.config"), "/home/u/.config/madalya/config.toml");
    assert_eq!(backup_file_name(17), "non-parsable-17.toml");
    assert_eq!(
        backup_path_for("/home/u/.config/madalya/config.toml", 17),
        "/home/u/.config/madalya/non-parsable-17.toml"
    );
    if let Some(p) = madalya::config::config_path() {
        assert!(p.ends_with("/madalya/config.toml"));
    }
}

#[test]
fn settings_loading_steps() {
    assert_eq!(load_step(ConfigRead::Parsed), ConfigLoad::UseParsed);
    assert_eq!(load_step(ConfigRead::Unparseable), ConfigLoad::BackUpThenDefaults);
    assert_eq!(load_step(ConfigRead::Missing), ConfigLoad::WriteDefaults);
    assert_eq!(load_step(ConfigRead::Unreadable), ConfigLoad::WriteDefaults);
    assert!(reload_applies(ConfigRead::Parsed));
    assert!(!reload_applies(ConfigRead::Unparseable));
    assert_eq!(path_setting("  /clips  "), Some("/clips".into()));
    assert_eq!(path_setting("   "), None);
    assert_eq!(missing_path_message(PathKind::Dir, "/x"), "No such directory: /x");
    assert_eq!(missing_path_message(PathKind::File, "/y.rhai"), "No such file: /y.rhai");
}

#[test]
fn thumbnails_are_scaled_rgb() {
    let one = [1u8, 2, 3, 255];
    assert_eq!(thumbnail_rgb(&one, 1, 1, 1, 1), vec![3, 2, 1]);
    let four: Vec<u8> = [10u8, 20, 30, 255].repeat(4);
    assert_eq!(thumbnail_rgb(&four, 2, 2, 1, 1), vec![30, 20, 10]);
    assert_eq!(thumbnail_rgb(&four, 2, 2, 4, 2).len(), 4 * 2 * 3);
    let big: Vec<u8> = [7u8, 8, 9, 255].repeat(1000 * 1000);
    assert_eq!(thumbnail_rgb(&big, 1000, 1000, 1, 1), vec![9, 8, 7]);
}

#[test]
fn fingerprints_are_the_default_hash_of_what_identifies_the_file() {
    let mut h = std::collections::hash_map::DefaultHasher::new();
    std::path::Path::new("/c/a.mp4").hash(&mut h);
    10i64.hash(&mut h);
    assert_eq!(fingerprint_hash("/c/a.mp4", 10), format!("{:016x}", h.finish()));

    let states = vec![madalya::model::TrackState { idx: 2, volume_bits: 0.5f64.to_bits(), muted: true }];
    let mut h = std::collections::hash_map::DefaultHasher::new();
    std::path::Path::new("/c/a.mp4").hash(&mut h);
    10i64.hash(&mut h);
    2u32.hash(&mut h);
    0.5f64.to_bits().hash(&mut h);
    true.hash(&mut h);
    assert_eq!(mix_cache_name("/c/a.mp4", 10, &states), format!("{:016x}.flac", h.finish()));

    let mut h = std::collections::hash_map::DefaultHasher::new();
    b"let x = 1;".to_vec().hash(&mut h);
    assert_eq!(
        script_fingerprint(&ScriptSource::Bytes(b"let x = 1;".to_vec())),
        format!("{:016x}", h.finish())
    );
}

#[test]
fn steam_title_lookup_steps() {
    let cached = lookup_step("570", LookupEvent::Cached(Some("Dota 2".into())));
    assert!(matches!(cached, LookupAction::Answer(Some(ref n)) if n == "Dota 2"));
    let miss = lookup_step("570", LookupEvent::Cached(None));
    assert!(matches!(miss, LookupAction::Fetch(ref u)
        if u == "https://store.steampowered.com/api/appdetails?appids=570&filters=basic"));
    let body = r#"{"570":{"success":true,"data":{"name":"Dota 2"}}}"#;
    let found = lookup_step("570", LookupEvent::Fetched(Some(body.into())));
    assert!(matches!(found, LookupAction::StoreAndAnswer(ref n) if n == "Dota 2"));
    assert!(matches!(lookup_step("571", LookupEvent::Fetched(Some(body.into()))), LookupAction::Answer(None)));
    assert!(matches!(lookup_step("570", LookupEvent::Fetched(None)), LookupAction::Answer(None)));
}
