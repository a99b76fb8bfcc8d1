use madalya::library::{Library, db_path_in, has_tag, normalize_text, sort_strings, thumbs_dir_in};
use madalya::model::{AudioTrack, Clip, ClipProbe, TrackState, VOLUME_ONE};
use madalya::scan::{
    assemble_clip, combined_script_hash, default_tracks, is_video, mix_states, plan_scan,
    script_changed,
};
use madalya::script::{ScriptResult, TrackChoice};
use madalya::store::merge_upsert;

fn sample() -> Clip {
    Clip {
        path: "/clips/a.mkv".to_string(),
        mtime: 100,
        size: 2048,
        probe: ClipProbe {
            duration_ms: 5000,
            width: 1280,
            height: 720,
            vcodec: "H.264".into(),
            tracks: vec![
                AudioTrack { idx: 0, label: "Game".into(), language: None },
                AudioTrack { idx: 1, label: "Track 2".into(), language: None },
            ],
            container_tags: vec![],
        },
        favorite: false,
        thumb_path: Some("/thumbs/a.jpg".to_string()),
        title: Some("A".into()),
        game: Some("Dota 2".into()),
        mark_start: None,
        mark_end: None,
        stags: vec!["clip".into()],
        mtags: vec![],
        meta: vec![("kind".into(), "video".into())],
        track_state: vec![],
        default_tracks: vec![],
        added_at: 1,
    }
}

fn clip_at(path: &str, mtime: i64) -> Clip {
    let mut c = sample();
    c.path = path.to_string();
    c.mtime = mtime;
    c
}

#[test]
fn only_video_extensions() {
    assert!(is_video("x.MKV"));
    assert!(is_video("x.mp4"));
    assert!(!is_video("x.txt"));
    assert!(!is_video("x"));
}

#[test]
fn every_listed_video_extension_is_recognised() {
    for e in ["mp4", "mkv", "mov", "webm", "avi", "m4v", "flv", "wmv", "ts", "mpg", "mpeg"] {
        assert!(is_video(&format!("/d/clip.{e}")), "{e}");
    }
    assert!(is_video("/d/clip.MpEg"));
    assert!(!is_video("/d/clip.mp3"));
    assert!(!is_video("/d/.mkv"));
}

#[test]
fn plan_scan_diffs_disk_against_store() {
    let disk = vec![
        ("/c/a.mp4".to_string(), (10, 1)),
        ("/c/b.mp4".to_string(), (20, 2)),
        ("/c/new.mp4".to_string(), (30, 3)),
    ];
    let existing = vec![
        ("/c/a.mp4".to_string(), (10, 1)),
        ("/c/b.mp4".to_string(), (21, 2)),
        ("/c/gone.mp4".to_string(), (5, 5)),
    ];
    let plan = plan_scan(&disk, &existing, false);
    assert_eq!(plan.removed, vec!["/c/gone.mp4".to_string()]);
    let todo: Vec<&str> = plan.todo.iter().map(|(p, _)| p.as_str()).collect();
    assert_eq!(todo, vec!["/c/b.mp4", "/c/new.mp4"]);

    let forced = plan_scan(&disk, &existing, true);
    assert_eq!(forced.todo.len(), 3);
    assert_eq!(forced.removed, vec!["/c/gone.mp4".to_string()]);
}

#[test]
fn unchanged_library_needs_no_work() {
    let disk = vec![("/c/a.mp4".to_string(), (10, 1))];
    let plan = plan_scan(&disk, &disk.clone(), false);
    assert!(plan.todo.is_empty());
    assert!(plan.removed.is_empty());
}

#[test]
fn script_change_detection() {
    assert!(script_changed(None, "none-none"));
    assert!(script_changed(Some("abc-none"), "abd-none"));
    assert!(!script_changed(Some("abc-none"), "abc-none"));
    assert_eq!(combined_script_hash("abc", "none"), "abc-none");
}

#[test]
fn default_tracks_follow_the_mix_script() {
    let tracks = sample().probe.tracks;
    let first_only = default_tracks(&tracks, None);
    assert_eq!(
        first_only,
        vec![
            TrackState { idx: 0, volume_bits: VOLUME_ONE, muted: false },
            TrackState { idx: 1, volume_bits: VOLUME_ONE, muted: true },
        ]
    );
    let half = 0.5f64.to_bits();
    let chosen = default_tracks(&tracks, Some(vec![TrackChoice { idx: 1, volume_bits: half }]));
    assert_eq!(chosen[0].idx, 0);
    assert!(chosen[0].muted);
    assert_eq!(chosen[1], TrackState { idx: 1, volume_bits: half, muted: false });
}

#[test]
fn mix_states_use_stored_mixer_state() {
    let mut c = sample();
    c.track_state = vec![TrackState { idx: 1, volume_bits: 0.4f64.to_bits(), muted: true }];
    let st = mix_states(&c);
    assert_eq!(st[0], TrackState::default_for(0));
    assert_eq!(st[1], TrackState { idx: 1, volume_bits: 0.4f64.to_bits(), muted: true });
}

#[test]
fn assembled_clip_has_no_user_state() {
    let probe = sample().probe;
    let script = ScriptResult {
        game: Some("Celeste".into()),
        meta: vec![("kind".into(), "video".into())],
        tags: vec!["x".into()],
    };
    let c = assemble_clip("/c/a.mp4", 7, 9, probe, None, Some(script), None, 42);
    assert_eq!(c.path, "/c/a.mp4");
    assert!(!c.favorite);
    assert_eq!(c.title, None);
    assert_eq!(c.game.as_deref(), Some("Celeste"));
    assert_eq!(c.stags, vec!["x".to_string()]);
    assert!(c.mtags.is_empty());
    assert_eq!(c.added_at, 42);
    assert_eq!(c.default_tracks.len(), 2);
    let bare = assemble_clip("/c/a.mp4", 7, 9, ClipProbe::default(), None, None, None, 42);
    assert!(bare.default_tracks.is_empty());
    assert!(bare.meta.is_empty());
}

#[test]
fn effective_title_falls_back_to_stem() {
    let mut c = sample();
    assert_eq!(c.title(), "A");
    assert_eq!(c.title_raw(), Some("A"));
    c.title = None;
    assert_eq!(c.title(), "a");
    assert_eq!(c.title_raw(), None);
    c.title = Some(String::new());
    assert_eq!(c.title(), "a");
    c.game = Some(String::new());
    assert_eq!(c.game(), None);
}

#[test]
fn marks_need_start_before_end() {
    let mut c = sample();
    assert_eq!(c.marks(), None);
    c.mark_start = Some(1000);
    assert_eq!(c.marks(), None);
    c.mark_end = Some(4000);
    assert_eq!(c.marks(), Some((1000, 4000)));
    c.mark_end = Some(1000);
    assert_eq!(c.marks(), None);
}

#[test]
fn library_keeps_newest_first() {
    let mut lib = Library::new(vec![]);
    lib.apply_upserted(clip_at("/c/b.mkv", 100));
    lib.apply_upserted(clip_at("/c/a.mkv", 100));
    lib.apply_upserted(clip_at("/c/z.mkv", 300));
    let order: Vec<&str> = lib.clips().iter().map(|c| c.path.as_str()).collect();
    assert_eq!(order, vec!["/c/z.mkv", "/c/a.mkv", "/c/b.mkv"]);
    lib.apply_upserted(clip_at("/c/a.mkv", 50));
    let order: Vec<&str> = lib.clips().iter().map(|c| c.path.as_str()).collect();
    assert_eq!(order, vec!["/c/z.mkv", "/c/b.mkv", "/c/a.mkv"]);
    lib.apply_removed("/c/b.mkv");
    assert_eq!(lib.clips().len(), 2);
    assert!(lib.clips().iter().all(|c| c.path != "/c/b.mkv"));
}

#[test]
fn library_edits_apply_to_the_clip() {
    let mut lib = Library::new(vec![sample()]);
    assert!(lib.set_favorite("/clips/a.mkv", true));
    assert!(lib.clip(0).unwrap().favorite);
    assert!(!lib.set_favorite("/clips/missing.mkv", true));
    assert!(lib.set_title("/clips/a.mkv", Some("  My Clip  ")));
    assert_eq!(lib.clip(0).unwrap().title.as_deref(), Some("My Clip"));
    assert!(lib.set_title("/clips/a.mkv", Some("   ")));
    assert_eq!(lib.clip(0).unwrap().title, None);
    assert!(lib.set_game("/clips/a.mkv", None));
    assert_eq!(lib.clip(0).unwrap().game, None);
    assert!(lib.add_tag("/clips/a.mkv", "zeta"));
    assert!(lib.add_tag("/clips/a.mkv", "alpha"));
    assert!(!lib.add_tag("/clips/a.mkv", "alpha"));
    assert_eq!(lib.clip(0).unwrap().mtags, vec!["alpha".to_string(), "zeta".to_string()]);
    assert!(lib.remove_tag("/clips/a.mkv", "alpha"));
    assert_eq!(lib.clip(0).unwrap().mtags, vec!["zeta".to_string()]);
    assert!(lib.set_marks("/clips/a.mkv", Some(1), Some(2)));
    assert_eq!(lib.clip(0).unwrap().marks(), Some((1, 2)));
    let st = TrackState { idx: 1, volume_bits: 0.4f64.to_bits(), muted: true };
    assert!(lib.set_track_state("/clips/a.mkv", st));
    assert!(lib.set_track_state("/clips/a.mkv", TrackState { muted: false, ..st }));
    assert_eq!(lib.clip(0).unwrap().track_state.len(), 1);
    assert!(!lib.clip(0).unwrap().state_for(1).muted);
    assert!(!lib.scanning());
    lib.set_scanning(true);
    assert!(lib.scanning());
    assert!(lib.clip(5).is_none());
}

#[test]
fn text_fields_are_trimmed() {
    assert_eq!(normalize_text(Some("  x ")).as_deref(), Some("x"));
    assert_eq!(normalize_text(Some("   ")), None);
    assert_eq!(normalize_text(None), None);
}

#[test]
fn tags_sort_and_search() {
    let s = sort_strings(vec!["b".into(), "a".into(), "B".into(), "a".into()]);
    assert_eq!(s, vec!["B", "a", "a", "b"]);
    assert!(has_tag(&s, "b"));
    assert!(!has_tag(&s, "c"));
}

#[test]
fn data_paths() {
    assert_eq!(db_path_in("/home/u/.local/share"), "/home/u/.local/share/madalya/library.db");
    assert_eq!(thumbs_dir_in("/d/"), "/d/madalya/thumbs");
    if let Some(d) = madalya::library::data_dir() {
        assert!(d.ends_with("/madalya"));
        assert_eq!(madalya::library::db_path().unwrap(), format!("{d}/library.db"));
        assert_eq!(madalya::library::thumbs_dir().unwrap(), format!("{d}/thumbs"));
    }
}

/// The store's record-level behaviour: upserts merge through
/// `merge_upsert`, edits go through the library's setters.
struct MemStore {
    lib: Library,
}

impl MemStore {
    fn new() -> Self {
        MemStore { lib: Library::new(vec![]) }
    }
    fn upsert_clip(&mut self, c: &Clip) {
        let stored = self.load_clip(&c.path);
        let merged = merge_upsert(stored, c.clone());
        self.lib.apply_upserted(merged);
    }
    fn load_clip(&self, path: &str) -> Option<Clip> {
        self.lib.clips().iter().find(|c| c.path == path).cloned()
    }
    fn load_all(&self) -> Vec<Clip> {
        self.lib.clips().to_vec()
    }
    fn fingerprints(&self) -> Vec<(String, (i64, u64))> {
        self.lib.clips().iter().map(|c| (c.path.clone(), (c.mtime, c.size))).collect()
    }
}

#[test]
fn roundtrip_and_fingerprints() {
    let mut s = MemStore::new();
    s.upsert_clip(&sample());
    let clips = s.load_all();
    assert_eq!(clips.len(), 1);
    let c = &clips[0];
    assert_eq!(c.probe.tracks.len(), 2);
    assert_eq!(c.title(), "A");
    assert_eq!(c.game(), Some("Dota 2"));
    assert_eq!(c.stags, vec!["clip".to_string()]);
    assert!(c.mtags.is_empty());

    let fp = s.fingerprints();
    assert_eq!(
        fp.iter().find(|(p, _)| p == "/clips/a.mkv").map(|(_, f)| *f),
        Some((100, 2048))
    );
}

#[test]
fn rescan_preserves_user_state_and_replaces_script_data() {
    let mut s = MemStore::new();
    let path = "/clips/a.mkv";
    s.upsert_clip(&sample());

    // User edits.
    assert!(s.lib.set_favorite(path, true));
    assert!(s.lib.add_tag(path, "funny"));
    assert!(s.lib.set_marks(path, Some(1000), Some(4000)));
    assert!(s.lib.set_track_state(
        path,
        TrackState { idx: 1, volume_bits: 0.4f64.to_bits(), muted: true }
    ));

    // Re-scan produces new script-derived title/tags.
    let mut changed = sample();
    changed.mtime = 200;
    changed.title = Some("A2".into());
    changed.stags = vec!["clip2".into()];
    s.upsert_clip(&changed);

    let c = &s.load_all()[0];
    assert!(c.favorite, "favorite preserved across rescan");
    assert_eq!(c.marks(), Some((1000, 4000)), "marks preserved across rescan");
    assert!(c.mtags.contains(&"funny".to_string()), "manual tag preserved");
    assert!(c.stags.contains(&"clip2".to_string()), "new script tag applied");
    assert!(!c.stags.contains(&"clip".to_string()), "old script tag replaced");
    assert_eq!(c.title(), "A2", "script title replaced");
    let st = c.state_for(1);
    assert_eq!(f64::from_bits(st.volume_bits), 0.4);
    assert!(st.muted, "mixer state preserved");
}

#[test]
fn rescan_overwrites_title_but_preserves_when_script_empty() {
    let mut s = MemStore::new();
    let path = "/clips/a.mkv";
    s.upsert_clip(&sample());
    let raw = |s: &MemStore| s.load_clip(path).unwrap().title_raw().map(str::to_owned);
    assert_eq!(raw(&s).as_deref(), Some("A"));

    // Script re-run yields no title -> keep the stored value.
    let mut empty = sample();
    empty.title = None;
    s.upsert_clip(&empty);
    assert_eq!(raw(&s).as_deref(), Some("A"), "empty script title preserved");

    // Manual override survives an empty re-run too.
    assert!(s.lib.set_title(path, Some("My Clip")));
    s.upsert_clip(&empty);
    assert_eq!(raw(&s).as_deref(), Some("My Clip"));

    // A non-empty script title always overwrites.
    let mut has_title = sample();
    has_title.title = Some("Scripted".into());
    s.upsert_clip(&has_title);
    assert_eq!(raw(&s).as_deref(), Some("Scripted"));

    // Clearing the manual title falls back to the filename stem.
    assert!(s.lib.set_title(path, None));
    assert_eq!(raw(&s), None);
    assert_eq!(s.load_clip(path).unwrap().title(), "a");
}

#[test]
fn rescan_overwrites_game_but_preserves_when_script_empty() {
    let mut s = MemStore::new();
    let path = "/clips/a.mkv";
    s.upsert_clip(&sample());
    assert_eq!(s.load_clip(path).unwrap().game(), Some("Dota 2"));

    // Script re-run yields no game -> keep the stored value.
    let mut empty = sample();
    empty.game = None;
    s.upsert_clip(&empty);
    assert_eq!(
        s.load_clip(path).unwrap().game(),
        Some("Dota 2"),
        "empty script game preserves stored value"
    );

    // Manual override survives an empty re-run too.
    assert!(s.lib.set_game(path, Some("Celeste")));
    s.upsert_clip(&empty);
    assert_eq!(s.load_clip(path).unwrap().game(), Some("Celeste"));

    // A non-empty script game always overwrites.
    let mut has_game = sample();
    has_game.game = Some("Portal 2".into());
    s.upsert_clip(&has_game);
    assert_eq!(s.load_clip(path).unwrap().game(), Some("Portal 2"));

    // Clearing the manual game.
    assert!(s.lib.set_game(path, None));
    assert_eq!(s.load_clip(path).unwrap().game(), None);
}

#[test]
fn delete_cascades() {
    let mut s = MemStore::new();
    let path = "/clips/a.mkv";
    s.upsert_clip(&sample());
    assert!(s.lib.add_tag(path, "x"));
    s.lib.apply_removed(path);
    assert!(s.load_all().is_empty());
    assert!(s.fingerprints().is_empty());
}

#[test]
fn blank_script_title_does_not_overwrite() {
    let first = merge_upsert(None, sample());
    let mut manual = first;
    manual.title = Some("My Clip".into());
    let mut blank = sample();
    blank.title = Some("   ".into());
    let kept = merge_upsert(Some(manual), blank);
    assert_eq!(kept.title_raw(), Some("My Clip"));
}

#[test]
fn merge_stores_script_tags_once_and_sorted() {
    let mut stored = sample();
    stored.mtags = vec!["funny".into()];
    let mut scanned = sample();
    scanned.stags = vec!["b".into(), "funny".into(), "a".into(), "b".into()];
    let c = merge_upsert(Some(stored), scanned);
    assert_eq!(c.stags, vec!["a".to_string(), "b".to_string()]);
    assert_eq!(c.mtags, vec!["funny".to_string()]);
}

#[test]
fn new_clip_starts_without_user_state() {
    let mut scanned = sample();
    scanned.favorite = true;
    scanned.mtags = vec!["x".into()];
    scanned.mark_start = Some(5);
    let c = merge_upsert(None, scanned);
    assert!(!c.favorite);
    assert!(c.mtags.is_empty());
    assert_eq!(c.mark_start, None);
    assert_eq!(c.meta, vec![("kind".to_string(), "video".to_string())]);
}

#[test]
fn rescan_needs_a_clips_directory_and_a_positive_thumb_size() {
    let lib = Library::new(vec![]);
    assert!(lib.rescan(None, 320, 8, false).is_none());
    let q = lib.rescan(Some("/clips"), 0, 3, true).unwrap();
    assert_eq!(q.clips_dir, "/clips");
    assert_eq!(q.thumb_px, 1);
    assert_eq!(q.max_depth, 3);
    assert!(q.force);
    let q = lib.rescan(Some("/clips"), 320, 8, false).unwrap();
    assert_eq!(q.thumb_px, 320);
    assert!(!q.force);
}

#[test]
fn adding_then_removing_a_tag_restores_the_manual_tags() {
    let mut c = sample();
    c.mtags = vec!["alpha".to_string(), "mid".to_string()];
    c.stags = vec!["script".to_string()];
    let mut lib = Library::new(vec![c]);
    assert!(lib.add_tag("/clips/a.mkv", "new"));
    assert!(lib.remove_tag("/clips/a.mkv", "new"));
    assert_eq!(lib.clips()[0].mtags, vec!["alpha".to_string(), "mid".to_string()]);
    assert!(lib.remove_tag("/clips/a.mkv", "script"));
    assert_eq!(lib.clips()[0].stags, vec!["script".to_string()]);
}

#[test]
fn upserts_keep_paths_distinct() {
    let mut lib = Library::new(vec![]);
    for (p, t) in [("/c/a.mkv", 1), ("/c/b.mkv", 2), ("/c/a.mkv", 3), ("/c/b.mkv", 2)] {
        let mut c = sample();
        c.path = p.to_string();
        c.mtime = t;
        lib.apply_upserted(c);
    }
    let paths: Vec<&str> = lib.clips().iter().map(|c| c.path.as_str()).collect();
    assert_eq!(paths, vec!["/c/a.mkv", "/c/b.mkv"]);
}
