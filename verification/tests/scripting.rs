use madalya::filter::{ChipState, Filters, filter_choices, game_selected, tag_chip, visible_indices};
use madalya::model::{AudioTrack, Clip, ClipProbe, VOLUME_ONE};
use madalya::script::{ClipInput, MixItem, ScriptValue, TrackChoice, input_fields, interpret, interpret_mix};

fn clip(path: &str, title: Option<&str>, game: Option<&str>, stags: &[&str], mtags: &[&str], mtime: i64) -> Clip {
    Clip {
        path: path.to_string(),
        mtime,
        size: 1,
        probe: ClipProbe::default(),
        favorite: false,
        thumb_path: None,
        title: title.map(str::to_string),
        game: game.map(str::to_string),
        mark_start: None,
        mark_end: None,
        stags: stags.iter().map(|s| s.to_string()).collect(),
        mtags: mtags.iter().map(|s| s.to_string()).collect(),
        meta: vec![],
        track_state: vec![],
        default_tracks: vec![],
        added_at: 0,
    }
}

fn text(t: &str) -> ScriptValue {
    ScriptValue { text: t.to_string(), items: None }
}

#[test]
fn metadata_script_result_is_read() {
    let out = vec![
        ("title".to_string(), text("foo bar")),
        ("kind".to_string(), text("video")),
        (
            "tags".to_string(),
            ScriptValue { text: "[a, b]".into(), items: Some(vec!["a".into(), "b".into()]) },
        ),
        ("game".to_string(), text("  ")),
    ];
    let r = interpret(&out);
    assert_eq!(
        r.meta,
        vec![("title".to_string(), "foo bar".to_string()), ("kind".to_string(), "video".to_string())]
    );
    assert_eq!(r.tags, vec!["a".to_string(), "b".to_string()]);
    assert_eq!(r.game, None);
    let with_game = interpret(&vec![("game".to_string(), text("Dota 2"))]);
    assert_eq!(with_game.game.as_deref(), Some("Dota 2"));
    assert!(with_game.meta.is_empty());
}

#[test]
fn mix_script_result_is_read() {
    let half = 0.5f64.to_bits();
    let items = vec![
        MixItem { track: Some(1), volume_bits: Some(half) },
        MixItem { track: None, volume_bits: Some(half) },
        MixItem { track: Some(0), volume_bits: None },
    ];
    assert_eq!(
        interpret_mix(&items),
        vec![TrackChoice { idx: 1, volume_bits: half }, TrackChoice { idx: 0, volume_bits: VOLUME_ONE }]
    );
}

#[test]
fn script_input_fields() {
    let probe = ClipProbe {
        duration_ms: 5000,
        width: 1920,
        height: 1080,
        vcodec: "H.264".into(),
        tracks: vec![
            AudioTrack { idx: 0, label: "Game".into(), language: None },
            AudioTrack { idx: 1, label: "Track 2".into(), language: Some("en".into()) },
        ],
        container_tags: vec![("title".into(), "x".into())],
    };
    let f = input_fields(&ClipInput { path: "/x/foo bar.mp4", mtime: 7, size: 9, probe: &probe });
    assert_eq!(f.path, "/x/foo bar.mp4");
    assert_eq!(f.filename, "foo bar.mp4");
    assert_eq!(f.stem, "foo bar");
    assert_eq!(f.ext, "mp4");
    assert_eq!(f.dir, "/x");
    assert_eq!(f.width, 1920);
    assert_eq!(f.audio_tracks, vec!["Game".to_string(), "Track 2".to_string()]);
    assert_eq!(f.container_tags.len(), 1);
}

#[test]
fn filters_match_title_game_tags_and_dates() {
    let c = clip("/c/Funny Moment.mp4", None, Some("Dota 2"), &["clip"], &["funny"], 100);
    let mut f = Filters::default();
    assert!(!f.is_active());
    assert!(f.matches(&c));
    f.set_query("  moment ");
    assert!(f.is_active());
    assert!(f.matches(&c));
    f.set_query("boring");
    assert!(!f.matches(&c));
    f.set_query("");
    f.toggle_game("Dota 2");
    assert!(f.matches(&c));
    f.toggle_game("Celeste");
    assert!(!f.matches(&c));
    f.toggle_game("Celeste");
    assert_eq!(f.game, None);
    f.cycle_tag("funny");
    assert!(f.matches(&c));
    f.cycle_tag("funny");
    assert!(!f.matches(&c), "excluded tag");
    f.cycle_tag("funny");
    assert!(f.require.is_empty() && f.exclude.is_empty());
    f.set_dates(Some(50), Some(99));
    assert!(!f.matches(&c));
    f.set_dates(Some(50), Some(100));
    assert!(f.matches(&c));
}

#[test]
fn filter_panel_choices() {
    let clips = vec![
        clip("/c/a.mp4", None, Some("Dota 2"), &["b", "a"], &["z"], 1),
        clip("/c/b.mp4", None, Some(""), &["a"], &[], 2),
        clip("/c/c.mp4", None, Some("Celeste"), &[], &["b"], 3),
    ];
    let (tags, games) = filter_choices(&clips);
    assert_eq!(tags, vec!["a", "b", "z"]);
    assert_eq!(games, vec!["Celeste", "Dota 2"]);
    let mut f = Filters::default();
    f.cycle_tag("a");
    f.cycle_tag("b");
    f.cycle_tag("b");
    assert_eq!(tag_chip(&f, "a"), ChipState::Required);
    assert_eq!(tag_chip(&f, "b"), ChipState::Excluded);
    assert_eq!(tag_chip(&f, "z"), ChipState::Plain);
    f.toggle_game("Celeste");
    assert!(game_selected(&f, "Celeste"));
    assert!(!game_selected(&f, "Dota 2"));
    assert_eq!(visible_indices(&clips, &f), Vec::<usize>::new());
    let all = Filters::default();
    assert_eq!(visible_indices(&clips, &all), vec![0, 1, 2]);
    let mut only_a = Filters::default();
    only_a.cycle_tag("a");
    assert_eq!(visible_indices(&clips, &only_a), vec![0, 1]);
}

#[test]
fn an_inactive_filter_lets_every_clip_through() {
    let blank = Filters { query: "   ".to_string(), ..Filters::default() };
    assert!(!blank.is_active());
    assert!(!Filters::default().is_active());
    let c = clip("/c/a.mp4", Some("Ace"), Some("Dota 2"), &["x"], &[], 5);
    assert!(blank.matches(&c));
    assert!(Filters::default().matches(&c));
    let untitled = clip("/c/b.mp4", None, None, &[], &[], 0);
    assert!(blank.matches(&untitled));
}
