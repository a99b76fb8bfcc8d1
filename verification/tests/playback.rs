use madalya::marks::{MarkEditor, Scrub, TimelinePress, effective_duration};
use madalya::model::{AudioTrack, Clip, ClipProbe, TrackState};
use madalya::player::{FrameAction, PlayerOptions, PlayerState, StartPlan};
use madalya::viewer::{
    AudioPrep, PREVIEW_WIDTH, add_manual_tag, file_summary, mark_field_text, mixer_rows, audio_ready_options, highlight_segment, mix_jobs,
    plan_media, preview_options, set_track_enabled, set_track_volume, tag_input, text_edit,
};

fn opts(start: u64, stop: Option<u64>, looping: bool) -> PlayerOptions {
    PlayerOptions { start_ms: start, stop_ms: stop, looping, ..Default::default() }
}

fn clip() -> Clip {
    Clip {
        path: "/clips/a.mkv".to_string(),
        mtime: 100,
        size: 2048,
        probe: ClipProbe {
            duration_ms: 5000,
            width: 1280,
            height: 720,
            vcodec: "H.264".into(),
            tracks: vec![
                AudioTrack { idx: 0, label: "Game".into(), language: None },
                AudioTrack { idx: 1, label: "Voice".into(), language: None },
            ],
            container_tags: vec![],
        },
        favorite: false,
        thumb_path: None,
        title: None,
        game: None,
        mark_start: Some(1000),
        mark_end: Some(4000),
        stags: vec![],
        mtags: vec![],
        meta: vec![],
        track_state: vec![TrackState { idx: 1, volume_bits: 0.5f64.to_bits(), muted: true }],
        default_tracks: vec![],
        added_at: 1,
    }
}

#[test]
fn player_starts_once_the_pipeline_is_ready() {
    let mut p = PlayerState::new(&opts(1000, Some(4000), false), true);
    assert!(p.playing());
    assert_eq!(p.position_ms(), 1000);
    assert_eq!(p.refresh(Some(9000), false), None);
    assert_eq!(p.duration_ms(), 9000);
    assert_eq!(p.refresh(Some(1), true), Some(StartPlan { seek: Some(1000), play: true }));
    assert_eq!(p.duration_ms(), 9000);
    assert_eq!(p.refresh(None, true), None);

    let mut paused = PlayerState::new(&PlayerOptions { start_paused: true, ..Default::default() }, true);
    assert!(!paused.playing());
    assert_eq!(paused.refresh(None, true), Some(StartPlan { seek: None, play: false }));

    let mut resumed =
        PlayerState::new(&PlayerOptions { resume_ms: Some(2500), ..opts(1000, None, false) }, true);
    assert_eq!(resumed.position_ms(), 2500);
    assert_eq!(resumed.refresh(None, true), Some(StartPlan { seek: Some(2500), play: true }));
}

#[test]
fn player_without_pipeline_does_nothing() {
    let mut p = PlayerState::new(&opts(1000, None, false), false);
    assert!(!p.playing());
    assert!(!p.seek_ms(3000));
    assert_eq!(p.position_ms(), 1000);
    assert_eq!(p.refresh(Some(5), true), None);
}

#[test]
fn highlight_end_pauses_playback() {
    let mut p = PlayerState::new(&opts(1000, Some(4000), false), true);
    assert_eq!(p.on_frame(Some(3999)), FrameAction::Nothing);
    assert_eq!(p.position_ms(), 3999);
    assert_eq!(p.on_frame(Some(4040)), FrameAction::Pause);
    assert_eq!(p.position_ms(), 4000);
    p.playing_set(false);
    assert!(!p.playing());
    p.playing_set(true);
    assert_eq!(p.on_frame(Some(4100)), FrameAction::Nothing, "stop released after pausing");
    assert_eq!(p.on_frame(None), FrameAction::Nothing);
}

#[test]
fn looping_preview_jumps_back() {
    let mut p = PlayerState::new(&opts(1000, Some(4000), true), true);
    assert_eq!(p.on_frame(Some(4000)), FrameAction::SeekTo(1000));
    assert_eq!(p.position_ms(), 1000);
    assert_eq!(p.on_eos(), Some(1000));
}

#[test]
fn user_seek_and_replay() {
    let mut p = PlayerState::new(&opts(1000, Some(4000), false), true);
    assert!(p.user_seek(3900));
    assert_eq!(p.on_frame(Some(4500)), FrameAction::Nothing, "watching past the marked end");
    assert!(p.replay());
    assert_eq!(p.position_ms(), 1000);
    assert_eq!(p.on_frame(Some(4500)), FrameAction::Pause);
    p.set_segment(0, None);
    assert!(p.replay());
    assert_eq!(p.position_ms(), 0);
    assert_eq!(p.on_frame(Some(999_999)), FrameAction::Nothing);
}

#[test]
fn end_of_stream_then_toggle_restarts() {
    let mut p = PlayerState::new(&opts(0, None, false), true);
    assert_eq!(p.on_eos(), None);
    assert!(!p.playing());
    assert_eq!(p.toggle_play(), StartPlan { seek: Some(0), play: true });
    assert_eq!(p.position_ms(), 0);
    p.playing_set(true);
    assert_eq!(p.toggle_play(), StartPlan { seek: None, play: false });
}

#[test]
fn timeline_clicks_mark_a_segment() {
    let mut m = MarkEditor::new(None, None);
    m.ctrl_mark(5000);
    assert_eq!((m.start, m.end), (Some(5000), None));
    m.ctrl_mark(2000);
    assert_eq!((m.start, m.end), (Some(2000), Some(5000)));
    m.ctrl_mark(7000);
    assert_eq!((m.start, m.end), (Some(7000), None));
    m.ctrl_mark(9000);
    assert_eq!((m.start, m.end), (Some(7000), Some(9000)));
    assert!(m.next_is_start);
    m.set_mark(false, Some(100));
    assert_eq!((m.start, m.end), (Some(100), Some(7000)));
    m.set_mark(true, None);
    assert_eq!((m.start, m.end), (None, Some(7000)));
    m.clear_marks();
    assert_eq!(m, MarkEditor { start: None, end: None, next_is_start: true });
}

#[test]
fn timeline_helpers() {
    assert_eq!(effective_duration(5000, 7000), 5000);
    assert_eq!(effective_duration(0, 7000), 7000);
    let mut s = Scrub { dragging: true, target: Some(1234) };
    assert_eq!(s.end_scrub(), Some(1234));
    assert_eq!(s, Scrub { dragging: false, target: None });
    assert_eq!(s.end_scrub(), None);
}

#[test]
fn segments_of_marks() {
    assert_eq!(highlight_segment(Some(1000), Some(4000)), (1000, Some(4000)));
    assert_eq!(highlight_segment(Some(4000), Some(1000)), (4000, None));
    assert_eq!(highlight_segment(None, Some(1000)), (0, None));
    assert_eq!(highlight_segment(None, None), (0, None));
}

#[test]
fn preview_players_loop_the_highlight() {
    let c = clip();
    let o = preview_options(Some(&c));
    assert!(o.muted && o.looping);
    assert_eq!(o.preview_width, Some(PREVIEW_WIDTH));
    assert_eq!((o.start_ms, o.stop_ms), (1000, Some(4000)));
    let whole = preview_options(None);
    assert_eq!((whole.start_ms, whole.stop_ms), (0, None));
}

#[test]
fn full_screen_waits_for_the_audio_mix() {
    let c = clip();
    let plan = plan_media(&c, "/cache/x.flac".into(), false);
    assert!(plan.preparing);
    assert!(plan.options.start_paused);
    assert_eq!(plan.options.audio_path, None);
    assert_eq!(plan.states.len(), 2);
    assert!(plan.states[1].muted);
    let ready = plan_media(&c, "/cache/x.flac".into(), true);
    assert!(!ready.preparing);
    assert_eq!(ready.options.audio_path.as_deref(), Some("/cache/x.flac"));
    let mut silent = clip();
    silent.probe.tracks.clear();
    let plan = plan_media(&silent, "/cache/y.flac".into(), false);
    assert!(!plan.preparing);
    assert_eq!(plan.options.audio_path, None);

    let o = audio_ready_options(&c, "/cache/x.flac".into(), 2200, false);
    assert_eq!(o.resume_ms, Some(2200));
    assert!(o.start_paused);
    assert_eq!(o.stop_ms, Some(4000));
}

#[test]
fn overtaken_renders_are_ignored() {
    let mut a = AudioPrep::new(true);
    let g1 = a.prepare(true).unwrap();
    let g2 = a.prepare(true).unwrap();
    assert!(g2 > g1);
    assert!(!a.ready(g1));
    assert!(a.preparing);
    assert!(!a.may_toggle());
    assert!(a.ready(g2));
    assert!(a.may_toggle());
    assert_eq!(a.prepare(false), None);
    assert!(!a.preparing);
    a.played(false);
    assert!(!a.wants_playing);
    assert!(a.replay());
    assert!(a.wants_playing);
    a.prepare(true);
    a.failed();
    assert!(!a.preparing);
}

#[test]
fn track_edits() {
    let mut tracks = vec![TrackState::default_for(0), TrackState::default_for(1)];
    let st = set_track_enabled(&mut tracks, 1, false).unwrap();
    assert!(st.muted);
    assert!(tracks[1].muted);
    assert_eq!(set_track_enabled(&mut tracks, 2, false), None);
    let v = set_track_volume(&mut tracks, 0, 2.0f64.to_bits()).unwrap();
    assert_eq!(f64::from_bits(v.volume_bits), 2.0);
    assert_eq!(tracks[0], v);
    assert_eq!(set_track_volume(&mut tracks, 5, 0), None);
}

#[test]
fn field_edits() {
    assert_eq!(text_edit(" A ", Some("A")), None);
    assert_eq!(text_edit("B", Some("A")), Some(Some("B".into())));
    assert_eq!(text_edit("  ", Some("A")), Some(None));
    assert_eq!(text_edit("", None), None);
    assert_eq!(tag_input("  funny "), Some("funny".into()));
    assert_eq!(tag_input("   "), None);
    let tags = add_manual_tag(vec!["b".into()], "a");
    assert_eq!(tags, vec!["a", "b"]);
    assert_eq!(add_manual_tag(tags.clone(), "b"), tags);
}

#[test]
fn mixes_rendered_after_a_scan() {
    let mut silent = clip();
    silent.path = "/clips/silent.mkv".into();
    silent.probe.tracks.clear();
    let jobs = mix_jobs(&vec![silent, clip()], "/cache");
    assert_eq!(jobs.len(), 1);
    assert_eq!(jobs[0].path, "/clips/a.mkv");
    assert_eq!(jobs[0].states.len(), 2);
    assert!(jobs[0].dest.starts_with("/cache/"));
    assert!(jobs[0].dest.ends_with(".flac"));
    assert_eq!(jobs[0].dest.len(), "/cache/".len() + 16 + ".flac".len());
}

#[test]
fn timeline_presses_and_drags() {
    let mut s = Scrub::new();
    assert_eq!(s.press(300, true), TimelinePress::Mark(300));
    assert!(!s.dragging);
    assert!(!s.drag(400, true));
    assert_eq!(s.press(500, false), TimelinePress::Seek(500));
    assert_eq!(s.shown_position(0), 500);
    assert!(!s.drag(700, false));
    assert!(s.drag(900, true));
    assert_eq!(s.shown_position(0), 900);
    assert_eq!(s.end_scrub(), Some(900));
    assert_eq!(s.shown_position(42), 42);
}

#[test]
fn header_and_field_texts() {
    let p = ClipProbe {
        duration_ms: 65_000,
        width: 1920,
        height: 1080,
        vcodec: "H.264".into(),
        tracks: vec![],
        container_tags: vec![],
    };
    assert_eq!(file_summary(&p), "1920×1080 · 1:05 · H.264");
    let q = ClipProbe { vcodec: String::new(), ..p };
    assert_eq!(file_summary(&q), "1920×1080 · 1:05 · unknown");
    assert_eq!(mark_field_text(Some(3_723_000)), "1:02:03");
    assert_eq!(mark_field_text(None), "");
}

#[test]
fn mixer_rows_show_track_switches() {
    let c = clip();
    let states = vec![TrackState::default_for(0), TrackState { muted: true, ..TrackState::default_for(1) }];
    let rows = mixer_rows(&c.probe.tracks, &states);
    assert_eq!(rows, vec![("Game".to_string(), true), ("Voice".to_string(), false)]);
    let rows = mixer_rows(&c.probe.tracks, &vec![]);
    assert_eq!(rows, vec![("Game".to_string(), true), ("Voice".to_string(), true)]);
}
