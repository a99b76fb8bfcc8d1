//! The full-screen clip view and the hover previews of the grid: how their
//! players are set up, when the clip's audio mix has to be rendered first,
//! and the edits made from the view (track switches and volumes, title,
//! game, manual tags).
//!
//! A clip with audio tracks plays its audio from a rendered mix of the
//! tracks at their mixer settings. While that mix is being rendered the
//! view is "preparing": the player waits paused and play commands are
//! ignored. Each render gets a generation number so that a render that was
//! overtaken by a newer one is ignored when it finishes.
use vstd::prelude::*;
use crate::library::{has_tag, normalize_text, sort_strings, sorted_strs, spec_normalize};
use crate::model::{AudioTrack, Clip, TrackState, opt_str_view, spec_marks, spec_state_for};
use crate::player::PlayerOptions;
use crate::scan::mix_states;
use crate::clock::{fmt_time, spec_clock};
use crate::model::ClipProbe;
use crate::text::{concat2, copy_str, decimal, decimal_string, spec_trim, trim, views};

verus! {

/// Width in pixels that hover previews are decoded at.
pub const PREVIEW_WIDTH: u32 = 480u32;

/// Where playback of `clip` starts: its highlight start, else the beginning.
pub open spec fn start_of(clip: Clip) -> u64 {
    match clip.mark_start {
        Some(s) => s,
        None => 0,
    }
}

/// Where playback of `clip` stops: the end of its highlight segment, if it
/// has one.
pub open spec fn stop_of(clip: Clip) -> Option<u64> {
    match spec_marks(clip.mark_start, clip.mark_end) {
        Some((_, e)) => Some(e),
        None => None,
    }
}

/// The playback segment of highlight marks `start` and `end`: from the
/// start mark (or the beginning) to the end mark when both are set and the
/// end lies after the start.
pub fn highlight_segment(start: Option<u64>, end: Option<u64>) -> (r: (u64, Option<u64>))
    ensures
        r.0 == (match start {
            Some(s) => s,
            None => 0,
        }),
        r.1 == (match spec_marks(start, end) {
            Some((_, e)) => Some(e),
            None => None,
        }),
{
    let from = match start {
        Some(s) => s,
        None => 0,
    };
    let to = match (start, end) {
        (Some(s), Some(e)) => if s < e {
            Some(e)
        } else {
            None
        },
        _ => None,
    };
    (from, to)
}

fn segment(clip: &Clip) -> (r: (u64, Option<u64>))
    ensures
        r == (start_of(*clip), stop_of(*clip)),
{
    highlight_segment(clip.mark_start, clip.mark_end)
}

/// The player of a hover preview: muted, looping over the clip's highlight
/// (the whole clip without one), decoded small. Without a listed clip it
/// plays the whole file.
pub fn preview_options(clip: Option<&Clip>) -> (r: PlayerOptions)
    ensures
        r.muted && r.looping,
        r.preview_width == Some(PREVIEW_WIDTH),
        r.start_ms == (match clip {
            Some(c) => start_of(*c),
            None => 0,
        }),
        r.stop_ms == (match clip {
            Some(c) => stop_of(*c),
            None => None,
        }),
        r.audio_path is None && r.resume_ms is None && !r.start_paused,
{
    let (start_ms, stop_ms) = match clip {
        Some(c) => segment(c),
        None => (0, None),
    };
    PlayerOptions {
        muted: true,
        looping: true,
        preview_width: Some(PREVIEW_WIDTH),
        start_ms,
        stop_ms,
        audio_path: None,
        resume_ms: None,
        start_paused: false,
    }
}

/// How the full-screen view starts playing a clip.
pub struct MediaPlan {
    /// The mixer state of each audio track, in track order.
    pub states: Vec<TrackState>,
    pub options: PlayerOptions,
    /// The audio mix still has to be rendered.
    pub preparing: bool,
}

/// The plan for showing `clip` full screen; `cache_path` is where its audio
/// mix would be cached and `cached` whether that file exists. Without audio
/// tracks the video plays at once; with a cached mix it plays with that
/// audio; otherwise the player starts paused while the mix is rendered.
pub fn plan_media(clip: &Clip, cache_path: String, cached: bool) -> (r: MediaPlan)
    ensures
        r.states@ == clip.probe.tracks@.map_values(
            |t: AudioTrack| spec_state_for(clip.track_state@, t.idx),
        ),
        r.preparing == (clip.probe.tracks@.len() > 0 && !cached),
        !r.options.muted && !r.options.looping && r.options.preview_width is None,
        r.options.start_ms == start_of(*clip),
        r.options.stop_ms == stop_of(*clip),
        r.options.audio_path == (if clip.probe.tracks@.len() > 0 && cached {
            Some(cache_path)
        } else {
            None
        }),
        r.options.resume_ms is None,
        r.options.start_paused == r.preparing,
{
    let states = mix_states(clip);
    let (start_ms, stop_ms) = segment(clip);
    let needs_audio = clip.probe.tracks.len() > 0;
    let ready = needs_audio && cached;
    let preparing = needs_audio && !ready;
    let audio_path = if ready {
        Some(cache_path)
    } else {
        None
    };
    MediaPlan {
        states,
        options: PlayerOptions {
            muted: false,
            looping: false,
            preview_width: None,
            start_ms,
            stop_ms,
            audio_path,
            resume_ms: None,
            start_paused: preparing,
        },
        preparing,
    }
}

/// The player that takes over once the audio mix at `audio_path` is ready:
/// it resumes where the previous one was (`position_ms`) and plays unless
/// the user had paused.
pub fn audio_ready_options(clip: &Clip, audio_path: String, position_ms: u64, wants_playing: bool) -> (r:
    PlayerOptions)
    ensures
        !r.muted && !r.looping && r.preview_width is None,
        r.start_ms == start_of(*clip),
        r.stop_ms == stop_of(*clip),
        r.audio_path == Some(audio_path),
        r.resume_ms == Some(position_ms),
        r.start_paused == !wants_playing,
{
    let (start_ms, stop_ms) = segment(clip);
    PlayerOptions {
        muted: false,
        looping: false,
        preview_width: None,
        start_ms,
        stop_ms,
        audio_path: Some(audio_path),
        resume_ms: Some(position_ms),
        start_paused: !wants_playing,
    }
}

/// The audio side of the full-screen view.
#[derive(Clone, Copy, Debug, PartialEq, Eq, Structural)]
pub struct AudioPrep {
    /// Number of the latest render started.
    pub generation: u64,
    pub preparing: bool,
    /// The user wants playback to run (play/pause intent kept across
    /// renders).
    pub wants_playing: bool,
}

/// Starting a render: it gets the next generation number. Without audio
/// tracks there is nothing to render.
pub open spec fn spec_prepare(a: AudioPrep, has_tracks: bool) -> (AudioPrep, Option<u64>) {
    if !has_tracks {
        (AudioPrep { preparing: false, ..a }, None)
    } else {
        let g = (a.generation + 1) as u64;
        (AudioPrep { generation: g, preparing: true, ..a }, Some(g))
    }
}

/// A render of generation `g` finished: only the latest one is taken.
pub open spec fn spec_ready(a: AudioPrep, g: u64) -> (AudioPrep, bool) {
    if g != a.generation {
        (a, false)
    } else {
        (AudioPrep { preparing: false, ..a }, true)
    }
}

impl AudioPrep {
    /// The state for a clip shown full screen: playback wanted, preparing
    /// when the plan says so.
    pub fn new(preparing: bool) -> (r: AudioPrep)
        ensures
            r == (AudioPrep { generation: 0, preparing, wants_playing: true }),
    {
        AudioPrep { generation: 0, preparing, wants_playing: true }
    }

    /// The mix has to be (re)rendered; `has_tracks` tells whether the clip
    /// has audio tracks. Returns the generation of the render to start (the
    /// caller pauses the player and renders, or takes the cached mix).
    pub fn prepare(&mut self, has_tracks: bool) -> (r: Option<u64>)
        requires
            old(self).generation < u64::MAX,
        ensures
            (*final(self), r) == spec_prepare(*old(self), has_tracks),
    {
        if !has_tracks {
            self.preparing = false;
            return None;
        }
        self.generation = self.generation + 1;
        self.preparing = true;
        Some(self.generation)
    }

    /// The render of generation `g` finished; `true` when it is the latest,
    /// and the caller switches to a player with the new audio.
    pub fn ready(&mut self, g: u64) -> (r: bool)
        ensures
            (*final(self), r) == spec_ready(*old(self), g),
    {
        if g != self.generation {
            return false;
        }
        self.preparing = false;
        true
    }

    /// A render failed: the view stops preparing (and plays without the
    /// mix).
    pub fn failed(&mut self)
        ensures
            *final(self) == (AudioPrep { preparing: false, ..*old(self) }),
    {
        self.preparing = false;
    }

    /// Play/pause is ignored while preparing; returns whether the caller
    /// toggles the player (and then records `playing_now`).
    pub fn may_toggle(&self) -> (r: bool)
        ensures
            r == !self.preparing,
    {
        !self.preparing
    }

    /// Records the play state after a toggle.
    pub fn played(&mut self, playing_now: bool)
        ensures
            *final(self) == (AudioPrep { wants_playing: playing_now, ..*old(self) }),
    {
        self.wants_playing = playing_now;
    }

    /// Replay: playback is wanted from now on; returns whether the caller
    /// replays the player now (not while preparing; the new player will
    /// play then).
    pub fn replay(&mut self) -> (r: bool)
        ensures
            r == !old(self).preparing,
            *final(self) == (AudioPrep { wants_playing: true, ..*old(self) }),
    {
        self.wants_playing = true;
        !self.preparing
    }
}

/// A render that was overtaken by a newer one is ignored when it finishes.
pub proof fn law_stale_render_ignored(a: AudioPrep)
    requires
        a.generation + 2 <= u64::MAX,
    ensures
        ({
            let (a1, g1) = spec_prepare(a, true);
            let (a2, g2) = spec_prepare(a1, true);
            &&& !spec_ready(a2, g1.unwrap()).1
            &&& spec_ready(a2, g1.unwrap()).0.preparing
            &&& spec_ready(a2, g2.unwrap()).1
            &&& !spec_ready(a2, g2.unwrap()).0.preparing
        }),
{
}

/// Switches track `i` on or off (an off track is muted in the mix); returns
/// its new state for storing, or `None` when there is no such track.
pub fn set_track_enabled(tracks: &mut Vec<TrackState>, i: usize, enabled: bool) -> (r: Option<
    TrackState,
>)
    ensures
        i < old(tracks)@.len() ==> r == Some(TrackState { muted: !enabled, ..old(tracks)@[i as int] })
            && final(tracks)@ == old(tracks)@.update(i as int, r.unwrap()),
        i >= old(tracks)@.len() ==> r is None && final(tracks)@ == old(tracks)@,
{
    if i >= tracks.len() {
        return None;
    }
    let mut st = tracks[i];
    st.muted = !enabled;
    tracks.set(i, st);
    Some(st)
}

/// Sets the volume (bits of an `f64`) of track `i`; returns its new state,
/// or `None` when there is no such track.
pub fn set_track_volume(tracks: &mut Vec<TrackState>, i: usize, volume_bits: u64) -> (r: Option<
    TrackState,
>)
    ensures
        i < old(tracks)@.len() ==> r == Some(TrackState { volume_bits, ..old(tracks)@[i as int] })
            && final(tracks)@ == old(tracks)@.update(i as int, r.unwrap()),
        i >= old(tracks)@.len() ==> r is None && final(tracks)@ == old(tracks)@,
{
    if i >= tracks.len() {
        return None;
    }
    let mut st = tracks[i];
    st.volume_bits = volume_bits;
    tracks.set(i, st);
    Some(st)
}

/// A text field of the view was committed with `value`: the new value
/// (trimmed, `None` when blank) if it differs from `current`; `None` when
/// nothing changes.
pub fn text_edit(value: &str, current: Option<&str>) -> (r: Option<Option<String>>)
    ensures
        ({
            let new = spec_normalize(Some(value@));
            &&& new == opt_str_view(current) ==> r is None
            &&& new != opt_str_view(current) ==> r is Some && r.unwrap().deep_view() == new
        }),
{
    let new = normalize_text(Some(value));
    let same = match (&new, current) {
        (Some(a), Some(b)) => crate::text::str_eq(a.as_str(), b),
        (None, None) => true,
        _ => false,
    };
    if same {
        None
    } else {
        Some(new)
    }
}

/// The tag typed into the tag field, trimmed; `None` when blank.
pub fn tag_input(value: &str) -> (r: Option<String>)
    ensures
        r.deep_view() == spec_normalize(Some(value@)),
{
    normalize_text(Some(value))
}

/// The manual tags after adding `tag`: unchanged if present, else with it,
/// sorted.
pub fn add_manual_tag(tags: Vec<String>, tag: &str) -> (r: Vec<String>)
    ensures
        views(tags@).contains(tag@) ==> r == tags,
        !views(tags@).contains(tag@) ==> sorted_strs(views(r@)) && views(r@).to_multiset()
            == views(tags@).push(tag@).to_multiset(),
{
    if has_tag(&tags, tag) {
        return tags;
    }
    let mut tags = tags;
    let ghost old_tags = views(tags@);
    tags.push(copy_str(tag));
    assert(views(tags@) =~= old_tags.push(tag@));
    sort_strings(tags)
}

/// A mix to render ahead of time: the clip's path, the mixer states it is
/// rendered with and where the result goes.
pub struct MixJob {
    pub path: String,
    pub states: Vec<TrackState>,
    pub dest: String,
}

/// The clips that have audio tracks, in order.
pub open spec fn with_audio(clips: Seq<Clip>) -> Seq<Clip> {
    clips.filter(|c: Clip| c.probe.tracks@.len() > 0)
}

/// `j` is the job for clip `c`: its path, its current mixer states, and the
/// cache file under `cache_dir` named after them.
pub open spec fn job_for(c: Clip, j: MixJob, cache_dir: Seq<char>) -> bool {
    &&& j.path@ == c.path@
    &&& j.states@ == c.probe.tracks@.map_values(
        |t: AudioTrack| spec_state_for(c.track_state@, t.idx),
    )
    &&& j.dest@ == crate::fingerprint::spec_cache_path(cache_dir, c.path@, c.mtime, j.states@)
}

/// The mixes to render after a scan: one for each clip with audio tracks,
/// in library order, with its current mixer states, cached under
/// `cache_dir`. (Those already cached are skipped by the caller.)
pub fn mix_jobs(clips: &Vec<Clip>, cache_dir: &str) -> (r: Vec<MixJob>)
    ensures
        r@.len() == with_audio(clips@).len(),
        forall|k: int| 0 <= k < r@.len() ==> job_for(with_audio(clips@)[k], #[trigger] r@[k], cache_dir@),
{
    let mut out: Vec<MixJob> = Vec::new();
    let mut i: usize = 0;
    while i < clips.len()
        invariant
            i <= clips@.len(),
            out@.len() == with_audio(clips@.subrange(0, i as int)).len(),
            forall|k: int| 0 <= k < out@.len() ==> job_for(
                with_audio(clips@.subrange(0, i as int))[k],
                #[trigger] out@[k],
                cache_dir@,
            ),
        decreases clips@.len() - i,
    {
        let ghost pre = clips@.subrange(0, i as int);
        let ghost next = clips@.subrange(0, i as int + 1);
        proof {
            assert(next =~= pre.push(clips@[i as int]));
            pre.lemma_filter_push(clips@[i as int], |c: Clip| c.probe.tracks@.len() > 0);
        }
        let c = &clips[i];
        if c.probe.tracks.len() > 0 {
            let states = mix_states(c);
            let dest = crate::fingerprint::cache_path(cache_dir, c.path.as_str(), c.mtime, &states);
            let ghost before = out@;
            out.push(MixJob { path: copy_str(c.path.as_str()), states, dest });
            proof {
                assert forall|k: int| 0 <= k < out@.len() implies job_for(
                    with_audio(next)[k],
                    #[trigger] out@[k],
                    cache_dir@,
                ) by {
                    if k < before.len() {
                        assert(out@[k] == before[k]);
                        assert(with_audio(next)[k] == with_audio(pre)[k]);
                    }
                }
            }
        }
        i = i + 1;
    }
    assert(clips@.subrange(0, clips@.len() as int) =~= clips@);
    out
}

/// The file line of the full-screen header: size, length and codec, e.g.
/// `1920×1080 · 1:05 · H.264` (`unknown` without a codec name).
pub open spec fn spec_file_summary(p: ClipProbe) -> Seq<char> {
    decimal(p.width as nat) + "×"@ + decimal(p.height as nat) + " · "@ + spec_clock(p.duration_ms)
        + " · "@ + if p.vcodec@.len() == 0 {
        "unknown"@
    } else {
        p.vcodec@
    }
}

/// The file line of the full-screen header (see `spec_file_summary`).
pub fn file_summary(p: &ClipProbe) -> (r: String)
    ensures
        r@ == spec_file_summary(*p),
{
    let w = decimal_string(p.width as u64);
    let h = decimal_string(p.height as u64);
    let a = concat2(w.as_str(), "×");
    let b = concat2(a.as_str(), h.as_str());
    let c = concat2(b.as_str(), " · ");
    let d = concat2(c.as_str(), fmt_time(p.duration_ms).as_str());
    let e = concat2(d.as_str(), " · ");
    let codec = if p.vcodec.as_str().is_empty() {
        "unknown"
    } else {
        p.vcodec.as_str()
    };
    let r = concat2(e.as_str(), codec);
    assert(r@ =~= spec_file_summary(*p));
    r
}

/// The text of a mark field: the mark as `m:ss` (or `h:mm:ss`), empty when
/// unset.
pub fn mark_field_text(ms: Option<u64>) -> (r: String)
    ensures
        r@ == (match ms {
            Some(v) => spec_clock(v),
            None => Seq::<char>::empty(),
        }),
{
    match ms {
        Some(v) => fmt_time(v),
        None => String::new(),
    }
}

/// Whether track `i` is on in the mixer: not muted in its state (a track
/// without a state is on).
pub open spec fn track_on(states: Seq<TrackState>, i: int) -> bool {
    !(0 <= i < states.len() && states[i].muted)
}

/// The rows of the audio mixer: each track's label and whether it is on.
pub fn mixer_rows(tracks: &Vec<AudioTrack>, states: &Vec<TrackState>) -> (r: Vec<(String, bool)>)
    ensures
        r@.len() == tracks@.len(),
        forall|i: int|
            0 <= i < tracks@.len() ==> (#[trigger] r@[i]).0@ == tracks@[i].label@ && r@[i].1
                == track_on(states@, i),
{
    let mut out: Vec<(String, bool)> = Vec::new();
    let mut i: usize = 0;
    while i < tracks.len()
        invariant
            i <= tracks@.len(),
            out@.len() == i,
            forall|k: int|
                0 <= k < i ==> (#[trigger] out@[k]).0@ == tracks@[k].label@ && out@[k].1
                    == track_on(states@, k),
        decreases tracks@.len() - i,
    {
        let on = if i < states.len() {
            !states[i].muted
        } else {
            true
        };
        out.push((copy_str(tracks[i].label.as_str()), on));
        i = i + 1;
    }
    out
}

} // verus!
