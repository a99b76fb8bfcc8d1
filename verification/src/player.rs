//! Playback decisions of a clip player: when to seek, when to start or
//! pause, and how the highlight segment stops (or loops) playback.
//!
//! The media pipeline itself is driven by the caller. `PlayerState` holds
//! what the player knows; each event (a decoded frame, end of stream, a
//! position refresh, a user command) updates it and answers what the caller
//! has to do with the pipeline. A seek is only carried out when a pipeline
//! exists; a change of play state is recorded with `playing_set` once the
//! pipeline has accepted it.
use vstd::prelude::*;

verus! {

/// How a player is set up.
pub struct PlayerOptions {
    pub muted: bool,
    pub looping: bool,
    pub preview_width: Option<u32>,
    /// Where playback starts (the highlight start).
    pub start_ms: u64,
    /// Where playback stops (the highlight end), if anywhere.
    pub stop_ms: Option<u64>,
    /// A separately rendered audio mix to play along, if any.
    pub audio_path: Option<String>,
    /// Position to resume at instead of the start.
    pub resume_ms: Option<u64>,
    pub start_paused: bool,
}

impl Default for PlayerOptions {
    fn default() -> (r: PlayerOptions)
        ensures
            !r.muted && !r.looping && r.preview_width is None && r.start_ms == 0
                && r.stop_ms is None && r.audio_path is None && r.resume_ms is None
                && !r.start_paused,
    {
        PlayerOptions {
            muted: false,
            looping: false,
            preview_width: None,
            start_ms: 0,
            stop_ms: None,
            audio_path: None,
            resume_ms: None,
            start_paused: false,
        }
    }
}

/// What the player knows about playback.
#[derive(Clone, Copy, Debug, PartialEq, Eq, Structural)]
pub struct PlayerState {
    pub has_pipeline: bool,
    pub playing: bool,
    pub ended: bool,
    pub looping: bool,
    pub position_ms: u64,
    pub duration_ms: u64,
    pub start_ms: u64,
    pub stop_ms: Option<u64>,
    pub resume_ms: Option<u64>,
    pub start_paused: bool,
    /// The first seek and play are still due once the pipeline is ready.
    pub pending_start: bool,
    /// Playback pauses (or loops) when it reaches `stop_ms`.
    pub enforce_stop: bool,
}

/// What the caller does with the pipeline after a decoded frame.
#[derive(Clone, Copy, Debug, PartialEq, Eq, Structural)]
pub enum FrameAction {
    Nothing,
    /// Seek the pipeline to this position.
    SeekTo(u64),
    /// Pause the pipeline (and record it with `playing_set(false)`).
    Pause,
}

/// What the caller does to start playback once the pipeline is ready.
#[derive(Clone, Copy, Debug, PartialEq, Eq, Structural)]
pub struct StartPlan {
    /// Seek the pipeline here first, if set.
    pub seek: Option<u64>,
    /// Then set the pipeline playing (`true`) or paused (`false`).
    pub play: bool,
}

/// The state right after construction.
pub open spec fn spec_new(opts: PlayerOptions, has_pipeline: bool) -> PlayerState {
    PlayerState {
        has_pipeline,
        playing: has_pipeline && !opts.start_paused,
        ended: false,
        looping: opts.looping,
        position_ms: match opts.resume_ms {
            Some(r) => r,
            None => opts.start_ms,
        },
        duration_ms: 0,
        start_ms: opts.start_ms,
        stop_ms: opts.stop_ms,
        resume_ms: opts.resume_ms,
        start_paused: opts.start_paused,
        pending_start: has_pipeline,
        enforce_stop: opts.stop_ms is Some,
    }
}

/// A seek: without a pipeline nothing happens; else the position jumps and
/// playback is no longer at its end.
pub open spec fn spec_seek(s: PlayerState, ms: u64) -> PlayerState {
    if s.has_pipeline {
        PlayerState { position_ms: ms, ended: false, ..s }
    } else {
        s
    }
}

/// End of stream: a looping player seeks back to the start, another one
/// stops at the end.
pub open spec fn spec_eos(s: PlayerState) -> PlayerState {
    if s.looping {
        spec_seek(s, s.start_ms)
    } else {
        PlayerState { playing: false, ended: true, ..s }
    }
}

/// Play/pause: at the end of the stream, seek back to the beginning and
/// play; otherwise flip the play state.
pub open spec fn spec_toggle(s: PlayerState) -> (PlayerState, StartPlan) {
    if s.ended {
        (spec_seek(s, 0), StartPlan { seek: Some(0), play: true })
    } else {
        (s, StartPlan { seek: None, play: !s.playing })
    }
}

/// A frame at `pts` reaches the enforced stop.
pub open spec fn hits_stop(s: PlayerState, ms: u64) -> bool {
    s.enforce_stop && s.playing && s.stop_ms is Some && ms >= s.stop_ms.unwrap()
}

/// A decoded frame with timestamp `pts`: the position follows it, and at the
/// enforced stop a looping player seeks back to the start while another one
/// stops there, pauses, and releases the stop.
pub open spec fn spec_frame(s: PlayerState, pts: Option<u64>) -> (PlayerState, FrameAction) {
    match pts {
        None => (s, FrameAction::Nothing),
        Some(ms) => {
            let s1 = PlayerState { position_ms: ms, ..s };
            if hits_stop(s1, ms) {
                if s1.looping {
                    (
                        spec_seek(s1, s1.start_ms),
                        if s1.has_pipeline {
                            FrameAction::SeekTo(s1.start_ms)
                        } else {
                            FrameAction::Nothing
                        },
                    )
                } else {
                    (
                        PlayerState { enforce_stop: false, position_ms: s.stop_ms.unwrap(), ..s1 },
                        FrameAction::Pause,
                    )
                }
            } else {
                (s1, FrameAction::Nothing)
            }
        },
    }
}

/// A periodic refresh with the pipeline's duration (if known) and whether it
/// has prerolled: the duration is taken once, and the first start (seek to
/// the resume point or the start, then play unless starting paused) happens
/// once the pipeline is ready.
pub open spec fn spec_refresh(s: PlayerState, duration: Option<u64>, prerolled: bool) -> (
    PlayerState,
    Option<StartPlan>,
) {
    if !s.has_pipeline {
        (s, None)
    } else {
        let s1 = if s.duration_ms == 0 && duration is Some {
            PlayerState { duration_ms: duration.unwrap(), ..s }
        } else {
            s
        };
        if s1.pending_start && prerolled {
            let target = match s1.resume_ms {
                Some(r) => r,
                None => s1.start_ms,
            };
            let s2 = PlayerState { pending_start: false, ..s1 };
            if target > 0 {
                (spec_seek(s2, target), Some(StartPlan { seek: Some(target), play: !s1.start_paused }))
            } else {
                (s2, Some(StartPlan { seek: None, play: !s1.start_paused }))
            }
        } else {
            (s1, None)
        }
    }
}

impl PlayerState {
    /// The state of a player built with `opts`; `has_pipeline` tells whether
    /// its media pipeline could be built. Playback starts paused until the
    /// pipeline has prerolled (see `refresh`).
    pub fn new(opts: &PlayerOptions, has_pipeline: bool) -> (r: PlayerState)
        ensures
            r == spec_new(*opts, has_pipeline),
    {
        PlayerState {
            has_pipeline,
            playing: has_pipeline && !opts.start_paused,
            ended: false,
            looping: opts.looping,
            position_ms: match opts.resume_ms {
                Some(r) => r,
                None => opts.start_ms,
            },
            duration_ms: 0,
            start_ms: opts.start_ms,
            stop_ms: opts.stop_ms,
            resume_ms: opts.resume_ms,
            start_paused: opts.start_paused,
            pending_start: has_pipeline,
            enforce_stop: opts.stop_ms.is_some(),
        }
    }

    pub fn playing(&self) -> (r: bool)
        ensures
            r == self.playing,
    {
        self.playing
    }

    pub fn position_ms(&self) -> (r: u64)
        ensures
            r == self.position_ms,
    {
        self.position_ms
    }

    pub fn duration_ms(&self) -> (r: u64)
        ensures
            r == self.duration_ms,
    {
        self.duration_ms
    }

    /// Records that the pipeline now plays (`true`) or is paused.
    pub fn playing_set(&mut self, playing: bool)
        ensures
            *final(self) == (PlayerState { playing, ended: false, ..*old(self) }),
    {
        self.playing = playing;
        self.ended = false;
    }

    /// Seeks to `ms`; `true` when the caller has to seek the pipeline (there
    /// is one).
    pub fn seek_ms(&mut self, ms: u64) -> (r: bool)
        ensures
            r == old(self).has_pipeline,
            *final(self) == spec_seek(*old(self), ms),
    {
        if self.has_pipeline {
            self.position_ms = ms;
            self.ended = false;
            true
        } else {
            false
        }
    }

    /// Play/pause: at the end of the stream, restart from the beginning.
    /// Returns where to seek first (if anywhere) and the play state to set.
    pub fn toggle_play(&mut self) -> (r: StartPlan)
        ensures
            (*final(self), r) == spec_toggle(*old(self)),
    {
        if self.ended {
            self.seek_ms(0);
            StartPlan { seek: Some(0), play: true }
        } else {
            StartPlan { seek: None, play: !self.playing }
        }
    }

    /// A seek by the user: it releases the highlight stop so that playback
    /// can go on past the marked end. `true` when the pipeline has to seek.
    pub fn user_seek(&mut self, ms: u64) -> (r: bool)
        ensures
            r == old(self).has_pipeline,
            *final(self) == spec_seek(PlayerState { enforce_stop: false, ..*old(self) }, ms),
    {
        self.enforce_stop = false;
        self.seek_ms(ms)
    }

    /// Replays the highlight: the stop is enforced again (when there is one)
    /// and playback restarts at the start. The caller seeks the pipeline
    /// (when the result is `true`) and then sets it playing.
    pub fn replay(&mut self) -> (r: bool)
        ensures
            r == old(self).has_pipeline,
            *final(self) == spec_seek(
                PlayerState { enforce_stop: old(self).stop_ms is Some, ..*old(self) },
                old(self).start_ms,
            ),
    {
        self.enforce_stop = self.stop_ms.is_some();
        let start = self.start_ms;
        self.seek_ms(start)
    }

    /// New highlight segment; it takes effect at the next replay or loop.
    pub fn set_segment(&mut self, start_ms: u64, stop_ms: Option<u64>)
        ensures
            *final(self) == (PlayerState { start_ms, stop_ms, ..*old(self) }),
    {
        self.start_ms = start_ms;
        self.stop_ms = stop_ms;
    }

    /// End of stream. Returns where the pipeline has to seek (looping with a
    /// pipeline), if anywhere.
    pub fn on_eos(&mut self) -> (r: Option<u64>)
        ensures
            *final(self) == spec_eos(*old(self)),
            r == (if old(self).looping && old(self).has_pipeline {
                Some(old(self).start_ms)
            } else {
                None
            }),
    {
        if self.looping {
            let start = self.start_ms;
            if self.seek_ms(start) {
                Some(start)
            } else {
                None
            }
        } else {
            self.playing = false;
            self.ended = true;
            None
        }
    }

    /// A decoded frame with timestamp `pts` (if it has one).
    pub fn on_frame(&mut self, pts: Option<u64>) -> (r: FrameAction)
        ensures
            (*final(self), r) == spec_frame(*old(self), pts),
    {
        if let Some(ms) = pts {
            self.position_ms = ms;
            if self.enforce_stop && self.playing {
                if let Some(stop) = self.stop_ms {
                    if ms >= stop {
                        if self.looping {
                            let start = self.start_ms;
                            if self.seek_ms(start) {
                                return FrameAction::SeekTo(start);
                            } else {
                                return FrameAction::Nothing;
                            }
                        } else {
                            self.enforce_stop = false;
                            self.position_ms = stop;
                            return FrameAction::Pause;
                        }
                    }
                }
            }
        }
        FrameAction::Nothing
    }

    /// A periodic refresh with what the pipeline reports (see `spec_refresh`).
    pub fn refresh(&mut self, duration: Option<u64>, prerolled: bool) -> (r: Option<StartPlan>)
        ensures
            (*final(self), r) == spec_refresh(*old(self), duration, prerolled),
    {
        if !self.has_pipeline {
            return None;
        }
        if self.duration_ms == 0 {
            if let Some(d) = duration {
                self.duration_ms = d;
            }
        }
        if self.pending_start && prerolled {
            self.pending_start = false;
            let target = match self.resume_ms {
                Some(r) => r,
                None => self.start_ms,
            };
            let play = !self.start_paused;
            if target > 0 {
                self.seek_ms(target);
                Some(StartPlan { seek: Some(target), play })
            } else {
                Some(StartPlan { seek: None, play })
            }
        } else {
            None
        }
    }
}

/// A player that is playing with its highlight stop enforced pauses at the
/// stop when a frame reaches it (unless it loops), with the position clamped
/// to the stop; a looping one goes back to the start instead.
pub proof fn law_highlight_stop(s: PlayerState, ms: u64)
    requires
        s.enforce_stop,
        s.playing,
        s.stop_ms is Some,
        ms >= s.stop_ms.unwrap(),
    ensures
        !s.looping ==> spec_frame(s, Some(ms)).1 == FrameAction::Pause && spec_frame(
            s,
            Some(ms),
        ).0.position_ms == s.stop_ms.unwrap() && !spec_frame(s, Some(ms)).0.enforce_stop,
        s.looping && s.has_pipeline ==> spec_frame(s, Some(ms)).1 == FrameAction::SeekTo(
            s.start_ms,
        ) && spec_frame(s, Some(ms)).0.position_ms == s.start_ms,
{
}

/// The state after decoded frames with the timestamps `ptss`, in order, and
/// what each frame asked of the pipeline.
pub open spec fn run_frames(s: PlayerState, ptss: Seq<Option<u64>>) -> (PlayerState, Seq<
    FrameAction,
>)
    decreases ptss.len(),
{
    if ptss.len() == 0 {
        (s, Seq::empty())
    } else {
        let (s1, acts) = run_frames(s, ptss.drop_last());
        let (s2, a) = spec_frame(s1, ptss.last());
        (s2, acts.push(a))
    }
}

proof fn lemma_frames_without_stop(s: PlayerState, ptss: Seq<Option<u64>>)
    requires
        !s.enforce_stop,
    ensures
        run_frames(s, ptss).1.len() == ptss.len(),
        forall|i: int| 0 <= i < ptss.len() ==> #[trigger] run_frames(s, ptss).1[i]
            == FrameAction::Nothing,
        run_frames(s, ptss).0.playing == s.playing,
        !run_frames(s, ptss).0.enforce_stop,
    decreases ptss.len(),
{
    if ptss.len() > 0 {
        lemma_frames_without_stop(s, ptss.drop_last());
        let (s1, acts) = run_frames(s, ptss.drop_last());
        assert forall|i: int| 0 <= i < ptss.len() implies #[trigger] run_frames(s, ptss).1[i]
            == FrameAction::Nothing by {
            if i < ptss.len() - 1 {
                assert(run_frames(s, ptss).1[i] == acts[i]);
            }
        }
    }
}

/// A user seek puts the position where the user asked and releases the
/// highlight stop: over any run of frames after it (until a replay arms the
/// stop again) no frame pauses or seeks the player, and its play state stays
/// as it was.
pub proof fn law_user_seek_releases_stop(s: PlayerState, to: u64, ptss: Seq<Option<u64>>)
    ensures
        s.has_pipeline ==> spec_seek(PlayerState { enforce_stop: false, ..s }, to).position_ms
            == to,
        ({
            let (after, acts) = run_frames(
                spec_seek(PlayerState { enforce_stop: false, ..s }, to),
                ptss,
            );
            &&& acts.len() == ptss.len()
            &&& forall|i: int| 0 <= i < ptss.len() ==> #[trigger] acts[i] == FrameAction::Nothing
            &&& after.playing == s.playing
            &&& !after.enforce_stop
        }),
{
    lemma_frames_without_stop(spec_seek(PlayerState { enforce_stop: false, ..s }, to), ptss);
}

/// A replay puts the position back at the highlight start, leaves the end of
/// the stream behind, and arms the stop exactly when the clip has a
/// highlight end.
pub proof fn law_replay_rearms_stop(s: PlayerState)
    requires
        s.has_pipeline,
    ensures
        ({
            let r = spec_seek(PlayerState { enforce_stop: s.stop_ms is Some, ..s }, s.start_ms);
            r.enforce_stop == (s.stop_ms is Some) && r.position_ms == s.start_ms && !r.ended
        }),
{
}

/// The first start happens once: after it, refreshes never start again.
pub proof fn law_single_start(s: PlayerState, d1: Option<u64>, d2: Option<u64>, p2: bool)
    requires
        s.has_pipeline,
        s.pending_start,
    ensures
        spec_refresh(s, d1, true).1 is Some,
        spec_refresh(spec_refresh(s, d1, true).0, d2, p2).1 is None,
{
}

/// At the end of a non-looping stream, play/pause restarts from the
/// beginning and plays.
pub proof fn law_restart_after_end(s: PlayerState)
    requires
        !s.looping,
    ensures
        spec_eos(s).ended,
        !spec_eos(s).playing,
        spec_toggle(spec_eos(s)).1 == (StartPlan { seek: Some(0), play: true }),
        s.has_pipeline ==> spec_toggle(spec_eos(s)).0.position_ms == 0 && !spec_toggle(
            spec_eos(s),
        ).0.ended,
{
}

} // verus!
