//! Records of the clip library: a clip with its probe results, user state
//! (favorite, manual tags, highlight marks, per-track mixer state) and
//! script-derived metadata.
use vstd::prelude::*;
use crate::paths::{file_stem, spec_file_stem};
use crate::text::copy_str;

verus! {

/// Bit pattern of the volume `1.0` (an `f64`), the neutral mixer level.
/// Volumes are carried as the bits of their `f64` value.
pub const VOLUME_ONE: u64 = 0x3FF0_0000_0000_0000u64;

/// Mixer state of one audio track: its volume (bits of an `f64`) and mute flag.
#[derive(Clone, Copy, Debug, PartialEq, Eq, Structural, Hash)]
pub struct TrackState {
    pub idx: u32,
    pub volume_bits: u64,
    pub muted: bool,
}

pub open spec fn spec_default_state(idx: u32) -> TrackState {
    TrackState { idx, volume_bits: VOLUME_ONE, muted: false }
}

impl TrackState {
    /// Full volume, not muted.
    pub fn default_for(idx: u32) -> (r: TrackState)
        ensures
            r == spec_default_state(idx),
    {
        TrackState { idx, volume_bits: VOLUME_ONE, muted: false }
    }
}

/// One audio stream of a clip.
#[derive(Clone, Debug, PartialEq, Eq)]
pub struct AudioTrack {
    pub idx: u32,
    pub label: String,
    pub language: Option<String>,
}

/// What probing a media file reports.
#[derive(Clone, Debug, PartialEq, Eq)]
pub struct ClipProbe {
    pub duration_ms: u64,
    pub width: u32,
    pub height: u32,
    pub vcodec: String,
    pub tracks: Vec<AudioTrack>,
    pub container_tags: Vec<(String, String)>,
}

impl Default for ClipProbe {
    fn default() -> (r: ClipProbe)
        ensures
            r.duration_ms == 0 && r.width == 0 && r.height == 0 && r.vcodec@.len() == 0
                && r.tracks@.len() == 0 && r.container_tags@.len() == 0,
    {
        ClipProbe {
            duration_ms: 0,
            width: 0,
            height: 0,
            vcodec: String::new(),
            tracks: Vec::new(),
            container_tags: Vec::new(),
        }
    }
}

/// A clip of the library.
#[derive(Clone, Debug)]
pub struct Clip {
    pub path: String,
    pub mtime: i64,
    pub size: u64,
    pub probe: ClipProbe,
    pub favorite: bool,
    pub thumb_path: Option<String>,
    pub title: Option<String>,
    pub game: Option<String>,
    pub mark_start: Option<u64>,
    pub mark_end: Option<u64>,
    /// Script-derived tags: replaced wholesale on every rescan.
    pub stags: Vec<String>,
    /// User-added tags: preserved across rescans.
    pub mtags: Vec<String>,
    pub meta: Vec<(String, String)>,
    pub track_state: Vec<TrackState>,
    pub default_tracks: Vec<TrackState>,
    pub added_at: i64,
}

/// A text field that is set and non-empty.
pub open spec fn nonempty_field(f: Option<String>) -> Option<Seq<char>> {
    match f {
        Some(s) => if s@.len() > 0 {
            Some(s@)
        } else {
            None
        },
        None => None,
    }
}

/// The view of an optional borrowed text.
pub open spec fn opt_str_view(o: Option<&str>) -> Option<Seq<char>> {
    match o {
        Some(s) => Some(s@),
        None => None,
    }
}

/// Effective title: the stored title if non-empty, else the file stem of
/// the path (empty if the path has none).
pub open spec fn spec_title(c: Clip) -> Seq<char> {
    match nonempty_field(c.title) {
        Some(t) => t,
        None => match spec_file_stem(c.path@) {
            Some(s) => s,
            None => Seq::<char>::empty(),
        },
    }
}

/// The mixer state recorded for track `idx` (the first one), else the default.
pub open spec fn spec_state_for(states: Seq<TrackState>, idx: u32) -> TrackState {
    if exists|i: int| 0 <= i < states.len() && states[i].idx == idx {
        states[choose|i: int|
            0 <= i < states.len() && states[i].idx == idx && (forall|j: int|
                0 <= j < i ==> (#[trigger] states[j]).idx != idx)]
    } else {
        spec_default_state(idx)
    }
}

/// The highlight segment: both marks set and the end after the start.
pub open spec fn spec_marks(start: Option<u64>, end: Option<u64>) -> Option<(u64, u64)> {
    match (start, end) {
        (Some(s), Some(e)) => if s < e {
            Some((s, e))
        } else {
            None
        },
        _ => None,
    }
}

fn nonempty_str(f: &Option<String>) -> (r: Option<&str>)
    ensures
        opt_str_view(r) == nonempty_field(*f),
{
    match f {
        Some(s) => if s.as_str().is_empty() {
            None
        } else {
            Some(s.as_str())
        },
        None => None,
    }
}

impl Clip {
    /// Effective display title: the stored/script title, else the filename stem.
    pub fn title(&self) -> (r: String)
        ensures
            r@ == spec_title(*self),
    {
        match nonempty_str(&self.title) {
            Some(t) => copy_str(t),
            None => match file_stem(self.path.as_str()) {
                Some(s) => s,
                None => String::new(),
            },
        }
    }

    /// The explicitly-set title (script or manual), without the filename fallback.
    pub fn title_raw(&self) -> (r: Option<&str>)
        ensures
            opt_str_view(r) == nonempty_field(self.title),
    {
        nonempty_str(&self.title)
    }

    /// The game, if set and non-empty.
    pub fn game(&self) -> (r: Option<&str>)
        ensures
            opt_str_view(r) == nonempty_field(self.game),
    {
        nonempty_str(&self.game)
    }

    /// The mixer state of track `idx`.
    pub fn state_for(&self, idx: u32) -> (r: TrackState)
        ensures
            r == spec_state_for(self.track_state@, idx),
    {
        let ghost s = self.track_state@;
        let mut i: usize = 0;
        while i < self.track_state.len()
            invariant
                s == self.track_state@,
                i <= s.len(),
                forall|j: int| 0 <= j < i ==> (#[trigger] s[j]).idx != idx,
            decreases s.len() - i,
        {
            if self.track_state[i].idx == idx {
                let ghost w = choose|k: int|
                    0 <= k < s.len() && s[k].idx == idx && (forall|j: int|
                        0 <= j < k ==> (#[trigger] s[j]).idx != idx);
                assert(s[i as int].idx == idx);
                assert(w == i) by {
                    if w < i {
                        assert(s[w].idx != idx);
                    } else if w > i {
                        assert(s[i as int].idx != idx);
                    }
                }
                return self.track_state[i];
            }
            i = i + 1;
        }
        TrackState::default_for(idx)
    }

    /// The highlight segment `(start, end)` when both marks are set and the
    /// end lies after the start.
    pub fn marks(&self) -> (r: Option<(u64, u64)>)
        ensures
            r == spec_marks(self.mark_start, self.mark_end),
    {
        match (self.mark_start, self.mark_end) {
            (Some(s), Some(e)) => if s < e {
                Some((s, e))
            } else {
                None
            },
            _ => None,
        }
    }
}

/// The states after recording `st`: it replaces the first state with the
/// same track index, or is appended.
pub open spec fn upsert_state(states: Seq<TrackState>, st: TrackState) -> Seq<TrackState> {
    if exists|i: int| 0 <= i < states.len() && states[i].idx == st.idx {
        states.update(
            choose|i: int|
                0 <= i < states.len() && states[i].idx == st.idx && (forall|j: int|
                    0 <= j < i ==> (#[trigger] states[j]).idx != st.idx),
            st,
        )
    } else {
        states.push(st)
    }
}

/// Records `st` in `states` (see `upsert_state`).
pub fn set_state(states: &mut Vec<TrackState>, st: TrackState)
    ensures
        final(states)@ == upsert_state(old(states)@, st),
{
    let ghost s = states@;
    let mut i: usize = 0;
    while i < states.len()
        invariant
            s == states@,
            s == old(states)@,
            i <= s.len(),
            forall|j: int| 0 <= j < i ==> (#[trigger] s[j]).idx != st.idx,
        decreases s.len() - i,
    {
        if states[i].idx == st.idx {
            let ghost w = choose|k: int|
                0 <= k < s.len() && s[k].idx == st.idx && (forall|j: int|
                    0 <= j < k ==> (#[trigger] s[j]).idx != st.idx);
            assert(s[i as int].idx == st.idx);
            assert(w == i) by {
                if w < i {
                    assert(s[w].idx != st.idx);
                } else if w > i {
                    assert(s[i as int].idx != st.idx);
                }
            }
            assert(upsert_state(s, st) == s.update(i as int, st));
            states.set(i, st);
            assert(states@ == s.update(i as int, st));
            assert(s == old(states)@);
            return;
        }
        i = i + 1;
    }
    states.push(st);
}

} // verus!
