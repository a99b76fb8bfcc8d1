//! Planning a scan of the clips directory: which files are videos, which
//! stored clips vanished from disk, which files need (re)processing, when the
//! scripts must be re-run, and how a processed clip is put together from the
//! probe, thumbnail and script results.
use vstd::prelude::*;
use crate::model::{
    AudioTrack, Clip, ClipProbe, TrackState, VOLUME_ONE, spec_state_for,
};
use crate::paths::{extension, path_order, spec_extension, spec_path_order};
use crate::script::{ScriptResult, TrackChoice};
use crate::text::{ascii_lower_seq, ascii_lowercase, concat2, copy_str, copy_string, str_eq};

verus! {

/// A file found on disk or a stored clip: its path and `(mtime, size)`.
pub type Fingerprinted = (String, (i64, u64));

/// Extensions (lower-case) of the files treated as videos.
pub open spec fn is_video_ext(e: Seq<char>) -> bool {
    e == "mp4"@ || e == "mkv"@ || e == "mov"@ || e == "webm"@ || e == "avi"@ || e == "m4v"@ || e
        == "flv"@ || e == "wmv"@ || e == "ts"@ || e == "mpg"@ || e == "mpeg"@
}

/// A path is a video when its extension, lower-cased, is a video extension.
pub open spec fn spec_is_video(p: Seq<char>) -> bool {
    match spec_extension(p) {
        Some(e) => is_video_ext(ascii_lower_seq(e)),
        None => false,
    }
}

/// True for files with a video extension (case-insensitive).
pub fn is_video(path: &str) -> (r: bool)
    ensures
        r == spec_is_video(path@),
{
    match extension(path) {
        Some(e) => {
            let l = ascii_lowercase(e.as_str());
            let s = l.as_str();
            str_eq(s, "mp4") || str_eq(s, "mkv") || str_eq(s, "mov") || str_eq(s, "webm")
                || str_eq(s, "avi") || str_eq(s, "m4v") || str_eq(s, "flv") || str_eq(s, "wmv")
                || str_eq(s, "ts") || str_eq(s, "mpg") || str_eq(s, "mpeg")
        },
        None => false,
    }
}

/// The fingerprint recorded for `p` (the first entry whose path equals it).
pub open spec fn lookup_fp(es: Seq<Fingerprinted>, p: Seq<char>) -> Option<(i64, u64)>
    decreases es.len(),
{
    if es.len() == 0 {
        None
    } else if spec_path_order(es[0].0@, p) == 0 {
        Some(es[0].1)
    } else {
        lookup_fp(es.drop_first(), p)
    }
}

/// Stored clips whose file is gone from disk, in stored order.
pub open spec fn spec_removed(existing: Seq<Fingerprinted>, disk: Seq<Fingerprinted>) -> Seq<
    Seq<char>,
>
    decreases existing.len(),
{
    if existing.len() == 0 {
        Seq::empty()
    } else {
        let r = spec_removed(existing.drop_last(), disk);
        if lookup_fp(disk, existing.last().0@) is None {
            r.push(existing.last().0@)
        } else {
            r
        }
    }
}

/// Files to process, in disk order: all of them when forced, else those that
/// are new or whose fingerprint changed.
pub open spec fn spec_todo(disk: Seq<Fingerprinted>, existing: Seq<Fingerprinted>, force: bool) -> Seq<
    (Seq<char>, (i64, u64)),
>
    decreases disk.len(),
{
    if disk.len() == 0 {
        Seq::empty()
    } else {
        let r = spec_todo(disk.drop_last(), existing, force);
        if force || lookup_fp(existing, disk.last().0@) != Some(disk.last().1) {
            r.push((disk.last().0@, disk.last().1))
        } else {
            r
        }
    }
}

pub open spec fn fp_views(v: Seq<Fingerprinted>) -> Seq<(Seq<char>, (i64, u64))> {
    v.map_values(|e: Fingerprinted| (e.0@, e.1))
}

fn lookup(es: &Vec<Fingerprinted>, p: &str) -> (r: Option<(i64, u64)>)
    ensures
        r == lookup_fp(es@, p@),
{
    let mut i: usize = 0;
    assert(es@.subrange(0, es@.len() as int) =~= es@);
    while i < es.len()
        invariant
            i <= es.len(),
            lookup_fp(es@, p@) == lookup_fp(es@.subrange(i as int, es@.len() as int), p@),
        decreases es.len() - i,
    {
        let ghost rest = es@.subrange(i as int, es@.len() as int);
        assert(rest.drop_first() =~= es@.subrange(i + 1, es@.len() as int));
        assert(rest[0] == es@[i as int]);
        if path_order(es[i].0.as_str(), p) == 0 {
            return Some(es[i].1);
        }
        i = i + 1;
    }
    None
}

/// What a scan has to do.
pub struct ScanPlan {
    /// Stored clips whose file is gone.
    pub removed: Vec<String>,
    /// Files to probe, thumbnail and script.
    pub todo: Vec<Fingerprinted>,
}

/// Diffs the files on disk against the stored fingerprints.
pub fn plan_scan(disk: &Vec<Fingerprinted>, existing: &Vec<Fingerprinted>, force: bool) -> (r:
    ScanPlan)
    ensures
        crate::text::views(r.removed@) == spec_removed(existing@, disk@),
        fp_views(r.todo@) == spec_todo(disk@, existing@, force),
{
    let mut removed: Vec<String> = Vec::new();
    let mut i: usize = 0;
    assert(existing@.subrange(0, 0) =~= Seq::<Fingerprinted>::empty());
    while i < existing.len()
        invariant
            i <= existing.len(),
            crate::text::views(removed@) == spec_removed(existing@.subrange(0, i as int), disk@),
        decreases existing.len() - i,
    {
        let ghost pre = existing@.subrange(0, i + 1);
        assert(pre.drop_last() =~= existing@.subrange(0, i as int));
        let p = &existing[i].0;
        if lookup(disk, p.as_str()).is_none() {
            let ghost before = crate::text::views(removed@);
            removed.push(copy_string(p));
            assert(crate::text::views(removed@) =~= before.push(p@));
        }
        i = i + 1;
    }
    assert(existing@.subrange(0, existing@.len() as int) =~= existing@);
    let mut todo: Vec<Fingerprinted> = Vec::new();
    let mut j: usize = 0;
    assert(disk@.subrange(0, 0) =~= Seq::<Fingerprinted>::empty());
    while j < disk.len()
        invariant
            j <= disk.len(),
            fp_views(todo@) == spec_todo(disk@.subrange(0, j as int), existing@, force),
        decreases disk.len() - j,
    {
        let ghost pre = disk@.subrange(0, j + 1);
        assert(pre.drop_last() =~= disk@.subrange(0, j as int));
        let p = &disk[j].0;
        let fp = disk[j].1;
        let keep = if force {
            true
        } else {
            match lookup(existing, p.as_str()) {
                Some(old) => old.0 != fp.0 || old.1 != fp.1,
                None => true,
            }
        };
        if keep {
            let ghost before = fp_views(todo@);
            todo.push((copy_string(p), fp));
            assert(fp_views(todo@) =~= before.push((p@, fp)));
        }
        j = j + 1;
    }
    assert(disk@.subrange(0, disk@.len() as int) =~= disk@);
    ScanPlan { removed, todo }
}

/// The scripts must be re-run on every clip when their combined fingerprint
/// differs from the one stored by the previous scan.
pub fn script_changed(stored: Option<&str>, current: &str) -> (r: bool)
    ensures
        r == !(stored matches Some(s) && s@ == current@),
{
    match stored {
        Some(s) => !str_eq(s, current),
        None => true,
    }
}

/// The combined fingerprint of the two scripts: `<metadata>-<mix>`.
pub fn combined_script_hash(mdata: &str, mix: &str) -> (r: String)
    ensures
        r@ == mdata@ + "-"@ + mix@,
{
    let mut r = concat2(mdata, "-");
    r.append(mix);
    r
}

/// The choices of an optional list.
pub open spec fn choice_seq(o: Option<Vec<TrackChoice>>) -> Option<Seq<TrackChoice>> {
    match o {
        Some(v) => Some(v@),
        None => None,
    }
}

/// The first choice for track `idx`, if any.
pub open spec fn find_choice(cs: Seq<TrackChoice>, idx: u32) -> Option<TrackChoice>
    decreases cs.len(),
{
    if cs.len() == 0 {
        None
    } else if cs[0].idx == idx {
        Some(cs[0])
    } else {
        find_choice(cs.drop_first(), idx)
    }
}

/// The chosen tracks when the mix script gives no answer: the first track,
/// at full volume.
pub open spec fn fallback_choices() -> Seq<TrackChoice> {
    seq![TrackChoice { idx: 0, volume_bits: VOLUME_ONE }]
}

/// Mixer state of a track under the chosen mix: chosen tracks play at their
/// volume, the others are muted at full volume.
pub open spec fn state_under(cs: Seq<TrackChoice>, idx: u32) -> TrackState {
    match find_choice(cs, idx) {
        Some(c) => TrackState { idx, volume_bits: c.volume_bits, muted: false },
        None => TrackState { idx, volume_bits: VOLUME_ONE, muted: true },
    }
}

/// Default mixer states of a clip's tracks (none for a clip without audio).
pub open spec fn spec_default_tracks(tracks: Seq<AudioTrack>, choices: Option<Seq<TrackChoice>>) -> Seq<
    TrackState,
> {
    let cs = match choices {
        Some(c) => c,
        None => fallback_choices(),
    };
    tracks.map_values(|t: AudioTrack| state_under(cs, t.idx))
}

fn choice_for(cs: &Vec<TrackChoice>, idx: u32) -> (r: Option<TrackChoice>)
    ensures
        r == find_choice(cs@, idx),
{
    let mut i: usize = 0;
    assert(cs@.subrange(0, cs@.len() as int) =~= cs@);
    while i < cs.len()
        invariant
            i <= cs.len(),
            find_choice(cs@, idx) == find_choice(cs@.subrange(i as int, cs@.len() as int), idx),
        decreases cs.len() - i,
    {
        let ghost rest = cs@.subrange(i as int, cs@.len() as int);
        assert(rest.drop_first() =~= cs@.subrange(i + 1, cs@.len() as int));
        assert(rest[0] == cs@[i as int]);
        if cs[i].idx == idx {
            return Some(cs[i]);
        }
        i = i + 1;
    }
    None
}

/// Default mixer states from the mix script's choices (`None` when the
/// script is missing or failed).
pub fn default_tracks(tracks: &Vec<AudioTrack>, choices: Option<Vec<TrackChoice>>) -> (r: Vec<
    TrackState,
>)
    ensures
        r@ == spec_default_tracks(tracks@, choice_seq(choices)),
{
    let cs = match choices {
        Some(c) => c,
        None => {
            let mut v = Vec::new();
            v.push(TrackChoice { idx: 0, volume_bits: VOLUME_ONE });
            assert(v@ =~= fallback_choices());
            v
        },
    };
    let mut out: Vec<TrackState> = Vec::new();
    let mut i: usize = 0;
    while i < tracks.len()
        invariant
            i <= tracks.len(),
            cs@ == (match choice_seq(choices) {
                Some(c) => c,
                None => fallback_choices(),
            }),
            out@ == tracks@.subrange(0, i as int).map_values(
                |t: AudioTrack| state_under(cs@, t.idx),
            ),
        decreases tracks.len() - i,
    {
        let idx = tracks[i].idx;
        let st = match choice_for(&cs, idx) {
            Some(c) => TrackState { idx, volume_bits: c.volume_bits, muted: false },
            None => TrackState { idx, volume_bits: VOLUME_ONE, muted: true },
        };
        out.push(st);
        i = i + 1;
        assert(out@ =~= tracks@.subrange(0, i as int).map_values(
            |t: AudioTrack| state_under(cs@, t.idx),
        ));
    }
    assert(tracks@.subrange(0, tracks@.len() as int) =~= tracks@);
    out
}

/// The mixer state of every track of a clip, in track order (what the audio
/// mix of a clip is rendered with).
pub fn mix_states(clip: &Clip) -> (r: Vec<TrackState>)
    ensures
        r@ == clip.probe.tracks@.map_values(
            |t: AudioTrack| spec_state_for(clip.track_state@, t.idx),
        ),
{
    let mut out: Vec<TrackState> = Vec::new();
    let mut i: usize = 0;
    while i < clip.probe.tracks.len()
        invariant
            i <= clip.probe.tracks@.len(),
            out@ == clip.probe.tracks@.subrange(0, i as int).map_values(
                |t: AudioTrack| spec_state_for(clip.track_state@, t.idx),
            ),
        decreases clip.probe.tracks@.len() - i,
    {
        out.push(clip.state_for(clip.probe.tracks[i].idx));
        i = i + 1;
        assert(out@ =~= clip.probe.tracks@.subrange(0, i as int).map_values(
            |t: AudioTrack| spec_state_for(clip.track_state@, t.idx),
        ));
    }
    assert(clip.probe.tracks@.subrange(0, clip.probe.tracks@.len() as int) =~= clip.probe.tracks@);
    out
}

/// A freshly processed clip: the probe and thumbnail results, the metadata
/// script's game, metadata and tags (all empty when the script is missing or
/// failed), default mixer states from the mix script, and no user state.
pub fn assemble_clip(
    path: &str,
    mtime: i64,
    size: u64,
    probe: ClipProbe,
    thumb_path: Option<String>,
    script: Option<ScriptResult>,
    mix: Option<Vec<TrackChoice>>,
    added_at: i64,
) -> (r: Clip)
    ensures
        r.path@ == path@,
        r.mtime == mtime,
        r.size == size,
        r.probe == probe,
        !r.favorite,
        r.thumb_path == thumb_path,
        r.title is None,
        r.mark_start is None && r.mark_end is None,
        r.mtags@.len() == 0,
        r.track_state@.len() == 0,
        r.added_at == added_at,
        match script {
            Some(s) => r.game == s.game && r.meta == s.meta && r.stags == s.tags,
            None => r.game is None && r.meta@.len() == 0 && r.stags@.len() == 0,
        },
        r.default_tracks@ == (if probe.tracks@.len() == 0 {
            Seq::<TrackState>::empty()
        } else {
            spec_default_tracks(probe.tracks@, choice_seq(mix))
        }),
{
    let defaults = if probe.tracks.len() == 0 {
        Vec::new()
    } else {
        default_tracks(&probe.tracks, mix)
    };
    let (game, meta, stags) = match script {
        Some(s) => (s.game, s.meta, s.tags),
        None => (None, Vec::new(), Vec::new()),
    };
    Clip {
        path: copy_str(path),
        mtime,
        size,
        probe,
        favorite: false,
        thumb_path,
        title: None,
        game,
        mark_start: None,
        mark_end: None,
        stags,
        mtags: Vec::new(),
        meta,
        track_state: Vec::new(),
        default_tracks: defaults,
        added_at,
    }
}

/// The first choice for track `idx` is the first entry of `cs` with that
/// index; there is none exactly when no entry has it.
proof fn lemma_find_choice(cs: Seq<TrackChoice>, idx: u32)
    ensures
        find_choice(cs, idx) is None <==> (forall|j: int| 0 <= j < cs.len() ==> (#[trigger] cs[j]).idx
            != idx),
        find_choice(cs, idx) matches Some(c) ==> exists|j: int|
            0 <= j < cs.len() && cs[j] == c && c.idx == idx && (forall|k: int|
                0 <= k < j ==> (#[trigger] cs[k]).idx != idx),
    decreases cs.len(),
{
    if cs.len() > 0 {
        let d = cs.drop_first();
        lemma_find_choice(d, idx);
        if cs[0].idx != idx {
            assert forall|j: int| 0 <= j < d.len() implies #[trigger] d[j] == cs[j + 1] by {}
            if find_choice(d, idx) is None {
                assert forall|j: int| 0 <= j < cs.len() implies (#[trigger] cs[j]).idx != idx by {
                    if j > 0 {
                        assert(cs[j] == d[j - 1]);
                    }
                }
            } else {
                let c = find_choice(d, idx).unwrap();
                let j = choose|j: int|
                    0 <= j < d.len() && d[j] == c && c.idx == idx && (forall|k: int|
                        0 <= k < j ==> (#[trigger] d[k]).idx != idx);
                assert(cs[j + 1] == c);
                assert forall|k: int| 0 <= k < j + 1 implies (#[trigger] cs[k]).idx != idx by {
                    if k > 0 {
                        assert(cs[k] == d[k - 1]);
                    }
                }
                assert(d[j].idx == idx);
            }
        } else {
            assert(cs[0] == cs[0]);
        }
    }
}

/// The default mix of a clip's tracks, one state per track in track order.
/// When the mix script answered (`Some`, even with no choice at all), a track
/// plays exactly when some choice names it, at the volume of the first such
/// choice; every other track is muted at full volume. Without an answer only
/// track 0 plays, at full volume.
pub proof fn law_default_mix_follows_the_script(
    tracks: Seq<AudioTrack>,
    choices: Option<Seq<TrackChoice>>,
    k: int,
)
    requires
        0 <= k < tracks.len(),
    ensures
        spec_default_tracks(tracks, choices).len() == tracks.len(),
        spec_default_tracks(tracks, choices)[k].idx == tracks[k].idx,
        choices matches Some(cs) ==> (spec_default_tracks(tracks, choices)[k].muted <==> (forall|
            j: int,
        | 0 <= j < cs.len() ==> (#[trigger] cs[j]).idx != tracks[k].idx)),
        choices matches Some(cs) ==> (!spec_default_tracks(tracks, choices)[k].muted ==> exists|
            j: int,
        |
            0 <= j < cs.len() && cs[j].idx == tracks[k].idx && spec_default_tracks(
                tracks,
                choices,
            )[k].volume_bits == cs[j].volume_bits && (forall|i: int|
                0 <= i < j ==> (#[trigger] cs[i]).idx != tracks[k].idx)),
        spec_default_tracks(tracks, choices)[k].muted ==> spec_default_tracks(
            tracks,
            choices,
        )[k].volume_bits == VOLUME_ONE,
        choices is None ==> (spec_default_tracks(tracks, choices)[k].muted <==> tracks[k].idx != 0),
        choices is None ==> spec_default_tracks(tracks, choices)[k].volume_bits == VOLUME_ONE,
{
    let cs = match choices {
        Some(c) => c,
        None => fallback_choices(),
    };
    lemma_find_choice(cs, tracks[k].idx);
    if choices is None {
        assert(cs[0].idx == 0);
        assert(cs.len() == 1);
    }
}

/// A forced scan processes every file found on disk, in disk order.
pub proof fn law_forced_scan_processes_all(disk: Seq<Fingerprinted>, existing: Seq<Fingerprinted>)
    ensures
        spec_todo(disk, existing, true) == fp_views(disk),
    decreases disk.len(),
{
    if disk.len() > 0 {
        law_forced_scan_processes_all(disk.drop_last(), existing);
        assert(fp_views(disk) =~= fp_views(disk.drop_last()).push((disk.last().0@, disk.last().1)));
    }
}

/// An unforced scan processes nothing when every file on disk is stored
/// with the fingerprint it has on disk.
pub proof fn law_unchanged_files_skipped(disk: Seq<Fingerprinted>, existing: Seq<Fingerprinted>)
    requires
        forall|i: int| 0 <= i < disk.len() ==> lookup_fp(existing, (#[trigger] disk[i]).0@) == Some(
            disk[i].1,
        ),
    ensures
        spec_todo(disk, existing, false).len() == 0,
    decreases disk.len(),
{
    if disk.len() > 0 {
        let d = disk.drop_last();
        assert forall|i: int| 0 <= i < d.len() implies lookup_fp(existing, (#[trigger] d[i]).0@)
            == Some(d[i].1) by {
            assert(d[i] == disk[i]);
        }
        law_unchanged_files_skipped(d, existing);
        assert(disk.last() == disk[disk.len() - 1]);
    }
}

/// No stored clip whose file is still on disk is dropped.
pub proof fn law_present_files_kept(existing: Seq<Fingerprinted>, disk: Seq<Fingerprinted>, p: Seq<char>)
    requires
        lookup_fp(disk, p) is Some,
    ensures
        !spec_removed(existing, disk).contains(p),
    decreases existing.len(),
{
    if existing.len() > 0 {
        law_present_files_kept(existing.drop_last(), disk, p);
        let r = spec_removed(existing.drop_last(), disk);
        if lookup_fp(disk, existing.last().0@) is None {
            assert(existing.last().0@ != p);
            if r.push(existing.last().0@).contains(p) {
                let k = choose|k: int| 0 <= k < r.push(existing.last().0@).len() && r.push(existing.last().0@)[k] == p;
                if k < r.len() {
                    assert(r[k] == p);
                }
            }
        }
    }
}

/// A path of a removed clip has no entry on disk.
proof fn lemma_removed_absent(existing: Seq<Fingerprinted>, disk: Seq<Fingerprinted>, p: Seq<char>)
    requires
        spec_removed(existing, disk).contains(p),
    ensures
        lookup_fp(disk, p) is None,
    decreases existing.len(),
{
    let r = spec_removed(existing.drop_last(), disk);
    if r.contains(p) {
        lemma_removed_absent(existing.drop_last(), disk, p);
    } else {
        let k = choose|k: int| 0 <= k < spec_removed(existing, disk).len() && spec_removed(existing, disk)[k] == p;
        if k < r.len() {
            assert(r[k] == p);
        }
    }
}

/// An entry on disk is found by its path.
proof fn lemma_lookup_finds(disk: Seq<Fingerprinted>, j: int, p: Seq<char>)
    requires
        0 <= j < disk.len(),
        spec_path_order(disk[j].0@, p) == 0,
    ensures
        lookup_fp(disk, p) is Some,
    decreases disk.len(),
{
    if spec_path_order(disk[0].0@, p) != 0 {
        assert(j > 0);
        assert(disk.drop_first()[j - 1] == disk[j]);
        lemma_lookup_finds(disk.drop_first(), j - 1, p);
    }
}

/// Every file to process is a file on disk.
proof fn lemma_todo_on_disk(disk: Seq<Fingerprinted>, existing: Seq<Fingerprinted>, force: bool, k: int)
    requires
        0 <= k < spec_todo(disk, existing, force).len(),
    ensures
        exists|j: int| 0 <= j < disk.len() && spec_todo(disk, existing, force)[k].0 == (#[trigger] disk[j]).0@,
    decreases disk.len(),
{
    let d = disk.drop_last();
    let r = spec_todo(d, existing, force);
    if k < r.len() {
        lemma_todo_on_disk(d, existing, force, k);
        let j = choose|j: int| 0 <= j < d.len() && r[k].0 == (#[trigger] d[j]).0@;
        assert(disk[j] == d[j]);
    } else {
        assert(disk[disk.len() - 1] == disk.last());
    }
}

/// A scan never both drops a clip and processes a file with its path.
pub proof fn law_removed_not_processed(
    disk: Seq<Fingerprinted>,
    existing: Seq<Fingerprinted>,
    force: bool,
    p: Seq<char>,
    k: int,
)
    requires
        spec_removed(existing, disk).contains(p),
        0 <= k < spec_todo(disk, existing, force).len(),
    ensures
        spec_path_order(spec_todo(disk, existing, force)[k].0, p) != 0,
{
    lemma_removed_absent(existing, disk, p);
    lemma_todo_on_disk(disk, existing, force, k);
    let j = choose|j: int| 0 <= j < disk.len() && spec_todo(disk, existing, force)[k].0 == (#[trigger] disk[j]).0@;
    if spec_path_order(disk[j].0@, p) == 0 {
        lemma_lookup_finds(disk, j, p);
    }
}

} // verus!
