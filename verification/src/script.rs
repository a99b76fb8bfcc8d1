//! What the user's metadata and mix scripts see of a clip, and how their
//! results are read: the metadata script returns a map whose `tags` entry
//! lists tags, whose `game` entry names the game and whose other entries are
//! shown as metadata; the mix script returns a list of enabled tracks.
use vstd::prelude::*;
use crate::model::{AudioTrack, ClipProbe, VOLUME_ONE};
use crate::paths::{extension, file_stem, parent, spec_extension, spec_file_stem, spec_parent};
use crate::text::{copy_str, copy_string, spec_trim, str_eq, trim, views};

verus! {

/// Result of the metadata script: the game, the remaining entries as
/// metadata (in the script map's order), and the tags.
pub struct ScriptResult {
    pub game: Option<String>,
    pub meta: Vec<(String, String)>,
    pub tags: Vec<String>,
}

/// The clip handed to a script.
pub struct ClipInput<'a> {
    pub path: &'a str,
    pub mtime: i64,
    pub size: u64,
    pub probe: &'a ClipProbe,
}

/// One value of the script's result map, as rendered by the engine: its text
/// form, and its items' text forms when it is an array.
pub struct ScriptValue {
    pub text: String,
    pub items: Option<Vec<String>>,
}

/// An enabled track of the default mix: its index and volume (bits of an `f64`).
#[derive(Clone, Copy, Debug, PartialEq, Eq, Structural)]
pub struct TrackChoice {
    pub idx: u32,
    pub volume_bits: u64,
}

/// One item of the mix script's result list, as read by the engine: the
/// integer under `track` when the item is a map holding one, and the float
/// under `volume` (as bits) when present.
#[derive(Clone, Copy, Debug, PartialEq, Eq, Structural)]
pub struct MixItem {
    pub track: Option<i64>,
    pub volume_bits: Option<u64>,
}

/// The view of one result entry: key, text, items.
pub open spec fn entry_view(e: (String, ScriptValue)) -> (Seq<char>, Seq<char>, Option<Seq<Seq<char>>>) {
    (
        e.0@,
        e.1.text@,
        match e.1.items {
            Some(v) => Some(views(v@)),
            None => None,
        },
    )
}

/// Reading of the metadata script's map (entries in map order): the last
/// `tags` array gives the tags, `game` gives the game unless blank, every
/// other entry is metadata.
pub open spec fn spec_interpret(entries: Seq<(Seq<char>, Seq<char>, Option<Seq<Seq<char>>>)>) -> (
    Option<Seq<char>>,
    Seq<(Seq<char>, Seq<char>)>,
    Seq<Seq<char>>,
)
    decreases entries.len(),
{
    if entries.len() == 0 {
        (None, Seq::empty(), Seq::empty())
    } else {
        let (game, meta, tags) = spec_interpret(entries.drop_last());
        let (k, text, items) = entries.last();
        if k == "tags"@ {
            match items {
                Some(v) => (game, meta, v),
                None => (game, meta, tags),
            }
        } else if k == "game"@ {
            (if spec_trim(text).len() > 0 {
                Some(text)
            } else {
                None
            }, meta, tags)
        } else {
            (game, meta.push((k, text)), tags)
        }
    }
}

pub open spec fn pair_views(v: Seq<(String, String)>) -> Seq<(Seq<char>, Seq<char>)> {
    v.map_values(|p: (String, String)| (p.0@, p.1@))
}

fn copy_strings(v: &Vec<String>) -> (r: Vec<String>)
    ensures
        views(r@) == views(v@),
{
    let mut r: Vec<String> = Vec::new();
    let mut i: usize = 0;
    while i < v.len()
        invariant
            i <= v.len(),
            views(r@) == views(v@).subrange(0, i as int),
        decreases v.len() - i,
    {
        let ghost before = views(r@);
        r.push(copy_string(&v[i]));
        assert(views(r@) =~= before.push(v@[i as int]@));
        i = i + 1;
        assert(views(r@) =~= views(v@).subrange(0, i as int));
    }
    assert(views(v@).subrange(0, v@.len() as int) =~= views(v@));
    r
}

/// Reads the metadata script's result map (see `spec_interpret`).
pub fn interpret(out: &Vec<(String, ScriptValue)>) -> (r: ScriptResult)
    ensures
        ({
            let (game, meta, tags) = spec_interpret(out@.map_values(|e: (String, ScriptValue)| entry_view(e)));
            &&& r.game.deep_view() == game
            &&& pair_views(r.meta@) == meta
            &&& views(r.tags@) == tags
        }),
{
    let ghost ev = out@.map_values(|e: (String, ScriptValue)| entry_view(e));
    let mut game: Option<String> = None;
    let mut meta: Vec<(String, String)> = Vec::new();
    let mut tags: Vec<String> = Vec::new();
    let mut i: usize = 0;
    assert(ev.subrange(0, 0) =~= Seq::<(Seq<char>, Seq<char>, Option<Seq<Seq<char>>>)>::empty());
    while i < out.len()
        invariant
            ev == out@.map_values(|e: (String, ScriptValue)| entry_view(e)),
            i <= out.len(),
            ({
                let (g, m, t) = spec_interpret(ev.subrange(0, i as int));
                &&& game.deep_view() == g
                &&& pair_views(meta@) == m
                &&& views(tags@) == t
            }),
        decreases out.len() - i,
    {
        let ghost pre = ev.subrange(0, i + 1);
        assert(pre.drop_last() =~= ev.subrange(0, i as int));
        assert(pre.last() == entry_view(out@[i as int]));
        let k = &out[i].0;
        let v = &out[i].1;
        if str_eq(k.as_str(), "tags") {
            match &v.items {
                Some(items) => {
                    tags = copy_strings(items);
                },
                None => {},
            }
        } else if str_eq(k.as_str(), "game") {
            if trim(v.text.as_str()).is_empty() {
                game = None;
            } else {
                game = Some(copy_string(&v.text));
            }
        } else {
            let ghost before = pair_views(meta@);
            meta.push((copy_string(k), copy_string(&v.text)));
            assert(pair_views(meta@) =~= before.push((k@, v.text@)));
        }
        i = i + 1;
    }
    assert(ev.subrange(0, out@.len() as int) =~= ev);
    ScriptResult { game, meta, tags }
}

/// Reading of the mix script's list: every item naming a track becomes a
/// choice of that track (the integer truncated to 32 bits), at the given
/// volume or full volume.
pub open spec fn spec_mix_choices(items: Seq<MixItem>) -> Seq<TrackChoice>
    decreases items.len(),
{
    if items.len() == 0 {
        Seq::empty()
    } else {
        let r = spec_mix_choices(items.drop_last());
        match items.last().track {
            Some(t) => r.push(
                TrackChoice {
                    idx: t as u32,
                    volume_bits: match items.last().volume_bits {
                        Some(v) => v,
                        None => VOLUME_ONE,
                    },
                },
            ),
            None => r,
        }
    }
}

/// Reads the mix script's list (see `spec_mix_choices`).
pub fn interpret_mix(items: &Vec<MixItem>) -> (r: Vec<TrackChoice>)
    ensures
        r@ == spec_mix_choices(items@),
{
    let mut r: Vec<TrackChoice> = Vec::new();
    let mut i: usize = 0;
    assert(items@.subrange(0, 0) =~= Seq::<MixItem>::empty());
    while i < items.len()
        invariant
            i <= items.len(),
            r@ == spec_mix_choices(items@.subrange(0, i as int)),
        decreases items.len() - i,
    {
        let ghost pre = items@.subrange(0, i + 1);
        assert(pre.drop_last() =~= items@.subrange(0, i as int));
        let it = items[i];
        match it.track {
            Some(t) => {
                let v = match it.volume_bits {
                    Some(v) => v,
                    None => VOLUME_ONE,
                };
                r.push(TrackChoice { idx: t as u32, volume_bits: v });
            },
            None => {},
        }
        i = i + 1;
    }
    assert(items@.subrange(0, items@.len() as int) =~= items@);
    r
}

/// `Path::file_name` of a path, as text.
pub uninterp spec fn spec_file_name(p: Seq<char>) -> Option<Seq<char>>;

/// The final component of `p` (`Path::file_name`).
#[verifier::external_body]
fn file_name(p: &str) -> (r: Option<String>)
    ensures
        r.deep_view() == spec_file_name(p@),
{
    match std::path::Path::new(p).file_name() {
        Some(s) => Some(s.to_string_lossy().into_owned()),
        None => None,
    }
}

/// The fields a script sees of a clip.
pub struct InputFields {
    pub path: String,
    pub filename: String,
    pub stem: String,
    pub ext: String,
    pub dir: String,
    pub size: i64,
    pub mtime: i64,
    pub duration_ms: i64,
    pub width: i64,
    pub height: i64,
    pub vcodec: String,
    pub audio_tracks: Vec<String>,
    pub container_tags: Vec<(String, String)>,
}

pub open spec fn or_empty(o: Option<Seq<char>>) -> Seq<char> {
    match o {
        Some(s) => s,
        None => Seq::<char>::empty(),
    }
}

pub open spec fn track_labels(ts: Seq<AudioTrack>) -> Seq<Seq<char>> {
    ts.map_values(|t: AudioTrack| t.label@)
}

fn unwrap_text(o: Option<String>) -> (r: String)
    ensures
        r@ == or_empty(o.deep_view()),
{
    match o {
        Some(s) => s,
        None => String::new(),
    }
}

/// The clip as a script sees it: the path and its file name, stem,
/// extension and directory (empty when missing), size and sizes of the
/// probe as 64-bit signed integers, the codec, the track labels and the
/// container tags.
pub fn input_fields(input: &ClipInput) -> (r: InputFields)
    ensures
        r.path@ == input.path@,
        r.filename@ == or_empty(spec_file_name(input.path@)),
        r.stem@ == or_empty(spec_file_stem(input.path@)),
        r.ext@ == or_empty(spec_extension(input.path@)),
        r.dir@ == or_empty(spec_parent(input.path@)),
        r.size == input.size as i64,
        r.mtime == input.mtime,
        r.duration_ms == input.probe.duration_ms as i64,
        r.width == input.probe.width as i64,
        r.height == input.probe.height as i64,
        r.vcodec@ == input.probe.vcodec@,
        views(r.audio_tracks@) == track_labels(input.probe.tracks@),
        pair_views(r.container_tags@) == pair_views(input.probe.container_tags@),
{
    let p = input.path;
    let mut labels: Vec<String> = Vec::new();
    let mut i: usize = 0;
    while i < input.probe.tracks.len()
        invariant
            i <= input.probe.tracks@.len(),
            views(labels@) == track_labels(input.probe.tracks@).subrange(0, i as int),
        decreases input.probe.tracks@.len() - i,
    {
        let ghost before = views(labels@);
        labels.push(copy_string(&input.probe.tracks[i].label));
        assert(views(labels@) =~= before.push(input.probe.tracks@[i as int].label@));
        i = i + 1;
        assert(views(labels@) =~= track_labels(input.probe.tracks@).subrange(0, i as int));
    }
    assert(track_labels(input.probe.tracks@).subrange(0, input.probe.tracks@.len() as int)
        =~= track_labels(input.probe.tracks@));
    let mut tags: Vec<(String, String)> = Vec::new();
    let mut j: usize = 0;
    while j < input.probe.container_tags.len()
        invariant
            j <= input.probe.container_tags@.len(),
            pair_views(tags@) == pair_views(input.probe.container_tags@).subrange(0, j as int),
        decreases input.probe.container_tags@.len() - j,
    {
        let (k, v) = &input.probe.container_tags[j];
        let ghost before = pair_views(tags@);
        tags.push((copy_string(k), copy_string(v)));
        assert(pair_views(tags@) =~= before.push((k@, v@)));
        j = j + 1;
        assert(pair_views(tags@) =~= pair_views(input.probe.container_tags@).subrange(0, j as int));
    }
    assert(pair_views(input.probe.container_tags@).subrange(0, input.probe.container_tags@.len() as int)
        =~= pair_views(input.probe.container_tags@));
    InputFields {
        path: copy_str(p),
        filename: unwrap_text(file_name(p)),
        stem: unwrap_text(file_stem(p)),
        ext: unwrap_text(extension(p)),
        dir: unwrap_text(parent(p)),
        size: input.size as i64,
        mtime: input.mtime,
        duration_ms: input.probe.duration_ms as i64,
        width: input.probe.width as i64,
        height: input.probe.height as i64,
        vcodec: copy_string(&input.probe.vcodec),
        audio_tracks: labels,
        container_tags: tags,
    }
}

} // verus!
