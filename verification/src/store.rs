//! What the clip store keeps when a scanned clip is upserted.
//!
//! A rescan refreshes everything that comes from probing and from the
//! metadata script (file facts, tracks, metadata, script tags), and keeps what
//! the user owns: the favorite flag, the highlight marks, the manual tags, the
//! per-track mixer state and the time the clip was first added. A script
//! title or game replaces the stored one only when it is not blank.
use vstd::prelude::*;
use crate::library::{sort_strings, has_tag, sorted_strs};
use crate::model::Clip;
use crate::text::{spec_trim, trim, views};

verus! {

/// A script-provided text that counts: set and not blank once trimmed.
pub open spec fn script_text(t: Option<String>) -> Option<Seq<char>> {
    match t {
        Some(s) => if spec_trim(s@).len() > 0 {
            Some(s@)
        } else {
            None
        },
        None => None,
    }
}

/// The script tags that a rescan stores: each tag once, in first-occurrence
/// order, leaving out those the user has added by hand (a tag is either a
/// manual one or a script one).
pub open spec fn unique_without(ts: Seq<Seq<char>>, manual: Seq<Seq<char>>) -> Seq<Seq<char>>
    decreases ts.len(),
{
    if ts.len() == 0 {
        ts
    } else {
        let r = unique_without(ts.drop_last(), manual);
        if !manual.contains(ts.last()) && !ts.drop_last().contains(ts.last()) {
            r.push(ts.last())
        } else {
            r
        }
    }
}

/// The stored value of a text field after a rescan: the script's value when
/// it is not blank, else what was stored before (nothing for a new clip).
pub open spec fn kept_text(scanned: Option<String>, stored: Option<Clip>, title: bool) -> Option<
    String,
> {
    if script_text(scanned) is Some {
        scanned
    } else {
        match stored {
            Some(s) => if title {
                s.title
            } else {
                s.game
            },
            None => None,
        }
    }
}

/// `r` is the record a store holds after upserting `scanned` over `stored`
/// (`None` for a clip not stored yet).
pub open spec fn upserted(stored: Option<Clip>, scanned: Clip, r: Clip) -> bool {
    &&& r.path == scanned.path
    &&& r.mtime == scanned.mtime
    &&& r.size == scanned.size
    &&& r.probe == scanned.probe
    &&& r.thumb_path == scanned.thumb_path
    &&& r.meta == scanned.meta
    &&& r.default_tracks == scanned.default_tracks
    &&& r.title == kept_text(scanned.title, stored, true)
    &&& r.game == kept_text(scanned.game, stored, false)
    &&& match stored {
        Some(s) => {
            &&& r.favorite == s.favorite
            &&& r.added_at == s.added_at
            &&& r.mark_start == s.mark_start
            &&& r.mark_end == s.mark_end
            &&& r.mtags == s.mtags
            &&& r.track_state == s.track_state
        },
        None => {
            &&& !r.favorite
            &&& r.added_at == scanned.added_at
            &&& r.mark_start is None
            &&& r.mark_end is None
            &&& r.mtags@.len() == 0
            &&& r.track_state@.len() == 0
        },
    }
    &&& sorted_strs(views(r.stags@))
    &&& views(r.stags@).to_multiset() == unique_without(views(scanned.stags@), views(r.mtags@)).to_multiset()
}

/// A tag is among the stored script tags exactly when the script gave it
/// and it is not a manual tag.
pub proof fn lemma_unique_without_contains(ts: Seq<Seq<char>>, manual: Seq<Seq<char>>, t: Seq<char>)
    ensures
        unique_without(ts, manual).contains(t) <==> (ts.contains(t) && !manual.contains(t)),
    decreases ts.len(),
{
    if ts.len() > 0 {
        let p = ts.drop_last();
        lemma_unique_without_contains(p, manual, t);
        let r = unique_without(p, manual);
        assert(ts =~= p.push(ts.last()));
        if ts.contains(t) && !p.contains(t) {
            assert(ts.last() == t) by {
                let k = choose|k: int| 0 <= k < ts.len() && ts[k] == t;
                if k < p.len() {
                    assert(p[k] == t);
                }
            }
        }
        if p.contains(t) {
            let k = choose|k: int| 0 <= k < p.len() && p[k] == t;
            assert(ts[k] == t);
        }
        if !manual.contains(ts.last()) && !p.contains(ts.last()) {
            assert(r.push(ts.last())[r.len() as int] == ts.last());
            if r.push(ts.last()).contains(t) && t != ts.last() {
                let k = choose|k: int| 0 <= k < r.push(ts.last()).len() && r.push(ts.last())[k] == t;
                assert(r[k] == t);
            }
            if r.contains(t) {
                let k = choose|k: int| 0 <= k < r.len() && r[k] == t;
                assert(r.push(ts.last())[k] == t);
            }
        }
        if ts.last() == t {
            assert(ts[ts.len() - 1] == t);
        }
    }
}

/// The script tags of `scanned` to store beside the manual tags `manual`,
/// each once, in first-occurrence order.
fn script_tags(scanned: Vec<String>, manual: &Vec<String>) -> (r: Vec<String>)
    ensures
        views(r@) == unique_without(views(scanned@), views(manual@)),
{
    let ghost orig = views(scanned@);
    let ghost man = views(manual@);
    let ghost n = orig.len();
    let mut rest = scanned;
    let mut out: Vec<String> = Vec::new();
    assert(orig.subrange(0, 0) =~= Seq::<Seq<char>>::empty());
    assert(views(rest@) =~= orig.subrange(0, n as int));
    while rest.len() > 0
        invariant
            n == orig.len(),
            man == views(manual@),
            rest.len() <= n,
            views(rest@) == orig.subrange(n - rest.len(), n as int),
            views(out@) == unique_without(orig.subrange(0, n - rest.len()), man),
        decreases rest.len(),
    {
        let ghost k = n - rest.len();
        let ghost before = rest@;
        let x = rest.remove(0);
        assert(views(before)[0] == before[0]@);
        assert(x@ == orig[k]);
        assert(rest@ =~= before.subrange(1, before.len() as int));
        assert(views(rest@) =~= views(before).subrange(1, before.len() as int));
        assert(views(rest@) =~= orig.subrange(k + 1, n as int));
        let ghost pre = orig.subrange(0, k + 1);
        assert(pre.drop_last() =~= orig.subrange(0, k));
        assert(pre.last() == x@);
        proof {
            lemma_unique_without_contains(orig.subrange(0, k), man, x@);
        }
        let is_manual = has_tag(manual, x.as_str());
        let seen = has_tag(&out, x.as_str());
        if !is_manual && !seen {
            let ghost vo = views(out@);
            out.push(x);
            assert(views(out@) =~= vo.push(pre.last()));
        }
    }
    assert(orig.subrange(0, n as int) =~= orig);
    out
}

/// `true` when the script gave a text that is not blank.
fn is_script_text(t: &Option<String>) -> (r: bool)
    ensures
        r == (script_text(*t) is Some),
{
    match t {
        Some(s) => !trim(s.as_str()).is_empty(),
        None => false,
    }
}

/// The record the store holds after upserting the freshly scanned clip
/// `scanned` over the stored record `stored` (`None` when the clip is new).
/// Scan and script data come from `scanned`; favorite, marks, manual tags,
/// mixer state and the time added stay as stored (a new clip starts with
/// none of them). The script's title and game replace the stored ones only
/// when not blank. The script tags are stored sorted, each once, leaving out
/// those that are manual tags.
pub fn merge_upsert(stored: Option<Clip>, scanned: Clip) -> (r: Clip)
    ensures
        upserted(stored, scanned, r),
{
    let ghost st = stored;
    let ghost sc = scanned;
    let keep_title = is_script_text(&scanned.title);
    let keep_game = is_script_text(&scanned.game);
    let (favorite, added_at, mark_start, mark_end, mtags, track_state, old_title, old_game) =
        match stored {
        Some(s) => (
            s.favorite,
            s.added_at,
            s.mark_start,
            s.mark_end,
            s.mtags,
            s.track_state,
            s.title,
            s.game,
        ),
        None => (false, scanned.added_at, None, None, Vec::new(), Vec::new(), None, None),
    };
    let title = if keep_title {
        scanned.title
    } else {
        old_title
    };
    let game = if keep_game {
        scanned.game
    } else {
        old_game
    };
    let unique = script_tags(scanned.stags, &mtags);
    let stags = sort_strings(unique);
    Clip {
        path: scanned.path,
        mtime: scanned.mtime,
        size: scanned.size,
        probe: scanned.probe,
        favorite,
        thumb_path: scanned.thumb_path,
        title,
        game,
        mark_start,
        mark_end,
        stags,
        mtags,
        meta: scanned.meta,
        track_state,
        default_tracks: scanned.default_tracks,
        added_at,
    }
}

/// A rescan keeps the user's state of a stored clip: favorite, highlight
/// marks, manual tags, per-track mixer state and the time it was added.
pub proof fn law_rescan_keeps_user_state(stored: Clip, scanned: Clip, r: Clip)
    requires
        upserted(Some(stored), scanned, r),
    ensures
        r.favorite == stored.favorite,
        r.mark_start == stored.mark_start && r.mark_end == stored.mark_end,
        r.mtags == stored.mtags,
        r.track_state == stored.track_state,
        r.added_at == stored.added_at,
{
}

/// A rescan of a stored clip gives a record that has, at once, the user's
/// state of the stored one (favorite, marks, manual tags, mixer state, time
/// added) and the scan's file data (time, size, probe with its tracks, meta,
/// default mix), with script tags that are the scan's tags minus the manual
/// ones, each once and sorted.
pub proof fn law_rescan_merges(stored: Clip, scanned: Clip, r: Clip, t: Seq<char>)
    requires
        upserted(Some(stored), scanned, r),
    ensures
        r.favorite == stored.favorite && r.added_at == stored.added_at,
        r.mark_start == stored.mark_start && r.mark_end == stored.mark_end,
        r.mtags == stored.mtags && r.track_state == stored.track_state,
        r.path == scanned.path && r.mtime == scanned.mtime && r.size == scanned.size,
        r.probe == scanned.probe && r.meta == scanned.meta,
        r.default_tracks == scanned.default_tracks,
        sorted_strs(views(r.stags@)),
        views(r.stags@).no_duplicates(),
        views(r.stags@).contains(t) <==> (views(scanned.stags@).contains(t) && !views(
            stored.mtags@,
        ).contains(t)),
{
    law_rescan_replaces_script_tags(stored, scanned, r, t);
    let u = unique_without(views(scanned.stags@), views(stored.mtags@));
    lemma_unique_without_no_dups(views(scanned.stags@), views(stored.mtags@));
    u.lemma_multiset_has_no_duplicates();
    views(r.stags@).lemma_multiset_has_no_duplicates_conv();
}

/// The script tags kept by a rescan hold no tag twice.
proof fn lemma_unique_without_no_dups(ts: Seq<Seq<char>>, manual: Seq<Seq<char>>)
    ensures
        unique_without(ts, manual).no_duplicates(),
    decreases ts.len(),
{
    if ts.len() > 0 {
        let d = ts.drop_last();
        let l = ts.last();
        lemma_unique_without_no_dups(d, manual);
        let r = unique_without(d, manual);
        if !manual.contains(l) && !d.contains(l) {
            lemma_unique_without_contains(d, manual, l);
            assert forall|i: int, j: int|
                0 <= i < r.push(l).len() && 0 <= j < r.push(l).len() && i != j implies r.push(
                l,
            )[i] != r.push(l)[j] by {
                if i == r.len() {
                    assert(r[j] != l);
                } else if j == r.len() {
                    assert(r[i] != l);
                }
            }
        }
    }
}

/// A rescan's title and game overwrite the stored ones when not blank, and
/// leave them as they were otherwise (so a manual edit survives a script that
/// gives nothing).
pub proof fn law_rescan_text_fields(stored: Clip, scanned: Clip, r: Clip)
    requires
        upserted(Some(stored), scanned, r),
    ensures
        script_text(scanned.title) is Some ==> r.title == scanned.title,
        script_text(scanned.title) is None ==> r.title == stored.title,
        script_text(scanned.game) is Some ==> r.game == scanned.game,
        script_text(scanned.game) is None ==> r.game == stored.game,
{
}

/// After a rescan the script tags are exactly the new script's tags that are
/// not manual tags: old script tags are gone and manual tags are untouched.
pub proof fn law_rescan_replaces_script_tags(stored: Clip, scanned: Clip, r: Clip, t: Seq<char>)
    requires
        upserted(Some(stored), scanned, r),
    ensures
        views(r.stags@).contains(t) <==> (views(scanned.stags@).contains(t) && !views(
            stored.mtags@,
        ).contains(t)),
        views(r.mtags@) == views(stored.mtags@),
{
    let u = unique_without(views(scanned.stags@), views(stored.mtags@));
    lemma_unique_without_contains(views(scanned.stags@), views(stored.mtags@), t);
    vstd::seq_lib::to_multiset_contains(views(r.stags@), t);
    vstd::seq_lib::to_multiset_contains(u, t);
}

} // verus!
