//! The in-memory clip library: the clip list kept newest-first, and the edits
//! the user makes to a clip (favorite, title, game, manual tags, mixer state),
//! each applied to the first clip whose path equals the given one.
//! Persisting an edit is the caller's business; every edit reports whether
//! the list changed so that views can be refreshed.
use vstd::prelude::*;
use crate::model::{Clip, TrackState, nonempty_field};
use crate::paths::{join_path, path_order, spec_join, spec_path_order};
use crate::text::{chars_of, copy_str, copy_string, spec_trim, str_eq, trim, views};

verus! {

/// Name of the application's per-user directories.
pub fn app_id() -> (r: &'static str)
    ensures
        r@ == "madalya"@,
{
    "madalya"
}

// ---------------------------------------------------------------------------
// Orders
// ---------------------------------------------------------------------------

/// Lexicographic order of character sequences (`str`'s `<`).
pub open spec fn lex_lt(a: Seq<char>, b: Seq<char>) -> bool {
    exists|k: int| #[trigger] lex_split(a, b, k)
}

/// `a` and `b` agree before `k`, and at `k` either `a` ends while `b` goes
/// on, or `a` has the smaller character.
pub open spec fn lex_split(a: Seq<char>, b: Seq<char>, k: int) -> bool {
    0 <= k <= a.len() && k <= b.len() && (forall|j: int| 0 <= j < k ==> a[j] == b[j]) && ((k
        == a.len() && k < b.len()) || (k < a.len() && k < b.len() && (a[k] as int) < (
    b[k] as int)))
}

/// No tag is followed by a smaller one.
pub open spec fn sorted_strs(s: Seq<Seq<char>>) -> bool {
    forall|i: int| 1 <= i < s.len() ==> !lex_lt(#[trigger] s[i], s[i - 1])
}

/// Library order: newer modification time first, then path order.
pub open spec fn clip_lt(x: Clip, y: Clip) -> bool {
    x.mtime > y.mtime || (x.mtime == y.mtime && spec_path_order(x.path@, y.path@) < 0)
}

/// No clip is followed by one that sorts before it.
pub open spec fn sorted_clips(s: Seq<Clip>) -> bool {
    forall|i: int| 1 <= i < s.len() ==> !clip_lt(#[trigger] s[i], s[i - 1])
}

pub proof fn lemma_lex_lt_asym(a: Seq<char>, b: Seq<char>)
    ensures
        lex_lt(a, b) ==> !lex_lt(b, a),
{
    if lex_lt(a, b) && lex_lt(b, a) {
        let k1 = choose|k: int| lex_split(a, b, k);
        let k2 = choose|k: int| lex_split(b, a, k);
        if k1 < k2 {
            assert(b[k1] == a[k1]);
        } else if k2 < k1 {
            assert(a[k2] == b[k2]);
        }
    }
}

/// Two different character sequences are ordered one way or the other.
pub proof fn lemma_lex_total(a: Seq<char>, b: Seq<char>)
    requires
        a != b,
    ensures
        lex_lt(a, b) || lex_lt(b, a),
    decreases a.len(),
{
    if a.len() == 0 {
        assert(b.len() > 0) by {
            if b.len() == 0 {
                assert(a =~= b);
            }
        }
        assert(lex_split(a, b, 0));
    } else if b.len() == 0 {
        assert(lex_split(b, a, 0));
    } else if a[0] != b[0] {
        if (a[0] as int) < (b[0] as int) {
            assert(lex_split(a, b, 0));
        } else {
            assert(lex_split(b, a, 0));
        }
    } else {
        let a1 = a.drop_first();
        let b1 = b.drop_first();
        assert(a1 != b1) by {
            if a1 =~= b1 {
                assert(a.len() == b.len());
                assert forall|i: int| 0 <= i < a.len() implies a[i] == b[i] by {
                    if i > 0 {
                        assert(a[i] == a1[i - 1] && b[i] == b1[i - 1]);
                        assert(a1[i - 1] == b1[i - 1]);
                    }
                }
                assert(a =~= b);
            }
        }
        lemma_lex_total(a1, b1);
        if lex_lt(a1, b1) {
            let k = choose|k: int| lex_split(a1, b1, k);
            assert(lex_split(a, b, k + 1)) by {
                assert forall|j: int| 0 <= j < k + 1 implies a[j] == b[j] by {
                    if j > 0 {
                        assert(a[j] == a1[j - 1] && b[j] == b1[j - 1]);
                    }
                }
            }
        } else {
            let k = choose|k: int| lex_split(b1, a1, k);
            assert(lex_split(b, a, k + 1)) by {
                assert forall|j: int| 0 <= j < k + 1 implies b[j] == a[j] by {
                    if j > 0 {
                        assert(a[j] == a1[j - 1] && b[j] == b1[j - 1]);
                    }
                }
            }
        }
    }
}

/// `s` with `x` inserted at `j` holds the same items plus `x`.
pub proof fn lemma_insert_multiset<A>(s: Seq<A>, j: int, x: A)
    requires
        0 <= j <= s.len(),
    ensures
        s.insert(j, x).to_multiset() =~= s.to_multiset().insert(x),
{
    broadcast use vstd::seq_lib::group_to_multiset_ensures;

    let t = s.insert(j, x);
    assert(t.remove(j) =~= s);
    assert(t[j] == x);
    assert(t.to_multiset().count(x) > 0) by {
        assert(t.contains(x));
    }
}

/// Lexicographic comparison of two character vectors.
fn chars_lt(a: &Vec<char>, b: &Vec<char>) -> (r: bool)
    ensures
        r == lex_lt(a@, b@),
{
    let mut i: usize = 0;
    while i < a.len() && i < b.len() && a[i] == b[i]
        invariant
            i <= a.len(),
            i <= b.len(),
            forall|j: int| 0 <= j < i ==> a@[j] == b@[j],
        decreases a.len() - i,
    {
        i = i + 1;
    }
    let r = if i == a.len() {
        i < b.len()
    } else if i == b.len() {
        false
    } else {
        a[i] < b[i]
    };
    if r {
        assert(lex_split(a@, b@, i as int));
    } else {
        assert forall|k: int| !lex_split(a@, b@, k) by {
            if lex_split(a@, b@, k) && k > i {
                assert(a@[i as int] == b@[i as int]);
            }
        }
    }
    r
}

/// `a < b` for strings.
pub fn str_lt(a: &str, b: &str) -> (r: bool)
    ensures
        r == lex_lt(a@, b@),
{
    let ca = chars_of(a);
    let cb = chars_of(b);
    chars_lt(&ca, &cb)
}

/// `x` before `y` in library order.
fn clip_before(x: &Clip, y: &Clip) -> (r: bool)
    ensures
        r == clip_lt(*x, *y),
        r ==> !clip_lt(*y, *x),
{
    if x.mtime != y.mtime {
        x.mtime > y.mtime
    } else {
        path_order(x.path.as_str(), y.path.as_str()) < 0
    }
}

/// Sorts the clips into library order (insertion sort, stable).
pub fn sort_clips(v: Vec<Clip>) -> (r: Vec<Clip>)
    ensures
        sorted_clips(r@),
        r@.to_multiset() == v@.to_multiset(),
{
    let mut rest = v;
    let mut out: Vec<Clip> = Vec::new();
    let ghost orig = rest@;
    assert(out@.to_multiset().add(rest@.to_multiset()) =~= orig.to_multiset()) by {
        broadcast use vstd::seq_lib::group_to_multiset_ensures;

    }
    while rest.len() > 0
        invariant
            sorted_clips(out@),
            out@.to_multiset().add(rest@.to_multiset()) == orig.to_multiset(),
        decreases rest.len(),
    {
        let ghost before_rest = rest@;
        let x = rest.remove(0);
        proof {
            broadcast use vstd::seq_lib::group_to_multiset_ensures;

            assert(rest@.to_multiset() =~= before_rest.to_multiset().remove(x));
            assert(before_rest.to_multiset().count(x) > 0) by {
                assert(before_rest[0] == x);
                assert(before_rest.contains(x));
            }
        }
        let mut j: usize = 0;
        let mut found = false;
        while j < out.len() && !found
            invariant
                j <= out.len(),
                found ==> j < out.len() && clip_lt(x, out@[j as int]) && !clip_lt(out@[j as int], x),
                forall|k: int| 0 <= k < j ==> !clip_lt(x, #[trigger] out@[k]),
            decreases out.len() - j + (if found { 0int } else { 1int }),
        {
            if clip_before(&x, &out[j]) {
                found = true;
            } else {
                j = j + 1;
            }
        }
        let ghost old_out = out@;
        proof {
            if found {
                assert(!clip_lt(old_out[j as int], x));
            }
        }
        out.insert(j, x);
        proof {
            assert(out@ == old_out.insert(j as int, x));
            lemma_insert_multiset(old_out, j as int, x);
            assert forall|i: int| 1 <= i < out@.len() implies !clip_lt(
                #[trigger] out@[i],
                out@[i - 1],
            ) by {
                if i < j {
                    assert(out@[i] == old_out[i] && out@[i - 1] == old_out[i - 1]);
                } else if i == j {
                    assert(out@[i - 1] == old_out[i - 1]);
                    assert(!clip_lt(x, old_out[i - 1]));
                } else if i == j + 1 {
                    assert(out@[i] == old_out[i - 1]);
                } else {
                    assert(out@[i] == old_out[i - 1] && out@[i - 1] == old_out[i - 2]);
                    assert(!clip_lt(old_out[i - 1], old_out[i - 2]));
                }
            }
            assert(out@.to_multiset().add(rest@.to_multiset()) =~= orig.to_multiset());
        }
    }
    proof {
        broadcast use vstd::seq_lib::group_to_multiset_ensures;

        assert(rest@.to_multiset() =~= vstd::multiset::Multiset::empty());
        assert(out@.to_multiset() =~= orig.to_multiset());
    }
    out
}

/// Sorts tags into ascending order (insertion sort, stable).
pub fn sort_strings(v: Vec<String>) -> (r: Vec<String>)
    ensures
        sorted_strs(views(r@)),
        views(r@).to_multiset() == views(v@).to_multiset(),
{
    let mut rest = v;
    let mut out: Vec<String> = Vec::new();
    let ghost orig = views(rest@);
    assert(views(out@).to_multiset().add(views(rest@).to_multiset()) =~= orig.to_multiset()) by {
        broadcast use vstd::seq_lib::group_to_multiset_ensures;

        assert(views(out@) =~= Seq::<Seq<char>>::empty());
    }
    while rest.len() > 0
        invariant
            sorted_strs(views(out@)),
            views(out@).to_multiset().add(views(rest@).to_multiset()) == orig.to_multiset(),
        decreases rest.len(),
    {
        let ghost before_rest = views(rest@);
        let x = rest.remove(0);
        proof {
            broadcast use vstd::seq_lib::group_to_multiset_ensures;

            assert(views(rest@) =~= before_rest.remove(0));
            assert(views(rest@).to_multiset() =~= before_rest.to_multiset().remove(x@));
            assert(before_rest.to_multiset().count(x@) > 0) by {
                assert(before_rest[0] == x@);
                assert(before_rest.contains(x@));
            }
        }
        let xc = chars_of(x.as_str());
        let mut j: usize = 0;
        let mut found = false;
        while j < out.len() && !found
            invariant
                xc@ == x@,
                j <= out.len(),
                found ==> j < out.len() && lex_lt(x@, out@[j as int]@),
                forall|k: int| 0 <= k < j ==> !lex_lt(x@, #[trigger] out@[k]@),
            decreases out.len() - j + (if found { 0int } else { 1int }),
        {
            let oc = chars_of(out[j].as_str());
            if chars_lt(&xc, &oc) {
                found = true;
            } else {
                j = j + 1;
            }
        }
        let ghost old_out = views(out@);
        proof {
            if found {
                lemma_lex_lt_asym(x@, old_out[j as int]);
            }
        }
        out.insert(j, x);
        proof {
            assert(views(out@) =~= old_out.insert(j as int, x@));
            lemma_insert_multiset(old_out, j as int, x@);
            let nv = views(out@);
            assert forall|i: int| 1 <= i < nv.len() implies !lex_lt(
                #[trigger] nv[i],
                nv[i - 1],
            ) by {
                if i < j {
                    assert(nv[i] == old_out[i] && nv[i - 1] == old_out[i - 1]);
                } else if i == j {
                    assert(nv[i - 1] == old_out[i - 1]);
                } else if i == j + 1 {
                    assert(nv[i] == old_out[i - 1]);
                } else {
                    assert(nv[i] == old_out[i - 1] && nv[i - 1] == old_out[i - 2]);
                    assert(!lex_lt(old_out[i - 1], old_out[i - 2]));
                }
            }
            assert(views(out@).to_multiset().add(views(rest@).to_multiset()) =~= orig.to_multiset());
        }
    }
    proof {
        broadcast use vstd::seq_lib::group_to_multiset_ensures;

        assert(views(rest@) =~= Seq::<Seq<char>>::empty());
        assert(views(rest@).to_multiset() =~= vstd::multiset::Multiset::empty());
    }
    out
}

// ---------------------------------------------------------------------------
// The library
// ---------------------------------------------------------------------------

/// `a` and `b` are the same path: they compare equal, and alike with every
/// other path.
pub open spec fn same_path_as(a: Seq<char>, b: Seq<char>) -> bool {
    &&& spec_path_order(a, b) == 0
    &&& forall|c: Seq<char>|
        #![trigger spec_path_order(a, c)]
        #![trigger spec_path_order(b, c)]
        spec_path_order(a, c) == spec_path_order(b, c)
    &&& forall|c: Seq<char>|
        #![trigger spec_path_order(c, a)]
        #![trigger spec_path_order(c, b)]
        spec_path_order(c, a) == spec_path_order(c, b)
}

/// No two listed clips have the same path.
pub open spec fn distinct_paths(cs: Seq<Clip>) -> bool {
    forall|i: int, j: int|
        0 <= i < cs.len() && 0 <= j < cs.len() && i != j ==> spec_path_order(
            #[trigger] cs[i].path@,
            #[trigger] cs[j].path@,
        ) != 0
}

/// Index of the first clip whose path equals `p` (paths compare equal
/// component by component, as `Path` does).
pub open spec fn find_clip(cs: Seq<Clip>, p: Seq<char>) -> Option<int> {
    if exists|i: int| 0 <= i < cs.len() && spec_path_order(cs[i].path@, p) == 0 {
        Some(
            choose|i: int|
                0 <= i < cs.len() && spec_path_order(cs[i].path@, p) == 0 && (forall|j: int|
                    0 <= j < i ==> spec_path_order((#[trigger] cs[j]).path@, p) != 0),
        )
    } else {
        None
    }
}

/// The clips whose path differs from `p`, in order.
pub open spec fn without_path(cs: Seq<Clip>, p: Seq<char>) -> Seq<Clip>
    decreases cs.len(),
{
    if cs.len() == 0 {
        cs
    } else {
        let r = without_path(cs.drop_last(), p);
        if spec_path_order(cs.last().path@, p) != 0 {
            r.push(cs.last())
        } else {
            r
        }
    }
}

/// The tags different from `t`, in order.
pub open spec fn without_tag(ts: Seq<Seq<char>>, t: Seq<char>) -> Seq<Seq<char>>
    decreases ts.len(),
{
    if ts.len() == 0 {
        ts
    } else {
        let r = without_tag(ts.drop_last(), t);
        if ts.last() != t {
            r.push(ts.last())
        } else {
            r
        }
    }
}

/// A text field after editing: trimmed, and unset when nothing is left.
pub open spec fn spec_normalize(t: Option<Seq<char>>) -> Option<Seq<char>> {
    match t {
        Some(s) => if spec_trim(s).len() > 0 {
            Some(spec_trim(s))
        } else {
            None
        },
        None => None,
    }
}

/// The clip list after upserting `c`: it replaces the first clip with the
/// same path, or is appended.
pub open spec fn upsert_base(cs: Seq<Clip>, c: Clip) -> Seq<Clip> {
    match find_clip(cs, c.path@) {
        Some(i) => cs.update(i, c),
        None => cs.push(c),
    }
}

/// Trims `t` and drops it when it is empty (how edited titles and games are
/// stored).
pub fn normalize_text(t: Option<&str>) -> (r: Option<String>)
    ensures
        r.deep_view() == spec_normalize(crate::model::opt_str_view(t)),
{
    match t {
        Some(s) => {
            let tr = trim(s);
            if tr.is_empty() {
                None
            } else {
                Some(copy_str(tr))
            }
        },
        None => None,
    }
}

fn position(clips: &Vec<Clip>, path: &str) -> (r: Option<usize>)
    ensures
        r matches Some(i) ==> i < clips@.len() && find_clip(clips@, path@) == Some(i as int),
        r is None ==> find_clip(clips@, path@) is None,
        r is None ==> forall|j: int|
            0 <= j < clips@.len() ==> spec_path_order(path@, (#[trigger] clips@[j]).path@) != 0,
        r matches Some(i) ==> same_path_as(clips@[i as int].path@, path@),
{
    let ghost cs = clips@;
    let mut i: usize = 0;
    while i < clips.len()
        invariant
            cs == clips@,
            i <= cs.len(),
            forall|j: int| 0 <= j < i ==> spec_path_order((#[trigger] cs[j]).path@, path@) != 0,
            forall|j: int| 0 <= j < i ==> spec_path_order(path@, (#[trigger] cs[j]).path@) != 0,
        decreases cs.len() - i,
    {
        if path_order(clips[i].path.as_str(), path) == 0 {
            let ghost w = find_clip(cs, path@).unwrap();
            assert(w == i) by {
                if w < i {
                    assert(spec_path_order(cs[w].path@, path@) != 0);
                } else if w > i {
                    assert(spec_path_order(cs[i as int].path@, path@) != 0);
                }
            }
            return Some(i);
        }
        i = i + 1;
    }
    None
}

/// Replaces the clip at `i`.
fn replace_at(clips: &mut Vec<Clip>, i: usize, c: Clip)
    requires
        i < old(clips)@.len(),
    ensures
        final(clips)@ == old(clips)@.update(i as int, c),
{
    let ghost before = clips@;
    clips.remove(i);
    clips.insert(i, c);
    assert(clips@ =~= before.update(i as int, c));
}

/// `true` if some tag of `ts` reads `t`.
pub fn has_tag(ts: &Vec<String>, t: &str) -> (r: bool)
    ensures
        r == views(ts@).contains(t@),
{
    let mut i: usize = 0;
    while i < ts.len()
        invariant
            i <= ts.len(),
            forall|j: int| 0 <= j < i ==> (#[trigger] ts@[j])@ != t@,
        decreases ts.len() - i,
    {
        if str_eq(ts[i].as_str(), t) {
            assert(views(ts@)[i as int] == t@);
            return true;
        }
        i = i + 1;
    }
    assert(!views(ts@).contains(t@)) by {
        if views(ts@).contains(t@) {
            let k = choose|k: int| 0 <= k < views(ts@).len() && views(ts@)[k] == t@;
            assert(ts@[k]@ == t@);
        }
    }
    false
}

/// The tags of `ts` other than `t`, in order.
pub fn drop_tag(ts: Vec<String>, t: &str) -> (r: Vec<String>)
    ensures
        views(r@) == without_tag(views(ts@), t@),
{
    let ghost orig = views(ts@);
    let ghost n = orig.len();
    let mut rest = ts;
    let mut out: Vec<String> = Vec::new();
    assert(orig.subrange(0, 0) =~= Seq::<Seq<char>>::empty());
    assert(views(rest@) =~= orig.subrange(0, n as int));
    while rest.len() > 0
        invariant
            n == orig.len(),
            rest.len() <= n,
            views(rest@) == orig.subrange(n - rest.len(), n as int),
            views(out@) == without_tag(orig.subrange(0, n - rest.len()), t@),
        decreases rest.len(),
    {
        let ghost k = n - rest.len();
        let ghost before = rest@;
        let x = rest.remove(0);
        assert(views(before)[0] == before[0]@);
        assert(x@ == orig[k]);
        assert(rest@ =~= before.subrange(1, before.len() as int));
        assert(views(rest@) =~= views(before).subrange(1, before.len() as int));
        assert(views(rest@) =~= orig.subrange(k + 1, n as int));
        let ghost pre = orig.subrange(0, k + 1);
        assert(pre.drop_last() =~= orig.subrange(0, k));
        if !str_eq(x.as_str(), t) {
            let ghost vo = views(out@);
            out.push(x);
            assert(views(out@) =~= vo.push(pre.last()));
        }
    }
    assert(orig.subrange(0, n as int) =~= orig);
    out
}

/// What a scan of the clips directory runs with.
pub struct ScanRequest {
    pub clips_dir: String,
    pub thumb_px: u32,
    pub max_depth: u32,
    pub force: bool,
}

/// The in-memory clip library: clips kept in library order by upserts, and
/// whether a scan is running.
pub struct Library {
    clips: Vec<Clip>,
    scanning: bool,
}

impl Library {
    /// The clips, in list order.
    pub closed spec fn clip_list(&self) -> Seq<Clip> {
        self.clips@
    }

    /// Whether a scan is running.
    pub closed spec fn is_scanning(&self) -> bool {
        self.scanning
    }

    /// A library holding `clips` (as loaded from the store), not scanning.
    pub fn new(clips: Vec<Clip>) -> (r: Library)
        ensures
            r.clip_list() == clips@,
            !r.is_scanning(),
    {
        Library { clips, scanning: false }
    }

    pub fn clips(&self) -> (r: &[Clip])
        ensures
            r@ == self.clip_list(),
    {
        self.clips.as_slice()
    }

    pub fn clip(&self, idx: usize) -> (r: Option<&Clip>)
        ensures
            idx < self.clip_list().len() ==> r == Some(&self.clip_list()[idx as int]),
            idx >= self.clip_list().len() ==> r is None,
    {
        if idx < self.clips.len() {
            Some(&self.clips[idx])
        } else {
            None
        }
    }

    pub fn scanning(&self) -> (r: bool)
        ensures
            r == self.is_scanning(),
    {
        self.scanning
    }

    pub fn set_scanning(&mut self, scanning: bool)
        ensures
            final(self).is_scanning() == scanning,
            final(self).clip_list() == old(self).clip_list(),
    {
        self.scanning = scanning;
    }

    /// The scan that a (re)scan of the library settings asks for: none without
    /// a clips directory; otherwise that directory, with the thumbnail size
    /// raised to at least one pixel.
    pub fn rescan(&self, clips_dir: Option<&str>, thumb_px: u32, max_scan_depth: u32, force: bool) -> (r:
        Option<ScanRequest>)
        ensures
            clips_dir is None ==> r is None,
            clips_dir matches Some(d) ==> r matches Some(q) && q.clips_dir@ == d@ && q.thumb_px == (
            if thumb_px == 0 {
                1
            } else {
                thumb_px
            }) && q.max_depth == max_scan_depth && q.force == force,
    {
        match clips_dir {
            None => None,
            Some(d) => Some(
                ScanRequest {
                    clips_dir: copy_str(d),
                    thumb_px: if thumb_px == 0 {
                        1
                    } else {
                        thumb_px
                    },
                    max_depth: max_scan_depth,
                    force,
                },
            ),
        }
    }

    /// Marks the clip at `path` as favorite or not; `true` if it is listed.
    pub fn set_favorite(&mut self, path: &str, favorite: bool) -> (changed: bool)
        ensures
            final(self).is_scanning() == old(self).is_scanning(),
            match find_clip(old(self).clip_list(), path@) {
                Some(i) => changed && final(self).clip_list() == old(self).clip_list().update(
                    i,
                    Clip { favorite, ..old(self).clip_list()[i] },
                ),
                None => !changed && final(self).clip_list() == old(self).clip_list(),
            },
    {
        match position(&self.clips, path) {
            Some(i) => {
                let mut c = self.clips.remove(i);
                c.favorite = favorite;
                self.clips.insert(i, c);
                assert(self.clips@ =~= old(self).clips@.update(
                    i as int,
                    Clip { favorite, ..old(self).clips@[i as int] },
                ));
                true
            },
            None => false,
        }
    }

    /// Sets (or, when `None` or blank, clears) the title of the clip at
    /// `path`; the title is stored trimmed. `true` if the clip is listed.
    pub fn set_title(&mut self, path: &str, title: Option<&str>) -> (changed: bool)
        ensures
            final(self).is_scanning() == old(self).is_scanning(),
            match find_clip(old(self).clip_list(), path@) {
                Some(i) => changed && final(self).clip_list().len() == old(self).clip_list().len()
                    && (forall|j: int|
                    0 <= j < old(self).clip_list().len() && j != i ==> final(self).clip_list()[j]
                        == old(self).clip_list()[j]) && final(self).clip_list()[i] == (Clip {
                    title: final(self).clip_list()[i].title,
                    ..old(self).clip_list()[i]
                }) && final(self).clip_list()[i].title.deep_view() == spec_normalize(
                    crate::model::opt_str_view(title),
                ),
                None => !changed && final(self).clip_list() == old(self).clip_list(),
            },
    {
        match position(&self.clips, path) {
            Some(i) => {
                let normalized = normalize_text(title);
                let mut c = self.clips.remove(i);
                c.title = normalized;
                self.clips.insert(i, c);
                true
            },
            None => false,
        }
    }

    /// Sets (or, when `None` or blank, clears) the game of the clip at
    /// `path`; the game is stored trimmed. `true` if the clip is listed.
    pub fn set_game(&mut self, path: &str, game: Option<&str>) -> (changed: bool)
        ensures
            final(self).is_scanning() == old(self).is_scanning(),
            match find_clip(old(self).clip_list(), path@) {
                Some(i) => changed && final(self).clip_list().len() == old(self).clip_list().len()
                    && (forall|j: int|
                    0 <= j < old(self).clip_list().len() && j != i ==> final(self).clip_list()[j]
                        == old(self).clip_list()[j]) && final(self).clip_list()[i] == (Clip {
                    game: final(self).clip_list()[i].game,
                    ..old(self).clip_list()[i]
                }) && final(self).clip_list()[i].game.deep_view() == spec_normalize(
                    crate::model::opt_str_view(game),
                ),
                None => !changed && final(self).clip_list() == old(self).clip_list(),
            },
    {
        match position(&self.clips, path) {
            Some(i) => {
                let normalized = normalize_text(game);
                let mut c = self.clips.remove(i);
                c.game = normalized;
                self.clips.insert(i, c);
                true
            },
            None => false,
        }
    }

    /// Sets the highlight marks of the clip at `path`; `true` if it is listed.
    pub fn set_marks(&mut self, path: &str, start: Option<u64>, end: Option<u64>) -> (changed:
        bool)
        ensures
            final(self).is_scanning() == old(self).is_scanning(),
            match find_clip(old(self).clip_list(), path@) {
                Some(i) => changed && final(self).clip_list() == old(self).clip_list().update(
                    i,
                    Clip { mark_start: start, mark_end: end, ..old(self).clip_list()[i] },
                ),
                None => !changed && final(self).clip_list() == old(self).clip_list(),
            },
    {
        match position(&self.clips, path) {
            Some(i) => {
                let mut c = self.clips.remove(i);
                c.mark_start = start;
                c.mark_end = end;
                self.clips.insert(i, c);
                assert(self.clips@ =~= old(self).clips@.update(
                    i as int,
                    Clip { mark_start: start, mark_end: end, ..old(self).clips@[i as int] },
                ));
                true
            },
            None => false,
        }
    }

    /// Adds a manual tag to the clip at `path`. If the clip is listed and
    /// lacks the tag, the tag is added, the manual tags are sorted, and the
    /// result is `true`; otherwise nothing changes.
    pub fn add_tag(&mut self, path: &str, tag: &str) -> (changed: bool)
        ensures
            final(self).is_scanning() == old(self).is_scanning(),
            match find_clip(old(self).clip_list(), path@) {
                Some(i) => if views(old(self).clip_list()[i].mtags@).contains(tag@) {
                    !changed && final(self).clip_list() == old(self).clip_list()
                } else {
                    changed && final(self).clip_list().len() == old(self).clip_list().len() && (
                    forall|j: int|
                        0 <= j < old(self).clip_list().len() && j != i
                            ==> final(self).clip_list()[j] == old(self).clip_list()[j])
                        && final(self).clip_list()[i] == (Clip {
                        mtags: final(self).clip_list()[i].mtags,
                        ..old(self).clip_list()[i]
                    }) && sorted_strs(views(final(self).clip_list()[i].mtags@)) && views(
                        final(self).clip_list()[i].mtags@,
                    ).to_multiset() == views(old(self).clip_list()[i].mtags@).push(
                        tag@,
                    ).to_multiset()
                },
                None => !changed && final(self).clip_list() == old(self).clip_list(),
            },
    {
        match position(&self.clips, path) {
            Some(i) => {
                if has_tag(&self.clips[i].mtags, tag) {
                    return false;
                }
                let mut c = self.clips.remove(i);
                let mut tags = Vec::new();
                std::mem::swap(&mut tags, &mut c.mtags);
                let ghost old_tags = views(tags@);
                tags.push(copy_str(tag));
                assert(views(tags@) =~= old_tags.push(tag@));
                c.mtags = sort_strings(tags);
                self.clips.insert(i, c);
                true
            },
            None => false,
        }
    }

    /// Removes a manual tag from the clip at `path`; `true` if the clip is
    /// listed (whether or not it had the tag).
    pub fn remove_tag(&mut self, path: &str, tag: &str) -> (changed: bool)
        ensures
            final(self).is_scanning() == old(self).is_scanning(),
            match find_clip(old(self).clip_list(), path@) {
                Some(i) => changed && final(self).clip_list().len() == old(self).clip_list().len()
                    && (forall|j: int|
                    0 <= j < old(self).clip_list().len() && j != i ==> final(self).clip_list()[j]
                        == old(self).clip_list()[j]) && final(self).clip_list()[i] == (Clip {
                    mtags: final(self).clip_list()[i].mtags,
                    ..old(self).clip_list()[i]
                }) && views(final(self).clip_list()[i].mtags@) == without_tag(
                    views(old(self).clip_list()[i].mtags@),
                    tag@,
                ),
                None => !changed && final(self).clip_list() == old(self).clip_list(),
            },
    {
        match position(&self.clips, path) {
            Some(i) => {
                let mut c = self.clips.remove(i);
                let mut tags = Vec::new();
                std::mem::swap(&mut tags, &mut c.mtags);
                c.mtags = drop_tag(tags, tag);
                self.clips.insert(i, c);
                true
            },
            None => false,
        }
    }

    /// Records the mixer state of one track of the clip at `path`: it
    /// replaces the first state with the same track index, or is appended.
    /// `true` if the clip is listed.
    pub fn set_track_state(&mut self, path: &str, st: TrackState) -> (changed: bool)
        ensures
            final(self).is_scanning() == old(self).is_scanning(),
            match find_clip(old(self).clip_list(), path@) {
                Some(i) => changed && final(self).clip_list().len() == old(self).clip_list().len()
                    && (forall|j: int|
                    0 <= j < old(self).clip_list().len() && j != i ==> final(self).clip_list()[j]
                        == old(self).clip_list()[j]) && final(self).clip_list()[i] == (Clip {
                    track_state: final(self).clip_list()[i].track_state,
                    ..old(self).clip_list()[i]
                }) && final(self).clip_list()[i].track_state@ == crate::model::upsert_state(
                    old(self).clip_list()[i].track_state@,
                    st,
                ),
                None => !changed && final(self).clip_list() == old(self).clip_list(),
            },
    {
        match position(&self.clips, path) {
            Some(i) => {
                let mut c = self.clips.remove(i);
                crate::model::set_state(&mut c.track_state, st);
                self.clips.insert(i, c);
                true
            },
            None => false,
        }
    }

    /// Drops every clip whose path equals `path`.
    pub fn apply_removed(&mut self, path: &str)
        ensures
            final(self).is_scanning() == old(self).is_scanning(),
            final(self).clip_list() == without_path(old(self).clip_list(), path@),
    {
        let ghost orig = self.clips@;
        let ghost n = orig.len();
        let mut rest: Vec<Clip> = Vec::new();
        std::mem::swap(&mut rest, &mut self.clips);
        let mut out: Vec<Clip> = Vec::new();
        assert(orig.subrange(0, 0) =~= Seq::<Clip>::empty());
        assert(rest@ =~= orig.subrange(0, n as int));
        while rest.len() > 0
            invariant
                n == orig.len(),
                rest.len() <= n,
                rest@ == orig.subrange(n - rest.len(), n as int),
                out@ == without_path(orig.subrange(0, n - rest.len()), path@),
            decreases rest.len(),
        {
            let ghost k = n - rest.len();
            let x = rest.remove(0);
            assert(x == orig[k]);
            assert(rest@ =~= orig.subrange(k + 1, n as int));
            let ghost pre = orig.subrange(0, k + 1);
            assert(pre.drop_last() =~= orig.subrange(0, k));
            if path_order(x.path.as_str(), path) != 0 {
                out.push(x);
            }
        }
        assert(orig.subrange(0, n as int) =~= orig);
        self.clips = out;
    }

    /// Inserts or refreshes a scanned clip (replacing the first clip with the
    /// same path) and re-sorts the list: newest first, then by path.
    pub fn apply_upserted(&mut self, clip: Clip)
        ensures
            final(self).is_scanning() == old(self).is_scanning(),
            sorted_clips(final(self).clip_list()),
            final(self).clip_list().to_multiset() == upsert_base(
                old(self).clip_list(),
                clip,
            ).to_multiset(),
            distinct_paths(old(self).clip_list()) ==> distinct_paths(final(self).clip_list()),
    {
        let ghost before = self.clips@;
        let ghost c = clip;
        match position(&self.clips, clip.path.as_str()) {
            Some(i) => {
                replace_at(&mut self.clips, i, clip);
                proof {
                    if distinct_paths(before) {
                        let u = self.clips@;
                        assert forall|k: int, l: int|
                            0 <= k < u.len() && 0 <= l < u.len() && k != l implies spec_path_order(
                            #[trigger] u[k].path@,
                            #[trigger] u[l].path@,
                        ) != 0 by {
                            assert(spec_path_order(before[k].path@, before[l].path@) != 0);
                            if k == i {
                                assert(spec_path_order(before[i as int].path@, before[l].path@)
                                    == spec_path_order(c.path@, before[l].path@));
                            } else if l == i {
                                assert(spec_path_order(before[k].path@, before[i as int].path@)
                                    == spec_path_order(before[k].path@, c.path@));
                            }
                        }
                    }
                }
            },
            None => {
                self.clips.push(clip);
                proof {
                    if distinct_paths(before) {
                        let u = self.clips@;
                        let n = before.len() as int;
                        assert forall|k: int, l: int|
                            0 <= k < u.len() && 0 <= l < u.len() && k != l implies spec_path_order(
                            #[trigger] u[k].path@,
                            #[trigger] u[l].path@,
                        ) != 0 by {
                            if k == n {
                                assert(spec_path_order(c.path@, before[l].path@) != 0);
                            } else if l == n {
                                if spec_path_order(before[k].path@, c.path@) == 0 {
                                    lemma_first_clip_exists(before, c.path@, k);
                                }
                            } else {
                                assert(spec_path_order(before[k].path@, before[l].path@) != 0);
                            }
                        }
                    }
                }
            },
        }
        let ghost u = self.clips@;
        let mut all: Vec<Clip> = Vec::new();
        std::mem::swap(&mut all, &mut self.clips);
        self.clips = sort_clips(all);
        proof {
            if distinct_paths(before) {
                lemma_distinct_paths_reordered(u, self.clips@);
            }
        }
    }
}

/// A value found at two places of a sequence occurs at least twice in it.
proof fn lemma_two_places_count<A>(s: Seq<A>, i: int, j: int)
    requires
        0 <= i < s.len(),
        0 <= j < s.len(),
        i != j,
        s[i] == s[j],
    ensures
        s.to_multiset().count(s[i]) >= 2,
{
    broadcast use vstd::multiset::group_multiset_axioms;

    let r = s.remove(j);
    vstd::seq_lib::to_multiset_remove(s, j);
    let k = if i < j {
        i
    } else {
        i - 1
    };
    assert(r[k] == s[i]);
    vstd::seq_lib::to_multiset_contains(r, s[i]);
}

/// A value that occurs at least twice is found at two places.
proof fn lemma_count_two_places<A>(s: Seq<A>, x: A) -> (ij: (int, int))
    requires
        s.to_multiset().count(x) >= 2,
    ensures
        0 <= ij.0 < s.len(),
        0 <= ij.1 < s.len(),
        ij.0 != ij.1,
        s[ij.0] == x,
        s[ij.1] == x,
{
    broadcast use vstd::multiset::group_multiset_axioms;

    vstd::seq_lib::to_multiset_contains(s, x);
    let a = choose|a: int| 0 <= a < s.len() && s[a] == x;
    let r = s.remove(a);
    vstd::seq_lib::to_multiset_remove(s, a);
    vstd::seq_lib::to_multiset_contains(r, x);
    let b0 = choose|b: int| 0 <= b < r.len() && r[b] == x;
    let b = if b0 < a {
        b0
    } else {
        b0 + 1
    };
    assert(s[b] == r[b0]);
    (a, b)
}

/// Reordering the clips keeps their paths distinct.
proof fn lemma_distinct_paths_reordered(u: Seq<Clip>, out: Seq<Clip>)
    requires
        distinct_paths(u),
        out.to_multiset() == u.to_multiset(),
    ensures
        distinct_paths(out),
{
    assert forall|i: int, j: int|
        0 <= i < out.len() && 0 <= j < out.len() && i != j implies spec_path_order(
        #[trigger] out[i].path@,
        #[trigger] out[j].path@,
    ) != 0 by {
        let x = out[i];
        let y = out[j];
        if x == y {
            lemma_two_places_count(out, i, j);
            let (a, b) = lemma_count_two_places(u, x);
            assert(spec_path_order(u[a].path@, u[b].path@) != 0);
        } else {
            vstd::seq_lib::to_multiset_contains(out, x);
            vstd::seq_lib::to_multiset_contains(out, y);
            vstd::seq_lib::to_multiset_contains(u, x);
            vstd::seq_lib::to_multiset_contains(u, y);
            let a = choose|a: int| 0 <= a < u.len() && u[a] == x;
            let b = choose|b: int| 0 <= b < u.len() && u[b] == y;
            assert(spec_path_order(u[a].path@, u[b].path@) != 0);
        }
    }
}

/// An upsert (`apply_upserted`, which leaves `after`) keeps the number of
/// clips when a clip with the same path was listed, and adds one otherwise.
pub proof fn law_upsert_grows_only_when_new(before: Seq<Clip>, c: Clip, after: Seq<Clip>)
    requires
        after.to_multiset() == upsert_base(before, c).to_multiset(),
    ensures
        after.len() == before.len() + (if find_clip(before, c.path@) is Some {
            0int
        } else {
            1int
        }),
{
    vstd::seq_lib::to_multiset_len(after);
    vstd::seq_lib::to_multiset_len(upsert_base(before, c));
    if exists|i: int| 0 <= i < before.len() && spec_path_order(before[i].path@, c.path@) == 0 {
        let w = choose|i: int|
            0 <= i < before.len() && spec_path_order(before[i].path@, c.path@) == 0;
        lemma_first_clip_exists(before, c.path@, w);
        let i = find_clip(before, c.path@).unwrap();
        assert(0 <= i < before.len());
        assert(upsert_base(before, c).len() == before.len());
    }
}

/// How often each tag occurs after removing `t`: never for `t`, as before
/// for the others.
proof fn lemma_without_tag_count(ts: Seq<Seq<char>>, t: Seq<char>, x: Seq<char>)
    ensures
        without_tag(ts, t).to_multiset().count(x) == if x == t {
            0
        } else {
            ts.to_multiset().count(x)
        },
    decreases ts.len(),
{
    broadcast use vstd::seq_lib::to_multiset_build;
    broadcast use vstd::multiset::group_multiset_axioms;

    if ts.len() == 0 {
        assert(without_tag(ts, t) =~= ts);
        vstd::seq_lib::to_multiset_contains(ts, t);
    } else {
        let d = ts.drop_last();
        let l = ts.last();
        lemma_without_tag_count(d, t, x);
        assert(ts =~= d.push(l));
        assert(ts.to_multiset() == d.to_multiset().insert(l));
        let r = without_tag(d, t);
        if l != t {
            assert(without_tag(ts, t) == r.push(l));
            assert(without_tag(ts, t).to_multiset() == r.to_multiset().insert(l));
        } else {
            assert(without_tag(ts, t) == r);
        }
    }
}

/// Adding a tag the clip did not have (`add_tag`, which leaves the manual
/// tags `added`) and then removing it (`remove_tag`) gives back the manual
/// tags there were, each as often as before (`add_tag` may have sorted
/// them). Only manual tags are touched by either.
pub proof fn law_add_then_remove_tag(before: Seq<Seq<char>>, added: Seq<Seq<char>>, t: Seq<char>)
    requires
        !before.contains(t),
        added.to_multiset() == before.push(t).to_multiset(),
    ensures
        without_tag(added, t).to_multiset() == before.to_multiset(),
{
    broadcast use vstd::seq_lib::to_multiset_build;
    broadcast use vstd::multiset::group_multiset_axioms;

    assert forall|x: Seq<char>| #[trigger] without_tag(added, t).to_multiset().count(x)
        == before.to_multiset().count(x) by {
        lemma_without_tag_count(added, t, x);
        if x == t {
            vstd::seq_lib::to_multiset_contains(before, t);
            assert(before.to_multiset().count(t) == 0);
        }
    }
    assert(without_tag(added, t).to_multiset() =~= before.to_multiset());
}

/// After a file is gone from disk, no listed clip has its path.
pub proof fn law_removed_path_gone(cs: Seq<Clip>, p: Seq<char>, k: int)
    requires
        0 <= k < without_path(cs, p).len(),
    ensures
        spec_path_order(without_path(cs, p)[k].path@, p) != 0,
    decreases cs.len(),
{
    if cs.len() > 0 {
        let r = without_path(cs.drop_last(), p);
        if k < r.len() {
            law_removed_path_gone(cs.drop_last(), p, k);
        }
    }
}

/// Removing a tag leaves none with that name.
pub proof fn law_removed_tag_gone(ts: Seq<Seq<char>>, t: Seq<char>)
    ensures
        !without_tag(ts, t).contains(t),
    decreases ts.len(),
{
    if ts.len() > 0 {
        law_removed_tag_gone(ts.drop_last(), t);
        let r = without_tag(ts.drop_last(), t);
        if ts.last() != t && r.push(ts.last()).contains(t) {
            let k = choose|k: int| 0 <= k < r.push(ts.last()).len() && r.push(ts.last())[k] == t;
            assert(r[k] == t);
        }
    }
}

/// When clip `w` has path `p`, a first clip with that path exists.
proof fn lemma_first_clip_exists(cs: Seq<Clip>, p: Seq<char>, w: int)
    requires
        0 <= w < cs.len(),
        spec_path_order(cs[w].path@, p) == 0,
    ensures
        exists|i: int|
            0 <= i < cs.len() && spec_path_order(cs[i].path@, p) == 0 && (forall|j: int|
                0 <= j < i ==> spec_path_order((#[trigger] cs[j]).path@, p) != 0),
    decreases w,
{
    if forall|j: int| 0 <= j < w ==> spec_path_order((#[trigger] cs[j]).path@, p) != 0 {
        assert(0 <= w < cs.len() && spec_path_order(cs[w].path@, p) == 0);
    } else {
        let j = choose|j: int| 0 <= j < w && spec_path_order(cs[j].path@, p) == 0;
        lemma_first_clip_exists(cs, p, j);
    }
}

/// An upserted clip is listed afterwards.
pub proof fn law_upserted_clip_listed(cs: Seq<Clip>, c: Clip)
    ensures
        upsert_base(cs, c).to_multiset().count(c) > 0,
{
    let u = upsert_base(cs, c);
    if exists|i: int| 0 <= i < cs.len() && spec_path_order(cs[i].path@, c.path@) == 0 {
        let w = choose|i: int| 0 <= i < cs.len() && spec_path_order(cs[i].path@, c.path@) == 0;
        lemma_first_clip_exists(cs, c.path@, w);
        let i = find_clip(cs, c.path@).unwrap();
        assert(u[i] == c);
    } else {
        assert(u[cs.len() as int] == c);
    }
    assert(u.contains(c));
    vstd::seq_lib::to_multiset_contains(u, c);
}

/// Path of the library database under the data directory `data_dir`.
pub open spec fn spec_db_path_in(data_dir: Seq<char>) -> Seq<char> {
    spec_join(spec_join(data_dir, "madalya"@), "library.db"@)
}

/// Path of the thumbnail directory under the data directory `data_dir`.
pub open spec fn spec_thumbs_dir_in(data_dir: Seq<char>) -> Seq<char> {
    spec_join(spec_join(data_dir, "madalya"@), "thumbs"@)
}

proof fn reveal_dir_names()
    ensures
        "madalya"@.len() > 0 && "madalya"@[0] != '/',
        "library.db"@.len() > 0 && "library.db"@[0] != '/',
        "thumbs"@.len() > 0 && "thumbs"@[0] != '/',
{
    reveal_strlit("madalya");
    reveal_strlit("library.db");
    reveal_strlit("thumbs");
}

/// The library database path for the user data directory `data_dir`.
pub fn db_path_in(data_dir: &str) -> (r: String)
    ensures
        r@ == spec_db_path_in(data_dir@),
{
    proof {
        reveal_dir_names();
    }
    let app = join_path(data_dir, app_id());
    join_path(app.as_str(), "library.db")
}

/// The thumbnail directory for the user data directory `data_dir`.
pub fn thumbs_dir_in(data_dir: &str) -> (r: String)
    ensures
        r@ == spec_thumbs_dir_in(data_dir@),
{
    proof {
        reveal_dir_names();
    }
    let app = join_path(data_dir, app_id());
    join_path(app.as_str(), "thumbs")
}

/// The user data directory of the platform (`dirs::data_dir`), as text
/// (`None` also when its name is not valid Unicode, rather than an altered
/// path); it depends on the environment, so nothing is promised of it.
#[verifier::external_body]
fn platform_data_dir() -> (r: Option<String>) {
    match dirs::data_dir() {
        Some(p) => p.into_os_string().into_string().ok(),
        None => None,
    }
}

/// The application's data directory; `None` when the platform has no user
/// data directory (or one whose name is not valid Unicode).
pub fn data_dir() -> (r: Option<String>)
    ensures
        r matches Some(p) ==> exists|d: Seq<char>| p@ == spec_join(d, "madalya"@),
{
    proof {
        reveal_dir_names();
    }
    match platform_data_dir() {
        Some(d) => Some(join_path(d.as_str(), app_id())),
        None => None,
    }
}

/// Path of the library database; `None` when the platform has no user data
/// directory.
pub fn db_path() -> (r: Option<String>)
    ensures
        r matches Some(p) ==> exists|d: Seq<char>| p@ == spec_db_path_in(d),
{
    match platform_data_dir() {
        Some(d) => Some(db_path_in(d.as_str())),
        None => None,
    }
}

/// Directory of generated thumbnails; `None` when the platform has no user
/// data directory.
pub fn thumbs_dir() -> (r: Option<String>)
    ensures
        r matches Some(p) ==> exists|d: Seq<char>| p@ == spec_thumbs_dir_in(d),
{
    match platform_data_dir() {
        Some(d) => Some(thumbs_dir_in(d.as_str())),
        None => None,
    }
}

} // verus!
