//! Library filters: a title search, a game, required and excluded tags and a
//! recording-date range, and the tag chips that cycle a tag between
//! required, excluded and ignored.
use vstd::prelude::*;
use crate::library::{drop_tag, has_tag, lemma_lex_total, lex_lt, str_lt, without_tag};
use crate::model::{Clip, nonempty_field, spec_title};
use crate::text::{
    chars_of, contains_chars, copy_str, copy_string, has_substring, spec_lowercase, spec_trim,
    str_eq, to_lowercase, trim, views,
};

verus! {

/// The active filters of the grid.
#[derive(Clone, Debug, PartialEq, Eq)]
pub struct Filters {
    pub query: String,
    pub game: Option<String>,
    /// Tags a clip must carry (no tag twice).
    pub require: Vec<String>,
    /// Tags a clip must not carry (no tag twice).
    pub exclude: Vec<String>,
    pub date_from: Option<i64>,
    pub date_to: Option<i64>,
}

/// True if the clip carries tag `t`, from the script or from the user.
pub open spec fn clip_has_tag(c: Clip, t: Seq<char>) -> bool {
    views(c.stags@).contains(t) || views(c.mtags@).contains(t)
}

/// The set of tags of a tag list.
pub open spec fn tag_set(v: Seq<String>) -> Set<Seq<char>> {
    views(v).to_set()
}

/// Some filter is set (the query counts when it is not blank).
pub open spec fn spec_filter_active(f: Filters) -> bool {
    spec_trim(f.query@).len() > 0 || f.game is Some || f.require@.len() > 0 || f.exclude@.len() > 0
        || f.date_from is Some || f.date_to is Some
}

/// Which clips a filter lets through: a blank query lets every title
/// through, else the lower-cased title must contain the lower-cased query.
pub open spec fn spec_filter_matches(f: Filters, c: Clip) -> bool {
    let q = spec_lowercase(spec_trim(f.query@));
    &&& spec_trim(f.query@).len() == 0 || has_substring(spec_lowercase(spec_title(c)), q)
    &&& f.game matches Some(g) ==> nonempty_field(c.game) == Some(g@)
    &&& f.date_from matches Some(from) ==> c.mtime >= from
    &&& f.date_to matches Some(to) ==> c.mtime <= to
    &&& forall|i: int| 0 <= i < f.require@.len() ==> clip_has_tag(c, (#[trigger] f.require@[i])@)
    &&& forall|i: int| 0 <= i < f.exclude@.len() ==> !clip_has_tag(c, (#[trigger] f.exclude@[i])@)
}

/// The tag sets after clicking the chip of `t`: a required tag becomes
/// excluded, an excluded tag becomes ignored, an ignored tag becomes required.
pub open spec fn spec_cycle(inc: Set<Seq<char>>, exc: Set<Seq<char>>, t: Seq<char>) -> (
    Set<Seq<char>>,
    Set<Seq<char>>,
) {
    if inc.contains(t) {
        (inc.remove(t), exc.insert(t))
    } else if exc.contains(t) {
        (inc, exc.remove(t))
    } else {
        (inc.insert(t), exc)
    }
}

pub proof fn lemma_push_contains(r: Seq<Seq<char>>, l: Seq<char>, x: Seq<char>)
    ensures
        r.push(l).contains(x) <==> (r.contains(x) || l == x),
{
    if r.push(l).contains(x) {
        let k = choose|k: int| 0 <= k < r.push(l).len() && r.push(l)[k] == x;
        if k < r.len() {
            assert(r[k] == x);
        }
    }
    if r.contains(x) {
        let k = choose|k: int| 0 <= k < r.len() && r[k] == x;
        assert(r.push(l)[k] == x);
    }
    if l == x {
        assert(r.push(l)[r.len() as int] == x);
    }
}

pub proof fn lemma_without_tag_contains(s: Seq<Seq<char>>, t: Seq<char>, x: Seq<char>)
    ensures
        without_tag(s, t).contains(x) <==> (s.contains(x) && x != t),
    decreases s.len(),
{
    if s.len() > 0 {
        let d = s.drop_last();
        lemma_without_tag_contains(d, t, x);
        assert(s =~= d.push(s.last()));
        lemma_push_contains(d, s.last(), x);
        lemma_push_contains(without_tag(d, t), s.last(), x);
    }
}

pub proof fn lemma_without_tag_no_dups(s: Seq<Seq<char>>, t: Seq<char>)
    requires
        s.no_duplicates(),
    ensures
        without_tag(s, t).no_duplicates(),
    decreases s.len(),
{
    if s.len() > 0 {
        let d = s.drop_last();
        assert(d.no_duplicates()) by {
            assert forall|i: int, j: int| 0 <= i < d.len() && 0 <= j < d.len() && i != j implies d[i]
                != d[j] by {
                assert(d[i] == s[i] && d[j] == s[j]);
            }
        }
        lemma_without_tag_no_dups(d, t);
        let r = without_tag(d, t);
        if s.last() != t {
            assert(!r.contains(s.last())) by {
                lemma_without_tag_contains(d, t, s.last());
                if d.contains(s.last()) {
                    let k = choose|k: int| 0 <= k < d.len() && d[k] == s.last();
                    assert(s[k] == s[s.len() - 1]);
                }
            }
            let rp = r.push(s.last());
            assert forall|i: int, j: int|
                0 <= i < rp.len() && 0 <= j < rp.len() && i != j implies rp[i] != rp[j] by {
                if i == r.len() && j < r.len() {
                    assert(r[j] == rp[j]);
                } else if j == r.len() && i < r.len() {
                    assert(r[i] == rp[i]);
                }
            }
        }
    }
}

/// Adds `t` to a tag list that lacks it.
fn add_missing(v: &mut Vec<String>, t: &str)
    requires
        views(old(v)@).no_duplicates(),
    ensures
        views(final(v)@).no_duplicates(),
        tag_set(final(v)@) == tag_set(old(v)@).insert(t@),
{
    if has_tag(v, t) {
        assert(tag_set(v@) =~= tag_set(v@).insert(t@));
        return;
    }
    let ghost before = views(v@);
    v.push(copy_str(t));
    assert(views(v@) =~= before.push(t@));
    assert forall|i: int, j: int|
        0 <= i < views(v@).len() && 0 <= j < views(v@).len() && i != j implies views(v@)[i]
        != views(v@)[j] by {
        if i == before.len() && j < before.len() {
            assert(before[j] == views(v@)[j]);
            assert(before.contains(before[j]));
        } else if j == before.len() && i < before.len() {
            assert(before[i] == views(v@)[i]);
            assert(before.contains(before[i]));
        }
    }
    assert(tag_set(v@) =~= tag_set(old(v)@).insert(t@)) by {
        assert forall|x: Seq<char>| tag_set(v@).contains(x) <==> tag_set(old(v)@).insert(t@).contains(
            x,
        ) by {
            if before.contains(x) {
                let k = choose|k: int| 0 <= k < before.len() && before[k] == x;
                assert(views(v@)[k] == x);
            }
            if views(v@).contains(x) && x != t@ {
                let k = choose|k: int| 0 <= k < views(v@).len() && views(v@)[k] == x;
                assert(before[k] == x);
            }
            if x == t@ {
                assert(views(v@)[before.len() as int] == x);
            }
        }
    }
}

/// Removes `t` from a tag list.
fn remove_present(v: &mut Vec<String>, t: &str)
    requires
        views(old(v)@).no_duplicates(),
    ensures
        views(final(v)@).no_duplicates(),
        tag_set(final(v)@) == tag_set(old(v)@).remove(t@),
{
    let mut taken = Vec::new();
    std::mem::swap(&mut taken, v);
    let ghost before = views(taken@);
    let kept = drop_tag(taken, t);
    *v = kept;
    proof {
        lemma_without_tag_no_dups(before, t@);
        assert forall|x: Seq<char>| tag_set(v@).contains(x) <==> tag_set(old(v)@).remove(
            t@,
        ).contains(x) by {
            lemma_without_tag_contains(before, t@, x);
        }
        assert(tag_set(v@) =~= tag_set(old(v)@).remove(t@));
    }
}

impl Default for Filters {
    /// No filter: everything matches.
    fn default() -> (r: Filters)
        ensures
            r.query@.len() == 0,
            r.game is None,
            r.require@.len() == 0,
            r.exclude@.len() == 0,
            r.date_from is None,
            r.date_to is None,
    {
        Filters {
            query: String::new(),
            game: None,
            require: Vec::new(),
            exclude: Vec::new(),
            date_from: None,
            date_to: None,
        }
    }
}

impl Filters {
    /// Tag lists without repeats, and no tag both required and excluded.
    pub open spec fn wf(&self) -> bool {
        &&& views(self.require@).no_duplicates()
        &&& views(self.exclude@).no_duplicates()
        &&& tag_set(self.require@).disjoint(tag_set(self.exclude@))
    }

    /// True if any filter is set (the query counts when it is not blank).
    pub fn is_active(&self) -> (r: bool)
        ensures
            r == spec_filter_active(*self),
    {
        !trim(self.query.as_str()).is_empty() || self.game.is_some() || self.require.len() > 0
            || self.exclude.len() > 0 || self.date_from.is_some() || self.date_to.is_some()
    }

    /// True if `clip` passes every active filter (see `spec_filter_matches`).
    pub fn matches(&self, clip: &Clip) -> (r: bool)
        ensures
            r == spec_filter_matches(*self, *clip),
    {
        let q = to_lowercase(trim(self.query.as_str()));
        if !q.as_str().is_empty() {
            let title = to_lowercase(clip.title().as_str());
            let tc = chars_of(title.as_str());
            let qc = chars_of(q.as_str());
            if !contains_chars(&tc, &qc) {
                return false;
            }
        }
        match &self.game {
            Some(g) => match clip.game() {
                Some(cg) => {
                    if !str_eq(cg, g.as_str()) {
                        return false;
                    }
                },
                None => {
                    return false;
                },
            },
            None => {},
        }
        match self.date_from {
            Some(from) => {
                if clip.mtime < from {
                    return false;
                }
            },
            None => {},
        }
        match self.date_to {
            Some(to) => {
                if clip.mtime > to {
                    return false;
                }
            },
            None => {},
        }
        let mut i: usize = 0;
        while i < self.require.len()
            invariant
                i <= self.require@.len(),
                forall|k: int| 0 <= k < i ==> clip_has_tag(*clip, (#[trigger] self.require@[k])@),
            decreases self.require@.len() - i,
        {
            let t = self.require[i].as_str();
            if !has_tag(&clip.stags, t) && !has_tag(&clip.mtags, t) {
                return false;
            }
            i = i + 1;
        }
        let mut j: usize = 0;
        while j < self.exclude.len()
            invariant
                j <= self.exclude@.len(),
                forall|k: int| 0 <= k < j ==> !clip_has_tag(*clip, (#[trigger] self.exclude@[k])@),
            decreases self.exclude@.len() - j,
        {
            let t = self.exclude[j].as_str();
            if has_tag(&clip.stags, t) || has_tag(&clip.mtags, t) {
                assert(clip_has_tag(*clip, self.exclude@[j as int]@));
                return false;
            }
            j = j + 1;
        }
        true
    }

    /// Clicking a tag chip: once to require the tag, twice to exclude it,
    /// a third time to ignore it again (see `spec_cycle`).
    pub fn cycle_tag(&mut self, tag: &str)
        requires
            old(self).wf(),
        ensures
            final(self).wf(),
            (tag_set(final(self).require@), tag_set(final(self).exclude@)) == spec_cycle(
                tag_set(old(self).require@),
                tag_set(old(self).exclude@),
                tag@,
            ),
            final(self).query == old(self).query,
            final(self).game == old(self).game,
            final(self).date_from == old(self).date_from,
            final(self).date_to == old(self).date_to,
    {
        proof {
            assert(tag_set(self.require@).contains(tag@) <==> views(self.require@).contains(tag@));
        }
        if has_tag(&self.require, tag) {
            remove_present(&mut self.require, tag);
            add_missing(&mut self.exclude, tag);
            assert(tag_set(self.require@).disjoint(tag_set(self.exclude@)));
        } else if has_tag(&self.exclude, tag) {
            remove_present(&mut self.exclude, tag);
            assert(tag_set(self.require@).disjoint(tag_set(self.exclude@)));
        } else {
            add_missing(&mut self.require, tag);
            assert(tag_set(self.require@).disjoint(tag_set(self.exclude@)));
        }
    }

    /// Clicking a game chip: selects the game, or clears it if it was selected.
    pub fn toggle_game(&mut self, game: &str)
        ensures
            final(self).game.deep_view() == spec_toggle_game(old(self).game.deep_view(), game@),
            final(self).query == old(self).query,
            final(self).require == old(self).require,
            final(self).exclude == old(self).exclude,
            final(self).date_from == old(self).date_from,
            final(self).date_to == old(self).date_to,
    {
        let same = match &self.game {
            Some(g) => str_eq(g.as_str(), game),
            None => false,
        };
        if same {
            self.game = None;
        } else {
            self.game = Some(copy_str(game));
        }
    }

    /// Sets the search text.
    pub fn set_query(&mut self, query: &str)
        ensures
            final(self).query@ == query@,
            final(self).game == old(self).game,
            final(self).require == old(self).require,
            final(self).exclude == old(self).exclude,
            final(self).date_from == old(self).date_from,
            final(self).date_to == old(self).date_to,
    {
        self.query = copy_str(query);
    }

    /// Sets the recording-date range (seconds since the epoch, inclusive).
    pub fn set_dates(&mut self, from: Option<i64>, to: Option<i64>)
        ensures
            final(self).date_from == from,
            final(self).date_to == to,
            final(self).query == old(self).query,
            final(self).game == old(self).game,
            final(self).require == old(self).require,
            final(self).exclude == old(self).exclude,
    {
        self.date_from = from;
        self.date_to = to;
    }
}

/// A filter with nothing set (a blank query included) lets every clip
/// through.
pub proof fn law_inactive_filter_matches_all(f: Filters, c: Clip)
    requires
        !spec_filter_active(f),
    ensures
        spec_filter_matches(f, c),
{
}

/// Tags decide on either list: a clip that carries an excluded tag, as a
/// script tag or a manual one, is hidden; a clip that carries a required tag
/// on neither list is hidden.
pub proof fn law_tag_filters_see_both_tag_lists(f: Filters, c: Clip, t: Seq<char>)
    ensures
        views(f.exclude@).contains(t) && (views(c.stags@).contains(t) || views(c.mtags@).contains(
            t,
        )) ==> !spec_filter_matches(f, c),
        views(f.require@).contains(t) && !views(c.stags@).contains(t) && !views(
            c.mtags@,
        ).contains(t) ==> !spec_filter_matches(f, c),
{
    if views(f.exclude@).contains(t) {
        let i = choose|i: int| 0 <= i < views(f.exclude@).len() && views(f.exclude@)[i] == t;
        assert(f.exclude@[i]@ == t);
        assert(clip_has_tag(c, f.exclude@[i]@) == (views(c.stags@).contains(t) || views(
            c.mtags@,
        ).contains(t)));
    }
    if views(f.require@).contains(t) {
        let i = choose|i: int| 0 <= i < views(f.require@).len() && views(f.require@)[i] == t;
        assert(f.require@[i]@ == t);
        assert(clip_has_tag(c, f.require@[i]@) == (views(c.stags@).contains(t) || views(
            c.mtags@,
        ).contains(t)));
    }
}

/// The other filters: a clip passes a game filter only when its game is that
/// game (a clip without a game never does), and a date range only when its
/// time lies inside it, both ends included.
pub proof fn law_game_and_dates_filter(f: Filters, c: Clip)
    ensures
        spec_filter_matches(f, c) && f.game is Some ==> c.game is Some && c.game.unwrap()@
            == f.game.unwrap()@,
        spec_filter_matches(f, c) && f.date_from is Some ==> c.mtime >= f.date_from.unwrap(),
        spec_filter_matches(f, c) && f.date_to is Some ==> c.mtime <= f.date_to.unwrap(),
{
}

/// Three clicks on a tag chip leave the required and excluded tags as they
/// were, provided the tag was not both required and excluded.
pub proof fn law_cycle_three_times(inc: Set<Seq<char>>, exc: Set<Seq<char>>, t: Seq<char>)
    requires
        !(inc.contains(t) && exc.contains(t)),
    ensures
        ({
            let (i1, e1) = spec_cycle(inc, exc, t);
            let (i2, e2) = spec_cycle(i1, e1, t);
            spec_cycle(i2, e2, t)
        }) == (inc, exc),
{
    let (i1, e1) = spec_cycle(inc, exc, t);
    let (i2, e2) = spec_cycle(i1, e1, t);
    let (i3, e3) = spec_cycle(i2, e2, t);
    assert(i3 =~= inc);
    assert(e3 =~= exc);
}

/// The selected game after clicking the chip of `game`: cleared if it was
/// the selected one, else `game`.
pub open spec fn spec_toggle_game(g: Option<Seq<char>>, game: Seq<char>) -> Option<Seq<char>> {
    if g == Some(game) {
        None
    } else {
        Some(game)
    }
}

/// Clicking the same game chip twice gives back the game filter, when no
/// other game was selected.
pub proof fn law_toggle_game_twice(g: Option<Seq<char>>, game: Seq<char>)
    requires
        g is None || g == Some(game),
    ensures
        spec_toggle_game(spec_toggle_game(g, game), game) == g,
{
}

// ---------------------------------------------------------------------------
// The filter panel
// ---------------------------------------------------------------------------

/// How a tag chip looks in the filter panel.
#[derive(Clone, Copy, Debug, PartialEq, Eq, Structural)]
pub enum ChipState {
    Required,
    Excluded,
    Plain,
}

/// The chip of tag `t`: required, else excluded, else plain.
pub fn tag_chip(f: &Filters, t: &str) -> (r: ChipState)
    ensures
        views(f.require@).contains(t@) ==> r == ChipState::Required,
        !views(f.require@).contains(t@) && views(f.exclude@).contains(t@) ==> r
            == ChipState::Excluded,
        !views(f.require@).contains(t@) && !views(f.exclude@).contains(t@) ==> r
            == ChipState::Plain,
{
    if has_tag(&f.require, t) {
        ChipState::Required
    } else if has_tag(&f.exclude, t) {
        ChipState::Excluded
    } else {
        ChipState::Plain
    }
}

/// Whether the chip of game `g` is the selected one.
pub fn game_selected(f: &Filters, g: &str) -> (r: bool)
    ensures
        r == (f.game matches Some(s) && s@ == g@),
{
    match &f.game {
        Some(s) => str_eq(s.as_str(), g),
        None => false,
    }
}

/// Each item comes before the next (so no item twice).
pub open spec fn strictly_sorted(s: Seq<Seq<char>>) -> bool {
    forall|i: int| 1 <= i < s.len() ==> lex_lt(s[i - 1], #[trigger] s[i])
}

/// Inserts `x` into the strictly sorted list `v`, unless it is there.
fn insert_sorted_unique(v: &mut Vec<String>, x: &str)
    requires
        strictly_sorted(views(old(v)@)),
    ensures
        strictly_sorted(views(final(v)@)),
        views(final(v)@).to_set() == views(old(v)@).to_set().insert(x@),
{
    let ghost before = views(v@);
    let mut j: usize = 0;
    while j < v.len() && str_lt(v[j].as_str(), x)
        invariant
            before == views(v@),
            j <= v@.len(),
            forall|k: int| 0 <= k < j ==> lex_lt(#[trigger] v@[k]@, x@),
        decreases v@.len() - j,
    {
        j = j + 1;
    }
    if j < v.len() && str_eq(v[j].as_str(), x) {
        assert(before.to_set().insert(x@) =~= before.to_set()) by {
            assert(before[j as int] == x@);
        }
        return;
    }
    proof {
        if j < v@.len() {
            assert(!lex_lt(v@[j as int]@, x@));
            assert(v@[j as int]@ != x@);
            lemma_lex_total(v@[j as int]@, x@);
        }
    }
    v.insert(j, copy_str(x));
    proof {
        let after = views(v@);
        assert(after =~= before.insert(j as int, x@));
        assert forall|i: int| 1 <= i < after.len() implies lex_lt(after[i - 1], #[trigger] after[i]) by {
            if i < j {
                assert(after[i] == before[i] && after[i - 1] == before[i - 1]);
            } else if i == j {
                assert(after[i - 1] == before[i - 1]);
            } else if i == j + 1 {
                assert(after[i] == before[i - 1]);
            } else {
                assert(after[i] == before[i - 1] && after[i - 1] == before[i - 2]);
            }
        }
        assert forall|y: Seq<char>| after.to_set().contains(y) <==> before.to_set().insert(x@).contains(y) by {
            if after.contains(y) {
                let k = choose|k: int| 0 <= k < after.len() && after[k] == y;
                if k < j {
                    assert(before[k] == y);
                } else if k > j {
                    assert(before[k - 1] == y);
                }
            }
            if before.contains(y) {
                let k = choose|k: int| 0 <= k < before.len() && before[k] == y;
                if k < j {
                    assert(after[k] == y);
                } else {
                    assert(after[k + 1] == y);
                }
            }
            if y == x@ {
                assert(after[j as int] == y);
            }
        }
        assert(after.to_set() =~= before.to_set().insert(x@));
    }
}

/// The tags of the first `n` clips (script and manual ones).
pub open spec fn tags_of(clips: Seq<Clip>, n: int) -> Set<Seq<char>> {
    Set::new(|t: Seq<char>| exists|i: int| 0 <= i < n && clip_has_tag(#[trigger] clips[i], t))
}

/// The games of the first `n` clips (set and not empty).
pub open spec fn games_of(clips: Seq<Clip>, n: int) -> Set<Seq<char>> {
    Set::new(|g: Seq<char>| exists|i: int| 0 <= i < n && nonempty_field(#[trigger] clips[i].game) == Some(g))
}

/// The chips the filter panel offers for `clips`: every tag (script or
/// manual) and every game of a clip, each once, in order.
pub fn filter_choices(clips: &[Clip]) -> (r: (Vec<String>, Vec<String>))
    ensures
        strictly_sorted(views(r.0@)),
        strictly_sorted(views(r.1@)),
        views(r.0@).to_set() == tags_of(clips@, clips@.len() as int),
        views(r.1@).to_set() == games_of(clips@, clips@.len() as int),
{
    let mut tags: Vec<String> = Vec::new();
    let mut games: Vec<String> = Vec::new();
    assert(views(tags@).to_set() =~= tags_of(clips@, 0));
    assert(views(games@).to_set() =~= games_of(clips@, 0));
    let mut i: usize = 0;
    while i < clips.len()
        invariant
            i <= clips@.len(),
            strictly_sorted(views(tags@)),
            strictly_sorted(views(games@)),
            views(tags@).to_set() == tags_of(clips@, i as int),
            views(games@).to_set() == games_of(clips@, i as int),
        decreases clips@.len() - i,
    {
        let c = &clips[i];
        let ghost base = views(tags@).to_set();
        let mut k: usize = 0;
        while k < c.stags.len()
            invariant
                k <= c.stags@.len(),
                strictly_sorted(views(tags@)),
                views(tags@).to_set() == base.union(views(c.stags@).subrange(0, k as int).to_set()),
            decreases c.stags@.len() - k,
        {
            insert_sorted_unique(&mut tags, c.stags[k].as_str());
            proof {
                assert(views(c.stags@).subrange(0, k + 1) =~= views(c.stags@).subrange(0, k as int).push(c.stags@[k as int]@));
                assert(views(c.stags@).subrange(0, k as int).push(c.stags@[k as int]@).to_set() =~= views(c.stags@).subrange(0, k as int).to_set().insert(c.stags@[k as int]@)) by {
                    broadcast use vstd::seq_lib::group_seq_properties;
                }
                assert(views(tags@).to_set() =~= base.union(views(c.stags@).subrange(0, k + 1).to_set()));
            }
            k = k + 1;
        }
        let ghost mid = views(tags@).to_set();
        let mut m: usize = 0;
        while m < c.mtags.len()
            invariant
                m <= c.mtags@.len(),
                strictly_sorted(views(tags@)),
                views(tags@).to_set() == mid.union(views(c.mtags@).subrange(0, m as int).to_set()),
            decreases c.mtags@.len() - m,
        {
            insert_sorted_unique(&mut tags, c.mtags[m].as_str());
            proof {
                assert(views(c.mtags@).subrange(0, m + 1) =~= views(c.mtags@).subrange(0, m as int).push(c.mtags@[m as int]@));
                assert(views(c.mtags@).subrange(0, m as int).push(c.mtags@[m as int]@).to_set() =~= views(c.mtags@).subrange(0, m as int).to_set().insert(c.mtags@[m as int]@)) by {
                    broadcast use vstd::seq_lib::group_seq_properties;
                }
                assert(views(tags@).to_set() =~= mid.union(views(c.mtags@).subrange(0, m + 1).to_set()));
            }
            m = m + 1;
        }
        proof {
            assert(views(c.stags@).subrange(0, c.stags@.len() as int) =~= views(c.stags@));
            assert(views(c.mtags@).subrange(0, c.mtags@.len() as int) =~= views(c.mtags@));
            assert forall|t: Seq<char>| tags_of(clips@, i + 1).contains(t) <==> views(tags@).to_set().contains(t) by {
                if tags_of(clips@, i + 1).contains(t) {
                    let w = choose|w: int| 0 <= w < i + 1 && clip_has_tag(#[trigger] clips@[w], t);
                    if w < i {
                        assert(tags_of(clips@, i as int).contains(t));
                    }
                }
                if views(tags@).to_set().contains(t) {
                    if !base.contains(t) {
                        assert(clip_has_tag(clips@[i as int], t));
                    }
                }
                if base.contains(t) {
                    assert(tags_of(clips@, i as int).contains(t));
                    let w = choose|w: int| 0 <= w < i && clip_has_tag(#[trigger] clips@[w], t);
                    assert(0 <= w < i + 1 && clip_has_tag(clips@[w], t));
                }
            }
            assert(views(tags@).to_set() =~= tags_of(clips@, i + 1));
        }
        let ghost gbase = views(games@).to_set();
        match c.game() {
            Some(g) => {
                insert_sorted_unique(&mut games, g);
            },
            None => {},
        }
        proof {
            assert forall|g: Seq<char>| games_of(clips@, i + 1).contains(g) <==> views(games@).to_set().contains(g) by {
                if games_of(clips@, i + 1).contains(g) {
                    let w = choose|w: int| 0 <= w < i + 1 && nonempty_field(#[trigger] clips@[w].game) == Some(g);
                    if w < i {
                        assert(games_of(clips@, i as int).contains(g));
                    }
                }
                if gbase.contains(g) {
                    assert(games_of(clips@, i as int).contains(g));
                    let w = choose|w: int| 0 <= w < i && nonempty_field(#[trigger] clips@[w].game) == Some(g);
                    assert(0 <= w < i + 1 && nonempty_field(clips@[w].game) == Some(g));
                }
            }
            assert(views(games@).to_set() =~= games_of(clips@, i + 1));
        }
        i = i + 1;
    }
    (tags, games)
}

/// The indices of the clips that `f` lets through, in list order.
pub open spec fn passing(f: Filters, clips: Seq<Clip>) -> Seq<usize>
    decreases clips.len(),
{
    if clips.len() == 0 {
        Seq::empty()
    } else {
        let r = passing(f, clips.drop_last());
        if spec_filter_matches(f, clips.last()) {
            r.push((clips.len() - 1) as usize)
        } else {
            r
        }
    }
}

/// The clips shown in the grid: the positions in `clips` of those that pass
/// the filters, in library order.
pub fn visible_indices(clips: &[Clip], f: &Filters) -> (r: Vec<usize>)
    ensures
        r@ == passing(*f, clips@),
{
    let mut out: Vec<usize> = Vec::new();
    let mut i: usize = 0;
    while i < clips.len()
        invariant
            i <= clips@.len(),
            out@ == passing(*f, clips@.subrange(0, i as int)),
        decreases clips@.len() - i,
    {
        assert(clips@.subrange(0, i + 1).drop_last() =~= clips@.subrange(0, i as int));
        if f.matches(&clips[i]) {
            out.push(i);
        }
        i = i + 1;
    }
    assert(clips@.subrange(0, clips@.len() as int) =~= clips@);
    out
}

} // verus!
